//! The part of shutdown that the worker decides: every producer handle that
//! the caller hands back is released before the consumer thread is joined.
//! Once no handle is left anywhere, the drain loop sees its queue closed and
//! stops; a handle kept elsewhere keeps it running, and the join waits.
use vstd::prelude::*;

verus! {

/// Releases every handle in `handles`, the most recently added first,
/// leaving the list empty.
pub fn release_handles<S>(handles: &mut Vec<S>)
    ensures
        final(handles)@.len() == 0,
{
    while handles.len() > 0
        decreases handles@.len(),
    {
        handles.pop();
    }
}

} // verus!
