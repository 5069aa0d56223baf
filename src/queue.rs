//! A model of the unbounded queue between the producers and the consumer,
//! as seen from the consumer's side.
//!
//! The queue holds the messages sent and not yet received, in the order in
//! which they were sent, and counts the producer handles still alive. A
//! receive takes the oldest message; on an empty queue it blocks while a
//! producer handle is alive, and reports closure once none is.
use vstd::prelude::*;
use crate::drain::Received;

verus! {

/// The outcomes of the receives the consumer makes on a queue holding
/// `pending`, with `live_senders` handles alive and nothing sent or dropped
/// meanwhile, until one receive blocks or reports closure.
pub open spec fn observed<T>(pending: Seq<T>, live_senders: nat) -> Seq<Received<T>>
    decreases pending.len(),
{
    if pending.len() > 0 {
        seq![Received::Message(pending[0])] + observed(pending.drop_first(), live_senders)
    } else if live_senders == 0 {
        seq![Received::Closed]
    } else {
        Seq::empty()
    }
}

/// Whether `pending` is a queue that the producers' sends `sent` can fill:
/// each message is the oldest not yet queued of some producer, so that the
/// messages of one producer keep the order in which it sent them, while
/// those of different producers may mix in any way.
pub open spec fn interleaves<T>(pending: Seq<T>, sent: Seq<Seq<T>>) -> bool
    decreases pending.len(),
{
    if pending.len() == 0 {
        forall|k: int| 0 <= k < sent.len() ==> #[trigger] sent[k].len() == 0
    } else {
        exists|k: int|
            0 <= k < sent.len() && #[trigger] sent[k].len() > 0 && sent[k][0] == pending[0]
                && interleaves(pending.drop_first(), sent.update(k, sent[k].drop_first()))
    }
}

} // verus!
