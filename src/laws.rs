//! What the drain loop hands to the handler over a whole run, stated over
//! the loop's state machine and the queue model.
use vstd::prelude::*;
use crate::drain::{handled, next_action, next_state, state_after, Action, LoopState, Received};
use crate::queue::{interleaves, observed};

verus! {

/// Once stopped, the loop hands nothing more to the handler and stays
/// stopped, whatever it would be given.
pub proof fn stopped_is_terminal<T>(events: Seq<Received<T>>)
    ensures
        handled(LoopState::Stopped, events) == Seq::<T>::empty(),
        state_after(LoopState::Stopped, events) == LoopState::Stopped,
    decreases events.len(),
{
    if events.len() > 0 {
        stopped_is_terminal(events.drop_first());
    }
}

/// Once every producer handle is released, a running loop hands each
/// message still queued to the handler exactly once, in queue order, and
/// then stops, so that the consumer thread returns and can be joined.
pub proof fn released_queue_drains_in_order<T>(pending: Seq<T>)
    ensures
        handled(LoopState::Running, observed(pending, 0)) == pending,
        state_after(LoopState::Running, observed(pending, 0)) == LoopState::Stopped,
    decreases pending.len(),
{
    let events = observed(pending, 0);
    if pending.len() == 0 {
        assert(events[0] == Received::<T>::Closed);
        assert(events.drop_first() =~= Seq::<Received<T>>::empty());
        assert(next_state(LoopState::Running, events[0]) == LoopState::Stopped);
        assert(state_after(LoopState::Stopped, events.drop_first()) == LoopState::Stopped);
        assert(handled(LoopState::Stopped, events.drop_first()) =~= Seq::<T>::empty());
    } else {
        released_queue_drains_in_order(pending.drop_first());
        assert(events[0] == Received::Message(pending[0]));
        assert(events.drop_first() =~= observed(pending.drop_first(), 0));
        assert(next_state(LoopState::Running, events[0]) == LoopState::Running);
        assert(next_action(LoopState::Running, events[0]) == Action::Handle(pending[0]));
        assert(pending =~= seq![pending[0]] + pending.drop_first());
    }
}

proof fn single_producer_queue<T>(pending: Seq<T>, sent: Seq<T>)
    requires
        interleaves(pending, seq![sent]),
    ensures
        pending == sent,
    decreases pending.len(),
{
    if pending.len() == 0 {
        assert(seq![sent][0].len() == 0);
        assert(sent =~= pending);
    } else {
        let parts = seq![sent];
        let k = choose|k: int|
            0 <= k < parts.len() && #[trigger] parts[k].len() > 0 && parts[k][0] == pending[0]
                && interleaves(pending.drop_first(), parts.update(k, parts[k].drop_first()));
        assert(k == 0);
        assert(parts.update(k, parts[k].drop_first()) =~= seq![sent.drop_first()]);
        assert(parts[0] == sent);
        assert(pending[0] == sent[0]);
        single_producer_queue(pending.drop_first(), sent.drop_first());
        assert(pending =~= seq![pending[0]] + pending.drop_first());
        assert(sent =~= seq![sent[0]] + sent.drop_first());
    }
}

/// What one producer sent and then released its handle on is handed to the
/// handler in full, each message exactly once and in the order sent, after
/// which the loop stops.
pub proof fn single_producer_no_loss<T>(pending: Seq<T>, sent: Seq<T>)
    requires
        interleaves(pending, seq![sent]),
    ensures
        handled(LoopState::Running, observed(pending, 0)) == sent,
        state_after(LoopState::Running, observed(pending, 0)) == LoopState::Stopped,
{
    single_producer_queue(pending, sent);
    released_queue_drains_in_order(pending);
}

/// While a producer handle is still alive, a running loop hands every
/// queued message to the handler in queue order and then keeps running,
/// blocked on the empty queue: it does not stop on its own.
pub proof fn outstanding_handle_keeps_running<T>(pending: Seq<T>, live_senders: nat)
    requires
        live_senders > 0,
    ensures
        handled(LoopState::Running, observed(pending, live_senders)) == pending,
        state_after(LoopState::Running, observed(pending, live_senders)) == LoopState::Running,
    decreases pending.len(),
{
    let events = observed(pending, live_senders);
    if pending.len() > 0 {
        outstanding_handle_keeps_running(pending.drop_first(), live_senders);
        assert(events[0] == Received::Message(pending[0]));
        assert(events.drop_first() =~= observed(pending.drop_first(), live_senders));
        assert(pending =~= seq![pending[0]] + pending.drop_first());
    }
}

/// The sum of the values in `s`.
pub open spec fn sum_of(s: Seq<u64>) -> int
    decreases s.len(),
{
    if s.len() == 0 {
        0
    } else {
        s[0] + sum_of(s.drop_first())
    }
}

/// The sum of the values in all of `parts`.
pub open spec fn total_of(parts: Seq<Seq<u64>>) -> int
    decreases parts.len(),
{
    if parts.len() == 0 {
        0
    } else {
        sum_of(parts[0]) + total_of(parts.drop_first())
    }
}

/// The values `0, 1, ..., n - 1`, in order.
pub open spec fn counting(n: nat) -> Seq<u64> {
    Seq::new(n, |i: int| i as u64)
}

proof fn sum_of_last(s: Seq<u64>)
    requires
        s.len() > 0,
    ensures
        sum_of(s) == sum_of(s.drop_last()) + s.last(),
    decreases s.len(),
{
    if s.len() > 1 {
        sum_of_last(s.drop_first());
        assert(s.drop_last().drop_first() =~= s.drop_first().drop_last());
    } else {
        assert(s.drop_first() =~= Seq::<u64>::empty());
        assert(s.drop_last() =~= Seq::<u64>::empty());
    }
}

proof fn sum_of_counting(n: nat)
    requires
        n <= u64::MAX + 1,
    ensures
        2 * sum_of(counting(n)) == n * (n - 1),
    decreases n,
{
    if n > 0 {
        sum_of_counting((n - 1) as nat);
        sum_of_last(counting(n));
        assert(counting(n).drop_last() =~= counting((n - 1) as nat));
        let m = n - 1;
        assert(counting(n).last() == m);
        assert(sum_of(counting(n)) == sum_of(counting(m as nat)) + m);
        assert(2 * (sum_of(counting(m as nat)) + m) == n * (n - 1)) by (nonlinear_arith)
            requires
                2 * sum_of(counting(m as nat)) == m * (m - 1),
                n == m + 1,
        ;
    } else {
        assert(counting(n).len() == 0);
    }
}

proof fn total_of_empty(parts: Seq<Seq<u64>>)
    requires
        forall|k: int| 0 <= k < parts.len() ==> #[trigger] parts[k].len() == 0,
    ensures
        total_of(parts) == 0,
    decreases parts.len(),
{
    if parts.len() > 0 {
        assert(parts[0].len() == 0);
        assert(forall|k: int|
            0 <= k < parts.len() - 1 ==> #[trigger] parts.drop_first()[k] == parts[k + 1]);
        total_of_empty(parts.drop_first());
    }
}

proof fn total_of_update(parts: Seq<Seq<u64>>, k: int, x: Seq<u64>)
    requires
        0 <= k < parts.len(),
    ensures
        total_of(parts.update(k, x)) == total_of(parts) - sum_of(parts[k]) + sum_of(x),
    decreases parts.len(),
{
    if k == 0 {
        assert(parts.update(k, x).drop_first() =~= parts.drop_first());
    } else {
        total_of_update(parts.drop_first(), k - 1, x);
        assert(parts.update(k, x).drop_first() =~= parts.drop_first().update(k - 1, x));
    }
}

proof fn total_of_copies(count: nat, part: Seq<u64>)
    ensures
        total_of(Seq::new(count, |i: int| part)) == count * sum_of(part),
    decreases count,
{
    if count > 0 {
        total_of_copies((count - 1) as nat, part);
        assert(Seq::new(count, |i: int| part)[0] == part);
        assert(Seq::new(count, |i: int| part).drop_first() =~= Seq::new(
            (count - 1) as nat,
            |i: int| part,
        ));
        assert(count * sum_of(part) == sum_of(part) + (count - 1) * sum_of(part))
            by (nonlinear_arith);
    } else {
        assert(Seq::new(count, |i: int| part).len() == 0);
    }
}

proof fn interleaving_keeps_sum(pending: Seq<u64>, sent: Seq<Seq<u64>>)
    requires
        interleaves(pending, sent),
    ensures
        sum_of(pending) == total_of(sent),
    decreases pending.len(),
{
    if pending.len() == 0 {
        total_of_empty(sent);
    } else {
        let k = choose|k: int|
            0 <= k < sent.len() && #[trigger] sent[k].len() > 0 && sent[k][0] == pending[0]
                && interleaves(pending.drop_first(), sent.update(k, sent[k].drop_first()));
        interleaving_keeps_sum(pending.drop_first(), sent.update(k, sent[k].drop_first()));
        total_of_update(sent, k, sent[k].drop_first());
    }
}

/// When `producers` producers each send `0, 1, ..., n - 1` and then release
/// their handles, the values handed to the handler add up to
/// `producers * n * (n - 1) / 2`, however their sends were interleaved.
pub proof fn producers_sum_conserved(pending: Seq<u64>, producers: nat, n: nat)
    requires
        n <= u64::MAX + 1,
        interleaves(pending, Seq::new(producers, |i: int| counting(n))),
    ensures
        sum_of(handled(LoopState::Running, observed(pending, 0))) == producers * n * (n - 1) / 2,
{
    released_queue_drains_in_order(pending);
    interleaving_keeps_sum(pending, Seq::new(producers, |i: int| counting(n)));
    total_of_copies(producers, counting(n));
    sum_of_counting(n);
    let s = sum_of(counting(n));
    assert(producers * s == producers * n * (n - 1) / 2) by (nonlinear_arith)
        requires
            2 * s == n * (n - 1),
    ;
}

} // verus!
