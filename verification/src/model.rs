//! The mathematical model of a channel, and the laws proved about it.
//!
//! A channel, observed from the consumer's side, is nothing but the sequence
//! of values still pending (the consumer's private buffer followed by the
//! shared queue) and the disconnection flag. The spec transitions here mirror
//! the verified transition functions of `channel::Inner`, and the lemmas state
//! the ordering, conservation and disconnection guarantees of the channel.

use vstd::prelude::*;

verus! {

/// A channel as the consumer observes it: the values still retrievable, in
/// order, and whether any producer handle remains.
#[verifier::ext_equal]
pub struct ChanModel<T> {
    /// Values sent and not yet received, oldest first.
    pub pending: Seq<T>,
    /// True when no producer handle remains.
    pub disconnected: bool,
}

/// The model of a freshly created channel.
pub open spec fn empty_chan<T>() -> ChanModel<T> {
    ChanModel { pending: Seq::empty(), disconnected: false }
}

/// A send: appended at the tail while connected, rejected afterwards.
pub open spec fn send_model<T>(c: ChanModel<T>, t: T) -> ChanModel<T> {
    if c.disconnected {
        c
    } else {
        ChanModel { pending: c.pending.push(t), disconnected: c.disconnected }
    }
}

/// A receive: the front value leaves; on an empty channel nothing changes.
pub open spec fn recv_model<T>(c: ChanModel<T>) -> ChanModel<T> {
    if c.pending.len() > 0 {
        ChanModel { pending: c.pending.drop_first(), disconnected: c.disconnected }
    } else {
        c
    }
}

/// What a receive returns: the front value, if any.
pub open spec fn recv_output<T>(c: ChanModel<T>) -> Option<T> {
    if c.pending.len() > 0 {
        Some(c.pending[0])
    } else {
        None
    }
}

/// The last producer handle leaves: the pending values are kept.
pub open spec fn disconnect_model<T>(c: ChanModel<T>) -> ChanModel<T> {
    ChanModel { pending: c.pending, disconnected: true }
}

/// A channel with no producer left and nothing pending: every further
/// receive fails, forever.
pub open spec fn closed_chan<T>(c: ChanModel<T>) -> bool {
    c.disconnected && c.pending.len() == 0
}

/// One interaction with the channel, in the order in which the calls took
/// the lock: a send of a value, a receive, or the drop of the last
/// producer handle.
pub enum ChanEvent<T> {
    Send(T),
    Recv,
    Disconnect,
}

/// The state after one event.
pub open spec fn step_state<T>(c: ChanModel<T>, e: ChanEvent<T>) -> ChanModel<T> {
    match e {
        ChanEvent::Send(t) => send_model(c, t),
        ChanEvent::Recv => recv_model(c),
        ChanEvent::Disconnect => disconnect_model(c),
    }
}

/// The state after a whole history of events.
pub open spec fn run_state<T>(c: ChanModel<T>, es: Seq<ChanEvent<T>>) -> ChanModel<T>
    decreases es.len(),
{
    if es.len() == 0 {
        c
    } else {
        run_state(step_state(c, es[0]), es.drop_first())
    }
}

/// The values the receives of a history return, in order.
pub open spec fn run_outputs<T>(c: ChanModel<T>, es: Seq<ChanEvent<T>>) -> Seq<T>
    decreases es.len(),
{
    if es.len() == 0 {
        Seq::empty()
    } else {
        let rest = run_outputs(step_state(c, es[0]), es.drop_first());
        match es[0] {
            ChanEvent::Recv => match recv_output(c) {
                Some(t) => seq![t] + rest,
                None => rest,
            },
            _ => rest,
        }
    }
}

/// The values the sends of a history get into the queue: every value sent
/// while a producer remained, in lock order. A send on a disconnected
/// channel is rejected and hands its value back, so it does not appear here.
pub open spec fn run_accepted<T>(c: ChanModel<T>, es: Seq<ChanEvent<T>>) -> Seq<T>
    decreases es.len(),
{
    if es.len() == 0 {
        Seq::empty()
    } else {
        let rest = run_accepted(step_state(c, es[0]), es.drop_first());
        match es[0] {
            ChanEvent::Send(t) => if !c.disconnected {
                seq![t] + rest
            } else {
                rest
            },
            _ => rest,
        }
    }
}

/// A history of sends only.
pub open spec fn send_events<T>(vs: Seq<T>) -> Seq<ChanEvent<T>> {
    vs.map_values(|v: T| ChanEvent::Send(v))
}

/// A history of `n` receives.
pub open spec fn recv_events<T>(n: nat) -> Seq<ChanEvent<T>> {
    Seq::new(n, |i: int| ChanEvent::Recv)
}

/// Conservation: over any history, the values received, followed by the
/// values still pending, are exactly the values that were pending at the
/// start followed by the values the channel accepted — in that order.
/// Nothing is duplicated, dropped or reordered, whichever way sends,
/// receives and the disconnection interleave.
pub proof fn lemma_conservation<T>(c: ChanModel<T>, es: Seq<ChanEvent<T>>)
    ensures
        run_outputs(c, es) + run_state(c, es).pending == c.pending + run_accepted(c, es),
    decreases es.len(),
{
    if es.len() == 0 {
        assert(run_outputs(c, es) + run_state(c, es).pending =~= c.pending + run_accepted(c, es));
    } else {
        let c1 = step_state(c, es[0]);
        let rest = es.drop_first();
        lemma_conservation(c1, rest);
        match es[0] {
            ChanEvent::Send(t) => {
                if !c.disconnected {
                    assert(c1.pending + run_accepted(c1, rest) =~= c.pending + (seq![t]
                        + run_accepted(c1, rest)));
                }
            },
            ChanEvent::Recv => {
                if c.pending.len() > 0 {
                    assert(seq![c.pending[0]] + (c1.pending + run_accepted(c1, rest))
                        =~= c.pending + run_accepted(c1, rest));
                    assert(seq![c.pending[0]] + (run_outputs(c1, rest) + run_state(c1,
                        rest).pending) =~= (seq![c.pending[0]] + run_outputs(c1, rest))
                        + run_state(c1, rest).pending);
                }
            },
            ChanEvent::Disconnect => {},
        }
    }
}

/// Sends alone: while a producer remains, every sent value is appended at
/// the tail, in send order, and the channel stays connected.
pub proof fn lemma_sends_append<T>(c: ChanModel<T>, vs: Seq<T>)
    requires
        !c.disconnected,
    ensures
        run_state(c, send_events(vs)).pending == c.pending + vs,
        !run_state(c, send_events(vs)).disconnected,
        run_accepted(c, send_events(vs)) == vs,
    decreases vs.len(),
{
    let es = send_events(vs);
    if vs.len() == 0 {
        assert(run_state(c, es).pending =~= c.pending + vs);
        assert(run_accepted(c, es) =~= vs);
    } else {
        let c1 = step_state(c, es[0]);
        assert(es[0] == ChanEvent::Send(vs[0]));
        assert(es.drop_first() =~= send_events(vs.drop_first()));
        lemma_sends_append(c1, vs.drop_first());
        assert(run_state(c, es).pending =~= c.pending + vs);
        assert(run_accepted(c, es) =~= vs);
    }
}

/// Receives alone: draining `n` values returns the first `n` pending
/// values, in order, and leaves the rest pending. The disconnection flag
/// plays no part: a disconnected channel drains just the same.
pub proof fn lemma_drain<T>(c: ChanModel<T>, n: nat)
    requires
        n <= c.pending.len(),
    ensures
        run_outputs(c, recv_events::<T>(n)) == c.pending.take(n as int),
        run_state(c, recv_events::<T>(n)).pending == c.pending.skip(n as int),
        run_state(c, recv_events::<T>(n)).disconnected == c.disconnected,
    decreases n,
{
    let es = recv_events::<T>(n);
    if n == 0 {
        assert(run_outputs(c, es) =~= c.pending.take(0));
        assert(run_state(c, es).pending =~= c.pending.skip(0));
    } else {
        let c1 = step_state(c, es[0]);
        assert(es[0] == ChanEvent::<T>::Recv);
        assert(es.drop_first() =~= recv_events::<T>((n - 1) as nat));
        assert(c1.pending == c.pending.drop_first());
        lemma_drain(c1, (n - 1) as nat);
        assert(run_outputs(c, es) =~= c.pending.take(n as int));
        assert(run_state(c, es).pending =~= c.pending.skip(n as int));
    }
}

/// First-in, first-out: on a fresh channel, sending `vs` and then receiving
/// `vs.len()` times returns exactly `vs`, in send order.
pub proof fn lemma_fifo<T>(vs: Seq<T>)
    ensures
        run_state(empty_chan::<T>(), send_events(vs)).pending == vs,
        run_outputs(run_state(empty_chan::<T>(), send_events(vs)), recv_events::<T>(vs.len()))
            == vs,
{
    lemma_sends_append(empty_chan::<T>(), vs);
    assert(run_state(empty_chan::<T>(), send_events(vs)).pending =~= vs);
    let c1 = run_state(empty_chan::<T>(), send_events(vs));
    lemma_drain(c1, vs.len());
    assert(c1.pending.take(vs.len() as int) =~= vs);
}

/// No loss, no duplication: over any history that starts empty and drains
/// the channel, the received values are exactly the accepted values — as
/// sequences, and so in particular as multisets.
pub proof fn lemma_no_loss_no_duplication<T>(c: ChanModel<T>, es: Seq<ChanEvent<T>>)
    requires
        c.pending.len() == 0,
        run_state(c, es).pending.len() == 0,
    ensures
        run_outputs(c, es) == run_accepted(c, es),
        run_outputs(c, es).to_multiset() == run_accepted(c, es).to_multiset(),
{
    lemma_conservation(c, es);
    assert(run_outputs(c, es) =~= run_outputs(c, es) + run_state(c, es).pending);
    assert(c.pending + run_accepted(c, es) =~= run_accepted(c, es));
}

/// Drain before disconnect: the drop of the last producer keeps every
/// pending value, and all of them can still be received afterwards, in
/// order.
pub proof fn lemma_drain_after_disconnect<T>(c: ChanModel<T>)
    ensures
        disconnect_model(c).pending == c.pending,
        run_outputs(disconnect_model(c), recv_events::<T>(c.pending.len())) == c.pending,
        closed_chan(run_state(disconnect_model(c), recv_events::<T>(c.pending.len()))),
{
    lemma_drain(disconnect_model(c), c.pending.len());
    assert(c.pending.take(c.pending.len() as int) =~= c.pending);
    assert(c.pending.skip(c.pending.len() as int) =~= Seq::<T>::empty());
}

/// Disconnection is visible forever: once no producer and no value remains,
/// the channel stays that way through any further history, and no receive
/// in it returns a value.
pub proof fn lemma_closed_forever<T>(c: ChanModel<T>, es: Seq<ChanEvent<T>>)
    requires
        closed_chan(c),
    ensures
        closed_chan(run_state(c, es)),
        run_outputs(c, es) == Seq::<T>::empty(),
    decreases es.len(),
{
    if es.len() > 0 {
        let c1 = step_state(c, es[0]);
        assert(c1 =~= c);
        lemma_closed_forever(c1, es.drop_first());
    }
    assert(run_outputs(c, es) =~= Seq::<T>::empty());
}

} // verus!
