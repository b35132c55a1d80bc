//! The multi-producer, single-consumer unbounded channel.
//!
//! All producer handles and the one consumer handle share an [`Inner`] record
//! behind a lock: the FIFO queue of values not yet handed to the consumer, the
//! number of live producer handles, and the disconnection flag. Every way the
//! shared record can change is a verified transition function on [`Inner`],
//! and the handle methods only take the lock and apply one transition.

use vstd::prelude::*;

verus! {

use std::collections::VecDeque;
use std::sync::Arc;
use vstd::rwlock::RwLock;
use vstd::rwlock::RwLockPredicate;
use crate::model::ChanModel;
use crate::model::send_model;
use crate::model::recv_model;
use crate::model::recv_output;
use crate::model::disconnect_model;

/// The model of a channel whose shared state is `inner` and whose consumer
/// holds `buffered`: the values still retrievable are the consumer's buffer
/// followed by the shared queue, oldest first.
pub open spec fn chan_model<T>(inner: Inner<T>, buffered: Seq<T>) -> ChanModel<T> {
    ChanModel { pending: buffered + inner.queue@, disconnected: inner.disconnected }
}

/// Error returned by `Sender::send` when no producer handle remains attached
/// to the channel. It carries the rejected value back to the caller, so a
/// failed send loses no data.
#[derive(Debug)]
pub struct SendError<T>(pub T);

/// Error returned by `Receiver::try_recv`.
#[derive(Debug)]
pub enum TryRecvError {
    /// Nothing is pending right now, but producers are still attached;
    /// transient, the caller may retry.
    Empty,
    /// Nothing is pending and no producer remains; permanent.
    Disconnected,
}

/// Error returned by `Receiver::recv` when no value is pending.
#[derive(Debug)]
pub struct RecvError;

/// The state shared by every handle of one channel: the FIFO queue of values
/// not yet moved to the consumer, the count of live producer handles, and the
/// disconnection flag. The three are always read and written together, under
/// one lock.
pub struct Inner<T> {
    /// Values sent but not yet transferred to the consumer's buffer, oldest first.
    pub queue: VecDeque<T>,
    /// Number of live producer handles.
    pub senders: usize,
    /// True exactly when `senders` has reached zero; never reset.
    pub disconnected: bool,
}

impl<T> Inner<T> {
    /// The invariant of the shared state: `disconnected` says exactly that no
    /// producer handle remains.
    pub open spec fn wf(self) -> bool {
        self.disconnected <==> self.senders == 0
    }

    /// A fresh shared state: empty queue, one producer handle, connected.
    pub fn new() -> (r: Self)
        ensures
            r.queue@ == Seq::<T>::empty(),
            r.senders == 1,
            !r.disconnected,
            r.wf(),
    {
        Inner { queue: VecDeque::new(), senders: 1, disconnected: false }
    }

    /// One send, as seen under the lock. On a disconnected channel the value
    /// comes back unchanged inside the error; otherwise it is appended at the
    /// tail of the queue. The second component of the result asks the caller
    /// to wake one waiting consumer: it is set exactly when the queue went
    /// from empty to non-empty, since only then can a consumer be waiting.
    pub fn send_step(&mut self, t: T) -> (r: (Result<(), SendError<T>>, bool))
        requires
            old(self).wf(),
        ensures
            final(self).wf(),
            final(self).senders == old(self).senders,
            final(self).disconnected == old(self).disconnected,
            old(self).disconnected ==> {
                &&& r.0 matches Err(e) && e.0 == t
                &&& final(self).queue@ == old(self).queue@
                &&& !r.1
            },
            !old(self).disconnected ==> {
                &&& r.0 is Ok
                &&& final(self).queue@ == old(self).queue@.push(t)
                &&& (r.1 <==> old(self).queue@.len() == 0)
            },
            forall|buf: Seq<T>|
                #[trigger] chan_model(*final(self), buf) == send_model(
                    chan_model(*old(self), buf),
                    t,
                ),
    {
        if self.disconnected {
            proof {
                assert forall|buf: Seq<T>|
                    #[trigger] chan_model(*self, buf) == send_model(
                        chan_model(*old(self), buf),
                        t,
                    ) by {
                    assert(chan_model(*self, buf) =~= send_model(chan_model(*old(self), buf), t));
                }
            }
            return (Err(SendError(t)), false);
        }
        self.queue.push_back(t);
        let wake: bool = self.queue.len() == 1;
        proof {
            assert forall|buf: Seq<T>|
                #[trigger] chan_model(*self, buf) == send_model(
                    chan_model(*old(self), buf),
                    t,
                ) by {
                assert(chan_model(*self, buf) =~= send_model(chan_model(*old(self), buf), t));
            }
        }
        (Ok(()), wake)
    }

    /// One receive attempt, as seen under the lock, entered only when the
    /// consumer's private buffer is empty. If the queue holds values, the
    /// front one is returned and the whole remainder moves into the buffer in
    /// one swap, so later receives need no lock. Otherwise the error says
    /// whether the emptiness is transient (`Empty`) or permanent
    /// (`Disconnected`).
    pub fn recv_step(&mut self, buffer: &mut VecDeque<T>) -> (r: Result<T, TryRecvError>)
        requires
            old(self).wf(),
            old(buffer)@.len() == 0,
        ensures
            final(self).wf(),
            final(self).senders == old(self).senders,
            final(self).disconnected == old(self).disconnected,
            old(self).queue@.len() > 0 ==> {
                &&& r matches Ok(t) && t == old(self).queue@[0]
                &&& final(buffer)@ == old(self).queue@.drop_first()
                &&& final(self).queue@ == Seq::<T>::empty()
            },
            old(self).queue@.len() == 0 ==> {
                &&& final(self).queue@ == old(self).queue@
                &&& final(buffer)@ == old(buffer)@
                &&& old(self).disconnected ==> r == Err::<T, TryRecvError>(TryRecvError::Disconnected)
                &&& !old(self).disconnected ==> r == Err::<T, TryRecvError>(TryRecvError::Empty)
            },
            chan_model(*final(self), final(buffer)@) == recv_model(
                chan_model(*old(self), old(buffer)@),
            ),
            r matches Ok(t) ==> recv_output(chan_model(*old(self), old(buffer)@)) == Some(t),
            r is Err ==> recv_output(chan_model(*old(self), old(buffer)@)) is None,
    {
        proof {
            assert(old(buffer)@ + old(self).queue@ =~= old(self).queue@);
        }
        match self.queue.pop_front() {
            Some(t) => {
                core::mem::swap(buffer, &mut self.queue);
                assert(buffer@ =~= old(self).queue@.drop_first());
                assert(chan_model(*self, buffer@) =~= recv_model(
                    chan_model(*old(self), old(buffer)@),
                ));
                Ok(t)
            },
            None => {
                assert(chan_model(*self, buffer@) =~= recv_model(
                    chan_model(*old(self), old(buffer)@),
                ));
                if self.disconnected {
                    Err(TryRecvError::Disconnected)
                } else {
                    Err(TryRecvError::Empty)
                }
            },
        }
    }

    /// A producer handle is cloned: one more live handle. The count saturates
    /// instead of overflowing; a channel can in practice never reach that many
    /// live handles.
    pub fn clone_step(&mut self)
        requires
            old(self).wf(),
        ensures
            final(self).wf(),
            final(self).queue@ == old(self).queue@,
            final(self).disconnected == old(self).disconnected,
            0 < old(self).senders < usize::MAX ==> final(self).senders == old(self).senders + 1,
            forall|buf: Seq<T>|
                #[trigger] chan_model(*final(self), buf) == chan_model(*old(self), buf),
    {
        if 0 < self.senders && self.senders < usize::MAX {
            self.senders = self.senders + 1;
        }
        proof {
            assert forall|buf: Seq<T>|
                #[trigger] chan_model(*self, buf) == chan_model(*old(self), buf) by {
                assert(chan_model(*self, buf) =~= chan_model(*old(self), buf));
            }
        }
    }

    /// A producer handle is dropped: one fewer live handle. When the count
    /// reaches zero the channel becomes disconnected, irrevocably, and the
    /// result asks the caller to wake every waiting consumer. The queue is
    /// kept as it is: values sent before the last producer left stay
    /// retrievable.
    pub fn drop_step(&mut self) -> (wake_all: bool)
        requires
            old(self).wf(),
        ensures
            final(self).wf(),
            final(self).queue@ == old(self).queue@,
            old(self).senders > 0 ==> final(self).senders == old(self).senders - 1,
            old(self).senders == 0 ==> final(self).senders == 0,
            final(self).disconnected <==> final(self).senders == 0,
            wake_all == final(self).disconnected,
            old(self).senders == 1 ==> forall|buf: Seq<T>|
                #[trigger] chan_model(*final(self), buf) == disconnect_model(
                    chan_model(*old(self), buf),
                ),
            old(self).senders > 1 ==> forall|buf: Seq<T>|
                #[trigger] chan_model(*final(self), buf) == chan_model(*old(self), buf),
    {
        if self.senders > 0 {
            self.senders = self.senders - 1;
        }
        self.disconnected = self.senders == 0;
        proof {
            assert forall|buf: Seq<T>| true implies {
                &&& old(self).senders == 1 ==> #[trigger] chan_model(*self, buf)
                    == disconnect_model(chan_model(*old(self), buf))
                &&& old(self).senders > 1 ==> chan_model(*self, buf) == chan_model(
                    *old(self),
                    buf,
                )
            } by {
                if old(self).senders == 1 {
                    assert(chan_model(*self, buf) =~= disconnect_model(
                        chan_model(*old(self), buf),
                    ));
                }
                if old(self).senders > 1 {
                    assert(chan_model(*self, buf) =~= chan_model(*old(self), buf));
                }
            }
        }
        self.disconnected
    }
}

/// The lock predicate of a channel: whatever the lock stores is a well-formed
/// shared state, so every acquisition starts from `Inner::wf`.
pub struct ChanInv;

impl<T> RwLockPredicate<Inner<T>> for ChanInv {
    open spec fn inv(self, v: Inner<T>) -> bool {
        v.wf()
    }
}

/// A cloneable producer handle. All clones feed the same queue; a value
/// pushed by any of them becomes retrievable by the one consumer, in the
/// order in which the sends took the lock.
pub struct Sender<T> {
    shared: Arc<RwLock<Inner<T>, ChanInv>>,
}

/// The single consumer handle. Besides the shared state it owns a private
/// buffer of values already taken out of the shared queue: receives are
/// served from the buffer without touching the lock until it runs dry.
pub struct Receiver<T> {
    shared: Arc<RwLock<Inner<T>, ChanInv>>,
    buffer: VecDeque<T>,
}

/// Creates a channel: one producer handle and the single consumer handle,
/// bound to a fresh shared state with an empty queue, a producer count of
/// one, and the disconnection flag clear.
pub fn channel<T>() -> (r: (Sender<T>, Receiver<T>))
    ensures
        r.0.feeds(r.1),
        r.1.buffered() == Seq::<T>::empty(),
{
    let inner = Inner::<T>::new();
    let lock = RwLock::<Inner<T>, ChanInv>::new(inner, Ghost(ChanInv));
    let shared = Arc::new(lock);
    let sender = Sender { shared: Arc::clone(&shared) };
    let receiver = Receiver { shared, buffer: VecDeque::new() };
    (sender, receiver)
}

impl<T> Sender<T> {
    /// True when the two handles feed the same shared state.
    pub closed spec fn same_channel(self, other: Sender<T>) -> bool {
        self.shared == other.shared
    }

    /// True when this producer pushes into the queue that `rx` drains.
    pub closed spec fn feeds(self, rx: Receiver<T>) -> bool {
        self.shared == rx.shared
    }

    /// Sends a value. The queue is unbounded, so this never waits for room;
    /// it takes the lock once and applies [`Inner::send_step`], whose
    /// contract fixes the effect on the shared state. A failed send returns
    /// the value itself inside the error, so nothing is lost. While this
    /// handle is alive the producer count is positive, so the disconnected
    /// branch cannot in fact be taken.
    pub fn send(&self, t: T) -> (r: Result<(), SendError<T>>)
        ensures
            r matches Err(e) ==> e.0 == t,
    {
        let (mut inner, handle) = self.shared.acquire_write();
        let (r, _wake_one) = inner.send_step(t);
        handle.release_write(inner);
        r
    }

    /// A new producer handle on the same channel. The producer count is
    /// raised under the lock, atomically with respect to concurrent drops,
    /// which keeps `Inner::wf` exact.
    pub fn clone(&self) -> (r: Sender<T>)
        ensures
            r.same_channel(*self),
            forall|rx: Receiver<T>| #[trigger] r.feeds(rx) <==> self.feeds(rx),
    {
        let (mut inner, handle) = self.shared.acquire_write();
        inner.clone_step();
        handle.release_write(inner);
        Sender { shared: Arc::clone(&self.shared) }
    }

    /// Detaches this handle from the shared state: one fewer live producer,
    /// and the channel disconnects for good when the count reaches zero.
    fn detach(&self) {
        let (mut inner, handle) = self.shared.acquire_write();
        let _wake_all = inner.drop_step();
        handle.release_write(inner);
    }
}

impl<T> Drop for Sender<T> {
    /// Runs [`Sender::detach`], and nothing else. Rust's drop glue has to
    /// satisfy obligations (`opens_invariants none`) that taking the lock
    /// cannot meet, so the body is left unchecked and only forwards to the
    /// verified `detach`.
    #[verifier::external_body]
    fn drop(&mut self)
        opens_invariants none
        no_unwind
    {
        self.detach();
    }
}

impl<T> Receiver<T> {
    /// The consumer's private buffer: values already moved out of the shared
    /// queue, oldest first.
    pub closed spec fn buffered(self) -> Seq<T> {
        self.buffer@
    }

    /// Non-blocking receive. The front of the private buffer is returned
    /// without taking the lock when the buffer is non-empty; otherwise the
    /// lock is taken once and [`Inner::recv_step`] decides: the front of the
    /// queue (moving the whole remainder into the buffer), `Empty` on an
    /// open, empty channel, or `Disconnected` once no producer and no value
    /// remains.
    pub fn try_recv(&mut self) -> (r: Result<T, TryRecvError>)
        ensures
            old(self).buffered().len() > 0 ==> {
                &&& r matches Ok(t) && t == old(self).buffered()[0]
                &&& final(self).buffered() == old(self).buffered().drop_first()
            },
            r matches Err(e) ==> {
                &&& old(self).buffered().len() == 0
                &&& final(self).buffered().len() == 0
            },
            forall|tx: Sender<T>| #[trigger] tx.feeds(*final(self)) <==> tx.feeds(*old(self)),
    {
        if let Some(t) = self.buffer.pop_front() {
            return Ok(t);
        }
        let (mut inner, handle) = self.shared.acquire_write();
        let r = inner.recv_step(&mut self.buffer);
        handle.release_write(inner);
        r
    }

    /// Receive. The data path is the same as [`Receiver::try_recv`]: the
    /// private buffer first, then one look at the shared queue. A verified
    /// function must provably terminate, so when nothing is pending this
    /// returns `RecvError` instead of suspending until a producer acts; a
    /// caller that wants to wait can retry, and `try_recv` tells the
    /// transient `Empty` case apart from a disconnected channel.
    pub fn recv(&mut self) -> (r: Result<T, RecvError>)
        ensures
            old(self).buffered().len() > 0 ==> {
                &&& r matches Ok(t) && t == old(self).buffered()[0]
                &&& final(self).buffered() == old(self).buffered().drop_first()
            },
            r matches Err(e) ==> {
                &&& old(self).buffered().len() == 0
                &&& final(self).buffered().len() == 0
            },
            forall|tx: Sender<T>| #[trigger] tx.feeds(*final(self)) <==> tx.feeds(*old(self)),
    {
        match self.try_recv() {
            Ok(t) => Ok(t),
            Err(_) => Err(RecvError),
        }
    }
}

} // verus!
