//! A bounded-concurrency bridge.
//!
//! A `TokenBucket` decouples *accepting* units of work from *executing*
//! them.  Submitted units queue up in an unbounded inbound lane; a
//! bridge spawns an activity for each unit; a fixed pool of `N`
//! permits caps how many activities may be in their active region
//! at once; each finished activity releases its permit and forwards its
//! result to an outbound lane, from which the consumer pulls results in
//! completion order.
//!
//! The type below is the scheduling state of that bridge, with each
//! transition an explicit operation: `send` accepts a unit, `spawn_next`
//! lets the bridge pick up a queued unit, `try_admit` grants a free
//! permit, `complete` finishes any currently running unit (the choice of
//! *which* is the environment's, never the bucket's — completion order
//! is not tied to submission order), and `recv` pulls the next result,
//! driving the bridge forward as far as needed.  Two ghost logs record
//! every unit ever accepted and every result ever delivered, so the
//! delivery guarantees are stated — and proved — over whole histories:
//! no more than `N` units run at once, and a drained bucket has
//! delivered every accepted unit exactly once, in some order.

use vstd::prelude::*;
use vstd::multiset::Multiset;

verus! {

/// Returned by [`TokenBucket::new`] for capacity `0`.
///
/// A bucket with zero permits could never admit a unit, so every submitted
/// unit would wait forever.  Construction refuses the degenerate
/// capacity outright instead of producing a bucket that deadlocks.
#[derive(Clone, Copy, Debug, PartialEq, Eq, Structural)]
pub struct CapacityError;

/// Returned by [`TokenBucket::recv`] when the sending side is closed
/// and every accepted unit's result has already been delivered.
#[derive(Clone, Copy, Debug, PartialEq, Eq, Structural)]
pub struct RecvError;

/// The scheduling state of the bounded-concurrency bridge.
///
/// A unit of work is an opaque value of type `T`: the bucket never
/// inspects it, it only moves it through the stages
/// queued → blocked → running → finished → delivered.
pub struct TokenBucket<T> {
    /// Number of permits; at least 1.
    capacity: usize,
    /// Whether the sending side has been closed.
    closed: bool,
    /// Accepted units the bridge has not picked up yet (submission order).
    inbound: Vec<T>,
    /// Spawned activities waiting for a permit (spawn order).
    waiting: Vec<T>,
    /// Activities holding a permit; never more than `capacity`.
    active: Vec<T>,
    /// Results finished but not yet pulled (completion order).
    outbound: Vec<T>,
    /// Every unit ever accepted by `send`.
    accepted_log: Ghost<Seq<T>>,
    /// Every result ever handed out by `recv`.
    delivered_log: Ghost<Seq<T>>,
}

impl<T> TokenBucket<T> {
    /// The number of permits `N`.
    pub closed spec fn cap(&self) -> int {
        self.capacity as int
    }

    /// Whether the sending side has been closed.
    pub closed spec fn is_closed(&self) -> bool {
        self.closed
    }

    /// Accepted units the bridge has not spawned yet, oldest first.
    pub closed spec fn queued(&self) -> Seq<T> {
        self.inbound@
    }

    /// Spawned activities still waiting for a permit, oldest first.
    pub closed spec fn blocked(&self) -> Seq<T> {
        self.waiting@
    }

    /// Activities currently in their active region.
    pub closed spec fn running(&self) -> Seq<T> {
        self.active@
    }

    /// Finished results not yet pulled, in completion order.
    pub closed spec fn finished(&self) -> Seq<T> {
        self.outbound@
    }

    /// Every unit ever accepted, in submission order.
    pub closed spec fn submitted(&self) -> Seq<T> {
        self.accepted_log@
    }

    /// Every result ever delivered, in delivery order.
    pub closed spec fn delivered(&self) -> Seq<T> {
        self.delivered_log@
    }

    /// All units still on their way to delivery, in the order the
    /// deterministic drain of `recv` would deliver them.
    pub open spec fn in_flight(&self) -> Seq<T> {
        self.running() + self.blocked() + self.queued()
    }

    /// Everything the bucket still owes its consumer.
    pub open spec fn remaining(&self) -> Seq<T> {
        self.finished() + self.in_flight()
    }

    /// The bucket's invariant: the capacity is valid, the permit
    /// pool is respected, and every accepted unit is in exactly one stage —
    /// counted with multiplicity, nothing is ever duplicated or lost.
    pub open spec fn inv(&self) -> bool {
        &&& self.cap() >= 1
        &&& self.running().len() <= self.cap()
        &&& self.submitted().to_multiset() == self.delivered().to_multiset().add(
            self.finished().to_multiset(),
        ).add(self.running().to_multiset()).add(self.blocked().to_multiset()).add(
            self.queued().to_multiset(),
        )
    }

    /// Creates a bucket with `capacity` permits.
    ///
    /// The degenerate capacity `0` is refused: a bucket that can never
    /// run anything would make every consumer wait forever.
    pub fn new(capacity: usize) -> (r: Result<TokenBucket<T>, CapacityError>)
        ensures
            capacity == 0 <==> r is Err,
            r matches Ok(b) ==> {
                &&& b.inv()
                &&& b.cap() == capacity as int
                &&& !b.is_closed()
                &&& b.remaining() == Seq::<T>::empty()
                &&& b.submitted() == Seq::<T>::empty()
                &&& b.delivered() == Seq::<T>::empty()
            },
    {
        if capacity == 0 {
            Err(CapacityError)
        } else {
            let b = TokenBucket {
                capacity,
                closed: false,
                inbound: Vec::new(),
                waiting: Vec::new(),
                active: Vec::new(),
                outbound: Vec::new(),
                accepted_log: Ghost(Seq::empty()),
                delivered_log: Ghost(Seq::empty()),
            };
            proof {
                lemma_to_multiset_empty::<T>();
                assert(b.submitted().to_multiset() =~= b.delivered().to_multiset().add(
                    b.finished().to_multiset(),
                ).add(b.running().to_multiset()).add(b.blocked().to_multiset()).add(
                    b.queued().to_multiset(),
                )) by {
                    broadcast use vstd::multiset::group_multiset_axioms;
                };
                assert(b.remaining() =~= Seq::<T>::empty());
            }
            Ok(b)
        }
    }

    /// The number of permits, as chosen at construction.
    pub fn tokens(&self) -> (r: usize)
        ensures
            r as int == self.cap(),
    {
        self.capacity
    }

    /// How many unit bodies are in their active region right now.
    pub fn running_count(&self) -> (r: usize)
        ensures
            r as int == self.running().len(),
    {
        self.active.len()
    }

    /// Accepts a unit of work.
    ///
    /// The inbound lane is unbounded, so acceptance never waits on
    /// execution; a burst of submissions is only throttled once units
    /// wait for a permit.  After the sending side is closed the
    /// unit is silently discarded.
    pub fn send(&mut self, unit: T)
        requires
            old(self).inv(),
        ensures
            final(self).inv(),
            final(self).cap() == old(self).cap(),
            final(self).is_closed() == old(self).is_closed(),
            final(self).blocked() == old(self).blocked(),
            final(self).running() == old(self).running(),
            final(self).finished() == old(self).finished(),
            final(self).delivered() == old(self).delivered(),
            !old(self).is_closed() ==> {
                &&& final(self).queued() == old(self).queued().push(unit)
                &&& final(self).submitted() == old(self).submitted().push(unit)
            },
            old(self).is_closed() ==> {
                &&& final(self).queued() == old(self).queued()
                &&& final(self).submitted() == old(self).submitted()
            },
    {
        if !self.closed {
            let ghost u = unit;
            self.inbound.push(unit);
            proof {
                self.accepted_log@ = self.accepted_log@.push(u);
            }
            proof {
                broadcast use vstd::seq_lib::group_to_multiset_ensures;
                broadcast use vstd::multiset::group_multiset_axioms;

                assert(self.submitted().to_multiset() =~= self.delivered().to_multiset().add(
                    self.finished().to_multiset(),
                ).add(self.running().to_multiset()).add(self.blocked().to_multiset()).add(
                    self.queued().to_multiset(),
                ));
            }
        }
    }

    /// Closes the sending side: no further submission will be accepted.
    pub fn close(&mut self)
        requires
            old(self).inv(),
        ensures
            final(self).inv(),
            final(self).is_closed(),
            final(self).cap() == old(self).cap(),
            final(self).queued() == old(self).queued(),
            final(self).blocked() == old(self).blocked(),
            final(self).running() == old(self).running(),
            final(self).finished() == old(self).finished(),
            final(self).submitted() == old(self).submitted(),
            final(self).delivered() == old(self).delivered(),
    {
        self.closed = true;
    }

    /// Bridge step: pick up the oldest queued unit and spawn its
    /// activity.  Spawning itself never waits: the unit merely joins the
    /// line waiting for a permit.
    pub fn spawn_next(&mut self) -> (spawned: bool)
        requires
            old(self).inv(),
        ensures
            final(self).inv(),
            spawned == (old(self).queued().len() > 0),
            final(self).cap() == old(self).cap(),
            final(self).is_closed() == old(self).is_closed(),
            final(self).running() == old(self).running(),
            final(self).finished() == old(self).finished(),
            final(self).submitted() == old(self).submitted(),
            final(self).delivered() == old(self).delivered(),
            spawned ==> {
                &&& final(self).queued() == old(self).queued().drop_first()
                &&& final(self).blocked() == old(self).blocked().push(old(self).queued()[0])
            },
            !spawned ==> {
                &&& final(self).queued() == old(self).queued()
                &&& final(self).blocked() == old(self).blocked()
            },
    {
        if self.inbound.len() > 0 {
            let unit = self.inbound.remove(0);
            self.waiting.push(unit);
            proof {
                broadcast use vstd::seq_lib::group_to_multiset_ensures;
                broadcast use vstd::multiset::group_multiset_axioms;

                assert(old(self).queued().contains(old(self).queued()[0]));
                assert(self.queued() =~= old(self).queued().drop_first());
                assert(old(self).queued().drop_first() =~= old(self).queued().remove(0));
                assert(self.submitted().to_multiset() =~= self.delivered().to_multiset().add(
                    self.finished().to_multiset(),
                ).add(self.running().to_multiset()).add(self.blocked().to_multiset()).add(
                    self.queued().to_multiset(),
                ));
            }
            true
        } else {
            false
        }
    }

    /// Admission: if a permit is free and an activity is waiting, the
    /// oldest waiting activity takes the permit and enters its active
    /// region.  Admission is what keeps `running()` within `cap()`.
    pub fn try_admit(&mut self) -> (admitted: bool)
        requires
            old(self).inv(),
        ensures
            final(self).inv(),
            admitted == (old(self).blocked().len() > 0 && old(self).running().len() < old(
                self,
            ).cap()),
            final(self).running().len() <= final(self).cap(),
            final(self).cap() == old(self).cap(),
            final(self).is_closed() == old(self).is_closed(),
            final(self).queued() == old(self).queued(),
            final(self).finished() == old(self).finished(),
            final(self).submitted() == old(self).submitted(),
            final(self).delivered() == old(self).delivered(),
            admitted ==> {
                &&& final(self).blocked() == old(self).blocked().drop_first()
                &&& final(self).running() == old(self).running().push(old(self).blocked()[0])
            },
            !admitted ==> {
                &&& final(self).blocked() == old(self).blocked()
                &&& final(self).running() == old(self).running()
            },
    {
        if self.waiting.len() > 0 && self.active.len() < self.capacity {
            let unit = self.waiting.remove(0);
            self.active.push(unit);
            proof {
                broadcast use vstd::seq_lib::group_to_multiset_ensures;
                broadcast use vstd::multiset::group_multiset_axioms;

                assert(old(self).blocked().contains(old(self).blocked()[0]));
                assert(self.blocked() =~= old(self).blocked().drop_first());
                assert(old(self).blocked().drop_first() =~= old(self).blocked().remove(0));
                assert(self.submitted().to_multiset() =~= self.delivered().to_multiset().add(
                    self.finished().to_multiset(),
                ).add(self.running().to_multiset()).add(self.blocked().to_multiset()).add(
                    self.queued().to_multiset(),
                ));
            }
            true
        } else {
            false
        }
    }

    /// One running activity finishes: it releases its permit and its
    /// result is forwarded to the outbound lane.  `which` is the
    /// environment's choice — the bucket promises the same accounting
    /// whichever activity completes first.
    pub fn complete(&mut self, which: usize)
        requires
            old(self).inv(),
            which < old(self).running().len(),
        ensures
            final(self).inv(),
            final(self).cap() == old(self).cap(),
            final(self).is_closed() == old(self).is_closed(),
            final(self).queued() == old(self).queued(),
            final(self).blocked() == old(self).blocked(),
            final(self).submitted() == old(self).submitted(),
            final(self).delivered() == old(self).delivered(),
            final(self).running() == old(self).running().remove(which as int),
            final(self).finished() == old(self).finished().push(
                old(self).running()[which as int],
            ),
    {
        let unit = self.active.remove(which);
        self.outbound.push(unit);
        proof {
            broadcast use vstd::seq_lib::group_to_multiset_ensures;
            broadcast use vstd::multiset::group_multiset_axioms;

            assert(old(self).running().contains(old(self).running()[which as int]));
            assert(self.submitted().to_multiset() =~= self.delivered().to_multiset().add(
                self.finished().to_multiset(),
            ).add(self.running().to_multiset()).add(self.blocked().to_multiset()).add(
                self.queued().to_multiset(),
            ));
        }
    }

    /// Pulls the next result, driving the bridge as far as needed: a
    /// finished result is delivered as is; otherwise the oldest
    /// in-flight unit is admitted, run and completed.  Once
    /// the bucket is closed and drained, `Err(RecvError)` says that no
    /// result will ever arrive again.
    ///
    /// A live bridge would block while the lanes are empty but the
    /// sending side still open; this state machine cannot wait, so that
    /// one state is excluded up front instead.
    pub fn recv(&mut self) -> (r: Result<T, RecvError>)
        requires
            old(self).inv(),
            old(self).remaining().len() > 0 || old(self).is_closed(),
        ensures
            final(self).inv(),
            final(self).cap() == old(self).cap(),
            final(self).is_closed() == old(self).is_closed(),
            final(self).submitted() == old(self).submitted(),
            old(self).remaining().len() > 0 ==> {
                &&& r matches Ok(v) && v == old(self).remaining()[0]
                &&& final(self).remaining() == old(self).remaining().drop_first()
                &&& final(self).delivered() == old(self).delivered().push(
                    old(self).remaining()[0],
                )
            },
            old(self).remaining().len() == 0 ==> {
                &&& r is Err
                &&& *final(self) == *old(self)
            },
    {
        let r = if self.outbound.len() > 0 {
            Ok(self.outbound.remove(0))
        } else if self.active.len() > 0 {
            // The environment completes the oldest running activity.
            Ok(self.active.remove(0))
        } else if self.waiting.len() > 0 {
            // A permit is free (nothing is running), so the oldest
            // waiting activity is admitted, run and completed.
            Ok(self.waiting.remove(0))
        } else if self.inbound.len() > 0 {
            // Nothing was spawned yet: the bridge picks up the oldest
            // queued unit, admits it (every permit is free) and completes it.
            Ok(self.inbound.remove(0))
        } else {
            Err(RecvError)
        };
        if let Ok(v) = &r {
            proof {
                self.delivered_log@ = self.delivered_log@.push(*v);
            }
        }
        proof {
            broadcast use vstd::seq_lib::group_to_multiset_ensures;
            broadcast use vstd::multiset::group_multiset_axioms;

            if old(self).remaining().len() > 0 {
                let x = old(self).remaining()[0];
                assert(self.delivered() =~= old(self).delivered().push(x));
                if old(self).finished().len() > 0 {
                    assert(old(self).finished().contains(x));
                    assert(self.remaining() =~= old(self).remaining().drop_first());
                } else if old(self).running().len() > 0 {
                    assert(old(self).running().contains(x));
                    assert(self.remaining() =~= old(self).remaining().drop_first());
                } else if old(self).blocked().len() > 0 {
                    assert(old(self).blocked().contains(x));
                    assert(self.remaining() =~= old(self).remaining().drop_first());
                } else {
                    assert(old(self).queued().contains(x));
                    assert(self.remaining() =~= old(self).remaining().drop_first());
                }
                assert(self.submitted().to_multiset() =~= self.delivered().to_multiset().add(
                    self.finished().to_multiset(),
                ).add(self.running().to_multiset()).add(self.blocked().to_multiset()).add(
                    self.queued().to_multiset(),
                ));
            }
        }
        r
    }

    /// Consumes the bucket into a draining iterator.  The hand-over
    /// closes the sending side, so the iterator will deliver every
    /// accepted unit's result exactly once and then report exhaustion.
    pub fn into_iter(self) -> (it: IntoIter<T>)
        requires
            self.inv(),
        ensures
            it.inv(),
            it.remaining() == self.remaining(),
            it.submitted() == self.submitted(),
            it.delivered() == self.delivered(),
    {
        let mut bucket = self;
        bucket.close();
        IntoIter { bucket }
    }
}

/// The draining side of a [`TokenBucket`], obtained from
/// [`TokenBucket::into_iter`]: the sending side is closed, and `next`
/// pulls one result at a time until every accepted unit has been
/// delivered.
pub struct IntoIter<T> {
    bucket: TokenBucket<T>,
}

impl<T> IntoIter<T> {
    /// The bucket being drained.
    pub closed spec fn bucket(&self) -> TokenBucket<T> {
        self.bucket
    }

    /// The iterator's invariant: the underlying bucket is consistent
    /// and its sending side is closed.
    pub open spec fn inv(&self) -> bool {
        &&& self.bucket().inv()
        &&& self.bucket().is_closed()
    }

    /// The results not yet delivered, in delivery order.
    pub open spec fn remaining(&self) -> Seq<T> {
        self.bucket().remaining()
    }

    /// Every unit the bucket ever accepted.
    pub open spec fn submitted(&self) -> Seq<T> {
        self.bucket().submitted()
    }

    /// Every result delivered so far.
    pub open spec fn delivered(&self) -> Seq<T> {
        self.bucket().delivered()
    }

    /// Delivers the next result, or `None` once every accepted unit's
    /// result has been delivered.
    pub fn next(&mut self) -> (r: Option<T>)
        requires
            old(self).inv(),
        ensures
            final(self).inv(),
            final(self).submitted() == old(self).submitted(),
            old(self).remaining().len() > 0 ==> {
                &&& r matches Some(v) && v == old(self).remaining()[0]
                &&& final(self).remaining() == old(self).remaining().drop_first()
                &&& final(self).delivered() == old(self).delivered().push(
                    old(self).remaining()[0],
                )
            },
            old(self).remaining().len() == 0 ==> r is None && *final(self) == *old(self),
    {
        match self.bucket.recv() {
            Ok(v) => Some(v),
            Err(_) => None,
        }
    }
}

/// Turns a finite sequence of units of work plus a concurrency cap
/// directly into a consumable result stream: the bucket is created,
/// every unit is submitted, and the sending side is closed, all in one
/// operation — fan-out/fan-in without manual bookkeeping.
pub trait AwaitInTokenBucket<T>: Sized {
    /// The units to run, in submission order.
    spec fn units(&self) -> Seq<T>;

    /// Builds a pre-loaded, already-closed bucket around `self` whose
    /// iterator will deliver exactly these units' results.  Fails only
    /// for the degenerate capacity `0`, exactly as [`TokenBucket::new`]
    /// does.
    fn await_in_token_bucket(self, tokens: usize) -> (r: Result<IntoIter<T>, CapacityError>)
        ensures
            tokens == 0 <==> r is Err,
            r matches Ok(it) ==> {
                &&& it.inv()
                &&& it.remaining() == self.units()
                &&& it.submitted() == self.units()
                &&& it.delivered() == Seq::<T>::empty()
            },
    ;
}

impl<T> AwaitInTokenBucket<T> for Vec<T> {
    open spec fn units(&self) -> Seq<T> {
        self@
    }

    fn await_in_token_bucket(self, tokens: usize) -> (r: Result<IntoIter<T>, CapacityError>) {
        let mut bucket = match TokenBucket::<T>::new(tokens) {
            Ok(b) => b,
            Err(e) => {
                return Err(e);
            },
        };
        let ghost all = self@;
        let mut units = self;
        let n: usize = units.len();
        let mut i: usize = 0;
        proof {
            assert(bucket.remaining().len() == 0);
            assert(bucket.queued() =~= all.take(0));
            assert(bucket.submitted() =~= all.take(0));
        }
        while i < n
            invariant
                bucket.inv(),
                !bucket.is_closed(),
                i <= n == all.len(),
                units@ == all.skip(i as int),
                bucket.queued() == all.take(i as int),
                bucket.submitted() == all.take(i as int),
                bucket.blocked().len() == 0,
                bucket.running().len() == 0,
                bucket.finished().len() == 0,
                bucket.delivered().len() == 0,
            decreases n - i,
        {
            // Moving the unit out with `swap_remove` would reorder the
            // queue, so the vector is drained from the front instead.
            let unit = units.remove(0);
            proof {
                assert(all.skip(i as int)[0] == all[i as int]);
                assert(all.skip(i as int).remove(0) =~= all.skip(i + 1));
                assert(all.take(i as int).push(all[i as int]) =~= all.take(i + 1));
            }
            bucket.send(unit);
            i += 1;
        }
        proof {
            assert(all.take(n as int) =~= all);
        }
        let it = bucket.into_iter();
        proof {
            assert(it.remaining() =~= bucket.queued());
            assert(it.delivered() =~= Seq::<T>::empty());
        }
        Ok(it)
    }
}

/// Law: the permit pool is never over-committed — in any consistent
/// state, no more than `cap()` unit bodies are in their active region.
pub proof fn lemma_capacity_respected<T>(b: TokenBucket<T>)
    requires
        b.inv(),
    ensures
        b.running().len() <= b.cap(),
{
}

/// Law: once a bucket has drained — nothing in flight, nothing left to
/// pull — the delivered results are exactly the accepted submissions:
/// the same number, and each unit exactly once, in some order.
/// Completion order never adds, loses or duplicates a result.
pub proof fn lemma_drained_delivers_submitted<T>(b: TokenBucket<T>)
    requires
        b.inv(),
        b.remaining().len() == 0,
    ensures
        b.delivered().to_multiset() == b.submitted().to_multiset(),
        b.delivered().len() == b.submitted().len(),
{
    broadcast use vstd::seq_lib::group_to_multiset_ensures;
    broadcast use vstd::multiset::group_multiset_axioms;

    lemma_to_multiset_empty::<T>();
    assert(b.finished().len() == 0 && b.running().len() == 0 && b.blocked().len() == 0
        && b.queued().len() == 0);
    assert(b.delivered().to_multiset() =~= b.submitted().to_multiset());
    assert(b.delivered().len() == b.delivered().to_multiset().len());
    assert(b.submitted().len() == b.submitted().to_multiset().len());
}

/// Law: the same, seen from the consuming iterator — an exhausted
/// iterator has delivered every accepted unit exactly once.
pub proof fn lemma_exhausted_iter_delivered_all<T>(it: IntoIter<T>)
    requires
        it.inv(),
        it.remaining().len() == 0,
    ensures
        it.delivered().to_multiset() == it.submitted().to_multiset(),
        it.delivered().len() == it.submitted().len(),
{
    lemma_drained_delivers_submitted(it.bucket());
}

/// Law: a bucket that never accepted a unit owes nothing — close it
/// and its consumer sees an immediately-exhausted sequence, with
/// nothing ever delivered either.
pub proof fn lemma_nothing_submitted_nothing_owed<T>(b: TokenBucket<T>)
    requires
        b.inv(),
        b.submitted().len() == 0,
    ensures
        b.remaining().len() == 0,
        b.delivered().len() == 0,
{
    broadcast use vstd::seq_lib::group_to_multiset_ensures;
    broadcast use vstd::multiset::group_multiset_axioms;

    lemma_to_multiset_empty::<T>();
    assert(b.submitted().to_multiset().len() == 0);
}

/// `Seq::to_multiset` of the empty sequence is the empty multiset.
proof fn lemma_to_multiset_empty<T>()
    ensures
        Seq::<T>::empty().to_multiset() == Multiset::<T>::empty(),
{
    broadcast use vstd::seq_lib::group_to_multiset_ensures;
    broadcast use vstd::multiset::group_multiset_axioms;

    assert(Seq::<T>::empty().to_multiset() =~= Multiset::<T>::empty()) by {
        assert(Seq::<T>::empty().to_multiset().len() == 0);
        vstd::multiset::lemma_multiset_empty_len(Seq::<T>::empty().to_multiset());
    };
}

} // verus!
