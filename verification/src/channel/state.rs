//! The lock-protected core of the channel: a fixed ring of slots, two
//! monotonically increasing cursors, the open flag, and one wait queue per
//! direction.
//!
//! The cursors are kept as ghost logs: `sent` is every value ever committed
//! by a write, in commit order, and `taken` is every value ever removed by a
//! read. The write cursor is `sent.len()`, the read cursor `taken.len()`,
//! and the occupancy their difference. Well-formedness ties the ring to the
//! logs: the values between the cursors sit in their slots at the cursor
//! position modulo capacity, and `taken` is always a prefix of `sent` — the
//! i-th successful read returns the i-th successfully written value.

use vstd::arithmetic::div_mod::{lemma_add_mod_noop_right, lemma_mod_equivalence, lemma_mod_self_0, lemma_small_mod};
use vstd::pervasive::VecAdditionalExecFns;
use vstd::prelude::*;

use crate::channel::error::{ChannelError, ChannelResult, RecvError, SendError};
use crate::channel::waitq::WaitQueue;

verus! {

/// Outcome of one locked send attempt.
pub enum SendStep<T> {
    /// The operation finished with this result.
    Done(ChannelResult<(), SendError<T>>),
    /// The ring was full; the waker is queued and the value handed back.
    Parked(T),
}

/// Outcome of one locked receive attempt.
pub enum RecvStep<T> {
    /// The operation finished with this result.
    Done(ChannelResult<T, RecvError>),
    /// Nothing was buffered; the waker is queued.
    Parked,
}

/// One cell of the ring buffer. The lock bit brackets a single claim,
/// commit, release sequence; it is never held across a suspension.
pub struct Slot<T> {
    /// Exclusive-claim bit; taken by compare-and-swap during a claim.
    pub lock_bit: bool,
    /// Whether the slot currently holds a committed, unread value.
    pub occupied: bool,
    /// The committed value, present exactly while `occupied`.
    pub payload: Option<T>,
}

/// The channel state guarded by the channel's lock: ring, cursors, open
/// flag, and the two wait queues.
pub struct WaitDeque<T> {
    /// Ring capacity; at least 1, fixed for the channel's lifetime.
    pub cap: usize,
    /// Write cursor modulo capacity: the next position to claim for a write.
    pub write_pos: usize,
    /// Read cursor modulo capacity: the next position to claim for a read.
    pub read_pos: usize,
    /// Occupancy: write cursor minus read cursor.
    pub count: usize,
    /// True until `close()`; never reopened.
    pub open: bool,
    /// The ring of `cap` slots.
    pub slots: Vec<Slot<T>>,
    /// Suspended senders waiting for room.
    pub sender_waiters: WaitQueue,
    /// Suspended receivers waiting for a value.
    pub receiver_waiters: WaitQueue,
    /// Every value ever committed by a write, in commit order.
    pub sent: Ghost<Seq<T>>,
    /// Every value ever returned by a read, in read order.
    pub taken: Ghost<Seq<T>>,
}

impl<T> WaitDeque<T> {
    /// The write cursor: number of values committed so far.
    pub open spec fn write_cursor(self) -> nat {
        self.sent@.len()
    }

    /// The read cursor: number of values read so far.
    pub open spec fn read_cursor(self) -> nat {
        self.taken@.len()
    }

    /// The values currently buffered, oldest first.
    pub open spec fn buffered(self) -> Seq<T> {
        self.sent@.subrange(self.read_cursor() as int, self.write_cursor() as int)
    }

    /// Whether log index `j` is currently buffered (committed, not yet read).
    pub open spec fn live(self, j: int) -> bool {
        self.read_cursor() <= j < self.write_cursor()
    }

    /// Whether ring position `i` holds some currently buffered value.
    pub open spec fn pos_live(self, i: int) -> bool {
        exists|j: int| #[trigger] self.live(j) && j % (self.cap as int) == i
    }

    /// Everything except the lock bits: the ring mirrors the logs.
    pub open spec fn inv_core(self) -> bool {
        &&& 1 <= self.cap
        &&& self.slots@.len() == self.cap
        &&& self.read_cursor() <= self.write_cursor() <= self.read_cursor() + self.cap
        &&& self.count == self.write_cursor() - self.read_cursor()
        &&& self.write_pos < self.cap
        &&& self.read_pos < self.cap
        &&& self.write_pos == self.write_cursor() as int % (self.cap as int)
        &&& self.read_pos == self.read_cursor() as int % (self.cap as int)
        &&& self.taken@ == self.sent@.take(self.read_cursor() as int)
        &&& forall|j: int|
            #[trigger] self.live(j) ==> self.slots@[j % (self.cap as int)].occupied
                && self.slots@[j % (self.cap as int)].payload == Some(self.sent@[j])
        &&& forall|i: int|
            0 <= i < self.cap && !self.pos_live(i) ==> !(#[trigger] self.slots@[i]).occupied
    }

    /// No claim is in progress.
    pub open spec fn all_unlocked(self) -> bool {
        forall|i: int| 0 <= i < self.slots@.len() ==> !(#[trigger] self.slots@[i]).lock_bit
    }

    /// Well-formed at rest: the lock invariant of the channel.
    pub open spec fn wf(self) -> bool {
        &&& self.inv_core()
        &&& self.all_unlocked()
        &&& self.sender_waiters.wf()
        &&& self.receiver_waiters.wf()
    }

    /// An empty, open ring of `cap` slots.
    pub fn new(cap: usize) -> (d: Self)
        requires
            1 <= cap,
        ensures
            d.wf(),
            d.cap == cap,
            d.open,
            d.count == 0,
            d.sent@ == Seq::<T>::empty(),
            d.taken@ == Seq::<T>::empty(),
            d.sender_waiters.wakers@.len() == 0,
            d.receiver_waiters.wakers@.len() == 0,
    {
        let mut slots: Vec<Slot<T>> = Vec::new();
        let mut i: usize = 0;
        while i < cap
            invariant
                i <= cap,
                slots@.len() == i,
                forall|k: int|
                    0 <= k < i ==> !(#[trigger] slots@[k]).occupied && !slots@[k].lock_bit,
            decreases cap - i,
        {
            slots.push(Slot { lock_bit: false, occupied: false, payload: None });
            i = i + 1;
        }
        let d = WaitDeque {
            cap,
            write_pos: 0,
            read_pos: 0,
            count: 0,
            open: true,
            slots,
            sender_waiters: WaitQueue::new(),
            receiver_waiters: WaitQueue::new(),
            sent: Ghost(Seq::empty()),
            taken: Ghost(Seq::empty()),
        };
        proof {
            lemma_small_mod(0, cap as nat);
            assert(d.taken@ =~= d.sent@.take(0));
        }
        d
    }
}

impl<T> WaitDeque<T> {
    /// Everything but the ring itself agrees between `a` and `b`.
    pub open spec fn same_but_slots(a: Self, b: Self) -> bool {
        &&& a.cap == b.cap
        &&& a.write_pos == b.write_pos
        &&& a.read_pos == b.read_pos
        &&& a.count == b.count
        &&& a.open == b.open
        &&& a.sender_waiters == b.sender_waiters
        &&& a.receiver_waiters == b.receiver_waiters
        &&& a.sent == b.sent
        &&& a.taken == b.taken
    }

    /// While the ring is not full, the slot at the write position is free:
    /// no buffered value can sit there, because all buffered values live
    /// less than one full turn behind the write cursor.
    pub proof fn lemma_write_pos_free(self)
        requires
            self.inv_core(),
            self.count < self.cap,
        ensures
            !self.slots@[self.write_pos as int].occupied,
    {
        if self.slots@[self.write_pos as int].occupied {
            assert(self.pos_live(self.write_pos as int));
            let j = choose|j: int|
                #[trigger] self.live(j) && j % (self.cap as int) == self.write_pos as int;
            lemma_ring_distinct(j, self.write_cursor() as int, self.cap as int);
        }
    }

    /// An occupied slot at the read position holds exactly the next value
    /// to deliver: the one the read cursor points at.
    pub proof fn lemma_occupied_read_pos(self)
        requires
            self.inv_core(),
            self.slots@[self.read_pos as int].occupied,
        ensures
            self.count > 0,
            self.slots@[self.read_pos as int].payload == Some(
                self.sent@[self.read_cursor() as int],
            ),
    {
        if self.count == 0 {
            assert(!self.pos_live(self.read_pos as int));
            assert(false);
        }
        assert(self.pos_live(self.read_pos as int)) by {
            if !self.pos_live(self.read_pos as int) {
                assert(!self.slots@[self.read_pos as int].occupied);
            }
        }
        let j = choose|j: int|
            #[trigger] self.live(j) && j % (self.cap as int) == self.read_pos as int;
        lemma_ring_distinct(self.read_cursor() as int, j, self.cap as int);
        assert(self.live(self.read_cursor() as int));
    }

    /// Lock-bit changes leave the ring's occupancy story untouched.
    proof fn lemma_inv_core_lock_change(a: Self, b: Self, idx: int)
        requires
            a.inv_core(),
            Self::same_but_slots(a, b),
            0 <= idx < a.slots@.len(),
            b.slots@ == a.slots@.update(idx, (Slot {
                lock_bit: b.slots@[idx].lock_bit,
                occupied: a.slots@[idx].occupied,
                payload: a.slots@[idx].payload,
            })),
        ensures
            b.inv_core(),
    {
        assert forall|j: int| #[trigger] b.live(j) implies b.slots@[j % (b.cap as int)].occupied
            && b.slots@[j % (b.cap as int)].payload == Some(b.sent@[j]) by {
            assert(a.live(j));
        }
        assert forall|i: int| 0 <= i < b.cap && !b.pos_live(i) implies !(#[trigger] b.slots@[i]).occupied by {
            if a.pos_live(i) {
                let j = choose|j: int| #[trigger] a.live(j) && j % (a.cap as int) == i;
                assert(b.live(j));
                assert(b.pos_live(i));
            }
        }
    }

    /// The occupancy story only reads the ring and the logs: any state
    /// agreeing with a well-formed one on those fields is well-formed too.
    pub proof fn lemma_inv_core_same(a: Self, b: Self)
        requires
            a.inv_core(),
            b.cap == a.cap,
            b.write_pos == a.write_pos,
            b.read_pos == a.read_pos,
            b.count == a.count,
            b.slots == a.slots,
            b.sent == a.sent,
            b.taken == a.taken,
        ensures
            b.inv_core(),
    {
        assert forall|j: int| #[trigger] b.live(j) implies b.slots@[j % (b.cap as int)].occupied
            && b.slots@[j % (b.cap as int)].payload == Some(b.sent@[j]) by {
            assert(a.live(j));
        }
        assert forall|i: int| 0 <= i < b.cap && !b.pos_live(i) implies !(#[trigger] b.slots@[i]).occupied by {
            if a.pos_live(i) {
                let j = choose|j: int| #[trigger] a.live(j) && j % (a.cap as int) == i;
                assert(b.live(j));
                assert(b.pos_live(i));
            }
        }
    }

    /// Sets or clears one slot's lock bit and changes nothing else.
    fn lock_flip(&mut self, idx: usize, val: bool)
        requires
            idx < old(self).slots@.len(),
        ensures
            Self::same_but_slots(*final(self), *old(self)),
            final(self).slots@ == old(self).slots@.update(idx as int, (Slot {
                lock_bit: val,
                occupied: old(self).slots@[idx as int].occupied,
                payload: old(self).slots@[idx as int].payload,
            })),
    {
        let mut tmp: Slot<T> = Slot { lock_bit: false, occupied: false, payload: None };
        self.slots.set_and_swap(idx, &mut tmp);
        tmp.lock_bit = val;
        self.slots.set_and_swap(idx, &mut tmp);
        proof {
            assert(self.slots@ =~= old(self).slots@.update(idx as int, (Slot {
                lock_bit: val,
                occupied: old(self).slots@[idx as int].occupied,
                payload: old(self).slots@[idx as int].payload,
            })));
        }
    }

    /// Scans for a writable slot from the write position, claiming the
    /// first free one by taking its lock bit, and re-checking occupancy
    /// after the claim. Returns the claimed index, still locked, or `None`
    /// when the ring is full. A slot someone else has claimed is never
    /// returned: a claim only ever takes a lock bit that was clear.
    pub fn claim_writable_slot(&mut self) -> (r: Option<usize>)
        requires
            old(self).inv_core(),
        ensures
            final(self).inv_core(),
            Self::same_but_slots(*final(self), *old(self)),
            match r {
                None => *final(self) == *old(self) && !(old(self).all_unlocked() && old(self).count < old(self).cap),
                Some(idx) => {
                    &&& idx < old(self).cap
                    &&& old(self).count < old(self).cap
                    &&& !old(self).slots@[idx as int].occupied
                    &&& !old(self).slots@[idx as int].lock_bit
                    &&& final(self).slots@ == old(self).slots@.update(idx as int, (Slot {
                        lock_bit: true,
                        occupied: old(self).slots@[idx as int].occupied,
                        payload: old(self).slots@[idx as int].payload,
                    }))
                    &&& (old(self).all_unlocked() ==> idx == old(self).write_pos)
                },
            },
    {
        if self.count >= self.cap {
            return None;
        }
        let mut idx: usize = self.write_pos;
        let mut off: usize = 0;
        proof {
            lemma_small_mod(self.write_pos as nat, self.cap as nat);
        }
        while off < self.cap
            invariant
                self.inv_core(),
                *self == *old(self),
                old(self).count < old(self).cap,
                off <= self.cap,
                idx < self.cap,
                idx == (self.write_pos + off) as int % (self.cap as int),
                off > 0 ==> !old(self).all_unlocked(),
            decreases self.cap - off,
        {
            if !self.slots[idx].occupied && !self.slots[idx].lock_bit {
                let ghost pre = *self;
                self.lock_flip(idx, true);
                if !self.slots[idx].occupied {
                    proof {
                        Self::lemma_inv_core_lock_change(pre, *self, idx as int);
                        if old(self).all_unlocked() {
                            assert(off == 0);
                            lemma_small_mod(old(self).write_pos as nat, old(self).cap as nat);
                            assert(idx == old(self).write_pos);
                        }
                    }
                    return Some(idx);
                }
                // Occupancy cannot change while the channel lock is held,
                // so a freshly claimed free slot is still free.
                proof {
                    assert(self.slots@[idx as int].occupied == pre.slots@[idx as int].occupied);
                    assert(false);
                }
                self.lock_flip(idx, false);
            }
            proof {
                if off == 0 && old(self).all_unlocked() {
                    lemma_small_mod(self.write_pos as nat, self.cap as nat);
                    assert(idx == self.write_pos);
                    self.lemma_write_pos_free();
                    assert(!self.slots@[idx as int].lock_bit);
                    assert(false);
                }
                lemma_add_mod_noop_right(1, (self.write_pos + off) as int, self.cap as int);
                if idx + 1 == self.cap {
                    lemma_mod_self_0(self.cap as int);
                } else {
                    lemma_small_mod((idx + 1) as nat, self.cap as nat);
                }
            }
            idx = if idx + 1 == self.cap {
                0
            } else {
                idx + 1
            };
            off = off + 1;
        }
        None
    }

    /// The read-side twin: scans from the read position, claiming the
    /// first occupied slot and re-checking occupancy after the claim.
    /// Returns `None` when nothing is buffered.
    pub fn claim_readable_slot(&mut self) -> (r: Option<usize>)
        requires
            old(self).inv_core(),
        ensures
            final(self).inv_core(),
            Self::same_but_slots(*final(self), *old(self)),
            match r {
                None => *final(self) == *old(self) && !(old(self).all_unlocked() && old(self).count > 0),
                Some(idx) => {
                    &&& idx < old(self).cap
                    &&& old(self).count > 0
                    &&& old(self).slots@[idx as int].occupied
                    &&& !old(self).slots@[idx as int].lock_bit
                    &&& final(self).slots@ == old(self).slots@.update(idx as int, (Slot {
                        lock_bit: true,
                        occupied: old(self).slots@[idx as int].occupied,
                        payload: old(self).slots@[idx as int].payload,
                    }))
                    &&& (old(self).all_unlocked() ==> idx == old(self).read_pos)
                },
            },
    {
        if self.count == 0 {
            return None;
        }
        let mut idx: usize = self.read_pos;
        let mut off: usize = 0;
        proof {
            lemma_small_mod(self.read_pos as nat, self.cap as nat);
        }
        while off < self.cap
            invariant
                self.inv_core(),
                *self == *old(self),
                old(self).count > 0,
                off <= self.cap,
                idx < self.cap,
                idx == (self.read_pos + off) as int % (self.cap as int),
                off > 0 ==> !old(self).all_unlocked(),
            decreases self.cap - off,
        {
            if self.slots[idx].occupied && !self.slots[idx].lock_bit {
                let ghost pre = *self;
                self.lock_flip(idx, true);
                if self.slots[idx].occupied {
                    proof {
                        Self::lemma_inv_core_lock_change(pre, *self, idx as int);
                        if old(self).all_unlocked() {
                            assert(off == 0);
                            lemma_small_mod(old(self).read_pos as nat, old(self).cap as nat);
                            assert(idx == old(self).read_pos);
                        }
                    }
                    return Some(idx);
                }
                // Occupancy cannot change while the channel lock is held,
                // so a freshly claimed occupied slot is still occupied.
                proof {
                    assert(self.slots@[idx as int].occupied == pre.slots@[idx as int].occupied);
                    assert(false);
                }
                self.lock_flip(idx, false);
            }
            proof {
                if off == 0 && old(self).all_unlocked() {
                    lemma_small_mod(self.read_pos as nat, self.cap as nat);
                    assert(idx == self.read_pos);
                    assert(self.live(self.read_cursor() as int));
                    assert(self.slots@[idx as int].occupied);
                    assert(!self.slots@[idx as int].lock_bit);
                    assert(false);
                }
                lemma_add_mod_noop_right(1, (self.read_pos + off) as int, self.cap as int);
                if idx + 1 == self.cap {
                    lemma_mod_self_0(self.cap as int);
                } else {
                    lemma_small_mod((idx + 1) as nat, self.cap as nat);
                }
            }
            idx = if idx + 1 == self.cap {
                0
            } else {
                idx + 1
            };
            off = off + 1;
        }
        None
    }
}

impl<T> WaitDeque<T> {
    /// Commits a claimed write: stores the value, marks the slot occupied,
    /// and advances the write cursor. The occupancy test is defensive; a
    /// correctly claimed slot is never occupied, so the `FULL` return is
    /// unreachable under this module's claim discipline.
    pub fn commit_write(&mut self, idx: usize, value: T) -> (r: ChannelResult<(), SendError<T>>)
        requires
            old(self).inv_core(),
            idx == old(self).write_pos,
            old(self).count < old(self).cap,
            old(self).slots@[idx as int].lock_bit,
        ensures
            final(self).inv_core(),
            final(self).cap == old(self).cap,
            final(self).open == old(self).open,
            final(self).read_pos == old(self).read_pos,
            final(self).taken == old(self).taken,
            final(self).sender_waiters == old(self).sender_waiters,
            final(self).receiver_waiters == old(self).receiver_waiters,
            match r {
                Ok(()) => {
                    &&& final(self).sent@ == old(self).sent@.push(value)
                    &&& final(self).count == old(self).count + 1
                    &&& final(self).slots@ == old(self).slots@.update(idx as int, (Slot {
                        lock_bit: true,
                        occupied: true,
                        payload: Some(value),
                    }))
                },
                Err(_) => false,
            },
    {
        proof {
            self.lemma_write_pos_free();
        }
        if self.slots[idx].occupied {
            return SendError::FULL(value).into_err();
        }
        let ghost pre = *self;
        self.slots.set(idx, Slot { lock_bit: true, occupied: true, payload: Some(value) });
        self.count = self.count + 1;
        self.write_pos = if self.write_pos + 1 == self.cap {
            0
        } else {
            self.write_pos + 1
        };
        proof {
            self.sent = Ghost(self.sent@.push(value));
        }
        proof {
            let new = *self;
            let cap = pre.cap as int;
            let wc = pre.write_cursor() as int;
            let rc = pre.read_cursor() as int;
            lemma_add_mod_noop_right(1, wc, cap);
            if idx + 1 == pre.cap {
                lemma_mod_self_0(cap);
            } else {
                lemma_small_mod((idx + 1) as nat, pre.cap as nat);
            }
            assert(new.write_pos == new.write_cursor() as int % cap);
            assert(new.taken@ =~= new.sent@.take(rc));
            assert forall|j: int| #[trigger] new.live(j) implies new.slots@[j % cap].occupied
                && new.slots@[j % cap].payload == Some(new.sent@[j]) by {
                if j < wc {
                    assert(pre.live(j));
                    if j % cap == idx as int {
                        lemma_ring_distinct(j, wc, cap);
                        assert(false);
                    }
                } else {
                    assert(j == wc);
                    assert(j % cap == idx as int);
                }
            }
            assert forall|i: int|
                0 <= i < new.cap && !new.pos_live(i) implies !(#[trigger] new.slots@[i]).occupied by {
                assert(new.live(wc));
                assert(new.pos_live(idx as int));
                assert(i != idx as int);
                if pre.pos_live(i) {
                    let j = choose|j: int| #[trigger] pre.live(j) && j % cap == i;
                    assert(new.live(j));
                    assert(new.pos_live(i));
                    assert(false);
                }
                assert(!pre.slots@[i].occupied);
            }
        }
        Ok(())
    }

    /// Commits a claimed read: takes the payload, clears occupancy, and
    /// advances the read cursor. The value handed back is exactly the
    /// oldest buffered one — the read-cursor entry of the send log. The
    /// emptiness test is defensive; a correctly claimed slot is occupied,
    /// so the `EMPTY` return is unreachable under the claim discipline.
    pub fn commit_read(&mut self, idx: usize) -> (r: ChannelResult<T, RecvError>)
        requires
            old(self).inv_core(),
            idx == old(self).read_pos,
            old(self).slots@[idx as int].lock_bit,
        ensures
            final(self).inv_core(),
            final(self).cap == old(self).cap,
            final(self).open == old(self).open,
            final(self).write_pos == old(self).write_pos,
            final(self).sent == old(self).sent,
            final(self).sender_waiters == old(self).sender_waiters,
            final(self).receiver_waiters == old(self).receiver_waiters,
            match r {
                Ok(v) => {
                    &&& old(self).slots@[idx as int].occupied
                    &&& old(self).count > 0
                    &&& v == old(self).sent@[old(self).read_cursor() as int]
                    &&& final(self).taken@ == old(self).taken@.push(v)
                    &&& final(self).count == old(self).count - 1
                    &&& final(self).slots@ == old(self).slots@.update(idx as int, (Slot {
                        lock_bit: true,
                        occupied: false,
                        payload: None,
                    }))
                },
                Err(RecvError::EMPTY) => !old(self).slots@[idx as int].occupied && *final(self)
                    == *old(self),
                Err(_) => false,
            },
    {
        if !self.slots[idx].occupied {
            return RecvError::EMPTY.into_err();
        }
        proof {
            self.lemma_occupied_read_pos();
        }
        let ghost pre = *self;
        let mut tmp: Slot<T> = Slot { lock_bit: true, occupied: false, payload: None };
        self.slots.set_and_swap(idx, &mut tmp);
        let value = tmp.payload.unwrap();
        self.count = self.count - 1;
        self.read_pos = if self.read_pos + 1 == self.cap {
            0
        } else {
            self.read_pos + 1
        };
        proof {
            self.taken = Ghost(self.taken@.push(value));
        }
        proof {
            let new = *self;
            let cap = pre.cap as int;
            let wc = pre.write_cursor() as int;
            let rc = pre.read_cursor() as int;
            lemma_add_mod_noop_right(1, rc, cap);
            if idx + 1 == pre.cap {
                lemma_mod_self_0(cap);
            } else {
                lemma_small_mod((idx + 1) as nat, pre.cap as nat);
            }
            assert(new.read_pos == new.read_cursor() as int % cap);
            assert(new.taken@ =~= new.sent@.take(rc + 1));
            assert forall|j: int| #[trigger] new.live(j) implies new.slots@[j % cap].occupied
                && new.slots@[j % cap].payload == Some(new.sent@[j]) by {
                assert(pre.live(j));
                if j % cap == idx as int {
                    lemma_ring_distinct(rc, j, cap);
                    assert(false);
                }
            }
            assert forall|i: int|
                0 <= i < new.cap && !new.pos_live(i) implies !(#[trigger] new.slots@[i]).occupied by {
                if i != idx as int {
                    if pre.pos_live(i) {
                        let j = choose|j: int| #[trigger] pre.live(j) && j % cap == i;
                        if j == rc {
                            assert(i == idx as int);
                            assert(false);
                        }
                        assert(new.live(j));
                        assert(new.pos_live(i));
                        assert(false);
                    }
                    assert(!pre.slots@[i].occupied);
                }
            }
        }
        Ok(value)
    }

    /// Releases a slot's claim by clearing its lock bit. The caller does
    /// this immediately after `commit_write` or `commit_read`, whatever
    /// their outcome.
    pub fn release_slot(&mut self, idx: usize)
        requires
            old(self).inv_core(),
            idx < old(self).slots@.len(),
        ensures
            final(self).inv_core(),
            Self::same_but_slots(*final(self), *old(self)),
            final(self).slots@ == old(self).slots@.update(idx as int, (Slot {
                lock_bit: false,
                occupied: old(self).slots@[idx as int].occupied,
                payload: old(self).slots@[idx as int].payload,
            })),
    {
        let ghost pre = *self;
        self.lock_flip(idx, false);
        proof {
            Self::lemma_inv_core_lock_change(pre, *self, idx as int);
        }
    }
}

impl<T> WaitDeque<T> {
    /// Non-suspending send against the locked state. Succeeds exactly when
    /// the channel is open and not full; on success the value joins the
    /// send log and one waiting receiver is resumed. A refused value is
    /// handed back inside the error.
    pub fn try_send(&mut self, data: T) -> (r: ChannelResult<(), SendError<T>>)
        requires
            old(self).wf(),
        ensures
            final(self).wf(),
            final(self).cap == old(self).cap,
            final(self).open == old(self).open,
            final(self).sender_waiters == old(self).sender_waiters,
            match r {
                Ok(()) => {
                    &&& old(self).open
                    &&& old(self).count < old(self).cap
                    &&& final(self).sent@ == old(self).sent@.push(data)
                    &&& final(self).taken == old(self).taken
                    &&& final(self).count == old(self).count + 1
                    &&& final(self).receiver_waiters.wakers@ == if old(self).receiver_waiters.wakers@.len() == 0 {
                        old(self).receiver_waiters.wakers@
                    } else {
                        old(self).receiver_waiters.wakers@.skip(1)
                    }
                },
                Err(SendError::CLOSED(v)) => v == data && !old(self).open && *final(self) == *old(self),
                Err(SendError::FULL(v)) => v == data && old(self).open && old(self).count >= old(self).cap && *final(self) == *old(self),
                Err(SendError::UNKNOWN(_, _)) => false,
            },
    {
        if !self.open {
            return SendError::CLOSED(data).into_err();
        }
        if self.count >= self.cap {
            return SendError::FULL(data).into_err();
        }
        let ghost pre = *self;
        match self.claim_writable_slot() {
            None => {
                // A claim on a well-formed, non-full ring always succeeds.
                proof {
                    assert(false);
                }
                SendError::CLOSED(data).into_err()
            },
            Some(idx) => {
                let res = self.commit_write(idx, data);
                self.release_slot(idx);
                proof {
                    assert forall|i: int|
                        0 <= i < self.slots@.len() implies !(#[trigger] self.slots@[i]).lock_bit by {
                        if i != idx as int {
                            assert(!pre.slots@[i].lock_bit);
                        }
                    }
                }
                match res {
                    Ok(()) => {
                        let ghost s2 = *self;
                        self.receiver_waiters.resume(1);
                        proof {
                            Self::lemma_inv_core_same(s2, *self);
                            if pre.receiver_waiters.wakers@.len() == 0 {
                                assert(self.receiver_waiters.wakers@
                                    =~= pre.receiver_waiters.wakers@);
                            }
                        }
                        Ok(())
                    },
                    Err(e) => {
                        // `commit_write` cannot fail on a freshly claimed slot.
                        proof {
                            assert(false);
                        }
                        ChannelResult::Err(e)
                    },
                }
            },
        }
    }

    /// Non-suspending receive against the locked state. Delivers the
    /// oldest buffered value whenever one exists — also after `close()`:
    /// closing stops new writes, it does not discard the buffer. Only an
    /// empty closed channel reports `CLOSED`; an empty open one `EMPTY`.
    pub fn try_recv(&mut self) -> (r: ChannelResult<T, RecvError>)
        requires
            old(self).wf(),
        ensures
            final(self).wf(),
            final(self).cap == old(self).cap,
            final(self).open == old(self).open,
            final(self).receiver_waiters == old(self).receiver_waiters,
            match r {
                Ok(v) => {
                    &&& old(self).count > 0
                    &&& v == old(self).sent@[old(self).read_cursor() as int]
                    &&& final(self).taken@ == old(self).taken@.push(v)
                    &&& final(self).sent == old(self).sent
                    &&& final(self).count == old(self).count - 1
                    &&& final(self).sender_waiters.wakers@ == if old(self).sender_waiters.wakers@.len() == 0 {
                        old(self).sender_waiters.wakers@
                    } else {
                        old(self).sender_waiters.wakers@.skip(1)
                    }
                },
                Err(RecvError::CLOSED) => old(self).count == 0 && !old(self).open && *final(self)
                    == *old(self),
                Err(RecvError::EMPTY) => old(self).count == 0 && old(self).open && *final(self)
                    == *old(self),
                Err(RecvError::UNKNOWN(_)) => false,
            },
    {
        let ghost pre = *self;
        match self.claim_readable_slot() {
            None => {
                if !self.open {
                    RecvError::CLOSED.into_err()
                } else {
                    RecvError::EMPTY.into_err()
                }
            },
            Some(idx) => {
                let res = self.commit_read(idx);
                self.release_slot(idx);
                proof {
                    assert forall|i: int|
                        0 <= i < self.slots@.len() implies !(#[trigger] self.slots@[i]).lock_bit by {
                        if i != idx as int {
                            assert(!pre.slots@[i].lock_bit);
                        }
                    }
                }
                match res {
                    Ok(v) => {
                        let ghost s2 = *self;
                        self.sender_waiters.resume(1);
                        proof {
                            Self::lemma_inv_core_same(s2, *self);
                            if pre.sender_waiters.wakers@.len() == 0 {
                                assert(self.sender_waiters.wakers@ =~= pre.sender_waiters.wakers@);
                            }
                        }
                        Ok(v)
                    },
                    Err(e) => {
                        // `commit_read` cannot fail on a freshly claimed slot.
                        proof {
                            assert(false);
                        }
                        ChannelResult::Err(e)
                    },
                }
            },
        }
    }

    /// One step of the suspending-send state machine against the locked
    /// state. Each outcome holds exactly on its condition: a closed channel
    /// refuses the value; a full open ring refuses it (`once`) or queues
    /// the waker and hands the value back for the retry; an open ring with
    /// room commits the value and resumes one waiting receiver.
    pub fn send_step(&mut self, data: T, waker: core::task::Waker, once: bool) -> (r: SendStep<
        T,
    >)
        requires
            old(self).wf(),
        ensures
            final(self).wf(),
            final(self).cap == old(self).cap,
            final(self).open == old(self).open,
            match r {
                SendStep::Done(Ok(())) => {
                    &&& old(self).open
                    &&& old(self).count < old(self).cap
                    &&& final(self).sent@ == old(self).sent@.push(data)
                    &&& final(self).taken == old(self).taken
                    &&& final(self).count == old(self).count + 1
                    &&& final(self).sender_waiters == old(self).sender_waiters
                    &&& final(self).receiver_waiters.wakers@ == if old(
                        self,
                    ).receiver_waiters.wakers@.len() == 0 {
                        old(self).receiver_waiters.wakers@
                    } else {
                        old(self).receiver_waiters.wakers@.skip(1)
                    }
                },
                SendStep::Done(Err(SendError::CLOSED(v))) => v == data && !old(self).open && *final(self)
                    == *old(self),
                SendStep::Done(Err(SendError::FULL(v))) => v == data && once && old(self).open
                    && old(self).count >= old(self).cap && *final(self) == *old(self),
                SendStep::Done(Err(SendError::UNKNOWN(_, _))) => false,
                SendStep::Parked(v) => {
                    &&& v == data
                    &&& !once
                    &&& old(self).open
                    &&& old(self).count >= old(self).cap
                    &&& final(self).sender_waiters.wakers@ == old(
                        self,
                    ).sender_waiters.wakers@.push(waker)
                    &&& final(self).receiver_waiters == old(self).receiver_waiters
                    &&& final(self).sent == old(self).sent
                    &&& final(self).taken == old(self).taken
                    &&& final(self).count == old(self).count
                    &&& final(self).slots == old(self).slots
                },
            },
    {
        if !self.open {
            return SendStep::Done(SendError::CLOSED(data).into_err());
        }
        if self.count >= self.cap {
            if once {
                return SendStep::Done(SendError::FULL(data).into_err());
            }
            self.register_sender(waker);
            return SendStep::Parked(data);
        }
        match self.try_send(data) {
            Ok(()) => SendStep::Done(Ok(())),
            Err(e) => {
                // An open, non-full ring accepts the value.
                proof {
                    assert(false);
                }
                SendStep::Done(ChannelResult::Err(e))
            },
        }
    }

    /// One step of the suspending-receive state machine against the locked
    /// state. Each outcome holds exactly on its condition: a buffered value
    /// is delivered (also after closure — the buffer drains first); an
    /// empty closed channel reports `CLOSED`; an empty open one reports
    /// `EMPTY` (`once`) or queues the waker for the retry.
    pub fn recv_step(&mut self, waker: core::task::Waker, once: bool) -> (r: RecvStep<T>)
        requires
            old(self).wf(),
        ensures
            final(self).wf(),
            final(self).cap == old(self).cap,
            final(self).open == old(self).open,
            match r {
                RecvStep::Done(Ok(v)) => {
                    &&& old(self).count > 0
                    &&& v == old(self).sent@[old(self).read_cursor() as int]
                    &&& final(self).taken@ == old(self).taken@.push(v)
                    &&& final(self).sent == old(self).sent
                    &&& final(self).count == old(self).count - 1
                    &&& final(self).receiver_waiters == old(self).receiver_waiters
                    &&& final(self).sender_waiters.wakers@ == if old(
                        self,
                    ).sender_waiters.wakers@.len() == 0 {
                        old(self).sender_waiters.wakers@
                    } else {
                        old(self).sender_waiters.wakers@.skip(1)
                    }
                },
                RecvStep::Done(Err(RecvError::CLOSED)) => old(self).count == 0 && !old(self).open
                    && *final(self) == *old(self),
                RecvStep::Done(Err(RecvError::EMPTY)) => once && old(self).count == 0 && old(
                    self,
                ).open && *final(self) == *old(self),
                RecvStep::Done(Err(RecvError::UNKNOWN(_))) => false,
                RecvStep::Parked => {
                    &&& !once
                    &&& old(self).count == 0
                    &&& old(self).open
                    &&& final(self).receiver_waiters.wakers@ == old(
                        self,
                    ).receiver_waiters.wakers@.push(waker)
                    &&& final(self).sender_waiters == old(self).sender_waiters
                    &&& final(self).sent == old(self).sent
                    &&& final(self).taken == old(self).taken
                    &&& final(self).count == old(self).count
                    &&& final(self).slots == old(self).slots
                },
            },
    {
        match self.try_recv() {
            Ok(v) => RecvStep::Done(Ok(v)),
            Err(RecvError::CLOSED) => RecvStep::Done(RecvError::CLOSED.into_err()),
            Err(RecvError::EMPTY) => {
                if once {
                    RecvStep::Done(RecvError::EMPTY.into_err())
                } else {
                    self.register_receiver(waker);
                    RecvStep::Parked
                }
            },
            Err(RecvError::UNKNOWN(s)) => {
                // The locked state never reports an internal failure.
                proof {
                    assert(false);
                }
                RecvStep::Done(RecvError::UNKNOWN(s).into_err())
            },
        }
    }

    /// Queues a suspended sender's resumption handle.
    pub fn register_sender(&mut self, w: core::task::Waker) -> (r: bool)
        requires
            old(self).wf(),
        ensures
            final(self).wf(),
            r,
            final(self).sender_waiters.wakers@ == old(self).sender_waiters.wakers@.push(w),
            final(self).receiver_waiters == old(self).receiver_waiters,
            final(self).cap == old(self).cap,
            final(self).open == old(self).open,
            final(self).count == old(self).count,
            final(self).sent == old(self).sent,
            final(self).taken == old(self).taken,
            final(self).slots == old(self).slots,
    {
        let r = self.sender_waiters.register(w);
        proof {
            Self::lemma_inv_core_same(*old(self), *self);
        }
        r
    }

    /// Queues a suspended receiver's resumption handle.
    pub fn register_receiver(&mut self, w: core::task::Waker) -> (r: bool)
        requires
            old(self).wf(),
        ensures
            final(self).wf(),
            r,
            final(self).receiver_waiters.wakers@ == old(self).receiver_waiters.wakers@.push(w),
            final(self).sender_waiters == old(self).sender_waiters,
            final(self).cap == old(self).cap,
            final(self).open == old(self).open,
            final(self).count == old(self).count,
            final(self).sent == old(self).sent,
            final(self).taken == old(self).taken,
            final(self).slots == old(self).slots,
    {
        let r = self.receiver_waiters.register(w);
        proof {
            Self::lemma_inv_core_same(*old(self), *self);
        }
        r
    }

    /// Closes the channel and resumes every queued waiter in both
    /// directions, so each suspended operation re-runs and observes the
    /// closure. Closing never touches the buffer: buffered values stay
    /// readable. Idempotent.
    pub fn close(&mut self)
        requires
            old(self).wf(),
        ensures
            final(self).wf(),
            !final(self).open,
            final(self).cap == old(self).cap,
            final(self).count == old(self).count,
            final(self).sent == old(self).sent,
            final(self).taken == old(self).taken,
            final(self).slots == old(self).slots,
            final(self).sender_waiters.wakers@.len() == 0,
            final(self).receiver_waiters.wakers@.len() == 0,
    {
        self.open = false;
        self.receiver_waiters.resume(usize::MAX);
        self.sender_waiters.resume(usize::MAX);
        proof {
            Self::lemma_inv_core_same(*old(self), *self);
        }
    }

    /// One sweeper tick: re-resumes queued waiters whose condition may
    /// have changed under a missed wakeup. Queued receivers are resumed up
    /// to the current occupancy (all of them once closed); queued senders
    /// up to the free room (all once closed). Returns whether the sweeper
    /// may stop: only once the channel is closed and both queues are
    /// drained — while the channel is open, a waiter may park at any time
    /// and must be re-examined within a bounded number of ticks.
    pub fn sweep(&mut self) -> (done: bool)
        requires
            old(self).wf(),
        ensures
            final(self).wf(),
            final(self).cap == old(self).cap,
            final(self).open == old(self).open,
            final(self).count == old(self).count,
            final(self).sent == old(self).sent,
            final(self).taken == old(self).taken,
            final(self).slots == old(self).slots,
            done == (!final(self).open && final(self).sender_waiters.wakers@.len() == 0 && final(self).receiver_waiters.wakers@.len() == 0),
            final(self).receiver_waiters.wakers@ == (if old(self).receiver_waiters.wakers@.len() == 0 {
                old(self).receiver_waiters.wakers@
            } else if !old(self).open {
                old(self).receiver_waiters.wakers@.skip(
                    old(self).receiver_waiters.wakers@.len() as int,
                )
            } else if old(self).count > 0 {
                old(self).receiver_waiters.wakers@.skip(
                    if old(self).count as int <= old(self).receiver_waiters.wakers@.len() as int {
                        old(self).count as int
                    } else {
                        old(self).receiver_waiters.wakers@.len() as int
                    },
                )
            } else {
                old(self).receiver_waiters.wakers@
            }),
            final(self).sender_waiters.wakers@ == (if old(self).sender_waiters.wakers@.len()
                == 0 {
                old(self).sender_waiters.wakers@
            } else if !old(self).open {
                old(self).sender_waiters.wakers@.skip(old(self).sender_waiters.wakers@.len() as int)
            } else if old(self).count < old(self).cap {
                old(self).sender_waiters.wakers@.skip(
                    if (old(self).cap - old(self).count) as int <= old(self).sender_waiters.wakers@.len() as int {
                        (old(self).cap - old(self).count) as int
                    } else {
                        old(self).sender_waiters.wakers@.len() as int
                    },
                )
            } else {
                old(self).sender_waiters.wakers@
            }),
    {
        if self.receiver_waiters.len() > 0 {
            let len = self.count;
            if !self.open {
                self.receiver_waiters.resume(usize::MAX);
            } else if len > 0 {
                self.receiver_waiters.resume(len);
            }
        }
        if self.sender_waiters.len() > 0 {
            let len = self.count;
            if !self.open {
                self.sender_waiters.resume(usize::MAX);
            } else if len < self.cap {
                self.sender_waiters.resume(self.cap - len);
            }
        }
        proof {
            Self::lemma_inv_core_same(*old(self), *self);
        }
        !self.open && self.sender_waiters.len() == 0 && self.receiver_waiters.len() == 0
    }
}

/// Two log indices under the same ring position and less than one full turn
/// apart are the same index. This is why at most one buffered value can
/// claim any ring position.
pub proof fn lemma_ring_distinct(a: int, b: int, n: int)
    requires
        0 < n,
        a <= b,
        b - a < n,
        a % n == b % n,
    ensures
        a == b,
{
    lemma_mod_equivalence(b, a, n);
    lemma_small_mod((b - a) as nat, n as nat);
}

} // verus!
