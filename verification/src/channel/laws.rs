//! The channel's global laws, stated over the lock-protected state. Every
//! state a channel can reach satisfies `wf` — the constructor establishes
//! it and every operation preserves it, which the channel's lock enforces
//! at each release — so each law below holds in every reachable state.

use vstd::prelude::*;

use crate::channel::state::WaitDeque;

verus! {

/// Capacity invariant: in every reachable state the cursors obey
/// `0 <= write_cursor - read_cursor <= capacity`; the occupancy count is
/// exactly their difference.
pub proof fn lemma_capacity_invariant<T>(d: WaitDeque<T>)
    requires
        d.wf(),
    ensures
        0 <= d.write_cursor() - d.read_cursor() <= d.cap,
        d.count == d.write_cursor() - d.read_cursor(),
{
}

/// FIFO law: in every reachable state the values delivered so far are
/// exactly the first `read_cursor` values committed, in commit order — the
/// i-th successful receive returns the i-th successfully sent value — and
/// what is still buffered is the committed suffix, oldest first.
pub proof fn lemma_fifo<T>(d: WaitDeque<T>)
    requires
        d.wf(),
    ensures
        d.taken@.len() <= d.sent@.len(),
        forall|i: int| 0 <= i < d.taken@.len() ==> d.taken@[i] == d.sent@[i],
        d.buffered() == d.sent@.skip(d.taken@.len() as int),
{
    assert(d.buffered() =~= d.sent@.skip(d.taken@.len() as int));
}

/// No double claim: a claim hands out only a slot whose lock bit was clear
/// and leaves it set, so while one claim is unreleased at `held`, no
/// further claim can return `held` — claim/release brackets nest strictly
/// per slot. The claim functions' contracts supply both premises.
pub proof fn lemma_no_double_claim<T>(d: WaitDeque<T>, held: int, idx: int)
    requires
        0 <= held < d.slots@.len(),
        d.slots@[held].lock_bit,
        0 <= idx < d.slots@.len(),
        !d.slots@[idx].lock_bit,
    ensures
        idx != held,
{
}

} // verus!
