//! Identifiers that tell endpoints and connections apart in log output.
use vstd::prelude::*;

verus! {

/// An identifier used in log output.
#[derive(Clone, Copy, Debug, PartialEq, Eq, Structural)]
pub struct LogId(pub usize);

/// The index after `i`, wrapping at the end of `usize`.
pub open spec fn next_index(i: usize) -> usize {
    if i == usize::MAX {
        0
    } else {
        (i + 1) as usize
    }
}

/// Hands out log identifiers in increasing order, wrapping at the end of `usize`.
pub struct LogIdGen {
    index: usize,
}

impl LogIdGen {
    /// The identifier the next call of `next` returns.
    pub closed spec fn spec_index(&self) -> usize {
        self.index
    }

    /// A generator starting at `0`.
    pub fn new() -> (r: Self)
        ensures
            r.spec_index() == 0,
    {
        LogIdGen { index: 0 }
    }

    /// Returns the current identifier and moves on to the next one.
    pub fn next(&mut self) -> (r: LogId)
        ensures
            r.0 == old(self).spec_index(),
            final(self).spec_index() == next_index(old(self).spec_index()),
    {
        let idx = self.index;
        self.index = self.index.wrapping_add(1);
        LogId(idx)
    }
}

/// The index reached from `i` after `k` calls of `next`.
pub open spec fn nth_index(i: usize, k: nat) -> usize
    decreases k,
{
    if k == 0 {
        i
    } else {
        next_index(nth_index(i, (k - 1) as nat))
    }
}

/// After `k` calls, the index is `i + k` modulo the size of `usize`.
proof fn lemma_nth_index(i: usize, k: nat)
    ensures
        nth_index(i, k) == (i + k) % (usize::MAX + 1),
    decreases k,
{
    let m = (usize::MAX + 1) as int;
    if k == 0 {
        vstd::arithmetic::div_mod::lemma_small_mod(i as nat, m as nat);
    } else {
        lemma_nth_index(i, (k - 1) as nat);
        let p = (i + k - 1) % m;
        vstd::arithmetic::div_mod::lemma_add_mod_noop((i + k - 1) as int, 1, m);
        vstd::arithmetic::div_mod::lemma_small_mod(1, m as nat);
        if p + 1 < m {
            vstd::arithmetic::div_mod::lemma_small_mod((p + 1) as nat, m as nat);
        } else {
            vstd::arithmetic::div_mod::lemma_mod_self_0(m);
        }
    }
}

/// Log identifiers never repeat before the whole range of `usize` has been
/// handed out: the identifier returned `k` calls after `i`, for
/// `0 < k <= usize::MAX`, differs from `i`.
pub proof fn lemma_log_ids_distinct(i: usize, k: nat)
    requires
        0 < k <= usize::MAX,
    ensures
        nth_index(i, k) != i,
{
    lemma_nth_index(i, k);
    let m = (usize::MAX + 1) as int;
    if i + k < m {
        vstd::arithmetic::div_mod::lemma_small_mod((i + k) as nat, m as nat);
    } else {
        vstd::arithmetic::div_mod::lemma_mod_sub_multiples_vanish((i + k) as int, m);
        vstd::arithmetic::div_mod::lemma_small_mod((i + k - m) as nat, m as nat);
    }
}

} // verus!
