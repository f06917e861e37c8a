//! The two ways of granting or revoking access to a sub-range of the
//! reservation, and the order in which they are tried.
use vstd::prelude::*;

verus! {

/// How pages of the reservation are made readable and writable.
///
/// The variants are ranked: changing the protection in place comes first,
/// mapping a fresh fixed region over the same range is the fallback.
#[derive(PartialEq, Eq, Structural, PartialOrd, Ord, Clone, Copy, Debug)]
pub enum CommitStrategy {
    Mprotect,
    MmapFixed,
}

/// How pages of the reservation are made inaccessible again, ranked as
/// `CommitStrategy` is.
#[derive(PartialEq, Eq, Structural, PartialOrd, Ord, Clone, Copy, Debug)]
pub enum DecommitStrategy {
    Mprotect,
    MmapFixed,
}

/// The strategies to try for a commit, in order, given the one preferred:
/// a preference for the in-place change tries it and then falls back; a
/// preference for the fixed mapping goes straight to it.
pub open spec fn commit_attempts(prefer: CommitStrategy) -> Seq<CommitStrategy> {
    match prefer {
        CommitStrategy::Mprotect => seq![CommitStrategy::Mprotect, CommitStrategy::MmapFixed],
        CommitStrategy::MmapFixed => seq![CommitStrategy::MmapFixed],
    }
}

/// The strategies to try for a decommit, in order, given the one preferred.
pub open spec fn decommit_attempts(prefer: DecommitStrategy) -> Seq<DecommitStrategy> {
    match prefer {
        DecommitStrategy::Mprotect => seq![DecommitStrategy::Mprotect, DecommitStrategy::MmapFixed],
        DecommitStrategy::MmapFixed => seq![DecommitStrategy::MmapFixed],
    }
}

/// The order in which a commit tries its strategies. The first one that
/// succeeds is the one to prefer next time.
pub fn commit_order(prefer: CommitStrategy) -> (r: Vec<CommitStrategy>)
    ensures
        r@ == commit_attempts(prefer),
{
    let mut r: Vec<CommitStrategy> = Vec::new();
    if let CommitStrategy::Mprotect = prefer {
        r.push(CommitStrategy::Mprotect);
    }
    r.push(CommitStrategy::MmapFixed);
    proof {
        assert(r@ =~= commit_attempts(prefer));
    }
    r
}

/// The order in which a decommit tries its strategies.
pub fn decommit_order(prefer: DecommitStrategy) -> (r: Vec<DecommitStrategy>)
    ensures
        r@ == decommit_attempts(prefer),
{
    let mut r: Vec<DecommitStrategy> = Vec::new();
    if let DecommitStrategy::Mprotect = prefer {
        r.push(DecommitStrategy::Mprotect);
    }
    r.push(DecommitStrategy::MmapFixed);
    proof {
        assert(r@ =~= decommit_attempts(prefer));
    }
    r
}

} // verus!
