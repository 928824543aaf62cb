//! Folding a fallible step over a sequence.
//!
//! The ledger applies lists of requests one by one, each to the state that
//! the one before left, and gives up at the first that is refused.  The
//! contracts state that as a fold.

use crate::error::Error;
use vstd::prelude::*;

verus! {

/// The state after `step` was applied to the first `n` items in turn,
/// starting from `init`, or the first error that a step gave.
pub open spec fn fold_results<S, T>(
    init: S,
    items: Seq<T>,
    step: spec_fn(S, T) -> Result<S, Error>,
    n: nat,
) -> Result<S, Error>
    decreases n,
{
    if n == 0 {
        Ok(init)
    } else {
        match fold_results(init, items, step, (n - 1) as nat) {
            Err(e) => Err(e),
            Ok(s) => step(s, items[n - 1]),
        }
    }
}

/// An error, once met, is the result of every longer fold.
pub proof fn lemma_fold_sticky<S, T>(
    init: S,
    items: Seq<T>,
    step: spec_fn(S, T) -> Result<S, Error>,
    k: nat,
    n: nat,
)
    requires
        k <= n,
    ensures
        fold_results(init, items, step, k) is Err ==> fold_results(init, items, step, n)
            == fold_results(init, items, step, k),
    decreases n,
{
    if k < n {
        lemma_fold_sticky(init, items, step, k, (n - 1) as nat);
    }
}

/// Two steps that agree everywhere give the same fold.
pub proof fn lemma_fold_same_steps<S, T>(
    init: S,
    items: Seq<T>,
    step1: spec_fn(S, T) -> Result<S, Error>,
    step2: spec_fn(S, T) -> Result<S, Error>,
    n: nat,
)
    requires
        forall|s: S, t: T| #[trigger] step1(s, t) == step2(s, t),
    ensures
        fold_results(init, items, step1, n) == fold_results(init, items, step2, n),
    decreases n,
{
    if n > 0 {
        lemma_fold_same_steps(init, items, step1, step2, (n - 1) as nat);
    }
}

/// What holds of the start and is kept by every step that succeeds, holds
/// of the result of a fold that succeeds.
pub proof fn lemma_fold_keeps<S, T>(
    init: S,
    items: Seq<T>,
    step: spec_fn(S, T) -> Result<S, Error>,
    n: nat,
    good: spec_fn(S) -> bool,
)
    requires
        good(init),
        forall|s: S, t: T| #[trigger] good(s) ==> (#[trigger] step(s, t) matches Ok(s2) ==> good(s2)),
    ensures
        fold_results(init, items, step, n) matches Ok(s) ==> good(s),
    decreases n,
{
    if n > 0 {
        lemma_fold_keeps(init, items, step, (n - 1) as nat, good);
    }
}

} // verus!
