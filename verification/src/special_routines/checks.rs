//! The first failing check among a run of checks.
use vstd::prelude::*;

verus! {

/// The first error among checks `0..n`, each check given by `f`.
pub open spec fn first_error<E>(f: spec_fn(int) -> Option<E>, n: int) -> Option<E>
    decreases n,
{
    if n <= 0 {
        None
    } else {
        match first_error(f, n - 1) {
            Some(e) => Some(e),
            None => f(n - 1),
        }
    }
}

/// Once a prefix of the checks has an error, every longer prefix has the same first error.
pub proof fn lemma_first_error_stays<E>(f: spec_fn(int) -> Option<E>, n: int, m: int)
    requires
        0 <= n <= m,
        first_error(f, n) is Some,
    ensures
        first_error(f, m) == first_error(f, n),
    decreases m - n,
{
    if m > n {
        lemma_first_error_stays(f, n, m - 1);
    }
}

/// Two runs of checks that agree on `0..n` have the same first error there.
pub proof fn lemma_first_error_agree<E>(f: spec_fn(int) -> Option<E>, g: spec_fn(int) -> Option<E>, n: int)
    requires
        forall|i: int| 0 <= i < n ==> #[trigger] f(i) == g(i),
    ensures
        first_error(f, n) == first_error(g, n),
    decreases n,
{
    if n > 0 {
        lemma_first_error_agree(f, g, n - 1);
    }
}

/// The issues of checks `0..n` laid end to end, each check given by `f`.
pub open spec fn concat_issues<V>(f: spec_fn(int) -> Seq<V>, n: int) -> Seq<V>
    decreases n,
{
    if n <= 0 {
        seq![]
    } else {
        concat_issues(f, n - 1) + f(n - 1)
    }
}

/// The run of checks has no first error exactly when no check in it fails.
pub proof fn lemma_first_error_none<E>(f: spec_fn(int) -> Option<E>, n: int)
    requires
        n >= 0,
    ensures
        first_error(f, n) is None <==> forall|i: int| 0 <= i < n ==> #[trigger] f(i) is None,
    decreases n,
{
    if n > 0 {
        lemma_first_error_none(f, n - 1);
        if first_error(f, n) is None {
            assert forall|i: int| 0 <= i < n implies #[trigger] f(i) is None by {
                if i < n - 1 {
                }
            }
        }
    }
}

/// The issues laid end to end are none exactly when each check finds none.
pub proof fn lemma_concat_issues_empty<V>(f: spec_fn(int) -> Seq<V>, n: int)
    requires
        n >= 0,
    ensures
        concat_issues(f, n).len() == 0 <==> forall|i: int| 0 <= i < n ==> #[trigger] f(i).len() == 0,
    decreases n,
{
    if n > 0 {
        lemma_concat_issues_empty(f, n - 1);
        if concat_issues(f, n).len() == 0 {
            assert forall|i: int| 0 <= i < n implies #[trigger] f(i).len() == 0 by {
                if i < n - 1 {
                }
            }
        }
    }
}

} // verus!
