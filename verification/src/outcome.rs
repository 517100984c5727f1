//! The three-way classification of a linted file and of a whole run.

use vstd::prelude::*;
use vstd::seq_lib::to_multiset_contains;

verus! {

/// How linting one file, or a whole run, ended.
#[derive(Clone, Copy, Debug, PartialEq, Eq, Structural)]
pub enum Outcome {
    /// At least one error was reported.
    Failure,
    /// No error, but at least one warning.
    Warning,
    /// Neither errors nor warnings.
    Success,
}

impl Outcome {
    /// Position in the order `Success < Warning < Failure`.
    pub open spec fn rank(self) -> nat {
        match self {
            Outcome::Success => 0,
            Outcome::Warning => 1,
            Outcome::Failure => 2,
        }
    }

    /// The greater of two outcomes.
    pub open spec fn spec_join(self, other: Outcome) -> Outcome {
        if self.rank() >= other.rank() {
            self
        } else {
            other
        }
    }

    /// The greatest outcome of a sequence, `Success` when it is empty.
    pub open spec fn spec_merge(outcomes: Seq<Outcome>) -> Outcome
        decreases outcomes.len(),
    {
        if outcomes.len() == 0 {
            Outcome::Success
        } else {
            Outcome::spec_merge(outcomes.drop_last()).spec_join(outcomes.last())
        }
    }

    /// The greater of two outcomes.
    pub fn join(self, other: Outcome) -> (r: Outcome)
        ensures
            r == self.spec_join(other),
    {
        match (self, other) {
            (Outcome::Failure, _) => Outcome::Failure,
            (_, Outcome::Failure) => Outcome::Failure,
            (Outcome::Warning, _) => Outcome::Warning,
            (_, Outcome::Warning) => Outcome::Warning,
            _ => Outcome::Success,
        }
    }

    /// Merges any number of outcomes into one: the greatest of them.
    pub fn merge(outcomes: &Vec<Outcome>) -> (r: Outcome)
        ensures
            r == Outcome::spec_merge(outcomes@),
    {
        let mut overall = Outcome::Success;
        let mut i: usize = 0;
        while i < outcomes.len()
            invariant
                i <= outcomes.len(),
                overall == Outcome::spec_merge(outcomes@.take(i as int)),
            decreases outcomes.len() - i,
        {
            assert(outcomes@.take(i + 1).drop_last() =~= outcomes@.take(i as int));
            overall = overall.join(outcomes[i]);
            i += 1;
        }
        assert(outcomes@.take(i as int) =~= outcomes@);
        overall
    }
}

/// Joining two outcomes does not depend on their order.
pub proof fn lemma_join_commutative(a: Outcome, b: Outcome)
    ensures
        a.spec_join(b) == b.spec_join(a),
{
}

/// Joining three outcomes does not depend on how they are grouped.
pub proof fn lemma_join_associative(a: Outcome, b: Outcome, c: Outcome)
    ensures
        a.spec_join(b).spec_join(c) == a.spec_join(b.spec_join(c)),
{
}

/// The merged outcome is the greatest of the outcomes: `Failure` exactly
/// when one of them is a failure, `Warning` exactly when one of them is a
/// warning and none a failure, and `Success` exactly when all of them are
/// successes, which holds of no outcomes at all.
pub proof fn lemma_merge_is_maximum(outcomes: Seq<Outcome>)
    ensures
        Outcome::spec_merge(outcomes) == Outcome::Failure <==> outcomes.contains(Outcome::Failure),
        Outcome::spec_merge(outcomes) == Outcome::Warning <==> outcomes.contains(Outcome::Warning)
            && !outcomes.contains(Outcome::Failure),
        Outcome::spec_merge(outcomes) == Outcome::Success <==> forall|i: int|
            0 <= i < outcomes.len() ==> outcomes[i] == Outcome::Success,
    decreases outcomes.len(),
{
    if outcomes.len() > 0 {
        let rest = outcomes.drop_last();
        lemma_merge_is_maximum(rest);
        assert forall|which: Outcome| outcomes.contains(which) <==> rest.contains(which)
            || outcomes.last() == which by {
            if outcomes.contains(which) {
                let i = choose|i: int| 0 <= i < outcomes.len() && outcomes[i] == which;
                if i < rest.len() {
                    assert(rest[i] == which);
                }
            }
            if rest.contains(which) {
                let i = choose|i: int| 0 <= i < rest.len() && rest[i] == which;
                assert(outcomes[i] == which);
            }
            if outcomes.last() == which {
                assert(outcomes[outcomes.len() - 1] == which);
            }
        }
        if forall|i: int| 0 <= i < outcomes.len() ==> outcomes[i] == Outcome::Success {
            assert forall|i: int| 0 <= i < rest.len() implies rest[i] == Outcome::Success by {
                assert(rest[i] == outcomes[i]);
            }
            assert(outcomes[outcomes.len() - 1] == Outcome::Success);
        }
        if Outcome::spec_merge(outcomes) == Outcome::Success {
            assert forall|i: int| 0 <= i < outcomes.len() implies outcomes[i]
                == Outcome::Success by {
                if i < rest.len() {
                    assert(rest[i] == outcomes[i]);
                }
            }
        }
    }
}

/// Merging is associative: merging two lists of outcomes one after the
/// other gives the join of what each list merges to.
pub proof fn lemma_merge_concat(a: Seq<Outcome>, b: Seq<Outcome>)
    ensures
        Outcome::spec_merge(a + b) == Outcome::spec_merge(a).spec_join(Outcome::spec_merge(b)),
    decreases b.len(),
{
    if b.len() == 0 {
        assert(a + b =~= a);
    } else {
        lemma_merge_concat(a, b.drop_last());
        assert((a + b).drop_last() =~= a + b.drop_last());
        assert((a + b).last() == b.last());
    }
}

/// Merging is commutative: outcomes that differ only in their order merge
/// to the same outcome.
pub proof fn lemma_merge_any_order(a: Seq<Outcome>, b: Seq<Outcome>)
    requires
        a.to_multiset() == b.to_multiset(),
    ensures
        Outcome::spec_merge(a) == Outcome::spec_merge(b),
{
    lemma_merge_is_maximum(a);
    lemma_merge_is_maximum(b);
    to_multiset_contains(a, Outcome::Failure);
    to_multiset_contains(b, Outcome::Failure);
    to_multiset_contains(a, Outcome::Warning);
    to_multiset_contains(b, Outcome::Warning);
}

} // verus!
