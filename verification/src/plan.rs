//! Carrying out a list of steps that may fail, one at a time.
//!
//! The hardware layer can do things, and the control core cannot; but whether to go on
//! after a thing has been done is for the control core to decide. A [`Plan`] hands out
//! one item at a time, hears whether it succeeded, and hands out the next one only if
//! it did: the first failure ends the plan with the plan's kind of error, and no item
//! after it is carried out.

use vstd::prelude::*;
use crate::error::ControlError;

verus! {

/// What the hardware layer is to do next.
#[derive(Debug, PartialEq, Eq)]
pub enum PlanAction<T> {
    /// Carry out this item and say whether it succeeded.
    Perform(T),
    /// Nothing more: every item has succeeded.
    Ready,
    /// Nothing more: an item has failed, and the items after it are left undone.
    Failed(ControlError),
}

/// Where a plan stands: the items to carry out, how many of them have succeeded, whether
/// the one after those has failed, and the error that a failure stands for.
pub struct PlanState<T> {
    pub items: Seq<T>,
    pub done: int,
    pub failed: bool,
    pub failure: ControlError,
}

impl<T> PlanState<T> {
    /// The count of items that have succeeded lies within the plan, and an item that has
    /// failed is one of the plan.
    pub open spec fn wf(self) -> bool {
        0 <= self.done <= self.items.len() && (self.failed ==> self.done < self.items.len())
    }

    /// The start of a plan: nothing has been carried out yet.
    pub open spec fn start(items: Seq<T>, failure: ControlError) -> PlanState<T> {
        PlanState { items, done: 0, failed: false, failure }
    }

    /// What the hardware layer is to do next: nothing once an item has failed or all have
    /// succeeded, and else the first item that has not been carried out.
    pub open spec fn action(self) -> PlanAction<T> {
        if self.failed {
            PlanAction::Failed(self.failure)
        } else if self.done < self.items.len() {
            PlanAction::Perform(self.items[self.done])
        } else {
            PlanAction::Ready
        }
    }

    /// What has become of the plan, once it has ended.
    pub open spec fn result(self) -> Option<Result<(), ControlError>> {
        if self.failed {
            Some(Err(self.failure))
        } else if self.done < self.items.len() {
            None
        } else {
            Some(Ok(()))
        }
    }

    /// The state after the hardware layer has said whether the item in hand succeeded.
    /// Once the plan has ended, nothing changes any more.
    pub open spec fn next(self, succeeded: bool) -> PlanState<T> {
        if self.failed || self.done >= self.items.len() {
            self
        } else if succeeded {
            PlanState { done: self.done + 1, ..self }
        } else {
            PlanState { failed: true, ..self }
        }
    }

    /// The state after the outcomes of the items have come in one after the other.
    pub open spec fn run(self, outcomes: Seq<bool>) -> PlanState<T>
        decreases outcomes.len(),
    {
        if outcomes.len() == 0 {
            self
        } else {
            self.run(outcomes.drop_last()).next(outcomes.last())
        }
    }
}

/// The outcomes are all successes, as far as they are outcomes of items of a plan of
/// `len` items.
pub open spec fn all_succeed(outcomes: Seq<bool>, len: int) -> bool {
    forall|i: int| 0 <= i < outcomes.len() && i < len ==> #[trigger] outcomes[i]
}

/// The outcome at `k` is the first failure, and belongs to an item of a plan of `len`
/// items.
pub open spec fn fails_first_at(outcomes: Seq<bool>, len: int, k: int) -> bool {
    &&& 0 <= k < outcomes.len()
    &&& k < len
    &&& !outcomes[k]
    &&& forall|i: int| 0 <= i < k ==> #[trigger] outcomes[i]
}

/// The items do not change, and the count of those that have succeeded never falls and
/// stays within the plan.
pub proof fn lemma_run_keeps_plan<T>(s: PlanState<T>, outcomes: Seq<bool>)
    requires
        s.wf(),
    ensures
        s.run(outcomes).wf(),
        s.run(outcomes).items == s.items,
        s.run(outcomes).failure == s.failure,
        s.run(outcomes).done >= s.done,
    decreases outcomes.len(),
{
    if outcomes.len() > 0 {
        lemma_run_keeps_plan(s, outcomes.drop_last());
    }
}

/// Taking in a run of outcomes is the same as taking in its first `k`, then the rest.
pub proof fn lemma_run_splits_plan<T>(s: PlanState<T>, outcomes: Seq<bool>, k: int)
    requires
        0 <= k <= outcomes.len(),
    ensures
        s.run(outcomes) == s.run(outcomes.take(k)).run(outcomes.skip(k)),
    decreases outcomes.len(),
{
    if k == outcomes.len() {
        assert(outcomes.take(k) =~= outcomes);
        assert(outcomes.skip(k) =~= Seq::<bool>::empty());
    } else {
        let front = outcomes.drop_last();
        lemma_run_splits_plan(s, front, k);
        assert(front.take(k) =~= outcomes.take(k));
        assert(front.skip(k) =~= outcomes.skip(k).drop_last());
    }
}

/// While every item succeeds, the plan moves on by one item for each outcome, and it is
/// ready exactly when the outcomes of all items are in.
pub proof fn lemma_plan_succeeds<T>(items: Seq<T>, failure: ControlError, outcomes: Seq<bool>)
    requires
        all_succeed(outcomes, items.len() as int),
    ensures
        PlanState::start(items, failure).run(outcomes) == (PlanState {
            items,
            done: if outcomes.len() < items.len() {
                outcomes.len() as int
            } else {
                items.len() as int
            },
            failed: false,
            failure,
        }),
        PlanState::start(items, failure).run(outcomes).result() == Some(
            Ok::<(), ControlError>(()),
        ) <==> outcomes.len() >= items.len(),
    decreases outcomes.len(),
{
    if outcomes.len() > 0 {
        let front = outcomes.drop_last();
        assert forall|i: int| 0 <= i < front.len() && i < items.len() implies #[trigger] front[i] by {
            assert(outcomes[i]);
        }
        lemma_plan_succeeds(items, failure, front);
        if outcomes.len() <= items.len() {
            assert(outcomes[outcomes.len() - 1]);
        }
    }
}

/// The first item that fails ends the plan with its kind of error, whatever comes in
/// after it; the items before it have been carried out and no item after it is.
pub proof fn lemma_plan_stops_at_first_failure<T>(
    items: Seq<T>,
    failure: ControlError,
    outcomes: Seq<bool>,
    k: int,
)
    requires
        fails_first_at(outcomes, items.len() as int, k),
    ensures
        PlanState::start(items, failure).run(outcomes) == (PlanState {
            items,
            done: k,
            failed: true,
            failure,
        }),
        PlanState::start(items, failure).run(outcomes).result() == Some(
            Err::<(), ControlError>(failure),
        ),
        forall|n: int|
            0 <= n <= outcomes.len() ==> (#[trigger] PlanState::start(items, failure).run(
                outcomes.take(n),
            )).done <= k,
    decreases outcomes.len(),
{
    let start = PlanState::start(items, failure);
    let front = outcomes.drop_last();
    if outcomes.len() - 1 == k {
        assert forall|i: int| 0 <= i < front.len() && i < items.len() implies #[trigger] front[i] by {
            assert(outcomes[i]);
        }
        lemma_plan_succeeds(items, failure, front);
    } else {
        assert(fails_first_at(front, items.len() as int, k)) by {
            assert(front[k] == outcomes[k]);
            assert forall|i: int| 0 <= i < k implies #[trigger] front[i] by {
                assert(outcomes[i]);
            }
        }
        lemma_plan_stops_at_first_failure(items, failure, front, k);
    }
    assert forall|n: int| 0 <= n <= outcomes.len() implies (#[trigger] start.run(
        outcomes.take(n),
    )).done <= k by {
        if n == outcomes.len() {
            assert(outcomes.take(n) =~= outcomes);
        } else if outcomes.len() - 1 == k {
            let shorter = outcomes.take(n);
            assert forall|i: int|
                0 <= i < shorter.len() && i < items.len() implies #[trigger] shorter[i] by {
                assert(outcomes[i]);
            }
            lemma_plan_succeeds(items, failure, shorter);
        } else {
            assert(front.take(n) =~= outcomes.take(n));
        }
    }
}

/// A list of items that is carried out one at a time, up to the first that fails.
#[derive(Debug)]
pub struct Plan<T> {
    items: Vec<T>,
    done: usize,
    failed: bool,
    failure: ControlError,
}

impl<T> View for Plan<T> {
    type V = PlanState<T>;

    closed spec fn view(&self) -> PlanState<T> {
        PlanState {
            items: self.items@,
            done: self.done as int,
            failed: self.failed,
            failure: self.failure,
        }
    }
}

impl<T> Plan<T> {
    #[verifier::type_invariant]
    spec fn inv(self) -> bool {
        self@.wf()
    }
}

impl<T: Copy> Plan<T> {
    /// A plan that has `items` to carry out and has not begun; if one of them fails, the
    /// plan fails with `failure`.
    pub fn new(items: Vec<T>, failure: ControlError) -> (r: Plan<T>)
        ensures
            r@ == PlanState::start(items@, failure),
    {
        Plan { items, done: 0, failed: false, failure }
    }

    /// How many items have succeeded.
    pub fn done(&self) -> (r: usize)
        ensures
            r == self@.done,
            r <= self@.items.len(),
    {
        proof {
            use_type_invariant(self);
        }
        self.done
    }

    /// What the hardware layer is to do next.
    pub fn action(&self) -> (r: PlanAction<T>)
        ensures
            r == self@.action(),
    {
        proof {
            use_type_invariant(self);
        }
        if self.failed {
            PlanAction::Failed(self.failure)
        } else if self.done < self.items.len() {
            PlanAction::Perform(self.items[self.done])
        } else {
            PlanAction::Ready
        }
    }

    /// What has become of the plan, once it has ended: `Ok` if every item has succeeded,
    /// the plan's kind of error if one has failed.
    pub fn result(&self) -> (r: Option<Result<(), ControlError>>)
        ensures
            r == self@.result(),
    {
        proof {
            use_type_invariant(self);
        }
        if self.failed {
            Some(Err(self.failure))
        } else if self.done < self.items.len() {
            None
        } else {
            Some(Ok(()))
        }
    }

    /// Hands out `value`, which stands for what the plan was to bring about, only if the
    /// plan has brought it about: every item has succeeded. Otherwise the value is
    /// dropped and the plan's kind of error comes back, also for a plan that has not
    /// ended yet.
    pub fn conclude<V>(&self, value: V) -> (r: Result<V, ControlError>)
        ensures
            self@.result() == Some(Ok::<(), ControlError>(())) ==> r == Ok::<V, ControlError>(value),
            self@.result() != Some(Ok::<(), ControlError>(())) ==> r == Err::<V, ControlError>(
                self@.failure,
            ),
    {
        proof {
            use_type_invariant(self);
        }
        if !self.failed && self.done >= self.items.len() {
            Ok(value)
        } else {
            Err(self.failure)
        }
    }

    /// Takes in whether the item in hand succeeded, and says what to do next: the next
    /// item after a success, nothing more after a failure.
    pub fn step(&mut self, succeeded: bool) -> (r: PlanAction<T>)
        ensures
            final(self)@ == old(self)@.next(succeeded),
            r == final(self)@.action(),
    {
        proof {
            use_type_invariant(&*self);
        }
        if !self.failed && self.done < self.items.len() {
            if succeeded {
                self.done = self.done + 1;
            } else {
                self.failed = true;
            }
        }
        self.action()
    }
}

} // verus!
