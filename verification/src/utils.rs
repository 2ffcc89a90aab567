//! Joining a set of homogeneous concurrent tasks.
//!
//! [`WaitFor`] holds one state per task, in the order in which the tasks were
//! handed over: `Pending` while the task runs, `Ready` once it has returned.
//! A poll drives every pending task once and then decides, by the strategy,
//! whether the join is over. With [`Strategy::Any`] the join is over as soon
//! as one task is ready, and what it hands back is the whole snapshot, pending
//! tasks included, so that the caller can join again on what is left.

use core::future::Future;
use core::pin::Pin;
use core::task::Context;
use vstd::prelude::*;

verus! {

/// `core::pin::Pin`, a pointer whose target stays where it is.
#[verifier::external_type_specification]
#[verifier::external_body]
#[verifier::reject_recursive_types(Ptr)]
pub struct ExPin<Ptr>(Pin<Ptr>);

/// `core::task::Context`, what a task is polled with.
#[verifier::external_type_specification]
#[verifier::external_body]
pub struct ExContext<'a>(Context<'a>);

/// `Box::pin` moves a value to the heap and pins it there. Nothing is stated
/// of the pinned value.
pub assume_specification<T>[ Box::<T>::pin ](value: T) -> Pin<Box<T>>;

/// `Future::poll` on a pinned, boxed task, with `Poll::Ready` written as
/// `Some` and `Poll::Pending` as `None`. Whether the task is ready depends on
/// the task and on the world, so nothing is stated of the outcome. A task
/// that has handed out its output must not be polled again.
#[verifier::external_body]
fn poll_task<F: Future>(task: &mut Pin<Box<F>>, cx: &mut Context<'_>) -> Option<F::Output> {
    match task.as_mut().poll(cx) {
        core::task::Poll::Ready(output) => Some(output),
        core::task::Poll::Pending => None,
    }
}

/// When a join is over.
#[derive(Debug, Clone, Copy, PartialEq, Eq, Structural)]
pub enum Strategy {
    /// As soon as one task is ready.
    Any,
    /// Once every task is ready.
    All,
}

/// The state of one task of a join.
#[verifier::reject_recursive_types(F)]
pub enum FutureState<F: Future> {
    /// The task has returned, and this is what it returned.
    Ready(F::Output),
    /// The task is still running.
    Pending(Pin<Box<F>>),
}

impl<F: Future> FutureState<F> {
    /// Whether the task has returned.
    pub fn is_ready(&self) -> (ready: bool)
        ensures
            ready == (self is Ready),
    {
        match self {
            FutureState::Ready(_) => true,
            FutureState::Pending(_) => false,
        }
    }
}

/// The number of tasks of a snapshot that have returned.
pub open spec fn ready_count<F: Future>(states: Seq<FutureState<F>>) -> nat
    decreases states.len(),
{
    if states.len() == 0 {
        0
    } else {
        ready_count(states.drop_last()) + if states.last() is Ready {
            1nat
        } else {
            0nat
        }
    }
}

/// Whether a join with `strategy` is over in the snapshot `states`.
pub open spec fn resolved<F: Future>(strategy: Strategy, states: Seq<FutureState<F>>) -> bool {
    match strategy {
        Strategy::Any => ready_count(states) >= 1,
        Strategy::All => ready_count(states) == states.len(),
    }
}

/// Whether `after` can follow `before` in the life of one join: the tasks
/// keep their positions, and a task that has returned keeps what it returned.
/// A pending task may stay pending or have become ready.
pub open spec fn advances<F: Future>(
    before: Seq<FutureState<F>>,
    after: Seq<FutureState<F>>,
) -> bool {
    &&& after.len() == before.len()
    &&& forall|i: int| 0 <= i < before.len() && before[i] is Ready ==> after[i] == before[i]
}

/// No snapshot counts more ready tasks than it has tasks.
pub proof fn lemma_ready_count_bounded<F: Future>(states: Seq<FutureState<F>>)
    ensures
        ready_count(states) <= states.len(),
    decreases states.len(),
{
    if states.len() > 0 {
        lemma_ready_count_bounded(states.drop_last());
    }
}

/// Every task is ready exactly when the count of ready tasks is the number
/// of tasks.
pub proof fn lemma_all_ready<F: Future>(states: Seq<FutureState<F>>)
    ensures
        ready_count(states) == states.len() <==> forall|i: int|
            0 <= i < states.len() ==> states[i] is Ready,
    decreases states.len(),
{
    if states.len() > 0 {
        let front = states.drop_last();
        lemma_all_ready(front);
        lemma_ready_count_bounded(front);
        if ready_count(states) == states.len() {
            assert forall|i: int| 0 <= i < states.len() implies states[i] is Ready by {
                if i < front.len() {
                    assert(front[i] is Ready);
                }
            }
        }
        if forall|i: int| 0 <= i < states.len() ==> states[i] is Ready {
            assert forall|i: int| 0 <= i < front.len() implies front[i] is Ready by {
                assert(states[i] is Ready);
            }
        }
    }
}

/// Some task is ready exactly when the count of ready tasks is not zero.
pub proof fn lemma_any_ready<F: Future>(states: Seq<FutureState<F>>)
    ensures
        ready_count(states) >= 1 <==> exists|i: int| 0 <= i < states.len() && states[i] is Ready,
    decreases states.len(),
{
    if states.len() > 0 {
        let front = states.drop_last();
        lemma_any_ready(front);
        if ready_count(states) >= 1 {
            if states.last() is Ready {
                assert(states[states.len() - 1] is Ready);
            } else {
                let i = choose|i: int| 0 <= i < front.len() && front[i] is Ready;
                assert(states[i] is Ready);
            }
        }
        if exists|i: int| 0 <= i < states.len() && states[i] is Ready {
            let i = choose|i: int| 0 <= i < states.len() && states[i] is Ready;
            if i < front.len() {
                assert(front[i] is Ready);
            }
        }
    }
}

/// Transitions go one way only: along any chain of snapshots the ready tasks
/// stay ready with their results, so the chain as a whole is an advance too.
pub proof fn lemma_advances_transitive<F: Future>(
    first: Seq<FutureState<F>>,
    second: Seq<FutureState<F>>,
    third: Seq<FutureState<F>>,
)
    requires
        advances(first, second),
        advances(second, third),
    ensures
        advances(first, third),
{
}

/// The count of ready tasks never falls from one snapshot to a later one.
pub proof fn lemma_ready_count_grows<F: Future>(
    before: Seq<FutureState<F>>,
    after: Seq<FutureState<F>>,
)
    requires
        advances(before, after),
    ensures
        ready_count(before) <= ready_count(after),
    decreases before.len(),
{
    if before.len() > 0 {
        assert(after.last() == after[before.len() - 1]);
        assert forall|i: int|
            0 <= i < before.drop_last().len() && before.drop_last()[i] is Ready implies after.drop_last()[i]
            == before.drop_last()[i] by {
            assert(before[i] is Ready);
        }
        lemma_ready_count_grows(before.drop_last(), after.drop_last());
    }
}

/// A join over a set of tasks.
#[verifier::reject_recursive_types(F)]
pub struct WaitFor<F: Future> {
    strategy: Strategy,
    future_states: Vec<FutureState<F>>,
}

impl<F: Future> WaitFor<F> {
    /// The states of the tasks, in the order in which the tasks were handed over.
    pub closed spec fn states(&self) -> Seq<FutureState<F>> {
        self.future_states@
    }

    /// When this join is over.
    pub closed spec fn strategy(&self) -> Strategy {
        self.strategy
    }

    /// Gives the join up and hands back the tasks as they stand, ready or pending.
    pub fn cease(self) -> (states: Vec<FutureState<F>>)
        ensures
            states@ == self.states(),
    {
        self.future_states
    }

    /// The number of tasks that the join still holds.
    pub fn len(&self) -> (len: usize)
        ensures
            len == self.states().len(),
    {
        self.future_states.len()
    }

    /// Records that the task at `index` has returned `output`. A pending task
    /// becomes ready with that output. Nothing changes where `index` names no
    /// task or a task that was ready before: a result, once there, stays.
    pub fn complete(&mut self, index: usize, output: F::Output) -> (recorded: bool)
        ensures
            recorded == (index < old(self).states().len() && old(self).states()[index as int]
                is Pending),
            recorded ==> final(self).states() == old(self).states().update(
                index as int,
                FutureState::Ready(output),
            ),
            !recorded ==> final(self).states() == old(self).states(),
            final(self).strategy() == old(self).strategy(),
            advances(old(self).states(), final(self).states()),
    {
        if index < self.future_states.len() && !self.future_states[index].is_ready() {
            self.future_states[index] = FutureState::Ready(output);
            true
        } else {
            false
        }
    }

    /// Decides whether the join is over as the tasks stand. If it is, hands
    /// the states out, in their order, and keeps none; if it is not, changes
    /// nothing.
    pub fn resolve(&mut self) -> (snapshot: Option<Vec<FutureState<F>>>)
        ensures
            snapshot is Some <==> resolved(old(self).strategy(), old(self).states()),
            snapshot matches Some(states) ==> states@ == old(self).states(),
            snapshot is Some ==> final(self).states().len() == 0,
            snapshot is None ==> final(self).states() == old(self).states(),
            final(self).strategy() == old(self).strategy(),
    {
        let ready = self.count_ready();
        let over = match self.strategy {
            Strategy::Any => ready > 0,
            Strategy::All => ready == self.future_states.len(),
        };
        if over {
            let mut states: Vec<FutureState<F>> = Vec::new();
            core::mem::swap(&mut self.future_states, &mut states);
            Some(states)
        } else {
            None
        }
    }

    /// The number of tasks that have returned.
    pub fn count_ready(&self) -> (ready: usize)
        ensures
            ready == ready_count(self.states()),
    {
        let mut ready: usize = 0;
        let mut i: usize = 0;
        while i < self.future_states.len()
            invariant
                i <= self.future_states.len(),
                ready <= i,
                ready == ready_count(self.future_states@.subrange(0, i as int)),
            decreases self.future_states.len() - i,
        {
            proof {
                assert(self.future_states@.subrange(0, i + 1).drop_last()
                    =~= self.future_states@.subrange(0, i as int));
            }
            if self.future_states[i].is_ready() {
                ready += 1;
            }
            i += 1;
        }
        proof {
            assert(self.future_states@.subrange(0, i as int) =~= self.future_states@);
        }
        ready
    }

    /// Polls every pending task once, in order, and turns each one that has
    /// returned into `Ready` in its place. Then decides as `resolve` does.
    ///
    /// Which tasks return is not in this function's hands. Whatever they do:
    /// the snapshot after the poll is an advance on the one before; the join
    /// is over exactly when the strategy says so of that snapshot; and if it
    /// is over the snapshot is handed out and none is kept, else it is kept.
    pub fn poll(&mut self, cx: &mut Context<'_>) -> (snapshot: Option<Vec<FutureState<F>>>)
        ensures
            final(self).strategy() == old(self).strategy(),
            snapshot matches Some(states) ==> advances(old(self).states(), states@),
            snapshot matches Some(states) ==> resolved(old(self).strategy(), states@),
            snapshot is Some ==> final(self).states().len() == 0,
            snapshot is None ==> advances(old(self).states(), final(self).states()),
            snapshot is None ==> !resolved(old(self).strategy(), final(self).states()),
    {
        let mut i: usize = 0;
        while i < self.future_states.len()
            invariant
                i <= self.future_states.len(),
                self.strategy == old(self).strategy,
                advances(old(self).future_states@, self.future_states@),
            decreases self.future_states.len() - i,
        {
            let outcome = match &mut self.future_states[i] {
                FutureState::Ready(_) => None,
                FutureState::Pending(task) => poll_task(task, cx),
            };
            if let Some(output) = outcome {
                self.complete(i, output);
            }
            i += 1;
        }
        self.resolve()
    }
}

/// What can be handed to a join: tasks that have not been started on, or the
/// snapshot of an earlier join.
pub trait AsFutureStates<F: Future>: Sized {
    /// Whether `states` are the states that `self` stands for.
    spec fn yields(self, states: Seq<FutureState<F>>) -> bool;

    /// The states of the tasks, in their order.
    fn as_futures_states(self) -> (states: Vec<FutureState<F>>)
        ensures
            self.yields(states@),
    ;
}

impl<F: Future> AsFutureStates<F> for Vec<F> {
    /// One pending state for each task.
    open spec fn yields(self, states: Seq<FutureState<F>>) -> bool {
        &&& states.len() == self@.len()
        &&& forall|i: int| 0 <= i < states.len() ==> states[i] is Pending
    }

    fn as_futures_states(self) -> (states: Vec<FutureState<F>>) {
        let mut states: Vec<FutureState<F>> = Vec::new();
        for task in iter: self
            invariant
                iter.seq() == self@,
                states@.len() == iter.index(),
                forall|i: int| 0 <= i < states@.len() ==> states@[i] is Pending,
        {
            states.push(FutureState::Pending(Box::pin(task)));
        }
        states
    }
}

impl<F: Future> AsFutureStates<F> for Vec<FutureState<F>> {
    /// The snapshot itself.
    open spec fn yields(self, states: Seq<FutureState<F>>) -> bool {
        states == self@
    }

    fn as_futures_states(self) -> (states: Vec<FutureState<F>>) {
        self
    }
}

/// A join over `futures` that is over when `strategy` says so.
pub fn wait_for<I: AsFutureStates<F>, F: Future>(futures: I, strategy: Strategy) -> (join: WaitFor<F>)
    ensures
        futures.yields(join.states()),
        join.strategy() == strategy,
{
    WaitFor { future_states: futures.as_futures_states(), strategy }
}

/// A join that is over once every one of `futures` is ready.
pub fn wait_for_all<I: AsFutureStates<F>, F: Future>(futures: I) -> (join: WaitFor<F>)
    ensures
        futures.yields(join.states()),
        join.strategy() == Strategy::All,
{
    wait_for(futures, Strategy::All)
}

/// A join that is over as soon as one of `futures` is ready.
pub fn wait_for_any<I: AsFutureStates<F>, F: Future>(futures: I) -> (join: WaitFor<F>)
    ensures
        futures.yields(join.states()),
        join.strategy() == Strategy::Any,
{
    wait_for(futures, Strategy::Any)
}

} // verus!
