use vstd::prelude::*;

use crate::errors::RepositoryError;
use crate::timeline::EntityType;

verus! {

/// One call that a storage workflow makes.
#[derive(Debug, Clone, Copy, PartialEq, Eq, Structural)]
pub enum Step {
    /// Insert the new entity.
    Insert,
    /// Write an update to an existing entity.
    Update,
    /// Load the entity itself.
    FetchEntity,
    /// Load the entity together with what it refers to.
    FetchDetails,
    /// Load the roast that a bag belongs to.
    FetchRoast,
    /// Load the roaster that a roast belongs to.
    FetchRoaster,
    /// Insert the entity's timeline event.
    RecordEvent,
    /// Insert a bag's "finished" timeline event.
    RecordFinished,
    /// Replace the timeline events recorded for the entity.
    RefreshEvent,
    /// Delete every timeline event.
    DeleteEvents,
    /// List every entity of a kind, and re-insert each one's events (each by
    /// its own `RebuildItem` or `RebuildClosedBag` workflow).
    ListAll(EntityType),
}

/// What a failed step does to the rest of its workflow.
#[derive(Debug, Clone, Copy, PartialEq, Eq, Structural)]
pub enum OnFailure {
    /// The workflow stops and fails with the step's error.
    Abort,
    /// The workflow stops and still succeeds: the step only fed bookkeeping.
    Stop,
    /// The failure is logged and the workflow goes on.
    Continue,
}

/// A step of a workflow and how its failure is handled.
#[derive(Debug, Clone, Copy, PartialEq, Eq, Structural)]
pub struct PlannedStep {
    pub step: Step,
    pub on_failure: OnFailure,
}

/// The storage workflows of the services and of the timeline rebuild.
#[derive(Debug, Clone, Copy, PartialEq, Eq, Structural)]
pub enum Workflow {
    /// Create a roaster, a cafe or a piece of gear.
    CreateSimple,
    CreateBag,
    /// Close a bag.
    FinishBag,
    CreateBrew,
    CreateCup,
    CreateRoast,
    /// Regenerate one entity's timeline events from current data.
    Refresh(EntityType),
    /// Re-insert one entity's event during a full rebuild (a bag here is an
    /// open one).
    RebuildItem(EntityType),
    /// Re-insert a closed bag's two events during a full rebuild.
    RebuildClosedBag,
    /// Delete every timeline event and re-insert them all, kind by kind.
    FullRebuild,
}

/// The order in which a full rebuild re-inserts the events of each kind of
/// entity: those that others refer to come first.
pub open spec fn rebuild_kinds() -> Seq<EntityType> {
    seq![
        EntityType::Roaster,
        EntityType::Cafe,
        EntityType::Gear,
        EntityType::Roast,
        EntityType::Bag,
        EntityType::Brew,
        EntityType::Cup,
    ]
}

pub open spec fn abort(s: Step) -> PlannedStep {
    PlannedStep { step: s, on_failure: OnFailure::Abort }
}

pub open spec fn stop(s: Step) -> PlannedStep {
    PlannedStep { step: s, on_failure: OnFailure::Stop }
}

pub open spec fn go_on(s: Step) -> PlannedStep {
    PlannedStep { step: s, on_failure: OnFailure::Continue }
}

/// The steps of each workflow, in order.
pub open spec fn workflow_steps(w: Workflow) -> Seq<PlannedStep> {
    match w {
        Workflow::CreateSimple => seq![abort(Step::Insert), stop(Step::RecordEvent)],
        Workflow::CreateBag => seq![
            abort(Step::Insert),
            stop(Step::FetchRoast),
            stop(Step::FetchRoaster),
            stop(Step::RecordEvent),
        ],
        Workflow::FinishBag => seq![
            abort(Step::Update),
            stop(Step::FetchRoast),
            stop(Step::FetchRoaster),
            stop(Step::RecordFinished),
        ],
        Workflow::CreateBrew => seq![
            abort(Step::Insert),
            abort(Step::FetchDetails),
            stop(Step::RecordEvent),
        ],
        Workflow::CreateCup => seq![
            abort(Step::Insert),
            stop(Step::FetchDetails),
            stop(Step::RecordEvent),
        ],
        Workflow::CreateRoast => seq![
            abort(Step::Insert),
            stop(Step::FetchRoaster),
            stop(Step::RecordEvent),
        ],
        Workflow::Refresh(t) => match t {
            EntityType::Roaster | EntityType::Gear | EntityType::Cafe => seq![
                abort(Step::FetchEntity),
                abort(Step::RefreshEvent),
            ],
            EntityType::Roast => seq![
                abort(Step::FetchDetails),
                abort(Step::FetchRoaster),
                abort(Step::RefreshEvent),
            ],
            EntityType::Bag => seq![
                abort(Step::FetchDetails),
                abort(Step::FetchRoast),
                abort(Step::FetchRoaster),
                abort(Step::RefreshEvent),
            ],
            EntityType::Brew | EntityType::Cup => seq![
                abort(Step::FetchDetails),
                abort(Step::RefreshEvent),
            ],
        },
        Workflow::RebuildItem(t) => match t {
            EntityType::Roast => seq![stop(Step::FetchRoaster), go_on(Step::RecordEvent)],
            EntityType::Bag => seq![
                stop(Step::FetchRoast),
                stop(Step::FetchRoaster),
                go_on(Step::RecordEvent),
            ],
            _ => seq![go_on(Step::RecordEvent)],
        },
        Workflow::RebuildClosedBag => seq![
            stop(Step::FetchRoast),
            stop(Step::FetchRoaster),
            go_on(Step::RecordEvent),
            go_on(Step::RecordFinished),
        ],
        Workflow::FullRebuild => seq![
            abort(Step::DeleteEvents),
            abort(Step::ListAll(EntityType::Roaster)),
            abort(Step::ListAll(EntityType::Cafe)),
            abort(Step::ListAll(EntityType::Gear)),
            abort(Step::ListAll(EntityType::Roast)),
            abort(Step::ListAll(EntityType::Bag)),
            abort(Step::ListAll(EntityType::Brew)),
            abort(Step::ListAll(EntityType::Cup)),
        ],
    }
}

/// How a workflow ends once the results of its first steps are known:
/// `None` while it is still running.
pub open spec fn run_outcome(plan: Seq<PlannedStep>, results: Seq<Result<(), RepositoryError>>) -> Option<
    Result<(), RepositoryError>,
>
    decreases results.len(),
{
    if plan.len() == 0 {
        Some(Ok(()))
    } else if results.len() == 0 {
        None
    } else {
        match results[0] {
            Ok(()) => run_outcome(plan.drop_first(), results.drop_first()),
            Err(e) => match plan[0].on_failure {
                OnFailure::Abort => Some(Err(e)),
                OnFailure::Stop => Some(Ok(())),
                OnFailure::Continue => run_outcome(plan.drop_first(), results.drop_first()),
            },
        }
    }
}

/// The outcome of one more step, at position `i` of `plan`.
pub open spec fn outcome_after(plan: Seq<PlannedStep>, i: int, result: Result<(), RepositoryError>) -> Option<
    Result<(), RepositoryError>,
> {
    match result {
        Err(e) if plan[i].on_failure is Abort => Some(Err(e)),
        Err(_) if plan[i].on_failure is Stop => Some(Ok(())),
        _ => if i + 1 == plan.len() {
            Some(Ok(()))
        } else {
            None
        },
    }
}

proof fn lemma_run_push(
    plan: Seq<PlannedStep>,
    results: Seq<Result<(), RepositoryError>>,
    result: Result<(), RepositoryError>,
)
    requires
        run_outcome(plan, results) is None,
    ensures
        results.len() < plan.len(),
        run_outcome(plan, results.push(result)) == outcome_after(plan, results.len() as int, result),
    decreases results.len(),
{
    if results.len() == 0 {
        assert(results.push(result).drop_first() =~= Seq::<Result<(), RepositoryError>>::empty());
        assert(run_outcome(plan.drop_first(), Seq::empty()) == (if plan.len() == 1 {
            Some(Ok::<(), RepositoryError>(()))
        } else {
            None
        }));
    } else {
        assert(results.push(result).drop_first() =~= results.drop_first().push(result));
        assert(results.push(result)[0] == results[0]);
        lemma_run_push(plan.drop_first(), results.drop_first(), result);
    }
}

/// The steps of a workflow.
pub fn workflow_plan(w: Workflow) -> (res: Vec<PlannedStep>)
    ensures
        res@ == workflow_steps(w),
{
    let ab = OnFailure::Abort;
    let st = OnFailure::Stop;
    let go = OnFailure::Continue;
    match w {
        Workflow::CreateSimple => vec![
            PlannedStep { step: Step::Insert, on_failure: ab },
            PlannedStep { step: Step::RecordEvent, on_failure: st },
        ],
        Workflow::CreateBag => vec![
            PlannedStep { step: Step::Insert, on_failure: ab },
            PlannedStep { step: Step::FetchRoast, on_failure: st },
            PlannedStep { step: Step::FetchRoaster, on_failure: st },
            PlannedStep { step: Step::RecordEvent, on_failure: st },
        ],
        Workflow::FinishBag => vec![
            PlannedStep { step: Step::Update, on_failure: ab },
            PlannedStep { step: Step::FetchRoast, on_failure: st },
            PlannedStep { step: Step::FetchRoaster, on_failure: st },
            PlannedStep { step: Step::RecordFinished, on_failure: st },
        ],
        Workflow::CreateBrew => vec![
            PlannedStep { step: Step::Insert, on_failure: ab },
            PlannedStep { step: Step::FetchDetails, on_failure: ab },
            PlannedStep { step: Step::RecordEvent, on_failure: st },
        ],
        Workflow::CreateCup => vec![
            PlannedStep { step: Step::Insert, on_failure: ab },
            PlannedStep { step: Step::FetchDetails, on_failure: st },
            PlannedStep { step: Step::RecordEvent, on_failure: st },
        ],
        Workflow::CreateRoast => vec![
            PlannedStep { step: Step::Insert, on_failure: ab },
            PlannedStep { step: Step::FetchRoaster, on_failure: st },
            PlannedStep { step: Step::RecordEvent, on_failure: st },
        ],
        Workflow::Refresh(t) => match t {
            EntityType::Roaster | EntityType::Gear | EntityType::Cafe => vec![
                PlannedStep { step: Step::FetchEntity, on_failure: ab },
                PlannedStep { step: Step::RefreshEvent, on_failure: ab },
            ],
            EntityType::Roast => vec![
                PlannedStep { step: Step::FetchDetails, on_failure: ab },
                PlannedStep { step: Step::FetchRoaster, on_failure: ab },
                PlannedStep { step: Step::RefreshEvent, on_failure: ab },
            ],
            EntityType::Bag => vec![
                PlannedStep { step: Step::FetchDetails, on_failure: ab },
                PlannedStep { step: Step::FetchRoast, on_failure: ab },
                PlannedStep { step: Step::FetchRoaster, on_failure: ab },
                PlannedStep { step: Step::RefreshEvent, on_failure: ab },
            ],
            EntityType::Brew | EntityType::Cup => vec![
                PlannedStep { step: Step::FetchDetails, on_failure: ab },
                PlannedStep { step: Step::RefreshEvent, on_failure: ab },
            ],
        },
        Workflow::RebuildItem(t) => match t {
            EntityType::Roast => vec![
                PlannedStep { step: Step::FetchRoaster, on_failure: st },
                PlannedStep { step: Step::RecordEvent, on_failure: go },
            ],
            EntityType::Bag => vec![
                PlannedStep { step: Step::FetchRoast, on_failure: st },
                PlannedStep { step: Step::FetchRoaster, on_failure: st },
                PlannedStep { step: Step::RecordEvent, on_failure: go },
            ],
            _ => vec![PlannedStep { step: Step::RecordEvent, on_failure: go }],
        },
        Workflow::RebuildClosedBag => vec![
            PlannedStep { step: Step::FetchRoast, on_failure: st },
            PlannedStep { step: Step::FetchRoaster, on_failure: st },
            PlannedStep { step: Step::RecordEvent, on_failure: go },
            PlannedStep { step: Step::RecordFinished, on_failure: go },
        ],
        Workflow::FullRebuild => vec![
            PlannedStep { step: Step::DeleteEvents, on_failure: ab },
            PlannedStep { step: Step::ListAll(EntityType::Roaster), on_failure: ab },
            PlannedStep { step: Step::ListAll(EntityType::Cafe), on_failure: ab },
            PlannedStep { step: Step::ListAll(EntityType::Gear), on_failure: ab },
            PlannedStep { step: Step::ListAll(EntityType::Roast), on_failure: ab },
            PlannedStep { step: Step::ListAll(EntityType::Bag), on_failure: ab },
            PlannedStep { step: Step::ListAll(EntityType::Brew), on_failure: ab },
            PlannedStep { step: Step::ListAll(EntityType::Cup), on_failure: ab },
        ],
    }
}

/// A workflow under way: the step to perform next, and the outcome once it
/// has ended. The caller performs each step and reports its result.
pub struct WorkflowRun {
    plan: Vec<PlannedStep>,
    position: usize,
    outcome: Option<Result<(), RepositoryError>>,
    reported: Ghost<Seq<Result<(), RepositoryError>>>,
}

impl WorkflowRun {
    #[verifier::type_invariant]
    spec fn well_formed(self) -> bool {
        &&& self.outcome == run_outcome(self.plan@, self.reported@)
        &&& self.position == self.reported@.len()
        &&& self.outcome is None ==> self.position < self.plan@.len()
    }

    /// The steps of the workflow.
    pub closed spec fn steps(self) -> Seq<PlannedStep> {
        self.plan@
    }

    /// The results reported so far, in order.
    pub closed spec fn results(self) -> Seq<Result<(), RepositoryError>> {
        self.reported@
    }

    /// Starts a workflow: nothing reported yet.
    pub fn start(w: Workflow) -> (res: Self)
        ensures
            res.steps() == workflow_steps(w),
            res.results() == Seq::<Result<(), RepositoryError>>::empty(),
    {
        let plan = workflow_plan(w);
        let outcome = if plan.len() == 0 {
            Some(Ok(()))
        } else {
            None
        };
        WorkflowRun { plan, position: 0, outcome, reported: Ghost(Seq::empty()) }
    }

    /// The step to perform next; `None` once the workflow has ended.
    pub fn next_step(&self) -> (res: Option<Step>)
        ensures
            run_outcome(self.steps(), self.results()) is Some ==> res is None,
            run_outcome(self.steps(), self.results()) is None ==> self.results().len()
                < self.steps().len() && res == Some(self.steps()[self.results().len() as int].step),
    {
        proof {
            use_type_invariant(self);
        }
        if self.outcome.is_some() {
            None
        } else {
            Some(self.plan[self.position].step)
        }
    }

    /// Reports the result of the step that `next_step` named. A result
    /// reported after the workflow has ended is ignored.
    pub fn report(&mut self, result: Result<(), RepositoryError>)
        ensures
            final(self).steps() == old(self).steps(),
            run_outcome(old(self).steps(), old(self).results()) is Some ==> final(self).results()
                == old(self).results(),
            run_outcome(old(self).steps(), old(self).results()) is None ==> final(self).results()
                == old(self).results().push(result),
    {
        proof {
            use_type_invariant(&*self);
        }
        if self.outcome.is_none() {
            proof {
                lemma_run_push(self.plan@, self.reported@, result);
            }
            let i = self.position;
            assert(i < self.plan.len());
            let on_failure = self.plan[i].on_failure;
            let last = i + 1 == self.plan.len();
            let ghost new_reported = self.reported@.push(result);
            let outcome = match result {
                Err(e) => match on_failure {
                    OnFailure::Abort => Some(Err(e)),
                    OnFailure::Stop => Some(Ok(())),
                    OnFailure::Continue => if last {
                        Some(Ok(()))
                    } else {
                        None
                    },
                },
                Ok(()) => if last {
                    Some(Ok(()))
                } else {
                    None
                },
            };
            *self = WorkflowRun {
                plan: self.plan.clone(),
                position: i + 1,
                outcome,
                reported: Ghost(new_reported),
            };
        }
    }

    /// Whether the workflow has ended.
    pub fn is_finished(&self) -> (res: bool)
        ensures
            res == run_outcome(self.steps(), self.results()) is Some,
    {
        proof {
            use_type_invariant(self);
        }
        self.outcome.is_some()
    }

    /// How the workflow ended: `None` while it is still running.
    pub fn into_outcome(self) -> (res: Option<Result<(), RepositoryError>>)
        ensures
            res == run_outcome(self.steps(), self.results()),
    {
        proof {
            use_type_invariant(&self);
        }
        self.outcome
    }
}

proof fn lemma_without_abort_never_fails(
    plan: Seq<PlannedStep>,
    results: Seq<Result<(), RepositoryError>>,
)
    requires
        forall|i: int| 0 <= i < plan.len() ==> !(#[trigger] plan[i].on_failure is Abort),
    ensures
        !(run_outcome(plan, results) matches Some(Err(_))),
    decreases results.len(),
{
    if plan.len() > 0 && results.len() > 0 {
        assert(!(plan[0].on_failure is Abort));
        assert forall|i: int| 0 <= i < plan.drop_first().len() implies !(
        #[trigger] plan.drop_first()[i].on_failure is Abort) by {
            assert(plan.drop_first()[i] == plan[i + 1]);
        }
        lemma_without_abort_never_fails(plan.drop_first(), results.drop_first());
    }
}

proof fn lemma_all_abort(plan: Seq<PlannedStep>, results: Seq<Result<(), RepositoryError>>, k: int)
    requires
        forall|i: int| 0 <= i < plan.len() ==> (#[trigger] plan[i].on_failure is Abort),
        0 <= k <= results.len(),
        k <= plan.len(),
        forall|i: int| 0 <= i < k ==> (#[trigger] results[i] is Ok),
    ensures
        k < plan.len() && k < results.len() && results[k] is Err ==> run_outcome(plan, results)
            == Some(results[k]),
        k == plan.len() ==> run_outcome(plan, results) == Some(Ok::<(), RepositoryError>(())),
    decreases k,
{
    if k > 0 {
        assert(results[0] is Ok);
        assert forall|i: int| 0 <= i < plan.drop_first().len() implies (
        #[trigger] plan.drop_first()[i].on_failure is Abort) by {
            assert(plan.drop_first()[i] == plan[i + 1]);
        }
        assert forall|i: int| 0 <= i < k - 1 implies (#[trigger] results.drop_first()[i] is Ok) by {
            assert(results.drop_first()[i] == results[i + 1]);
        }
        lemma_all_abort(plan.drop_first(), results.drop_first(), k - 1);
        if k < results.len() {
            assert(results.drop_first()[k - 1] == results[k]);
        }
    } else if plan.len() > 0 && results.len() > 0 {
        assert(plan[0].on_failure is Abort);
    }
}

/// A run goes on to its next step as long as every step so far succeeded
/// or failed only where failures are let through; once every step has so
/// ended, it has succeeded.
pub proof fn law_run_goes_on_past_allowed_failures(
    plan: Seq<PlannedStep>,
    results: Seq<Result<(), RepositoryError>>,
)
    requires
        forall|i: int|
            0 <= i < results.len() && i < plan.len() ==> (#[trigger] results[i] is Ok
                || plan[i].on_failure is Continue),
    ensures
        results.len() < plan.len() ==> run_outcome(plan, results) is None,
        results.len() >= plan.len() ==> run_outcome(plan, results) == Some(
            Ok::<(), RepositoryError>(()),
        ),
    decreases results.len(),
{
    if plan.len() > 0 && results.len() > 0 {
        assert(results[0] is Ok || plan[0].on_failure is Continue);
        assert forall|i: int|
            0 <= i < results.drop_first().len() && i < plan.drop_first().len() implies (
            #[trigger] results.drop_first()[i] is Ok || plan.drop_first()[i].on_failure is Continue) by {
            assert(results.drop_first()[i] == results[i + 1]);
            assert(plan.drop_first()[i] == plan[i + 1]);
        }
        law_run_goes_on_past_allowed_failures(plan.drop_first(), results.drop_first());
    }
}

/// Every creation starts by inserting the entity and ends by recording its
/// timeline event, and closing a bag starts by writing the update and ends
/// by recording its "finished" event; so a run in which every step succeeds
/// performs that last step before it ends, and ends in success.
pub proof fn law_creates_record_their_event(w: Workflow, results: Seq<Result<(), RepositoryError>>)
    requires
        w is CreateSimple || w is CreateBag || w is CreateBrew || w is CreateCup || w is CreateRoast
            || w is FinishBag,
        forall|i: int| 0 <= i < results.len() ==> (#[trigger] results[i] is Ok),
    ensures
        workflow_steps(w).len() >= 2,
        w is FinishBag ==> workflow_steps(w)[0].step == Step::Update && workflow_steps(w).last().step
            == Step::RecordFinished,
        !(w is FinishBag) ==> workflow_steps(w)[0].step == Step::Insert && workflow_steps(
            w,
        ).last().step == Step::RecordEvent,
        results.len() < workflow_steps(w).len() ==> run_outcome(workflow_steps(w), results) is None,
        results.len() >= workflow_steps(w).len() ==> run_outcome(workflow_steps(w), results)
            == Some(Ok::<(), RepositoryError>(())),
{
    law_run_goes_on_past_allowed_failures(workflow_steps(w), results);
}

/// Refreshing an entity's events loads it and ends by replacing its events.
pub proof fn law_refresh_replaces_events(t: EntityType)
    ensures
        workflow_steps(Workflow::Refresh(t)).len() >= 2,
        workflow_steps(Workflow::Refresh(t)).last().step == Step::RefreshEvent,
        workflow_steps(Workflow::Refresh(t))[0].step == Step::FetchEntity || workflow_steps(
            Workflow::Refresh(t),
        )[0].step == Step::FetchDetails,
{
}

/// In a full rebuild each entity's events are inserted again: the workflow of
/// any entity ends by inserting its event, a closed bag's by inserting its
/// "added" then its "finished" event; neither insert stops the other, and
/// when the lookups before them succeed, every insert is performed whatever
/// the inserts report.
pub proof fn law_rebuild_reinserts_events(t: EntityType, results: Seq<Result<(), RepositoryError>>)
    ensures
        workflow_steps(Workflow::RebuildItem(t)).len() >= 1,
        workflow_steps(Workflow::RebuildItem(t)).last() == go_on(Step::RecordEvent),
        workflow_steps(Workflow::RebuildClosedBag).len() == 4,
        workflow_steps(Workflow::RebuildClosedBag)[2] == go_on(Step::RecordEvent),
        workflow_steps(Workflow::RebuildClosedBag)[3] == go_on(Step::RecordFinished),
        (forall|i: int|
            0 <= i < results.len() && !(workflow_steps(Workflow::RebuildItem(t))[i].step
                is RecordEvent) ==> #[trigger] results[i] is Ok) ==> (results.len()
            < workflow_steps(Workflow::RebuildItem(t)).len() ==> run_outcome(
            workflow_steps(Workflow::RebuildItem(t)),
            results,
        ) is None),
        (forall|i: int| 0 <= i < results.len() && i < 2 ==> #[trigger] results[i] is Ok) && results.len()
            < 4 ==> run_outcome(workflow_steps(Workflow::RebuildClosedBag), results) is None,
{
    let item = workflow_steps(Workflow::RebuildItem(t));
    if forall|i: int|
        0 <= i < results.len() && !(item[i].step is RecordEvent) ==> #[trigger] results[i] is Ok {
        assert forall|i: int|
            0 <= i < results.len() && i < item.len() implies (#[trigger] results[i] is Ok
                || item[i].on_failure is Continue) by {
            if item[i].step is RecordEvent {
                assert(item[i].on_failure is Continue);
            }
        }
        law_run_goes_on_past_allowed_failures(item, results);
    }
    let closed = workflow_steps(Workflow::RebuildClosedBag);
    if (forall|i: int| 0 <= i < results.len() && i < 2 ==> #[trigger] results[i] is Ok) {
        assert forall|i: int|
            0 <= i < results.len() && i < closed.len() implies (#[trigger] results[i] is Ok
                || closed[i].on_failure is Continue) by {
            if i >= 2 {
                assert(closed[i].on_failure is Continue);
            }
        }
        law_run_goes_on_past_allowed_failures(closed, results);
    }
}

/// Creating an entity (a roaster, cafe, gear item, bag, cup or roast), and
/// closing a bag, fails exactly when writing the entity fails, with that
/// error; the lookups and the timeline event that follow are bookkeeping
/// whose failures are never reported to the caller.
pub proof fn law_create_fails_only_when_writing_fails(
    w: Workflow,
    results: Seq<Result<(), RepositoryError>>,
)
    requires
        w is CreateSimple || w is CreateBag || w is FinishBag || w is CreateCup || w is CreateRoast,
        results.len() > 0,
    ensures
        results[0] is Err ==> run_outcome(workflow_steps(w), results) == Some(results[0]),
        results[0] is Ok ==> !(run_outcome(workflow_steps(w), results) matches Some(Err(_))),
{
    let plan = workflow_steps(w);
    if results[0] is Ok {
        assert forall|i: int| 0 <= i < plan.drop_first().len() implies !(
        #[trigger] plan.drop_first()[i].on_failure is Abort) by {
            assert(plan.drop_first()[i] == plan[i + 1]);
        }
        lemma_without_abort_never_fails(plan.drop_first(), results.drop_first());
    }
}

/// Creating a brew fails exactly when inserting it, or then loading it with
/// its details, fails; a failure to record its timeline event is never
/// reported.
pub proof fn law_brew_create_fails_only_when_storage_fails(results: Seq<Result<(), RepositoryError>>)
    requires
        results.len() > 0,
    ensures
        results[0] is Err ==> run_outcome(workflow_steps(Workflow::CreateBrew), results) == Some(
            results[0],
        ),
        results.len() > 1 && results[0] is Ok && results[1] is Err ==> run_outcome(
            workflow_steps(Workflow::CreateBrew),
            results,
        ) == Some(results[1]),
        results.len() > 1 && results[0] is Ok && results[1] is Ok ==> !(run_outcome(
            workflow_steps(Workflow::CreateBrew),
            results,
        ) matches Some(Err(_))),
{
    let plan = workflow_steps(Workflow::CreateBrew);
    if results[0] is Ok {
        let p1 = plan.drop_first();
        let r1 = results.drop_first();
        assert(run_outcome(plan, results) == run_outcome(p1, r1));
        if results.len() > 1 {
            assert(r1[0] == results[1]);
        }
        assert(p1[0] == plan[1]);
        if results.len() > 1 && results[1] is Ok {
            assert(run_outcome(p1, r1) == run_outcome(p1.drop_first(), r1.drop_first()));
            let rest = plan.drop_first().drop_first();
            assert forall|i: int| 0 <= i < rest.len() implies !(
            #[trigger] rest[i].on_failure is Abort) by {
                assert(rest[i] == plan[i + 2]);
            }
            lemma_without_abort_never_fails(rest, results.drop_first().drop_first());
        }
    }
}

/// Refreshing an entity's timeline events fails with the first failure of
/// any of its lookups or of the final write, and succeeds when they all do.
pub proof fn law_refresh_fails_on_first_failure(
    t: EntityType,
    results: Seq<Result<(), RepositoryError>>,
    k: int,
)
    requires
        0 <= k <= results.len(),
        k <= workflow_steps(Workflow::Refresh(t)).len(),
        forall|i: int| 0 <= i < k ==> (#[trigger] results[i] is Ok),
    ensures
        k < workflow_steps(Workflow::Refresh(t)).len() && k < results.len() && results[k] is Err
            ==> run_outcome(workflow_steps(Workflow::Refresh(t)), results) == Some(results[k]),
        k == workflow_steps(Workflow::Refresh(t)).len() ==> run_outcome(
            workflow_steps(Workflow::Refresh(t)),
            results,
        ) == Some(Ok::<(), RepositoryError>(())),
{
    lemma_all_abort(workflow_steps(Workflow::Refresh(t)), results, k);
}

/// No single entity can fail a full rebuild: whatever its lookups and
/// inserts report, re-inserting its events never ends in an error.
pub proof fn law_rebuild_item_never_fails(w: Workflow, results: Seq<Result<(), RepositoryError>>)
    requires
        w is RebuildItem || w is RebuildClosedBag,
    ensures
        !(run_outcome(workflow_steps(w), results) matches Some(Err(_))),
{
    lemma_without_abort_never_fails(workflow_steps(w), results);
}

/// The order in which a full rebuild re-inserts the events of each kind.
pub fn rebuild_order() -> (res: Vec<EntityType>)
    ensures
        res@ == rebuild_kinds(),
{
    vec![
        EntityType::Roaster,
        EntityType::Cafe,
        EntityType::Gear,
        EntityType::Roast,
        EntityType::Bag,
        EntityType::Brew,
        EntityType::Cup,
    ]
}

/// A full rebuild first deletes every timeline event, then lists the
/// entities of each kind in `rebuild_kinds` order. It fails with the error
/// of the first of these steps that fails (a failed delete, or a failed
/// listing, ends it there), and succeeds when all of them succeed. What
/// happens to single entities in between never fails it
/// (`law_rebuild_item_never_fails`).
pub proof fn law_full_rebuild_deletes_first_and_aborts_on_failure(
    results: Seq<Result<(), RepositoryError>>,
    k: int,
)
    requires
        0 <= k <= results.len(),
        k <= workflow_steps(Workflow::FullRebuild).len(),
        forall|i: int| 0 <= i < k ==> (#[trigger] results[i] is Ok),
    ensures
        workflow_steps(Workflow::FullRebuild).len() == rebuild_kinds().len() + 1,
        workflow_steps(Workflow::FullRebuild)[0].step == Step::DeleteEvents,
        forall|i: int|
            0 <= i < rebuild_kinds().len() ==> #[trigger] workflow_steps(Workflow::FullRebuild)[i
                + 1].step == Step::ListAll(rebuild_kinds()[i]),
        k < workflow_steps(Workflow::FullRebuild).len() && k < results.len() && results[k] is Err
            ==> run_outcome(workflow_steps(Workflow::FullRebuild), results) == Some(results[k]),
        k == workflow_steps(Workflow::FullRebuild).len() ==> run_outcome(
            workflow_steps(Workflow::FullRebuild),
            results,
        ) == Some(Ok::<(), RepositoryError>(())),
{
    lemma_all_abort(workflow_steps(Workflow::FullRebuild), results, k);
}

/// The workflow that re-inserts one entity's events in a full rebuild.
pub fn rebuild_workflow(entity_type: EntityType, closed_bag: bool) -> (res: Workflow)
    ensures
        entity_type is Bag && closed_bag ==> res == Workflow::RebuildClosedBag,
        !(entity_type is Bag && closed_bag) ==> res == Workflow::RebuildItem(entity_type),
{
    match entity_type {
        EntityType::Bag => if closed_bag {
            Workflow::RebuildClosedBag
        } else {
            Workflow::RebuildItem(EntityType::Bag)
        },
        _ => Workflow::RebuildItem(entity_type),
    }
}

} // verus!
