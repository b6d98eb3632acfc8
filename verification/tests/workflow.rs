use brewlog::errors::RepositoryError;
use brewlog::timeline::EntityType;
use brewlog::workflow::{
    rebuild_order, rebuild_workflow, workflow_plan, OnFailure, PlannedStep, Step, Workflow,
    WorkflowRun,
};

fn run(w: Workflow, results: Vec<Result<(), RepositoryError>>) -> (Vec<Step>, Option<Result<(), RepositoryError>>) {
    let mut r = WorkflowRun::start(w);
    let mut performed = Vec::new();
    for result in results {
        match r.next_step() {
            Some(step) => performed.push(step),
            None => break,
        }
        r.report(result);
    }
    (performed, r.into_outcome())
}

fn failed() -> Result<(), RepositoryError> {
    Err(RepositoryError::Unexpected("db down".to_string()))
}

#[test]
fn simple_create_plan() {
    assert_eq!(
        workflow_plan(Workflow::CreateSimple),
        vec![
            PlannedStep { step: Step::Insert, on_failure: OnFailure::Abort },
            PlannedStep { step: Step::RecordEvent, on_failure: OnFailure::Stop },
        ]
    );
}

#[test]
fn create_reports_a_failed_insert() {
    let (steps, outcome) = run(Workflow::CreateBag, vec![Err(RepositoryError::Conflict("dup".to_string()))]);
    assert_eq!(steps, vec![Step::Insert]);
    assert_eq!(outcome, Some(Err(RepositoryError::Conflict("dup".to_string()))));
}

#[test]
fn create_ignores_timeline_failures() {
    let (steps, outcome) = run(Workflow::CreateBag, vec![Ok(()), Ok(()), Ok(()), failed()]);
    assert_eq!(steps, vec![Step::Insert, Step::FetchRoast, Step::FetchRoaster, Step::RecordEvent]);
    assert_eq!(outcome, Some(Ok(())));
}

#[test]
fn a_failed_lookup_skips_the_event() {
    let (steps, outcome) = run(Workflow::CreateRoast, vec![Ok(()), Err(RepositoryError::NotFound), Ok(())]);
    assert_eq!(steps, vec![Step::Insert, Step::FetchRoaster]);
    assert_eq!(outcome, Some(Ok(())));
}

#[test]
fn brew_create_needs_its_details() {
    let (steps, outcome) = run(Workflow::CreateBrew, vec![Ok(()), Err(RepositoryError::NotFound)]);
    assert_eq!(steps, vec![Step::Insert, Step::FetchDetails]);
    assert_eq!(outcome, Some(Err(RepositoryError::NotFound)));
    let (_, outcome) = run(Workflow::CreateBrew, vec![Ok(()), Ok(()), failed()]);
    assert_eq!(outcome, Some(Ok(())));
}

#[test]
fn finishing_a_bag_records_the_finished_event() {
    let (steps, outcome) = run(Workflow::FinishBag, vec![Ok(()), Ok(()), Ok(()), Ok(())]);
    assert_eq!(steps, vec![Step::Update, Step::FetchRoast, Step::FetchRoaster, Step::RecordFinished]);
    assert_eq!(outcome, Some(Ok(())));
}

#[test]
fn refresh_fails_with_the_first_failure() {
    let (steps, outcome) = run(
        Workflow::Refresh(EntityType::Bag),
        vec![Ok(()), Ok(()), Err(RepositoryError::NotFound), Ok(())],
    );
    assert_eq!(steps, vec![Step::FetchDetails, Step::FetchRoast, Step::FetchRoaster]);
    assert_eq!(outcome, Some(Err(RepositoryError::NotFound)));
    let (steps, outcome) = run(Workflow::Refresh(EntityType::Gear), vec![Ok(()), Ok(())]);
    assert_eq!(steps, vec![Step::FetchEntity, Step::RefreshEvent]);
    assert_eq!(outcome, Some(Ok(())));
}

#[test]
fn rebuild_items_never_fail() {
    let (steps, outcome) = run(Workflow::RebuildClosedBag, vec![Ok(()), Ok(()), failed(), failed()]);
    assert_eq!(steps, vec![Step::FetchRoast, Step::FetchRoaster, Step::RecordEvent, Step::RecordFinished]);
    assert_eq!(outcome, Some(Ok(())));
    let (steps, outcome) = run(Workflow::RebuildItem(EntityType::Roast), vec![failed(), Ok(())]);
    assert_eq!(steps, vec![Step::FetchRoaster]);
    assert_eq!(outcome, Some(Ok(())));
}

#[test]
fn unfinished_runs_have_no_outcome() {
    let mut r = WorkflowRun::start(Workflow::CreateCup);
    assert!(!r.is_finished());
    r.report(Ok(()));
    assert_eq!(r.next_step(), Some(Step::FetchDetails));
    assert_eq!(r.into_outcome(), None);
}

#[test]
fn results_after_the_end_are_ignored() {
    let mut r = WorkflowRun::start(Workflow::CreateSimple);
    r.report(failed());
    assert!(r.is_finished());
    assert_eq!(r.next_step(), None);
    r.report(Ok(()));
    assert_eq!(r.into_outcome(), Some(Err(RepositoryError::Unexpected("db down".to_string()))));
}

#[test]
fn rebuild_runs_in_dependency_order() {
    assert_eq!(
        rebuild_order(),
        vec![
            EntityType::Roaster,
            EntityType::Cafe,
            EntityType::Gear,
            EntityType::Roast,
            EntityType::Bag,
            EntityType::Brew,
            EntityType::Cup,
        ]
    );
    assert_eq!(rebuild_workflow(EntityType::Bag, true), Workflow::RebuildClosedBag);
    assert_eq!(rebuild_workflow(EntityType::Bag, false), Workflow::RebuildItem(EntityType::Bag));
    assert_eq!(rebuild_workflow(EntityType::Cup, true), Workflow::RebuildItem(EntityType::Cup));
}

#[test]
fn full_rebuild_deletes_first_then_lists_each_kind() {
    let all_ok: Vec<Result<(), RepositoryError>> = (0..8).map(|_| Ok(())).collect();
    let (steps, outcome) = run(Workflow::FullRebuild, all_ok);
    assert_eq!(
        steps,
        vec![
            Step::DeleteEvents,
            Step::ListAll(EntityType::Roaster),
            Step::ListAll(EntityType::Cafe),
            Step::ListAll(EntityType::Gear),
            Step::ListAll(EntityType::Roast),
            Step::ListAll(EntityType::Bag),
            Step::ListAll(EntityType::Brew),
            Step::ListAll(EntityType::Cup),
        ]
    );
    assert_eq!(outcome, Some(Ok(())));
}

#[test]
fn full_rebuild_stops_on_a_failed_delete_or_listing() {
    let (steps, outcome) = run(Workflow::FullRebuild, vec![failed(), Ok(())]);
    assert_eq!(steps, vec![Step::DeleteEvents]);
    assert_eq!(outcome, Some(failed()));
    let (steps, outcome) = run(
        Workflow::FullRebuild,
        vec![Ok(()), Ok(()), Ok(()), Err(RepositoryError::NotFound), Ok(())],
    );
    assert_eq!(steps.last(), Some(&Step::ListAll(EntityType::Gear)));
    assert_eq!(outcome, Some(Err(RepositoryError::NotFound)));
}
