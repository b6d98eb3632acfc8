use brewlog::timeline::{
    build_months, plan_rebuild, BatchAction, BatchRun, prepare_event, CascadeCollector, CascadeQuery, EntityType,
    RebuildPlan, TimelineInvalidation, TimelinePreparedEvent,
};

fn entity(entity_type: EntityType, entity_id: i64) -> TimelineInvalidation {
    TimelineInvalidation::Entity {
        entity_type,
        entity_id,
    }
}

fn prepared(anchor: &str, heading: &str, view: u32) -> TimelinePreparedEvent<u32> {
    TimelinePreparedEvent {
        anchor: anchor.to_string(),
        heading: heading.to_string(),
        view,
    }
}

#[test]
fn full_signal_anywhere_means_full_rebuild() {
    assert_eq!(
        plan_rebuild(TimelineInvalidation::Full, vec![]),
        RebuildPlan::Full
    );
    assert_eq!(
        plan_rebuild(
            entity(EntityType::Bag, 1),
            vec![entity(EntityType::Roast, 2), TimelineInvalidation::Full]
        ),
        RebuildPlan::Full
    );
}

#[test]
fn entity_signals_are_deduplicated() {
    let plan = plan_rebuild(
        entity(EntityType::Bag, 1),
        vec![
            entity(EntityType::Roast, 2),
            entity(EntityType::Bag, 1),
            entity(EntityType::Brew, 1),
            entity(EntityType::Roast, 2),
        ],
    );
    assert_eq!(
        plan,
        RebuildPlan::Refresh(vec![
            (EntityType::Bag, 1),
            (EntityType::Roast, 2),
            (EntityType::Brew, 1),
        ])
    );
}

#[test]
fn entity_type_names() {
    assert_eq!(EntityType::Roaster.as_str(), "roaster");
    assert_eq!(EntityType::Cafe.as_str(), "cafe");
    assert_eq!(EntityType::Cup.as_str(), "cup");
}

/// Runs a cascade against a fixed store: roaster 1 has roasts 10 and 11,
/// roast 10 has bag 100 and cup 500, bag 100 has brews 1000 and 1001.
fn run_cascade(start: (EntityType, i64)) -> Vec<(EntityType, i64)> {
    let mut collector = CascadeCollector::new();
    collector.add_changed(start.0, start.1);
    while let Some(query) = collector.next_query() {
        let found = match query {
            CascadeQuery::RoastsOfRoaster(1) => vec![10, 11],
            CascadeQuery::BagsOfRoast(10) => vec![100],
            CascadeQuery::CupsOfRoast(10) => vec![500],
            CascadeQuery::BrewsOfBag(100) => vec![1000, 1001],
            CascadeQuery::BrewsOfGear(7) => vec![1001],
            CascadeQuery::CupsOfCafe(3) => vec![500],
            _ => vec![],
        };
        collector.record(query, found);
    }
    let mut targets = collector.into_targets();
    targets.sort_by_key(|(t, id)| (t.as_str(), *id));
    targets
}

#[test]
fn roaster_cascade_reaches_everything_downstream() {
    let targets = run_cascade((EntityType::Roaster, 1));
    assert_eq!(
        targets,
        vec![
            (EntityType::Bag, 100),
            (EntityType::Brew, 1000),
            (EntityType::Brew, 1001),
            (EntityType::Cup, 500),
            (EntityType::Roast, 10),
            (EntityType::Roast, 11),
            (EntityType::Roaster, 1),
        ]
    );
}

#[test]
fn leaf_and_side_cascades() {
    assert_eq!(run_cascade((EntityType::Brew, 1000)), vec![(EntityType::Brew, 1000)]);
    assert_eq!(
        run_cascade((EntityType::Gear, 7)),
        vec![(EntityType::Brew, 1001), (EntityType::Gear, 7)]
    );
    assert_eq!(
        run_cascade((EntityType::Cafe, 3)),
        vec![(EntityType::Cafe, 3), (EntityType::Cup, 500)]
    );
}

#[test]
fn shared_collector_names_each_target_once() {
    let mut collector = CascadeCollector::new();
    collector.add_changed(EntityType::Bag, 100);
    collector.add_changed(EntityType::Bag, 100);
    while let Some(query) = collector.next_query() {
        collector.record(query, vec![1000, 1000]);
    }
    let targets = collector.into_targets();
    assert_eq!(targets, vec![(EntityType::Bag, 100), (EntityType::Brew, 1000)]);
}

#[test]
fn months_group_consecutive_events() {
    let months = build_months(vec![
        prepared("2024-05", "May 2024", 1),
        prepared("2024-05", "May 2024", 2),
        prepared("2024-04", "April 2024", 3),
        prepared("2024-05", "May 2024", 4),
    ]);
    let shape: Vec<(String, String, Vec<u32>)> = months
        .into_iter()
        .map(|m| (m.anchor, m.heading, m.events))
        .collect();
    assert_eq!(
        shape,
        vec![
            ("2024-05".to_string(), "May 2024".to_string(), vec![1, 2]),
            ("2024-04".to_string(), "April 2024".to_string(), vec![3]),
            ("2024-05".to_string(), "May 2024".to_string(), vec![4]),
        ]
    );
}

#[test]
fn months_of_no_events_are_empty() {
    assert!(build_months::<u32>(vec![]).is_empty());
}

#[test]
fn prepared_event_carries_month_labels() {
    let event = prepare_event(1_717_200_000, "brewed");
    assert_eq!(event.anchor, "2024-06");
    assert_eq!(event.heading, "June 2024");
    assert_eq!(event.view, "brewed");
}

#[test]
fn one_bag_cascade_reaches_its_brews() {
    assert_eq!(
        run_cascade((EntityType::Bag, 100)),
        vec![(EntityType::Bag, 100), (EntityType::Brew, 1000), (EntityType::Brew, 1001)]
    );
}

#[test]
fn a_batch_collector_starts_with_the_named_entities() {
    let mut collector =
        CascadeCollector::for_changed(&vec![(EntityType::Gear, 7), (EntityType::Gear, 7), (EntityType::Cafe, 3)]);
    let mut lookups = Vec::new();
    while let Some(query) = collector.next_query() {
        assert_eq!(collector.next_query(), Some(query));
        lookups.push(query);
        let found = match query {
            CascadeQuery::BrewsOfGear(7) => vec![1001],
            CascadeQuery::CupsOfCafe(3) => vec![500],
            _ => vec![],
        };
        collector.record(query, found);
    }
    let targets = collector.into_targets();
    assert_eq!(
        targets,
        vec![(EntityType::Gear, 7), (EntityType::Cafe, 3), (EntityType::Cup, 500), (EntityType::Brew, 1001)]
    );
    assert_eq!(lookups.len(), 3);
}

#[test]
fn answers_for_other_lookups_are_ignored() {
    let mut collector = CascadeCollector::new();
    collector.add_changed(EntityType::Bag, 100);
    collector.record(CascadeQuery::BrewsOfBag(100), vec![1000]);
    assert_eq!(collector.next_query(), Some(CascadeQuery::BrewsOfBag(100)));
    collector.record(CascadeQuery::BrewsOfGear(1), vec![9]);
    collector.record(CascadeQuery::BrewsOfBag(100), vec![]);
    assert_eq!(collector.next_query(), None);
    assert_eq!(collector.into_targets(), vec![(EntityType::Bag, 100)]);
}

/// Drives a batch against the fixed store of `run_cascade`, returning the
/// actions taken.
fn run_batch(first: TimelineInvalidation, pending: Vec<TimelineInvalidation>) -> Vec<BatchAction> {
    let mut run = BatchRun::start(first, pending);
    let mut actions = Vec::new();
    loop {
        let action = run.next_action();
        actions.push(action);
        match action {
            BatchAction::Lookup(query) => {
                let found = match query {
                    CascadeQuery::RoastsOfRoaster(1) => vec![10],
                    CascadeQuery::BagsOfRoast(10) => vec![100],
                    CascadeQuery::BrewsOfBag(100) => vec![1000],
                    _ => vec![],
                };
                run.report_lookup(query, found);
            }
            BatchAction::Done => break,
            _ => {}
        }
    }
    assert_eq!(run.next_action(), BatchAction::Done);
    actions
}

#[test]
fn a_batch_with_a_full_signal_rebuilds_once() {
    let actions = run_batch(entity(EntityType::Bag, 100), vec![TimelineInvalidation::Full, entity(EntityType::Cup, 1)]);
    assert_eq!(actions, vec![BatchAction::RebuildAll, BatchAction::Done]);
}

#[test]
fn a_batch_refreshes_its_cascade_once_each() {
    let actions = run_batch(entity(EntityType::Roast, 10), vec![entity(EntityType::Roaster, 1), entity(EntityType::Roast, 10)]);
    let mut refreshed: Vec<(EntityType, i64)> = actions
        .iter()
        .filter_map(|a| match a {
            BatchAction::Refresh(t, id) => Some((*t, *id)),
            _ => None,
        })
        .collect();
    assert!(!actions.contains(&BatchAction::RebuildAll));
    refreshed.sort_by_key(|(t, id)| (t.as_str(), *id));
    assert_eq!(
        refreshed,
        vec![
            (EntityType::Bag, 100),
            (EntityType::Brew, 1000),
            (EntityType::Roast, 10),
            (EntityType::Roaster, 1),
        ]
    );
    assert_eq!(actions.last(), Some(&BatchAction::Done));
}
