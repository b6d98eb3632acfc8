use brewlog::bags::{
    bag_events, bag_update_for_request, finish_bag_update, finish_update, merge_bag_update,
    records_finished_event, BagEvent, UpdateBag,
};
use brewlog::submissions::CalendarDate;

fn date(year: i32, month: u32, day: u32) -> CalendarDate {
    CalendarDate { year, month, day }
}

fn update(remaining: Option<i32>, closed: Option<bool>, finished_at: Option<CalendarDate>) -> UpdateBag<i32> {
    UpdateBag { remaining, closed, finished_at, created_at: None }
}

#[test]
fn body_fields_win_over_query_fields() {
    let today = date(2025, 3, 14);
    let merged = merge_bag_update(
        Some(update(Some(120), None, None)),
        update(Some(50), Some(false), None),
        today,
    );
    assert_eq!(merged, update(Some(120), Some(false), None));
}

#[test]
fn closing_without_a_date_finishes_today() {
    let today = date(2025, 3, 14);
    let merged = merge_bag_update(None, update(None, Some(true), None), today);
    assert_eq!(merged, update(None, Some(true), Some(today)));

    let given = date(2025, 2, 1);
    let merged = merge_bag_update(
        Some(update(None, Some(true), Some(given))),
        update(None, None, None),
        today,
    );
    assert_eq!(merged, update(None, Some(true), Some(given)));
}

#[test]
fn finishing_keeps_a_given_date() {
    let today = date(2024, 12, 31);
    let given = date(2024, 12, 1);
    assert_eq!(
        finish_update(update(Some(3), Some(true), Some(given)), today),
        update(Some(3), Some(true), Some(given))
    );
    assert_eq!(
        finish_update(update(None, None, None), today),
        update(None, None, Some(today))
    );
}

#[test]
fn request_updates_use_the_clock_only_when_needed() {
    let given = date(2023, 7, 9);
    let merged = bag_update_for_request(Some(update(None, Some(true), Some(given))), update(None, None, None));
    assert_eq!(merged, update(None, Some(true), Some(given)));

    let open = bag_update_for_request(None, update(Some(10), Some(false), None));
    assert_eq!(open, update(Some(10), Some(false), None));

    let closed = bag_update_for_request(None, update(None, Some(true), None));
    let d = closed.finished_at.expect("a closed bag gets a finish date");
    assert!((1..=12).contains(&d.month));
    assert!((1..=31).contains(&d.day));
}

#[test]
fn finishing_today_fills_the_date() {
    let finished = finish_bag_update(update(Some(5), Some(true), None));
    assert_eq!(finished.remaining, Some(5));
    assert!(finished.finished_at.is_some());
}

#[test]
fn closed_bags_have_a_finished_event() {
    assert_eq!(bag_events(false, None), vec![BagEvent::Added]);
    let d = date(2025, 1, 2);
    assert_eq!(
        bag_events(true, Some(d)),
        vec![BagEvent::Added, BagEvent::Finished(Some(d))]
    );
    assert_eq!(
        bag_events(true, None),
        vec![BagEvent::Added, BagEvent::Finished(None)]
    );
}

#[test]
fn only_closing_updates_record_an_event() {
    assert!(records_finished_event(&update(None, Some(true), None)));
    assert!(!records_finished_event(&update(None, Some(false), None)));
    assert!(!records_finished_event(&update(Some(1), None, None)));
}

#[test]
fn creation_time_comes_from_the_body_only() {
    let today = date(2025, 3, 14);
    let mut body = update(None, None, None);
    body.created_at = Some(1_700_000_000);
    let mut query = update(Some(5), None, None);
    query.created_at = Some(1_600_000_000);
    let merged = merge_bag_update(Some(body), query, today);
    assert_eq!(merged.created_at, Some(1_700_000_000));
    assert_eq!(merged.remaining, Some(5));

    let mut query = update(None, None, None);
    query.created_at = Some(1_600_000_000);
    assert_eq!(merge_bag_update(None, query, today).created_at, None);

    let mut closing = update(None, Some(true), None);
    closing.created_at = Some(42);
    assert_eq!(finish_update(closing, today).created_at, Some(42));
}
