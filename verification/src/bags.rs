use chrono::Datelike;
use vstd::prelude::*;

use crate::submissions::CalendarDate;

verus! {

/// A change to a bag. `remaining` is carried through untouched;
/// `created_at` is an instant in seconds after the Unix epoch.
#[derive(Debug, Clone, PartialEq)]
pub struct UpdateBag<R> {
    pub remaining: Option<R>,
    pub closed: Option<bool>,
    pub finished_at: Option<CalendarDate>,
    pub created_at: Option<i64>,
}

pub open spec fn first_some<T>(a: Option<T>, b: Option<T>) -> Option<T> {
    if a is Some {
        a
    } else {
        b
    }
}

/// The update a request asks for: each field from the JSON body when the body
/// sets it, otherwise from the query string, except the creation time, which
/// only the body can change; a bag closed without a finish date is finished
/// on `today`.
pub fn merge_bag_update<R>(body: Option<UpdateBag<R>>, query: UpdateBag<R>, today: CalendarDate) -> (res:
    UpdateBag<R>)
    ensures
        ({
            let (br, bc, bf, bt) = match body {
                Some(b) => (b.remaining, b.closed, b.finished_at, b.created_at),
                None => (None, None, None, None),
            };
            &&& res.remaining == first_some(br, query.remaining)
            &&& res.closed == first_some(bc, query.closed)
            &&& res.created_at == bt
            &&& res.finished_at == if first_some(bc, query.closed) == Some(true) && first_some(
                bf,
                query.finished_at,
            ) is None {
                Some(today)
            } else {
                first_some(bf, query.finished_at)
            }
        }),
{
    let (remaining, closed, finished_at, created_at) = match body {
        Some(b) => (b.remaining, b.closed, b.finished_at, b.created_at),
        None => (None, None, None, None),
    };
    let remaining = match remaining {
        Some(r) => Some(r),
        None => query.remaining,
    };
    let closed = match closed {
        Some(c) => Some(c),
        None => query.closed,
    };
    let mut finished_at = match finished_at {
        Some(f) => Some(f),
        None => query.finished_at,
    };
    if closed == Some(true) && finished_at.is_none() {
        finished_at = Some(today);
    }
    UpdateBag { remaining, closed, finished_at, created_at }
}

/// The update that finishes a bag: its finish date, or `today` when it has
/// none.
pub fn finish_update<R>(update: UpdateBag<R>, today: CalendarDate) -> (res: UpdateBag<R>)
    ensures
        res.remaining == update.remaining,
        res.closed == update.closed,
        res.created_at == update.created_at,
        res.finished_at == if update.finished_at is Some {
            update.finished_at
        } else {
            Some(today)
        },
{
    let UpdateBag { remaining, closed, finished_at, created_at } = update;
    let finished_at = match finished_at {
        Some(f) => Some(f),
        None => Some(today),
    };
    UpdateBag { remaining, closed, finished_at, created_at }
}

/// Today's date in UTC (`chrono::Utc::now().date_naive()`). It depends on the
/// clock, so nothing is said of which day it is; `Datelike` documents the
/// ranges of its month and day.
#[verifier::external_body]
fn today_utc() -> (res: CalendarDate)
    ensures
        1 <= res.month <= 12,
        1 <= res.day <= 31,
{
    let d = chrono::Utc::now().date_naive();
    CalendarDate { year: d.year(), month: d.month(), day: d.day() }
}

/// The update a bag request asks for, closing it today when it is closed
/// without a finish date.
pub fn bag_update_for_request<R>(body: Option<UpdateBag<R>>, query: UpdateBag<R>) -> (res:
    UpdateBag<R>)
    ensures
        ({
            let (br, bc, bf, bt) = match body {
                Some(b) => (b.remaining, b.closed, b.finished_at, b.created_at),
                None => (None, None, None, None),
            };
            &&& res.remaining == first_some(br, query.remaining)
            &&& res.closed == first_some(bc, query.closed)
            &&& res.created_at == bt
            &&& first_some(bf, query.finished_at) is Some ==> res.finished_at == first_some(
                bf,
                query.finished_at,
            )
            &&& first_some(bf, query.finished_at) is None ==> (first_some(bc, query.closed)
                == Some(true) <==> res.finished_at is Some)
            &&& first_some(bf, query.finished_at) is None ==> (res.finished_at matches Some(d) ==> 1
                <= d.month <= 12 && 1 <= d.day <= 31)
        }),
{
    let today = today_utc();
    merge_bag_update(body, query, today)
}

/// Finishes a bag today unless the update names a finish date.
pub fn finish_bag_update<R>(update: UpdateBag<R>) -> (res: UpdateBag<R>)
    ensures
        res.remaining == update.remaining,
        res.closed == update.closed,
        res.created_at == update.created_at,
        update.finished_at is Some ==> res.finished_at == update.finished_at,
        res.finished_at is Some,
        update.finished_at is None ==> (res.finished_at matches Some(d) && 1 <= d.month <= 12 && 1
            <= d.day <= 31),
{
    let today = today_utc();
    finish_update(update, today)
}

/// The timeline events of a bag.
#[derive(Debug, Clone, Copy, PartialEq, Eq, Structural)]
pub enum BagEvent {
    /// The bag was added, at the time it was recorded.
    Added,
    /// The bag was finished: at the start of its finish date when it has
    /// one, otherwise at the time the event was recorded.
    Finished(Option<CalendarDate>),
}

/// The events a bag's timeline is rebuilt from: it was added, and, once
/// closed, finished.
pub fn bag_events(closed: bool, finished_at: Option<CalendarDate>) -> (res: Vec<BagEvent>)
    ensures
        closed ==> res@ == seq![BagEvent::Added, BagEvent::Finished(finished_at)],
        !closed ==> res@ == seq![BagEvent::Added],
{
    let mut events = vec![BagEvent::Added];
    if closed {
        events.push(BagEvent::Finished(finished_at));
    }
    events
}

/// Whether an update closes the bag and so earns a "finished" event.
pub fn records_finished_event<R>(update: &UpdateBag<R>) -> (res: bool)
    ensures
        res == (update.closed == Some(true)),
{
    match update.closed {
        Some(c) => c,
        None => false,
    }
}

} // verus!
