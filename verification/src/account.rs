use vstd::prelude::*;

use crate::formatting::{format_date, formatted_number, format_number, in_timestamp_range, utc_format};

verus! {

/// AI usage as the account page shows it.
#[derive(Debug, PartialEq, Eq)]
pub struct AiUsageView {
    pub total_calls: i64,
    pub total_tokens: String,
    pub total_cost: String,
}

/// A passkey as the account pages list it.
#[derive(Debug, PartialEq, Eq)]
pub struct PasskeyView {
    pub id: i64,
    pub name: String,
    pub created_at: String,
    pub last_used_at: Option<String>,
}

/// An API token as the account pages list it.
#[derive(Debug, PartialEq, Eq)]
pub struct TokenView {
    pub id: i64,
    pub name: String,
    pub created_at: String,
    pub last_used_at: Option<String>,
}

pub open spec fn opt_in_range(t: Option<i64>) -> bool {
    t matches Some(s) ==> in_timestamp_range(s)
}

pub open spec fn date_matches(shown: Option<String>, t: Option<i64>) -> bool {
    match (shown, t) {
        (Some(d), Some(s)) => d@ == utc_format(s, "%Y-%m-%d"@),
        (None, None) => true,
        _ => false,
    }
}

fn optional_date(t: Option<i64>) -> (res: Option<String>)
    requires
        opt_in_range(t),
    ensures
        date_matches(res, t),
{
    match t {
        Some(s) => Some(format_date(s)),
        None => None,
    }
}

impl AiUsageView {
    /// The usage panel for a user's AI usage summary; there is none until the
    /// user has made a call. The cost comes already written out.
    pub fn from_summary(total_calls: i64, total_tokens: i64, total_cost: String) -> (res: Option<
        Self,
    >)
        ensures
            total_calls <= 0 ==> res is None,
            total_calls > 0 ==> (res matches Some(v) && v.total_calls == total_calls
                && v.total_tokens@ == formatted_number(total_tokens as int) && v.total_cost
                == total_cost),
    {
        if total_calls > 0 {
            Some(AiUsageView { total_calls, total_tokens: format_number(total_tokens), total_cost })
        } else {
            None
        }
    }
}

impl PasskeyView {
    /// A stored passkey with its dates written as `YYYY-MM-DD`.
    pub fn from_record(id: i64, name: String, created_at: i64, last_used_at: Option<i64>) -> (res:
        Self)
        requires
            in_timestamp_range(created_at),
            opt_in_range(last_used_at),
        ensures
            res.id == id,
            res.name == name,
            res.created_at@ == utc_format(created_at, "%Y-%m-%d"@),
            date_matches(res.last_used_at, last_used_at),
    {
        PasskeyView {
            id,
            name,
            created_at: format_date(created_at),
            last_used_at: optional_date(last_used_at),
        }
    }
}

impl TokenView {
    /// A stored token with its dates written as `YYYY-MM-DD`.
    pub fn from_record(id: i64, name: String, created_at: i64, last_used_at: Option<i64>) -> (res:
        Self)
        requires
            in_timestamp_range(created_at),
            opt_in_range(last_used_at),
        ensures
            res.id == id,
            res.name == name,
            res.created_at@ == utc_format(created_at, "%Y-%m-%d"@),
            date_matches(res.last_used_at, last_used_at),
    {
        TokenView {
            id,
            name,
            created_at: format_date(created_at),
            last_used_at: optional_date(last_used_at),
        }
    }
}

} // verus!
