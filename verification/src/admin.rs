use vstd::prelude::*;

use crate::formatting::{formatted_number, format_number};

pub use crate::account::{PasskeyView, TokenView};

verus! {

/// AI usage as the admin page shows it.
#[derive(Debug, PartialEq, Eq)]
pub struct AiUsageView {
    pub calls: i64,
    pub tokens: String,
    pub cost: String,
}

impl AiUsageView {
    /// The usage panel for a user's AI usage summary; there is none until the
    /// user has made a call. The cost comes already written out.
    pub fn from_summary(calls: i64, tokens: i64, cost: String) -> (res: Option<Self>)
        ensures
            calls <= 0 ==> res is None,
            calls > 0 ==> (res matches Some(v) && v.calls == calls && v.tokens@ == formatted_number(
                tokens as int,
            ) && v.cost == cost),
    {
        if calls > 0 {
            Some(AiUsageView { calls, tokens: format_number(tokens), cost })
        } else {
            None
        }
    }
}

} // verus!
