use vstd::prelude::*;

use crate::text::{chars_of, decimal, i64_text, int_text, push_char, string_of, u64_text};

verus! {

/// Digits grouped in threes from the right, the groups joined by commas.
pub open spec fn group_thousands(d: Seq<char>) -> Seq<char>
    decreases d.len(),
{
    if d.len() <= 3 {
        d
    } else {
        group_thousands(d.subrange(0, d.len() - 3)) + seq![','] + d.subrange(
            d.len() - 3,
            d.len() as int,
        )
    }
}

/// A count as the account pages show it: numbers from 1,000 up get thousands
/// separators, smaller ones (negative ones too) are written plainly.
pub open spec fn formatted_number(n: int) -> Seq<char> {
    if n < 1000 {
        int_text(n)
    } else {
        group_thousands(decimal(n as nat))
    }
}

/// The text with every comma removed.
pub open spec fn without_commas(s: Seq<char>) -> Seq<char>
    decreases s.len(),
{
    if s.len() == 0 {
        s
    } else if s.last() == ',' {
        without_commas(s.drop_last())
    } else {
        without_commas(s.drop_last()).push(s.last())
    }
}

/// Appends `d[0..end]` grouped in threes.
fn push_grouped(out: &mut String, d: &[char], end: usize)
    requires
        end <= d.len(),
    ensures
        final(out)@ == old(out)@ + group_thousands(d@.subrange(0, end as int)),
    decreases end,
{
    let ghost whole = d@.subrange(0, end as int);
    if end <= 3 {
        let mut i: usize = 0;
        while i < end
            invariant
                i <= end <= d.len(),
                out@ == old(out)@ + d@.subrange(0, i as int),
            decreases end - i,
        {
            push_char(out, d[i]);
            i = i + 1;
            assert(out@ =~= old(out)@ + d@.subrange(0, i as int));
        }
    } else {
        push_grouped(out, d, end - 3);
        let ghost mid = out@;
        push_char(out, ',');
        push_char(out, d[end - 3]);
        push_char(out, d[end - 2]);
        push_char(out, d[end - 1]);
        assert(whole.subrange(0, whole.len() - 3) =~= d@.subrange(0, end - 3));
        assert(whole.subrange(whole.len() - 3, whole.len() as int) =~= seq![
            d@[end - 3],
            d@[end - 2],
            d@[end - 1],
        ]);
        assert(out@ =~= old(out)@ + group_thousands(whole));
    }
}

/// Writes a count with thousands separators.
pub fn format_number(n: i64) -> (res: String)
    ensures
        res@ == formatted_number(n as int),
{
    if n < 1000 {
        return i64_text(n);
    }
    let digits = u64_text(n as u64);
    let cs = chars_of(digits.as_str());
    let mut out = String::new();
    push_grouped(&mut out, cs.as_slice(), cs.len());
    assert(cs@.subrange(0, cs@.len() as int) =~= cs@);
    assert(out@ =~= group_thousands(decimal(n as nat)));
    out
}

proof fn lemma_without_commas_concat(a: Seq<char>, b: Seq<char>)
    ensures
        without_commas(a + b) == without_commas(a) + without_commas(b),
    decreases b.len(),
{
    if b.len() == 0 {
        assert(a + b =~= a);
        assert(without_commas(a) + without_commas(b) =~= without_commas(a));
    } else {
        lemma_without_commas_concat(a, b.drop_last());
        assert((a + b).drop_last() =~= a + b.drop_last());
        assert((a + b).last() == b.last());
        if b.last() == ',' {
        } else {
            assert(without_commas(a) + without_commas(b.drop_last()).push(b.last()) =~= (
            without_commas(a) + without_commas(b.drop_last())).push(b.last()));
        }
    }
}

proof fn lemma_digits_have_no_commas(n: nat)
    ensures
        without_commas(decimal(n)) == decimal(n),
        forall|i: int| 0 <= i < decimal(n).len() ==> #[trigger] decimal(n)[i] != ',',
    decreases n,
{
    if n < 10 {
        let c = crate::text::digit_char(n);
        assert(c as u32 == n + 48);
        assert(seq![c].drop_last() =~= Seq::<char>::empty());
        assert(without_commas(Seq::<char>::empty()) == Seq::<char>::empty());
        assert(without_commas(seq![c]) =~= seq![c]);
    } else {
        lemma_digits_have_no_commas(n / 10);
        let c = crate::text::digit_char(n % 10);
        assert(c as u32 == n % 10 + 48);
        assert(decimal(n).drop_last() =~= decimal(n / 10));
        assert(decimal(n) =~= decimal(n / 10).push(c));
    }
}

proof fn lemma_group_strips(d: Seq<char>)
    requires
        forall|i: int| 0 <= i < d.len() ==> #[trigger] d[i] != ',',
    ensures
        without_commas(group_thousands(d)) == without_commas(d),
    decreases d.len(),
{
    if d.len() > 3 {
        let head = d.subrange(0, d.len() - 3);
        let tail = d.subrange(d.len() - 3, d.len() as int);
        assert forall|i: int| 0 <= i < head.len() implies #[trigger] head[i] != ',' by {
            assert(head[i] == d[i]);
        }
        lemma_group_strips(head);
        lemma_without_commas_concat(group_thousands(head), seq![',']);
        lemma_without_commas_concat(group_thousands(head) + seq![','], tail);
        assert(without_commas(seq![',']) =~= Seq::<char>::empty()) by {
            assert(seq![','].drop_last() =~= Seq::<char>::empty());
            assert(seq![','].last() == ',');
            assert(without_commas(Seq::<char>::empty()) == Seq::<char>::empty());
        }
        lemma_without_commas_concat(head, tail);
        assert(head + tail =~= d);
        assert(group_thousands(head) + seq![','] + Seq::<char>::empty() =~= group_thousands(head)
            + seq![',']);
    }
}

/// Removing the separators from a formatted count gives back the plain decimal
/// text of the count: grouping adds commas and nothing else.
pub proof fn law_format_number_keeps_digits(n: i64)
    ensures
        without_commas(formatted_number(n as int)) == int_text(n as int),
{
    if n >= 0 {
        lemma_digits_have_no_commas(n as nat);
        lemma_group_strips(decimal(n as nat));
    } else {
        let d = decimal((-n) as nat);
        lemma_digits_have_no_commas((-n) as nat);
        lemma_without_commas_concat(seq!['-'], d);
        assert(seq!['-'].drop_last() =~= Seq::<char>::empty());
        assert(without_commas(Seq::<char>::empty()) == Seq::<char>::empty());
        assert(without_commas(seq!['-']) =~= seq!['-']);
    }
}

/// The text that `chrono` writes for the UTC instant `secs` seconds after the
/// Unix epoch with the format string `fmt`.
pub uninterp spec fn utc_format(secs: i64, fmt: Seq<char>) -> Seq<char>;

/// The first instant `DateTime::from_timestamp` accepts, in seconds after
/// the epoch: the start of January 1 of the year -262143.
pub const MIN_TIMESTAMP_SECS: i64 = -8_334_601_228_800;

/// The last instant `DateTime::from_timestamp` accepts, in seconds after the
/// epoch: the end of December 31 of the year 262142.
pub const MAX_TIMESTAMP_SECS: i64 = 8_210_266_876_799;

pub open spec fn in_timestamp_range(secs: i64) -> bool {
    MIN_TIMESTAMP_SECS <= secs <= MAX_TIMESTAMP_SECS
}

/// The format strings the library writes dates with.
pub open spec fn known_format(fmt: Seq<char>) -> bool {
    fmt == "%Y-%m-%d"@ || fmt == "%Y-%m"@ || fmt == "%B %Y"@
}

/// Formats a UTC instant with `chrono` (`DateTime::from_timestamp` followed
/// by `DateTime::format`). The result is named, not described: it is what
/// `chrono` writes for these two arguments. The instant must lie in the range
/// that `from_timestamp` accepts and the format must be one whose items
/// `chrono` supports, or `to_string` would panic.
#[verifier::external_body]
fn format_utc(secs: i64, fmt: &str) -> (res: String)
    requires
        in_timestamp_range(secs),
        known_format(fmt@),
    ensures
        res@ == utc_format(secs, fmt@),
{
    match chrono::DateTime::from_timestamp(secs, 0) {
        Some(dt) => dt.format(fmt).to_string(),
        None => String::new(),
    }
}

/// The calendar date of an instant, as `2024-05-31`.
pub fn format_date(secs: i64) -> (res: String)
    requires
        in_timestamp_range(secs),
    ensures
        res@ == utc_format(secs, "%Y-%m-%d"@),
{
    format_utc(secs, "%Y-%m-%d")
}

/// The month of an instant, as `2024-05`.
pub fn format_month_anchor(secs: i64) -> (res: String)
    requires
        in_timestamp_range(secs),
    ensures
        res@ == utc_format(secs, "%Y-%m"@),
{
    format_utc(secs, "%Y-%m")
}

/// The month of an instant, as `May 2024`.
pub fn format_month_heading(secs: i64) -> (res: String)
    requires
        in_timestamp_range(secs),
    ensures
        res@ == utc_format(secs, "%B %Y"@),
{
    format_utc(secs, "%B %Y")
}

} // verus!
