use chrono::Datelike;
use vstd::prelude::*;
use vstd::string::StringExecFns;
use vstd::utf8::{encode_scalar, encode_utf8};

use crate::errors::{is_validation, AppError};
use crate::text::{
    chars_of, owned, parse_i64, parse_i64_spec, push_char, string_of, trim, trim_chars, trim_str,
};

verus! {

/// The texts held by a list of strings.
pub open spec fn texts(v: Seq<String>) -> Seq<Seq<char>> {
    v.map_values(|s: String| s@)
}

/// Tasting notes as a form sends them: a list, or one text of notes
/// separated by commas or line breaks.
#[derive(Debug, PartialEq, Eq)]
pub enum TastingNotesInput {
    List(Vec<String>),
    Text(String),
}

pub open spec fn is_note_separator(c: char) -> bool {
    c == ',' || c == '\n'
}

/// `str::split` at every comma and line break: the pieces between them,
/// empty ones included.
pub open spec fn split_notes(s: Seq<char>) -> Seq<Seq<char>>
    decreases s.len(),
{
    if s.len() == 0 {
        seq![seq![]]
    } else {
        let r = split_notes(s.drop_last());
        if is_note_separator(s.last()) {
            r.push(seq![])
        } else {
            r.update(r.len() - 1, r.last().push(s.last()))
        }
    }
}

/// Each note trimmed, the empty ones dropped.
pub open spec fn clean_notes(xs: Seq<Seq<char>>) -> Seq<Seq<char>>
    decreases xs.len(),
{
    if xs.len() == 0 {
        seq![]
    } else {
        let r = clean_notes(xs.drop_last());
        let t = trim(xs.last());
        if t.len() > 0 {
            r.push(t)
        } else {
            r
        }
    }
}

/// The tasting notes an input holds.
pub open spec fn notes_of(input: TastingNotesInput) -> Seq<Seq<char>> {
    match input {
        TastingNotesInput::List(values) => clean_notes(texts(values@)),
        TastingNotesInput::Text(value) => clean_notes(split_notes(value@)),
    }
}

pub(crate) proof fn lemma_split_nonempty(s: Seq<char>)
    ensures
        split_notes(s).len() > 0,
    decreases s.len(),
{
    if s.len() > 0 {
        lemma_split_nonempty(s.drop_last());
    }
}

pub(crate) proof fn lemma_clean_push(xs: Seq<Seq<char>>, x: Seq<char>)
    ensures
        clean_notes(xs.push(x)) == if trim(x).len() > 0 {
            clean_notes(xs).push(trim(x))
        } else {
            clean_notes(xs)
        },
{
    assert(xs.push(x).drop_last() =~= xs);
}

/// Text without separators extends the last piece of a split.
pub(crate) proof fn lemma_split_plain_suffix(s: Seq<char>, b: Seq<char>)
    requires
        forall|i: int| 0 <= i < b.len() ==> !is_note_separator(#[trigger] b[i]),
    ensures
        split_notes(s + b) == split_notes(s).update(
            split_notes(s).len() - 1,
            split_notes(s).last() + b,
        ),
    decreases b.len(),
{
    lemma_split_nonempty(s);
    let r = split_notes(s);
    if b.len() == 0 {
        assert(s + b =~= s);
        assert(r.update(r.len() - 1, r.last() + b) =~= r);
    } else {
        let bd = b.drop_last();
        assert forall|i: int| 0 <= i < bd.len() implies !is_note_separator(#[trigger] bd[i]) by {
            assert(bd[i] == b[i]);
        }
        lemma_split_plain_suffix(s, bd);
        assert((s + b).drop_last() =~= s + bd);
        assert((s + b).last() == b.last());
        assert(!is_note_separator(b[b.len() - 1]));
        let r2 = split_notes(s + bd);
        assert(r2.last() == r.last() + bd);
        assert(r2.last().push(b.last()) =~= r.last() + b);
        assert(r2.update(r2.len() - 1, r2.last().push(b.last())) =~= r.update(
            r.len() - 1,
            r.last() + b,
        ));
    }
}

/// Appends a note, trimmed, unless it is blank.
fn push_clean(out: &mut Vec<String>, note: &[char])
    ensures
        texts(final(out)@) == if trim(note@).len() > 0 {
            texts(old(out)@).push(trim(note@))
        } else {
            texts(old(out)@)
        },
{
    let t = trim_chars(note);
    if t.len() > 0 {
        out.push(string_of(t.as_slice()));
        assert(texts(final(out)@) =~= texts(old(out)@).push(trim(note@)));
    }
}

impl TastingNotesInput {
    /// The notes, each trimmed, blank ones dropped.
    pub fn into_vec(self) -> (res: Vec<String>)
        ensures
            texts(res@) == notes_of(self),
    {
        match self {
            TastingNotesInput::List(values) => {
                let ghost vs = texts(values@);
                let mut out: Vec<String> = Vec::new();
                let mut i: usize = 0;
                while i < values.len()
                    invariant
                        i <= values.len(),
                        vs == texts(values@),
                        texts(out@) == clean_notes(vs.take(i as int)),
                    decreases values.len() - i,
                {
                    let cs = chars_of(values[i].as_str());
                    proof {
                        assert(vs.take(i + 1) =~= vs.take(i as int).push(cs@));
                        lemma_clean_push(vs.take(i as int), cs@);
                    }
                    push_clean(&mut out, cs.as_slice());
                    i = i + 1;
                }
                assert(vs.take(values.len() as int) =~= vs);
                out
            },
            TastingNotesInput::Text(value) => {
                let cs = chars_of(value.as_str());
                let mut out: Vec<String> = Vec::new();
                let mut cur: Vec<char> = Vec::new();
                let mut i: usize = 0;
                proof {
                    assert(cs@.take(0) =~= Seq::<char>::empty());
                    assert(split_notes(Seq::<char>::empty()).drop_last() =~= Seq::<Seq<char>>::empty());
                }
                while i < cs.len()
                    invariant
                        i <= cs.len(),
                        split_notes(cs@.take(i as int)).len() > 0,
                        texts(out@) == clean_notes(split_notes(cs@.take(i as int)).drop_last()),
                        cur@ == split_notes(cs@.take(i as int)).last(),
                    decreases cs.len() - i,
                {
                    let c = cs[i];
                    let ghost prev = split_notes(cs@.take(i as int));
                    proof {
                        assert(cs@.take(i + 1).drop_last() =~= cs@.take(i as int));
                        assert(cs@.take(i + 1).last() == c);
                    }
                    if c == ',' || c == '\n' {
                        proof {
                            lemma_clean_push(prev.drop_last(), prev.last());
                            assert(prev.drop_last().push(prev.last()) =~= prev);
                            assert(prev.push(seq![]).drop_last() =~= prev);
                        }
                        push_clean(&mut out, cur.as_slice());
                        cur = Vec::new();
                        proof {
                            assert(cur@ =~= Seq::<char>::empty());
                        }
                    } else {
                        cur.push(c);
                        proof {
                            let next = prev.update(prev.len() - 1, prev.last().push(c));
                            assert(next.drop_last() =~= prev.drop_last());
                        }
                    }
                    i = i + 1;
                }
                let ghost all = split_notes(cs@);
                assert(cs@.take(cs.len() as int) =~= cs@);
                proof {
                    lemma_clean_push(all.drop_last(), all.last());
                    assert(all.drop_last().push(all.last()) =~= all);
                }
                push_clean(&mut out, cur.as_slice());
                out
            },
        }
    }
}

/// The tasting notes a bag scan starts with when the form sends none.
pub fn default_tasting_notes() -> (res: TastingNotesInput)
    ensures
        res matches TastingNotesInput::Text(t) && t@ == Seq::<char>::empty(),
{
    TastingNotesInput::Text(String::new())
}

/// A roast to be stored.
#[derive(Debug, PartialEq, Eq)]
pub struct NewRoast {
    pub roaster_id: i64,
    pub name: String,
    pub origin: String,
    pub region: String,
    pub producer: String,
    pub tasting_notes: Vec<String>,
    pub process: String,
}

/// The roast form.
#[derive(Debug, PartialEq, Eq)]
pub struct NewRoastSubmission {
    pub roaster_id: i64,
    pub name: String,
    pub origin: String,
    pub region: String,
    pub producer: String,
    pub tasting_notes: TastingNotesInput,
    pub process: String,
}

pub open spec fn required_message(field: Seq<char>) -> Seq<char> {
    field + " is required"@
}

/// The error a roast form is rejected with, if any: the first of a positive
/// roaster id, a name, origin, region, producer and process that are not
/// blank, and at least one tasting note.
pub open spec fn roast_submission_error(s: NewRoastSubmission) -> Option<Seq<char>> {
    if s.roaster_id <= 0 {
        Some("invalid roaster id"@)
    } else if trim(s.name@).len() == 0 {
        Some(required_message("name"@))
    } else if trim(s.origin@).len() == 0 {
        Some(required_message("origin"@))
    } else if trim(s.region@).len() == 0 {
        Some(required_message("region"@))
    } else if trim(s.producer@).len() == 0 {
        Some(required_message("producer"@))
    } else if trim(s.process@).len() == 0 {
        Some(required_message("process"@))
    } else if notes_of(s.tasting_notes).len() == 0 {
        Some("tasting notes are required"@)
    } else {
        None
    }
}

/// A roast form is accepted only when its roaster id is positive, its name,
/// origin, region, producer and process are not blank once trimmed, and it
/// has a tasting note; otherwise it is refused with the message for the
/// first of those that fails, in that order ("name is required", ...,
/// "tasting notes are required").
pub proof fn law_roast_form_requires_every_field(s: NewRoastSubmission)
    ensures
        roast_submission_error(s) is None <==> {
            &&& s.roaster_id > 0
            &&& trim(s.name@).len() > 0
            &&& trim(s.origin@).len() > 0
            &&& trim(s.region@).len() > 0
            &&& trim(s.producer@).len() > 0
            &&& trim(s.process@).len() > 0
            &&& notes_of(s.tasting_notes).len() > 0
        },
        s.roaster_id <= 0 ==> roast_submission_error(s) == Some("invalid roaster id"@),
        s.roaster_id > 0 && trim(s.name@).len() == 0 ==> roast_submission_error(s) == Some(
            "name is required"@,
        ),
        s.roaster_id > 0 && trim(s.name@).len() > 0 && trim(s.origin@).len() == 0
            ==> roast_submission_error(s) == Some("origin is required"@),
        s.roaster_id > 0 && trim(s.name@).len() > 0 && trim(s.origin@).len() > 0 && trim(
            s.region@,
        ).len() == 0 ==> roast_submission_error(s) == Some("region is required"@),
        s.roaster_id > 0 && trim(s.name@).len() > 0 && trim(s.origin@).len() > 0 && trim(
            s.region@,
        ).len() > 0 && trim(s.producer@).len() == 0 ==> roast_submission_error(s) == Some(
            "producer is required"@,
        ),
        s.roaster_id > 0 && trim(s.name@).len() > 0 && trim(s.origin@).len() > 0 && trim(
            s.region@,
        ).len() > 0 && trim(s.producer@).len() > 0 && trim(s.process@).len() == 0
            ==> roast_submission_error(s) == Some("process is required"@),
{
    reveal_strlit("name");
    reveal_strlit("origin");
    reveal_strlit("region");
    reveal_strlit("producer");
    reveal_strlit("process");
    reveal_strlit(" is required");
    reveal_strlit("name is required");
    reveal_strlit("origin is required");
    reveal_strlit("region is required");
    reveal_strlit("producer is required");
    reveal_strlit("process is required");
    assert(required_message("name"@) =~= "name is required"@);
    assert(required_message("origin"@) =~= "origin is required"@);
    assert(required_message("region"@) =~= "region is required"@);
    assert(required_message("producer"@) =~= "producer is required"@);
    assert(required_message("process"@) =~= "process is required"@);
}

/// A text that must not be blank, trimmed.
pub fn require(field: &str, value: &str) -> (res: Result<String, AppError>)
    ensures
        trim(value@).len() == 0 ==> (res matches Err(e) && is_validation(e, required_message(field@))),
        trim(value@).len() > 0 ==> (res matches Ok(t) && t@ == trim(value@)),
{
    let trimmed = trim_str(value);
    if trimmed.as_str().is_empty() {
        let mut msg = owned(field);
        msg.append(" is required");
        Err(AppError::Validation(msg))
    } else {
        Ok(trimmed)
    }
}

impl NewRoastSubmission {
    pub fn into_new_roast(self) -> (res: Result<NewRoast, AppError>)
        ensures
            match roast_submission_error(self) {
                Some(m) => res matches Err(e) && is_validation(e, m),
                None => res matches Ok(r) && {
                    &&& r.roaster_id == self.roaster_id
                    &&& r.name@ == trim(self.name@)
                    &&& r.origin@ == trim(self.origin@)
                    &&& r.region@ == trim(self.region@)
                    &&& r.producer@ == trim(self.producer@)
                    &&& r.process@ == trim(self.process@)
                    &&& texts(r.tasting_notes@) == notes_of(self.tasting_notes)
                },
            },
            res matches Ok(r) ==> {
                &&& r.roaster_id > 0
                &&& r.name@.len() > 0 && r.origin@.len() > 0 && r.region@.len() > 0
                &&& r.producer@.len() > 0 && r.process@.len() > 0
                &&& r.tasting_notes@.len() > 0
            },
    {
        proof {
            law_roast_form_requires_every_field(self);
        }
        let roaster_id = self.roaster_id;
        if roaster_id <= 0 {
            return Err(AppError::validation("invalid roaster id"));
        }
        let name = require("name", self.name.as_str())?;
        let origin = require("origin", self.origin.as_str())?;
        let region = require("region", self.region.as_str())?;
        let producer = require("producer", self.producer.as_str())?;
        let process = require("process", self.process.as_str())?;
        let tasting_notes = self.tasting_notes.into_vec();
        if tasting_notes.len() == 0 {
            return Err(AppError::validation("tasting notes are required"));
        }
        Ok(NewRoast { roaster_id, name, origin, region, producer, tasting_notes, process })
    }
}

/// The bag scan form: a photo or a prompt to extract details from, and the
/// roaster and roast fields (filled in by the extraction when it ran).
#[derive(Debug, PartialEq, Eq)]
pub struct BagScanSubmission {
    pub image: Option<String>,
    pub prompt: Option<String>,
    pub roaster_name: String,
    pub roaster_country: String,
    pub roaster_city: Option<String>,
    pub roaster_homepage: Option<String>,
    pub roast_name: String,
    pub origin: String,
    pub region: String,
    pub producer: String,
    pub process: String,
    pub tasting_notes: TastingNotesInput,
}

pub open spec fn present_text(t: Option<String>) -> bool {
    t matches Some(s) && s@.len() > 0
}

/// The error a scanned roast is rejected with, if any. Without a photo or
/// prompt every field and a tasting note are required; with one, only a roast
/// name that the extraction found.
pub open spec fn scan_error(s: BagScanSubmission, has_raw_input: bool) -> Option<Seq<char>> {
    if !has_raw_input && notes_of(s.tasting_notes).len() == 0 {
        Some("tasting notes are required"@)
    } else if has_raw_input {
        if trim(s.roast_name@).len() == 0 {
            Some("could not extract a roast name from the image/text"@)
        } else {
            None
        }
    } else if trim(s.roast_name@).len() == 0 {
        Some(required_message("roast name"@))
    } else if trim(s.origin@).len() == 0 {
        Some(required_message("origin"@))
    } else if trim(s.region@).len() == 0 {
        Some(required_message("region"@))
    } else if trim(s.producer@).len() == 0 {
        Some(required_message("producer"@))
    } else if trim(s.process@).len() == 0 {
        Some(required_message("process"@))
    } else {
        None
    }
}

fn present(t: &Option<String>) -> (res: bool)
    ensures
        res == present_text(*t),
{
    match t {
        Some(s) => !s.as_str().is_empty(),
        None => false,
    }
}

impl BagScanSubmission {
    /// Whether the scan carries a photo or a prompt to extract details from.
    pub fn has_raw_input(&self) -> (res: bool)
        ensures
            res == (present_text(self.image) || present_text(self.prompt)),
    {
        present(&self.image) || present(&self.prompt)
    }

    /// The roast of a scan, once its roaster is known.
    pub fn into_new_roast(self, roaster_id: i64, has_raw_input: bool) -> (res: Result<
        NewRoast,
        AppError,
    >)
        ensures
            match scan_error(self, has_raw_input) {
                Some(m) => res matches Err(e) && is_validation(e, m),
                None => res matches Ok(r) && {
                    &&& r.roaster_id == roaster_id
                    &&& r.name@ == trim(self.roast_name@)
                    &&& r.origin@ == trim(self.origin@)
                    &&& r.region@ == trim(self.region@)
                    &&& r.producer@ == trim(self.producer@)
                    &&& r.process@ == trim(self.process@)
                    &&& texts(r.tasting_notes@) == notes_of(self.tasting_notes)
                },
            },
            res matches Ok(r) ==> r.name@.len() > 0 && r.roaster_id == roaster_id,
            !has_raw_input && res is Ok ==> (res matches Ok(r) && r.origin@.len() > 0
                && r.region@.len() > 0 && r.producer@.len() > 0 && r.process@.len() > 0
                && r.tasting_notes@.len() > 0),
    {
        let tasting_notes = self.tasting_notes.into_vec();
        if !has_raw_input && tasting_notes.len() == 0 {
            return Err(AppError::validation("tasting notes are required"));
        }
        if has_raw_input {
            let name = trim_str(self.roast_name.as_str());
            if name.as_str().is_empty() {
                return Err(
                    AppError::validation("could not extract a roast name from the image/text"),
                );
            }
            Ok(NewRoast {
                roaster_id,
                name,
                origin: trim_str(self.origin.as_str()),
                region: trim_str(self.region.as_str()),
                producer: trim_str(self.producer.as_str()),
                process: trim_str(self.process.as_str()),
                tasting_notes,
            })
        } else {
            let name = require("roast name", self.roast_name.as_str())?;
            let origin = require("origin", self.origin.as_str())?;
            let region = require("region", self.region.as_str())?;
            let producer = require("producer", self.producer.as_str())?;
            let process = require("process", self.process.as_str())?;
            Ok(NewRoast { roaster_id, name, origin, region, producer, tasting_notes, process })
        }
    }
}

/// Where a check-in was drunk: a cafe already stored, or a new one by name.
#[derive(Debug, PartialEq, Eq)]
pub enum CafeChoice {
    Existing(i64),
    New(String),
}

/// The error a check-in is rejected with, if any.
pub open spec fn checkin_error(roast_id: Seq<char>, cafe_id: Option<Seq<char>>, cafe_name: Option<
    Seq<char>,
>) -> Option<Seq<char>> {
    if parse_i64_spec(roast_id) is None {
        Some("invalid roast ID"@)
    } else if cafe_id matches Some(c) && c.len() > 0 {
        if parse_i64_spec(cafe_id.unwrap()) is None {
            Some("invalid cafe ID"@)
        } else {
            None
        }
    } else if !(cafe_name matches Some(n) && n.len() > 0) {
        Some("cafe name is required"@)
    } else {
        None
    }
}

pub open spec fn opt_text(t: Option<&str>) -> Option<Seq<char>> {
    match t {
        Some(s) => Some(s@),
        None => None,
    }
}

/// Reads a check-in: the roast drunk, and the cafe (an id when one is given,
/// otherwise the name of a cafe to create).
pub fn plan_checkin(roast_id: &str, cafe_id: Option<&str>, cafe_name: Option<&str>) -> (res: Result<
    (i64, CafeChoice),
    AppError,
>)
    ensures
        match checkin_error(roast_id@, opt_text(cafe_id), opt_text(cafe_name)) {
            Some(m) => res matches Err(e) && is_validation(e, m),
            None => res matches Ok((r, choice)) && {
                &&& Some(r) == parse_i64_spec(roast_id@)
                &&& match choice {
                    CafeChoice::Existing(c) => cafe_id matches Some(t) && t@.len() > 0 && Some(c)
                        == parse_i64_spec(t@),
                    CafeChoice::New(n) => !(cafe_id matches Some(t) && t@.len() > 0)
                        && (cafe_name matches Some(t) && n@ == t@),
                }
            },
        },
{
    let roast = match parse_i64(chars_of(roast_id).as_slice()) {
        Some(r) => r,
        None => return Err(AppError::validation("invalid roast ID")),
    };
    match cafe_id {
        Some(id) if !id.is_empty() => match parse_i64(chars_of(id).as_slice()) {
            Some(c) => Ok((roast, CafeChoice::Existing(c))),
            None => Err(AppError::validation("invalid cafe ID")),
        },
        _ => match cafe_name {
            Some(name) if !name.is_empty() => Ok((roast, CafeChoice::New(owned(name)))),
            _ => Err(AppError::validation("cafe name is required")),
        },
    }
}

/// The `roaster_id` filter of the roast listing API.
#[derive(Debug, PartialEq, Eq)]
pub struct RoastsQuery {
    pub roaster_id: Option<String>,
}

/// The message for a `roaster_id` that is not a number.
pub open spec fn invalid_roaster_id_message(t: Seq<char>) -> Seq<char> {
    "Invalid roaster_id: '"@ + t + "'"@
}

impl RoastsQuery {
    /// The roaster the listing is filtered to: none when the parameter is
    /// missing or empty, otherwise its trimmed text read as an id.
    pub fn roaster_filter(&self) -> (res: Result<Option<i64>, AppError>)
        ensures
            match self.roaster_id {
                Some(s) if s@.len() > 0 => match parse_i64_spec(trim(s@)) {
                    Some(id) => res == Ok::<Option<i64>, AppError>(Some(id)),
                    None => res matches Err(e) && is_validation(
                        e,
                        invalid_roaster_id_message(trim(s@)),
                    ),
                },
                _ => res == Ok::<Option<i64>, AppError>(None),
            },
    {
        match &self.roaster_id {
            Some(s) if !s.as_str().is_empty() => {
                let trimmed = trim_chars(chars_of(s.as_str()).as_slice());
                match parse_i64(trimmed.as_slice()) {
                    Some(id) => Ok(Some(id)),
                    None => {
                        let mut msg = owned("Invalid roaster_id: '");
                        let t = string_of(trimmed.as_slice());
                        msg.append(t.as_str());
                        push_char(&mut msg, '\'');
                        proof {
                            reveal_strlit("'");
                            assert("'"@ =~= seq!['\'']);
                            assert(msg@ =~= invalid_roaster_id_message(trim(s@)));
                        }
                        Err(AppError::Validation(msg))
                    },
                }
            },
            _ => Ok(None),
        }
    }
}

/// A cup rating must be between 1 and 5 when one is given.
pub fn validate_rating(rating: Option<i32>) -> (res: Result<(), AppError>)
    ensures
        match rating {
            Some(r) if !(1 <= r <= 5) => res matches Err(e) && is_validation(
                e,
                "rating must be between 1 and 5"@,
            ),
            _ => res is Ok,
        },
{
    match rating {
        Some(r) if !(1 <= r && r <= 5) => Err(AppError::validation("rating must be between 1 and 5")),
        _ => Ok(()),
    }
}

/// A calendar date.
#[derive(Debug, Clone, Copy, PartialEq, Eq, Structural)]
pub struct CalendarDate {
    pub year: i32,
    pub month: u32,
    pub day: u32,
}

/// The date that `chrono` reads from a text with the format `%Y-%m-%d`, as
/// (year, month, day), if it reads one.
pub uninterp spec fn iso_date(s: Seq<char>) -> Option<(i32, u32, u32)>;

/// Reads a `%Y-%m-%d` date with `chrono::NaiveDate::parse_from_str`. What
/// `chrono` accepts is named, not described; a date it returns has a month in
/// 1..=12 and a day in 1..=31, as `Datelike` documents.
#[verifier::external_body]
fn parse_iso_date(s: &str) -> (res: Option<CalendarDate>)
    ensures
        match res {
            Some(d) => iso_date(s@) == Some((d.year, d.month, d.day)) && 1 <= d.month <= 12 && 1
                <= d.day <= 31,
            None => iso_date(s@) is None,
        },
{
    match chrono::NaiveDate::parse_from_str(s, "%Y-%m-%d") {
        Ok(d) => Some(CalendarDate { year: d.year(), month: d.month(), day: d.day() }),
        Err(_) => None,
    }
}

/// The error a bag's roast and roast date are rejected with, if any.
pub open spec fn bag_roast_error(roast_id: i64, roast_date: Option<Seq<char>>) -> Option<Seq<char>> {
    if roast_id <= 0 {
        Some("invalid roast id"@)
    } else if roast_date matches Some(d) && d.len() > 0 && iso_date(d) is None {
        Some("invalid roast date format"@)
    } else {
        None
    }
}

/// Checks the roast of a new bag and reads its roast date, which may be
/// missing or empty. (The amount, a decimal, is checked after this.)
pub fn validate_bag_roast(roast_id: i64, roast_date: Option<&str>) -> (res: Result<
    Option<CalendarDate>,
    AppError,
>)
    ensures
        match bag_roast_error(roast_id, opt_text(roast_date)) {
            Some(m) => res matches Err(e) && is_validation(e, m),
            None => res matches Ok(d) && match roast_date {
                Some(t) if t@.len() > 0 => d matches Some(date) && iso_date(t@) == Some(
                    (date.year, date.month, date.day),
                ),
                _ => d is None,
            },
        },
{
    if roast_id <= 0 {
        return Err(AppError::validation("invalid roast id"));
    }
    match roast_date {
        Some(s) if !s.is_empty() => match parse_iso_date(s) {
            Some(d) => Ok(Some(d)),
            None => Err(AppError::validation("invalid roast date format")),
        },
        _ => Ok(None),
    }
}

/// Where to search for cafes: near a named place, or around the coordinates
/// that the request carries.
#[derive(Debug, PartialEq, Eq)]
pub enum NearbySearch {
    Near { query: String, near: String },
    Coordinates { query: String },
}

/// The length in bytes of a text in UTF-8, as `str::len` counts it.
pub open spec fn utf8_len(s: Seq<char>) -> int {
    encode_utf8(s).len() as int
}

proof fn lemma_utf8_len_below_two(t: Seq<char>)
    ensures
        (utf8_len(t) < 2) <==> (t.len() == 0 || (t.len() == 1 && (t[0] as u32) <= 0x7F)),
{
    reveal_with_fuel(encode_utf8, 3);
    if t.len() >= 2 {
        assert(encode_utf8(t.drop_first()) == encode_scalar(t.drop_first()[0] as u32) + encode_utf8(
            t.drop_first().drop_first(),
        ));
    }
}

/// Whether a text is shorter than two bytes in UTF-8.
fn below_two_bytes(s: &str) -> (res: bool)
    ensures
        res == (utf8_len(s@) < 2),
{
    proof {
        lemma_utf8_len_below_two(s@);
    }
    let cs = chars_of(s);
    if cs.len() == 0 {
        true
    } else if cs.len() == 1 {
        (cs[0] as u32) <= 0x7F
    } else {
        false
    }
}

/// The error a cafe search is rejected with, if any: the search text must be
/// two bytes long once trimmed, and so must a place name; without a place
/// name both coordinates are needed. (Their ranges are checked afterwards.)
pub open spec fn nearby_error(
    q: Seq<char>,
    near: Option<Seq<char>>,
    lat_given: bool,
    lng_given: bool,
) -> Option<Seq<char>> {
    if utf8_len(trim(q)) < 2 {
        Some("q must be at least 2 characters"@)
    } else if near is Some {
        if utf8_len(trim(near.unwrap())) < 2 {
            Some("near must be at least 2 characters"@)
        } else {
            None
        }
    } else if !lat_given {
        Some("lat is required when near is not provided"@)
    } else if !lng_given {
        Some("lng is required when near is not provided"@)
    } else {
        None
    }
}

/// Reads the parameters of a cafe search.
pub fn plan_nearby_search(q: &str, near: Option<&str>, lat_given: bool, lng_given: bool) -> (res:
    Result<NearbySearch, AppError>)
    ensures
        match nearby_error(q@, opt_text(near), lat_given, lng_given) {
            Some(m) => res matches Err(e) && is_validation(e, m),
            None => res matches Ok(search) && match near {
                Some(n) => search matches NearbySearch::Near { query, near: place } && query@ == trim(
                    q@,
                ) && place@ == trim(n@),
                None => search matches NearbySearch::Coordinates { query } && query@ == trim(q@),
            },
        },
{
    let query = trim_str(q);
    if below_two_bytes(query.as_str()) {
        return Err(AppError::validation("q must be at least 2 characters"));
    }
    match near {
        Some(n) => {
            let place = trim_str(n);
            if below_two_bytes(place.as_str()) {
                return Err(AppError::validation("near must be at least 2 characters"));
            }
            Ok(NearbySearch::Near { query, near: place })
        },
        None => {
            if !lat_given {
                return Err(AppError::validation("lat is required when near is not provided"));
            }
            if !lng_given {
                return Err(AppError::validation("lng is required when near is not provided"));
            }
            Ok(NearbySearch::Coordinates { query })
        },
    }
}

/// The error a gear form is rejected with, if any: its category must be one
/// of the known ones, and its make and model must not be blank.
pub open spec fn gear_error(category_known: bool, make: Seq<char>, model: Seq<char>) -> Option<Seq<char>> {
    if !category_known {
        Some("invalid category"@)
    } else if trim(make).len() == 0 {
        Some("make cannot be empty"@)
    } else if trim(model).len() == 0 {
        Some("model cannot be empty"@)
    } else {
        None
    }
}

/// Checks a gear form, given whether its category text named a known
/// category. The make and model are stored as they were sent.
pub fn check_new_gear(category_known: bool, make: &str, model: &str) -> (res: Result<(), AppError>)
    ensures
        match gear_error(category_known, make@, model@) {
            Some(m) => res matches Err(e) && is_validation(e, m),
            None => res is Ok,
        },
{
    if !category_known {
        return Err(AppError::validation("invalid category"));
    }
    if trim_str(make).as_str().is_empty() {
        return Err(AppError::validation("make cannot be empty"));
    }
    if trim_str(model).as_str().is_empty() {
        return Err(AppError::validation("model cannot be empty"));
    }
    Ok(())
}

/// An update must change something: at least one of its fields is set.
pub fn require_changes(fields_set: &Vec<bool>) -> (res: Result<(), AppError>)
    ensures
        fields_set@.contains(true) ==> res is Ok,
        !fields_set@.contains(true) ==> (res matches Err(e) && is_validation(
            e,
            "no changes provided"@,
        )),
{
    let mut i: usize = 0;
    while i < fields_set.len()
        invariant
            i <= fields_set.len(),
            forall|j: int| 0 <= j < i ==> !(#[trigger] fields_set@[j]),
        decreases fields_set.len() - i,
    {
        if fields_set[i] {
            assert(fields_set@[i as int]);
            return Ok(());
        }
        i = i + 1;
    }
    Err(AppError::validation("no changes provided"))
}

/// An optional id as a form sends it in text: an empty text is no id,
/// anything else must read as an `i64`.
pub open spec fn optional_id(text: Seq<char>) -> Option<Option<i64>> {
    if text.len() == 0 {
        Some(None)
    } else {
        match parse_i64_spec(text) {
            Some(id) => Some(Some(id)),
            None => None,
        }
    }
}

/// Reads an optional id from text; `None` when the text is neither empty nor
/// a number.
pub fn optional_id_text(text: &str) -> (res: Option<Option<i64>>)
    ensures
        res == optional_id(text@),
{
    let cs = chars_of(text);
    if cs.len() == 0 {
        Some(None)
    } else {
        match parse_i64(cs.as_slice()) {
            Some(id) => Some(Some(id)),
            None => None,
        }
    }
}

} // verus!
