use vstd::prelude::*;
use vstd::string::StringExecFns;

use crate::submissions::{
    clean_notes, is_note_separator, lemma_clean_push, lemma_split_nonempty,
    lemma_split_plain_suffix, notes_of, split_notes, texts, BagScanSubmission, TastingNotesInput,
};
use crate::text::{is_space, trim, trim_start};
use crate::text::{i64_text, int_text};

verus! {

/// Roaster details read from a photo or a prompt; any of them may be missing.
#[derive(Debug, Default, PartialEq, Eq)]
pub struct ExtractedRoaster {
    pub name: Option<String>,
    pub country: Option<String>,
    pub city: Option<String>,
    pub homepage: Option<String>,
}

/// Roast details read from a photo or a prompt; any of them may be missing.
#[derive(Debug, Default, PartialEq, Eq)]
pub struct ExtractedRoast {
    pub name: Option<String>,
    pub origin: Option<String>,
    pub region: Option<String>,
    pub producer: Option<String>,
    pub process: Option<String>,
    pub tasting_notes: Option<Vec<String>>,
}

/// Everything read from a bag scan.
#[derive(Debug, Default, PartialEq, Eq)]
pub struct BagScanExtraction {
    pub roaster: ExtractedRoaster,
    pub roast: ExtractedRoast,
}

/// A value sent to the Datastar front end as a signal.
#[derive(Debug, PartialEq, Eq)]
pub enum Signal {
    Text(String),
    Flag(bool),
}

/// Texts joined by a separator (`[String]::join`).
pub open spec fn join_with(parts: Seq<Seq<char>>, sep: Seq<char>) -> Seq<char>
    decreases parts.len(),
{
    if parts.len() == 0 {
        seq![]
    } else if parts.len() == 1 {
        parts[0]
    } else {
        join_with(parts.drop_last(), sep) + sep + parts.last()
    }
}

/// Joins texts with `, `.
pub fn join_notes(notes: &Vec<String>) -> (res: String)
    ensures
        res@ == join_with(texts(notes@), ", "@),
{
    let ghost ts = texts(notes@);
    let mut out = String::new();
    let mut i: usize = 0;
    while i < notes.len()
        invariant
            i <= notes.len(),
            ts == texts(notes@),
            out@ == join_with(ts.take(i as int), ", "@),
        decreases notes.len() - i,
    {
        proof {
            assert(ts.take(i + 1).drop_last() =~= ts.take(i as int));
            assert(ts.take(i + 1).last() == notes@[i as int]@);
        }
        if i > 0 {
            out.append(", ");
        } else {
            assert(ts.take(0) =~= Seq::<Seq<char>>::empty());
            assert(out@ =~= Seq::<char>::empty());
            assert(ts.take(1)[0] == notes@[0]@);
        }
        out.append(notes[i].as_str());
        i = i + 1;
    }
    assert(ts.take(notes.len() as int) =~= ts);
    out
}

/// The text of an extracted field, or nothing when it is missing.
pub open spec fn text_or_empty(o: Option<String>) -> Seq<char> {
    match o {
        Some(s) => s@,
        None => Seq::<char>::empty(),
    }
}

fn take_or_empty(o: Option<String>) -> (res: String)
    ensures
        res@ == text_or_empty(o),
{
    match o {
        Some(s) => s,
        None => String::new(),
    }
}

pub open spec fn is_text_signal(s: (&str, Signal), name: Seq<char>, value: Seq<char>) -> bool {
    s.0@ == name && (s.1 matches Signal::Text(t) && t@ == value)
}

pub open spec fn is_flag_signal(s: (&str, Signal), name: Seq<char>, value: bool) -> bool {
    s.0@ == name && s.1 == Signal::Flag(value)
}

/// The notes of an extraction as the scan form shows them: joined by `, `.
pub open spec fn notes_text(notes: Option<Vec<String>>) -> Seq<char> {
    match notes {
        Some(n) => join_with(texts(n@), ", "@),
        None => Seq::<char>::empty(),
    }
}

/// The signals that fill the bag scan form from an extraction; a missing
/// field fills in nothing.
pub fn bag_scan_signals(e: BagScanExtraction) -> (res: Vec<(&'static str, Signal)>)
    ensures
        res@.len() == 11,
        is_text_signal(res@[0], "_roaster-name"@, text_or_empty(e.roaster.name)),
        is_text_signal(res@[1], "_roaster-country"@, text_or_empty(e.roaster.country)),
        is_text_signal(res@[2], "_roaster-city"@, text_or_empty(e.roaster.city)),
        is_text_signal(res@[3], "_roaster-homepage"@, text_or_empty(e.roaster.homepage)),
        is_text_signal(res@[4], "_roast-name"@, text_or_empty(e.roast.name)),
        is_text_signal(res@[5], "_origin"@, text_or_empty(e.roast.origin)),
        is_text_signal(res@[6], "_region"@, text_or_empty(e.roast.region)),
        is_text_signal(res@[7], "_producer"@, text_or_empty(e.roast.producer)),
        is_text_signal(res@[8], "_process"@, text_or_empty(e.roast.process)),
        is_text_signal(res@[9], "_tasting-notes"@, notes_text(e.roast.tasting_notes)),
        is_flag_signal(res@[10], "_scan-extracted"@, true),
{
    let BagScanExtraction { roaster, roast } = e;
    let notes = match &roast.tasting_notes {
        Some(n) => join_notes(n),
        None => String::new(),
    };
    let mut signals: Vec<(&'static str, Signal)> = Vec::new();
    signals.push(("_roaster-name", Signal::Text(take_or_empty(roaster.name))));
    signals.push(("_roaster-country", Signal::Text(take_or_empty(roaster.country))));
    signals.push(("_roaster-city", Signal::Text(take_or_empty(roaster.city))));
    signals.push(("_roaster-homepage", Signal::Text(take_or_empty(roaster.homepage))));
    signals.push(("_roast-name", Signal::Text(take_or_empty(roast.name))));
    signals.push(("_origin", Signal::Text(take_or_empty(roast.origin))));
    signals.push(("_region", Signal::Text(take_or_empty(roast.region))));
    signals.push(("_producer", Signal::Text(take_or_empty(roast.producer))));
    signals.push(("_process", Signal::Text(take_or_empty(roast.process))));
    signals.push(("_tasting-notes", Signal::Text(notes)));
    signals.push(("_scan-extracted", Signal::Flag(true)));
    signals
}

/// The signals that fill the roaster form from an extraction.
pub fn roaster_signals(e: ExtractedRoaster) -> (res: Vec<(&'static str, Signal)>)
    ensures
        res@.len() == 5,
        is_text_signal(res@[0], "_roaster-name"@, text_or_empty(e.name)),
        is_text_signal(res@[1], "_roaster-country"@, text_or_empty(e.country)),
        is_text_signal(res@[2], "_roaster-city"@, text_or_empty(e.city)),
        is_text_signal(res@[3], "_roaster-homepage"@, text_or_empty(e.homepage)),
        is_flag_signal(res@[4], "_extracted"@, true),
{
    let mut signals: Vec<(&'static str, Signal)> = Vec::new();
    signals.push(("_roaster-name", Signal::Text(take_or_empty(e.name))));
    signals.push(("_roaster-country", Signal::Text(take_or_empty(e.country))));
    signals.push(("_roaster-city", Signal::Text(take_or_empty(e.city))));
    signals.push(("_roaster-homepage", Signal::Text(take_or_empty(e.homepage))));
    signals.push(("_extracted", Signal::Flag(true)));
    signals
}

/// The signals sent after a scan created a roast.
pub fn scan_success_signals(roast_id: i64, roast_name: String, roaster_name: String) -> (res: Vec<
    (&'static str, Signal),
>)
    ensures
        res@.len() == 3,
        is_text_signal(res@[0], "_roast-id"@, int_text(roast_id as int)),
        is_text_signal(res@[1], "_scan-success"@, roast_name@),
        is_text_signal(res@[2], "_roaster-name"@, roaster_name@),
{
    let mut signals: Vec<(&'static str, Signal)> = Vec::new();
    signals.push(("_roast-id", Signal::Text(i64_text(roast_id))));
    signals.push(("_scan-success", Signal::Text(roast_name)));
    signals.push(("_roaster-name", Signal::Text(roaster_name)));
    signals
}

/// A field after an extraction: the extracted text where there is one.
pub open spec fn filled(current: String, found: Option<String>) -> String {
    match found {
        Some(v) => v,
        None => current,
    }
}

/// An optional field after an extraction: the extracted text where there is
/// one.
pub open spec fn filled_opt(current: Option<String>, found: Option<String>) -> Option<String> {
    if found is Some {
        found
    } else {
        current
    }
}

/// What an extraction found replaces what the form held, whatever that
/// was; only a field it did not find keeps the form's value.
pub proof fn law_extraction_wins(current: Option<String>, found: Option<String>)
    ensures
        found is Some ==> filled_opt(current, found) == found,
        found is None ==> filled_opt(current, found) == current,
        forall|text: String| #[trigger] filled(text, found) == match found {
            Some(v) => v,
            None => text,
        },
{
}

fn fill(current: &mut String, found: Option<String>)
    ensures
        *final(current) == filled(*old(current), found),
{
    if let Some(v) = found {
        *current = v;
    }
}

impl BagScanSubmission {
    /// Fills the form from an extraction: every field the extraction found
    /// replaces what the form held, the tasting notes as one text joined by
    /// `, `; fields it did not find keep their value. The photo and prompt
    /// are used up.
    pub fn apply_extraction(&mut self, e: BagScanExtraction)
        ensures
            final(self).image is None,
            final(self).prompt is None,
            final(self).roaster_name == filled(old(self).roaster_name, e.roaster.name),
            final(self).roaster_country == filled(old(self).roaster_country, e.roaster.country),
            final(self).roaster_city == filled_opt(old(self).roaster_city, e.roaster.city),
            final(self).roaster_homepage == filled_opt(
                old(self).roaster_homepage,
                e.roaster.homepage,
            ),
            final(self).roast_name == filled(old(self).roast_name, e.roast.name),
            final(self).origin == filled(old(self).origin, e.roast.origin),
            final(self).region == filled(old(self).region, e.roast.region),
            final(self).producer == filled(old(self).producer, e.roast.producer),
            final(self).process == filled(old(self).process, e.roast.process),
            e.roast.tasting_notes is None ==> final(self).tasting_notes == old(self).tasting_notes,
            e.roast.tasting_notes is Some ==> (final(self).tasting_notes matches TastingNotesInput::Text(t)
                && t@ == notes_text(e.roast.tasting_notes)),
            e.roaster.city is Some ==> final(self).roaster_city == e.roaster.city,
            e.roaster.city is None ==> final(self).roaster_city == old(self).roaster_city,
            e.roaster.homepage is Some ==> final(self).roaster_homepage == e.roaster.homepage,
            e.roaster.homepage is None ==> final(self).roaster_homepage == old(
                self,
            ).roaster_homepage,
            e.roaster.name matches Some(v) ==> final(self).roaster_name == v,
            e.roaster.country matches Some(v) ==> final(self).roaster_country == v,
            e.roast.name matches Some(v) ==> final(self).roast_name == v,
            e.roast.origin matches Some(v) ==> final(self).origin == v,
            e.roast.region matches Some(v) ==> final(self).region == v,
            e.roast.producer matches Some(v) ==> final(self).producer == v,
            e.roast.process matches Some(v) ==> final(self).process == v,
    {
        proof {
            law_extraction_wins(old(self).roaster_city, e.roaster.city);
            law_extraction_wins(old(self).roaster_homepage, e.roaster.homepage);
        }
        let BagScanExtraction { roaster, roast } = e;
        self.image = None;
        self.prompt = None;
        fill(&mut self.roaster_name, roaster.name);
        fill(&mut self.roaster_country, roaster.country);
        if roaster.city.is_some() {
            self.roaster_city = roaster.city;
        }
        if roaster.homepage.is_some() {
            self.roaster_homepage = roaster.homepage;
        }
        fill(&mut self.roast_name, roast.name);
        fill(&mut self.origin, roast.origin);
        fill(&mut self.region, roast.region);
        fill(&mut self.producer, roast.producer);
        fill(&mut self.process, roast.process);
        if let Some(notes) = roast.tasting_notes {
            let joined = join_notes(&notes);
            self.tasting_notes = TastingNotesInput::Text(joined);
        }
    }
}

/// A note as the forms keep it: not blank, without white space around it,
/// and without a comma or line break inside it.
pub open spec fn plain_note(n: Seq<char>) -> bool {
    &&& n.len() > 0
    &&& trim(n) == n
    &&& forall|i: int| 0 <= i < n.len() ==> !is_note_separator(#[trigger] n[i])
}

proof fn lemma_joined_notes_split(ns: Seq<Seq<char>>)
    requires
        forall|i: int| 0 <= i < ns.len() ==> plain_note(#[trigger] ns[i]),
    ensures
        clean_notes(split_notes(join_with(ns, ", "@))) == ns,
    decreases ns.len(),
{
    reveal_strlit(", ");
    let empty = Seq::<char>::empty();
    assert(split_notes(empty) == seq![empty]);
    assert(seq![empty].drop_last() =~= Seq::<Seq<char>>::empty());
    if ns.len() == 0 {
        assert(clean_notes(seq![empty]) == clean_notes(Seq::<Seq<char>>::empty()));
        assert(clean_notes(split_notes(join_with(ns, ", "@))) =~= ns);
    } else if ns.len() == 1 {
        let n = ns[0];
        assert(plain_note(n));
        lemma_split_plain_suffix(empty, n);
        assert(empty + n =~= n);
        assert(split_notes(n) =~= seq![n]);
        assert(seq![n] =~= Seq::<Seq<char>>::empty().push(n));
        lemma_clean_push(Seq::<Seq<char>>::empty(), n);
        assert(clean_notes(split_notes(join_with(ns, ", "@))) =~= ns);
    } else {
        let front = ns.drop_last();
        let last = ns.last();
        assert(plain_note(ns[ns.len() - 1]));
        assert forall|i: int| 0 <= i < front.len() implies plain_note(#[trigger] front[i]) by {
            assert(front[i] == ns[i]);
        }
        lemma_joined_notes_split(front);
        let j = join_with(front, ", "@);
        let b = seq![' '] + last;
        assert(join_with(ns, ", "@) =~= j.push(',') + b);
        assert forall|i: int| 0 <= i < b.len() implies !is_note_separator(#[trigger] b[i]) by {
            if i > 0 {
                assert(b[i] == last[i - 1]);
            }
        }
        lemma_split_plain_suffix(j.push(','), b);
        assert(j.push(',').drop_last() =~= j);
        lemma_split_nonempty(j);
        let r = split_notes(j);
        assert(split_notes(j.push(',')) == r.push(empty));
        assert(empty + b =~= b);
        assert(split_notes(j.push(',') + b) =~= r.push(b));
        assert(b.drop_first() =~= last);
        assert(is_space(b[0]));
        assert(trim_start(b) == trim_start(last));
        assert(trim(b) == last);
        lemma_clean_push(r, b);
        assert(clean_notes(split_notes(join_with(ns, ", "@))) =~= ns);
    }
}

/// Notes that a scan writes into the form as one text joined by `, ` are
/// read back as the same notes when the form is submitted.
pub proof fn law_joined_notes_read_back(notes: Seq<Seq<char>>, text: String)
    requires
        forall|i: int| 0 <= i < notes.len() ==> plain_note(#[trigger] notes[i]),
        text@ == join_with(notes, ", "@),
    ensures
        notes_of(TastingNotesInput::Text(text)) == notes,
{
    lemma_joined_notes_split(notes);
}

} // verus!
