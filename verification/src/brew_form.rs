use vstd::prelude::*;

use crate::text::chars_eq;
use crate::text::chars_of;

verus! {

/// A choice in a select box of the brew form.
#[derive(Debug, PartialEq, Eq)]
pub struct OptionView {
    pub id: String,
    pub label: String,
}

/// The label of the first option with the given id, if any.
pub open spec fn first_label(options: Seq<OptionView>, id: Seq<char>) -> Option<Seq<char>>
    decreases options.len(),
{
    if options.len() == 0 {
        None
    } else if options[0].id@ == id {
        Some(options[0].label@)
    } else {
        first_label(options.drop_first(), id)
    }
}

/// A gear choice of the brew form, as the id and display name it shows.
#[derive(Debug, PartialEq, Eq)]
pub struct GearChoice {
    pub id: String,
    pub name: String,
}

/// The label of the first option with the given id.
fn find_label(options: &Vec<OptionView>, wanted: &[char]) -> (res: Option<String>)
    ensures
        match first_label(options@, wanted@) {
            Some(l) => res matches Some(s) && s@ == l,
            None => res is None,
        },
{
    let mut i: usize = 0;
    assert(options@.subrange(0, options@.len() as int) =~= options@);
    while i < options.len()
        invariant
            i <= options.len(),
            first_label(options@, wanted@) == first_label(
                options@.subrange(i as int, options@.len() as int),
                wanted@,
            ),
        decreases options.len() - i,
    {
        let ghost rest = options@.subrange(i as int, options@.len() as int);
        assert(rest[0] == options@[i as int]);
        assert(rest.drop_first() =~= options@.subrange(i + 1, options@.len() as int));
        if chars_eq(chars_of(options[i].id.as_str()).as_slice(), wanted) {
            return Some(options[i].label.clone());
        }
        i = i + 1;
    }
    None
}

/// Applies a "brew again" override to a gear choice: the requested id is
/// selected, and its name is taken from the first option with that id (the
/// name is kept when no option has it). Without a request nothing changes.
pub fn apply_choice_override(options: &Vec<OptionView>, requested: Option<String>, choice: &mut GearChoice)
    ensures
        requested is None ==> *final(choice) == *old(choice),
        requested matches Some(r) ==> {
            &&& final(choice).id == r
            &&& match first_label(options@, r@) {
                Some(l) => final(choice).name@ == l,
                None => final(choice).name == old(choice).name,
            }
        },
{
    if let Some(r) = requested {
        let wanted = chars_of(r.as_str());
        if let Some(label) = find_label(options, wanted.as_slice()) {
            choice.name = label;
        }
        choice.id = r;
    }
}

/// The whole-number and text defaults of the brew form.
#[derive(Debug, PartialEq, Eq)]
pub struct BrewExtras {
    pub water_volume: i32,
    pub brew_time: Option<i32>,
    pub quick_notes: String,
}

/// Applies the "brew again" overrides of the water volume, brew time and
/// quick notes: each one given replaces the default, the others are kept.
pub fn apply_extra_overrides(
    extras: &mut BrewExtras,
    water_volume: Option<i32>,
    brew_time: Option<i32>,
    quick_notes: Option<String>,
)
    ensures
        final(extras).water_volume == match water_volume {
            Some(v) => v,
            None => old(extras).water_volume,
        },
        final(extras).brew_time == match brew_time {
            Some(t) => Some(t),
            None => old(extras).brew_time,
        },
        final(extras).quick_notes == match quick_notes {
            Some(n) => n,
            None => old(extras).quick_notes,
        },
{
    if let Some(v) = water_volume {
        extras.water_volume = v;
    }
    if let Some(t) = brew_time {
        extras.brew_time = Some(t);
    }
    if let Some(n) = quick_notes {
        extras.quick_notes = n;
    }
}

} // verus!
