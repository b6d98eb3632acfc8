use vstd::prelude::*;
use vstd::string::StringExecFns;

use crate::text::{i64_text, int_text, owned};

verus! {

/// One labelled row of a timeline event.
#[derive(Debug, PartialEq, Eq)]
pub struct EventDetail {
    pub label: String,
    pub value: String,
}

/// What a brew's timeline event shows. The measures that are decimals come
/// already written with one decimal place; `ratio_text` is the water-to-
/// coffee ratio written that way, present when the coffee weight is
/// positive.
#[derive(Debug, PartialEq, Eq)]
pub struct BrewFacts {
    pub brew_id: i64,
    pub roast_name: String,
    pub roast_slug: String,
    pub roaster_name: String,
    pub roaster_slug: String,
    pub grinder_name: String,
    pub brewer_name: String,
    pub filter_paper_name: Option<String>,
    pub coffee_weight_text: String,
    pub water_volume: i32,
    pub water_temp_text: String,
    pub grind_setting_text: String,
    pub ratio_text: Option<String>,
}

/// A brew's timeline event, without its time and raw measures.
#[derive(Debug, PartialEq, Eq)]
pub struct BrewEvent {
    pub entity_type: String,
    pub entity_id: i64,
    pub action: String,
    pub title: String,
    pub details: Vec<EventDetail>,
    pub slug: Option<String>,
    pub roaster_slug: Option<String>,
}

/// The rows of a list of details, as (label, value) texts.
pub open spec fn rows_of(ds: Seq<EventDetail>) -> Seq<(Seq<char>, Seq<char>)> {
    ds.map_values(|d: EventDetail| (d.label@, d.value@))
}

/// The rows of a brew's event: roaster, coffee, water, grinder and brewer;
/// then the filter paper when the brew used one; then the ratio ("N/A"
/// without a positive coffee weight).
pub open spec fn brew_rows(f: BrewFacts) -> Seq<(Seq<char>, Seq<char>)> {
    let head = seq![
        ("Roaster"@, f.roaster_name@),
        ("Coffee"@, f.coffee_weight_text@ + "g"@),
        ("Water"@, int_text(f.water_volume as int) + "ml @ "@ + f.water_temp_text@ + "\u{00B0}C"@),
        ("Grinder"@, f.grinder_name@ + " @ "@ + f.grind_setting_text@),
        ("Brewer"@, f.brewer_name@),
    ];
    let with_filter = match f.filter_paper_name {
        Some(n) => head.push(("Filter"@, n@)),
        None => head,
    };
    with_filter.push(
        (
            "Ratio"@,
            match f.ratio_text {
                Some(r) => "1:"@ + r@,
                None => "N/A"@,
            },
        ),
    )
}

fn detail(label: &str, value: String) -> (res: EventDetail)
    ensures
        res.label@ == label@,
        res.value == value,
{
    EventDetail { label: owned(label), value }
}

fn joined(a: &str, b: &str) -> (res: String)
    ensures
        res@ == a@ + b@,
{
    let mut s = owned(a);
    s.append(b);
    s
}

/// The timeline event of a new brew: of kind "brew", action "brewed", titled
/// with the roast's name and linked to the roast and its roaster.
pub fn brew_event(f: BrewFacts) -> (res: BrewEvent)
    ensures
        res.entity_type@ == "brew"@,
        res.entity_id == f.brew_id,
        res.action@ == "brewed"@,
        res.title == f.roast_name,
        rows_of(res.details@) == brew_rows(f),
        res.slug == Some(f.roast_slug),
        res.roaster_slug == Some(f.roaster_slug),
{
    let ghost facts = f;
    let BrewFacts {
        brew_id,
        roast_name,
        roast_slug,
        roaster_name,
        roaster_slug,
        grinder_name,
        brewer_name,
        filter_paper_name,
        coffee_weight_text,
        water_volume,
        water_temp_text,
        grind_setting_text,
        ratio_text,
    } = f;
    let mut details: Vec<EventDetail> = Vec::new();
    details.push(detail("Roaster", roaster_name));
    details.push(detail("Coffee", joined(coffee_weight_text.as_str(), "g")));
    let mut water = i64_text(water_volume as i64);
    water.append("ml @ ");
    water.append(water_temp_text.as_str());
    water.append("\u{00B0}C");
    details.push(detail("Water", water));
    let mut grinder = grinder_name;
    grinder.append(" @ ");
    grinder.append(grind_setting_text.as_str());
    details.push(detail("Grinder", grinder));
    details.push(detail("Brewer", brewer_name));
    if let Some(n) = filter_paper_name {
        details.push(detail("Filter", n));
    }
    let ratio = match ratio_text {
        Some(r) => joined("1:", r.as_str()),
        None => owned("N/A"),
    };
    details.push(detail("Ratio", ratio));
    assert(rows_of(details@) =~= brew_rows(facts));
    BrewEvent {
        entity_type: owned("brew"),
        entity_id: brew_id,
        action: owned("brewed"),
        title: roast_name,
        details,
        slug: Some(roast_slug),
        roaster_slug: Some(roaster_slug),
    }
}

} // verus!
