use vstd::prelude::*;

use crate::text::{chars_eq, chars_of, owned};

verus! {

/// The tab the statistics page opens on.
pub fn default_type() -> (res: String)
    ensures
        res@ == "roasters"@,
{
    owned("roasters")
}

/// Which collection of per-country counts a statistics tab shows.
#[derive(Debug, Clone, Copy, PartialEq, Eq, Structural)]
pub enum GeoTab {
    Roasters,
    Roasts,
    Cups,
    Cafes,
}

/// The counts shown for a `type` parameter: roasts, cups and cafes by name,
/// roasters for anything else.
pub open spec fn geo_tab(entity_type: Seq<char>) -> GeoTab {
    if entity_type == "roasts"@ {
        GeoTab::Roasts
    } else if entity_type == "cups"@ {
        GeoTab::Cups
    } else if entity_type == "cafes"@ {
        GeoTab::Cafes
    } else {
        GeoTab::Roasters
    }
}

pub fn geo_for_type(entity_type: &str) -> (res: GeoTab)
    ensures
        res == geo_tab(entity_type@),
{
    let t = chars_of(entity_type);
    if chars_eq(t.as_slice(), chars_of("roasts").as_slice()) {
        GeoTab::Roasts
    } else if chars_eq(t.as_slice(), chars_of("cups").as_slice()) {
        GeoTab::Cups
    } else if chars_eq(t.as_slice(), chars_of("cafes").as_slice()) {
        GeoTab::Cafes
    } else {
        GeoTab::Roasters
    }
}

} // verus!
