use vstd::prelude::*;

use crate::text::{chars_eq, chars_of, owned};

verus! {

/// The tab the data page opens on.
pub fn default_type() -> (res: String)
    ensures
        res@ == "brews"@,
{
    owned("brews")
}

/// The listings of the data page.
#[derive(Debug, Clone, Copy, PartialEq, Eq, Structural)]
pub enum DataTab {
    Brews,
    Roasters,
    Roasts,
    Bags,
    Gear,
    Cafes,
    Cups,
}

/// The listing shown for a `type` parameter; an unknown type shows brews.
pub open spec fn data_tab(entity_type: Seq<char>) -> DataTab {
    if entity_type == "roasters"@ {
        DataTab::Roasters
    } else if entity_type == "roasts"@ {
        DataTab::Roasts
    } else if entity_type == "bags"@ {
        DataTab::Bags
    } else if entity_type == "gear"@ {
        DataTab::Gear
    } else if entity_type == "cafes"@ {
        DataTab::Cafes
    } else if entity_type == "cups"@ {
        DataTab::Cups
    } else {
        DataTab::Brews
    }
}

pub fn data_tab_for_type(entity_type: &str) -> (res: DataTab)
    ensures
        res == data_tab(entity_type@),
{
    let t = chars_of(entity_type);
    if chars_eq(t.as_slice(), chars_of("roasters").as_slice()) {
        DataTab::Roasters
    } else if chars_eq(t.as_slice(), chars_of("roasts").as_slice()) {
        DataTab::Roasts
    } else if chars_eq(t.as_slice(), chars_of("bags").as_slice()) {
        DataTab::Bags
    } else if chars_eq(t.as_slice(), chars_of("gear").as_slice()) {
        DataTab::Gear
    } else if chars_eq(t.as_slice(), chars_of("cafes").as_slice()) {
        DataTab::Cafes
    } else if chars_eq(t.as_slice(), chars_of("cups").as_slice()) {
        DataTab::Cups
    } else {
        DataTab::Brews
    }
}

} // verus!
