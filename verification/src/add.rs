use vstd::prelude::*;

use crate::text::owned;

verus! {

/// The form the add page opens on.
pub fn default_type() -> (res: String)
    ensures
        res@ == "roaster"@,
{
    owned("roaster")
}

} // verus!
