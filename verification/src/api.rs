use vstd::prelude::*;

verus! {

/// The query of the login page.
#[derive(Debug, Default, PartialEq, Eq)]
pub struct LoginQuery {
    pub cli_callback: Option<String>,
}

impl LoginQuery {
    /// A signed-in visitor is sent home, unless a CLI is waiting for a token:
    /// then the passkey prompt is shown all the same.
    pub fn redirects_home(&self, authenticated: bool) -> (res: bool)
        ensures
            res == (self.cli_callback is None && authenticated),
    {
        self.cli_callback.is_none() && authenticated
    }
}

/// The filter of the bag listing API.
#[derive(Debug, Default, PartialEq, Eq)]
pub struct BagsQuery {
    pub roast_id: Option<i64>,
}

/// The filter of the brew listing API.
#[derive(Debug, Default, PartialEq, Eq)]
pub struct BrewsQuery {
    pub bag_id: Option<i64>,
}

/// The filter of the gear listing API.
#[derive(Debug, Default, PartialEq, Eq)]
pub struct GearQuery {
    pub category: Option<String>,
}

/// A request for a new API token.
#[derive(Debug, PartialEq, Eq)]
pub struct CreateTokenRequest {
    pub name: String,
}

/// A new API token, shown once.
#[derive(Debug, PartialEq, Eq)]
pub struct CreateTokenResponse {
    pub id: i64,
    pub name: String,
    pub token: String,
}

} // verus!
