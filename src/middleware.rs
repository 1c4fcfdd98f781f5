//! The shared-secret check on requests.

use vstd::prelude::*;

verus! {

/// The name of the header and of the query parameter that carry the secret;
/// a filter of this name is never compiled.
pub const X_BERYL_SECRET: &'static str = "x-beryl-secret";

/// Admits a request that presents the configured secret.
pub struct VerifyApiKey {
    secret: String,
}

impl VerifyApiKey {
    pub closed spec fn spec_secret(&self) -> Seq<char> {
        self.secret@
    }

    pub fn new(secret: String) -> (r: Self)
        ensures
            r.spec_secret() == secret@,
    {
        VerifyApiKey { secret }
    }

    /// A request passes when its query parameter or its header holds the
    /// secret.
    pub fn is_authorized(&self, query_param: Option<&str>, header: Option<&str>) -> (r: bool)
        ensures
            r == ((query_param is Some && query_param->0@ == self.spec_secret()) || (
            header is Some && header->0@ == self.spec_secret())),
    {
        let by_query = match query_param {
            Some(v) => v.to_owned() == self.secret,
            None => false,
        };
        let by_header = match header {
            Some(v) => v.to_owned() == self.secret,
            None => false,
        };
        by_query || by_header
    }
}

} // verus!
