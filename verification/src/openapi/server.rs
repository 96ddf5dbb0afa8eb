use vstd::prelude::*;

use crate::keyed::unique_keys;
use crate::openapi::extensions::Extensions;

verus! {

/// One server the API is reachable at. Servers are matched between two
/// documents by their URL.
#[derive(Debug)]
pub struct Server {
    pub url: String,
    pub description: Option<String>,
    pub extensions: Extensions,
}

impl Server {
    pub open spec fn well_formed(self) -> bool {
        unique_keys(self.extensions@)
    }
}

/// The server list acts as a mapping keyed by URL: no URL occurs twice.
pub open spec fn unique_server_urls(s: Seq<Server>) -> bool {
    forall|i: int, j: int| 0 <= i < j < s.len() ==> s[i].url@ != s[j].url@
}

} // verus!
