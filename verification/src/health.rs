//! Liveness responder payload.
//!
//! The plain request/response liveness endpoint answers with a small
//! JSON body; the body's exact text is rendered here, the socket and
//! routing live in the application crate.

use vstd::prelude::*;
use crate::text::json_plain;

verus! {

/// The liveness answer: a status word and the running version.
#[derive(Debug, Clone)]
pub struct HealthResponse {
    pub status: String,
    pub version: String,
}

/// The wire form of the liveness answer.
pub open spec fn wire_of_health(status: Seq<char>, version: Seq<char>) -> Seq<char> {
    "{\"status\":\""@ + status + "\",\"version\":\""@ + version + "\"}"@
}

impl HealthResponse {
    /// Renders the liveness answer exactly as [`wire_of_health`]
    /// defines.
    pub fn render(&self) -> (r: String)
        ensures
            r@ == wire_of_health(self.status@, self.version@),
    {
        let mut s = String::new();
        s.append("{\"status\":\"");
        s.append(self.status.as_str());
        s.append("\",\"version\":\"");
        s.append(self.version.as_str());
        s.append("\"}");
        proof {
            assert(s@ =~= wire_of_health(self.status@, self.version@));
        }
        s
    }
}

} // verus!
