//! The static-file server's routing decision: serve the entry page for
//! empty or trailing-slash paths, otherwise redirect permanently to the
//! trailing-slash form of the same path.

use vstd::prelude::*;
use vstd::string::{StrSliceExecFns, StringExecFns};

verus! {

/// What the server does with a request path.
pub enum RouteDecision {
    /// Respond 200 with the entry HTML file.
    ServeIndex,
    /// Respond 308 with this `Location` header.
    Redirect(String),
}

/// Paths that are served directly: the empty path and paths that already
/// end with a separator.
pub open spec fn wants_index(path: Seq<char>) -> bool {
    path.len() == 0 || path.last() == '/'
}

/// Decide the response for a request path (the path without its leading
/// slash, as the route pattern captures it).
pub fn route_request(path: &str) -> (r: RouteDecision)
    ensures
        wants_index(path@) ==> (r is ServeIndex),
        !wants_index(path@) ==> (r matches RouteDecision::Redirect(loc) && loc@ == seq!['/']
            + path@ + seq!['/']),
{
    let n = path.unicode_len();
    if n == 0 {
        return RouteDecision::ServeIndex;
    }
    let last = path.get_char(n - 1);
    if last == '/' {
        RouteDecision::ServeIndex
    } else {
        let mut loc = String::from_str("/");
        loc.append(path);
        loc.append("/");
        proof {
            reveal_strlit("/");
            assert(loc@ =~= seq!['/'] + path@ + seq!['/']);
        }
        RouteDecision::Redirect(loc)
    }
}

} // verus!
