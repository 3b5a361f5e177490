//! Routing: the first path segment names the handler. The set of routes
//! is closed; everything else is Not Found by construction.

use vstd::prelude::*;
use crate::text::str_eq;

verus! {

/// The handler chosen for a request path.
#[derive(Clone, Copy, Debug, PartialEq, Eq, Structural)]
pub enum Path {
    /// Reflect the rest of the path.
    Echo,
    /// Reflect the `User-Agent` header.
    UserAgent,
    /// Read or create a file under the configured root directory.
    Files,
    /// Anything else.
    NotFound,
}

/// The route named by a first path segment.
pub open spec fn spec_route(seg: Seq<char>) -> Path {
    if seg == "echo"@ {
        Path::Echo
    } else if seg == "user-agent"@ {
        Path::UserAgent
    } else if seg == "files"@ {
        Path::Files
    } else {
        Path::NotFound
    }
}

impl<'a> From<&'a str> for Path {
    /// Classify a first path segment.
    fn from(value: &'a str) -> (r: Self) {
        if str_eq(value, "echo") {
            Path::Echo
        } else if str_eq(value, "user-agent") {
            Path::UserAgent
        } else if str_eq(value, "files") {
            Path::Files
        } else {
            Path::NotFound
        }
    }
}

impl<'a> vstd::std_specs::convert::FromSpecImpl<&'a str> for Path {
    open spec fn obeys_from_spec() -> bool {
        true
    }

    open spec fn from_spec(v: &'a str) -> Path {
        spec_route(v@)
    }
}

} // verus!
