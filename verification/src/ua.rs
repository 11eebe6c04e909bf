//! The user agent under which the library talks to a server.

use vstd::prelude::*;
use vstd::string::StringExecFns;

verus! {

/// The user agent of this library.  An application puts its own name in
/// front of it with [`ua`].
pub const UA: &'static str = "mw.rs/0.1.0 (https://github.com/fee1-dead/mw)";

/// The user agent of an application that uses this library: the name of the
/// application, a semicolon and a space, and then [`UA`].
pub fn ua(prefix: &str) -> (out: String)
    ensures
        out@ == prefix@ + "; "@ + UA@,
{
    prefix.to_owned().concat("; ").concat(UA)
}

/// The user agent that a client sends: the one that was chosen for it, or
/// [`UA`] where none was.
pub fn agent<'a>(chosen: Option<&'a str>) -> (out: &'a str)
    ensures
        out@ == match chosen {
            Some(name) => name@,
            None => UA@,
        },
{
    match chosen {
        Some(name) => name,
        None => UA,
    }
}

} // verus!
