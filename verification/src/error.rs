//! The error type of the crate.

use vstd::prelude::*;

verus! {

/// `reqwest::Error`: what the transport reports when a request fails or a
/// response cannot be decoded.  It is carried through unread.
#[verifier::external_type_specification]
#[verifier::external_body]
pub struct ExTransportError(reqwest::Error);

/// `reqwest::header::InvalidHeaderValue`: the refusal of a text as the value
/// of an HTTP header.  It is carried through unread.
#[verifier::external_type_specification]
#[verifier::external_body]
pub struct ExInvalidHeaderValue(reqwest::header::InvalidHeaderValue);

/// Everything that can go wrong in this crate.
#[derive(Debug)]
pub enum MwError {
    /// An error that came from the transport: the request failed, the server
    /// answered with a failure, or the response had an unexpected shape.
    Reqwest(reqwest::Error),
    /// A text was refused as a header value, usually a user agent or a
    /// credential.
    InvalidHeaderValue(reqwest::header::InvalidHeaderValue),
    /// The bot cannot log in.
    Unauthorized,
    /// The server sent a page without items and, with it, a token for the
    /// next page.
    Protocol,
}

impl MwError {
    /// The error in words.  An error that came from elsewhere speaks for
    /// itself.
    pub fn message(&self) -> (out: String)
        ensures
            self is Unauthorized ==> out@ == "failed to log in"@,
            self is Protocol ==> out@ == "cannot continue without return value"@,
            self matches MwError::Reqwest(e) ==> vstd::string::to_string_from_display_ensures(
                e,
                out,
            ),
            self matches MwError::InvalidHeaderValue(e)
                ==> vstd::string::to_string_from_display_ensures(e, out),
    {
        match self {
            MwError::Reqwest(e) => e.to_string(),
            MwError::InvalidHeaderValue(e) => e.to_string(),
            MwError::Unauthorized => "failed to log in".to_owned(),
            MwError::Protocol => "cannot continue without return value".to_owned(),
        }
    }
}

impl From<reqwest::Error> for MwError {
    fn from(e: reqwest::Error) -> (out: MwError) {
        MwError::Reqwest(e)
    }
}

impl vstd::std_specs::convert::FromSpecImpl<reqwest::Error> for MwError {
    open spec fn obeys_from_spec() -> bool {
        true
    }

    open spec fn from_spec(e: reqwest::Error) -> MwError {
        MwError::Reqwest(e)
    }
}

impl From<reqwest::header::InvalidHeaderValue> for MwError {
    fn from(e: reqwest::header::InvalidHeaderValue) -> (out: MwError) {
        MwError::InvalidHeaderValue(e)
    }
}

impl vstd::std_specs::convert::FromSpecImpl<reqwest::header::InvalidHeaderValue> for MwError {
    open spec fn obeys_from_spec() -> bool {
        true
    }

    open spec fn from_spec(e: reqwest::header::InvalidHeaderValue) -> MwError {
        MwError::InvalidHeaderValue(e)
    }
}

} // verus!
