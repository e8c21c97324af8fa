//! Error kinds of the authorization and caching core, and the rule that turns
//! an HTTP response into a fatal error when its status is not a success.
use vstd::prelude::*;

use crate::strutil::spec_dec_digits;
use crate::strutil::u64_to_string;

verus! {

/// A fatal outcome of the authorization flow, the token exchange or the cache.
/// Every variant carries the text that is shown to the user.
#[derive(Debug)]
pub enum Error {
    /// The local listener could not bind its fixed port.
    BindError { detail: String },
    /// The network could not be reached, or the transfer broke off.
    TransportError { detail: String },
    /// A response arrived with a non-success HTTP status.
    StatusError { url: String, status: u16, body: String },
    /// A response or a cache file held text that does not parse as a token record.
    DeserializationError { detail: String },
    /// The cache directory or file could not be read or written.
    CacheIoError { detail: String },
}

/// The message of a status error: the url, the word `failed`, the numeric
/// status, and the full response body.
pub open spec fn status_error_message(url: Seq<char>, status: nat, body: Seq<char>) -> Seq<char> {
    url + " failed "@ + spec_dec_digits(status) + ": "@ + body
}

/// The user-facing message of each error kind.
pub open spec fn spec_message(e: Error) -> Seq<char> {
    match e {
        Error::BindError { detail } => "cannot bind local listener: "@ + detail@,
        Error::TransportError { detail } => detail@,
        Error::StatusError { url, status, body } => status_error_message(
            url@,
            status as nat,
            body@,
        ),
        Error::DeserializationError { detail } => "invalid token record: "@ + detail@,
        Error::CacheIoError { detail } => "cache error: "@ + detail@,
    }
}

impl Error {
    /// Renders the single descriptive message of a fatal error.
    pub fn message(&self) -> (r: String)
        ensures
            r@ == spec_message(*self),
    {
        match self {
            Error::BindError { detail } => {
                let mut m = String::from_str("cannot bind local listener: ");
                m.append(detail.as_str());
                m
            },
            Error::TransportError { detail } => detail.as_str().to_owned(),
            Error::StatusError { url, status, body } => {
                let mut m = url.as_str().to_owned();
                m.append(" failed ");
                let digits = u64_to_string(*status as u64);
                m.append(digits.as_str());
                m.append(": ");
                m.append(body.as_str());
                m
            },
            Error::DeserializationError { detail } => {
                let mut m = String::from_str("invalid token record: ");
                m.append(detail.as_str());
                m
            },
            Error::CacheIoError { detail } => {
                let mut m = String::from_str("cache error: ");
                m.append(detail.as_str());
                m
            },
        }
    }
}

/// A plain model of an HTTP response: its status, the requested url, and the
/// body text. Transport layers hand responses to this crate in this shape.
#[derive(Debug)]
pub struct HttpResponse {
    pub status: u16,
    pub url: String,
    pub body: String,
}

impl HttpResponse {
    /// Whether the status is a success status.
    pub open spec fn spec_is_success(self) -> bool {
        200 <= self.status < 300
    }

    /// Turns a non-success response into an error whose message carries the
    /// numeric status and the full body text; passes a success through.
    pub fn error_body_for_status(self) -> (r: Result<HttpResponse, Error>)
        ensures
            self.spec_is_success() ==> (r matches Ok(resp) && resp == self),
            !self.spec_is_success() ==> (r matches Err(e) && e == (Error::StatusError {
                url: self.url,
                status: self.status,
                body: self.body,
            })),
    {
        if 200 <= self.status && self.status < 300 {
            Ok(self)
        } else {
            Err(Error::StatusError { url: self.url, status: self.status, body: self.body })
        }
    }
}

/// Response post-processing shared by every call against the remote API.
pub trait ResponseExt: Sized {
    /// Returns an `Err` if the response is an error, includes the body in the
    /// error message.
    fn error_body_for_status(self) -> Result<Self, Error>;
}

impl ResponseExt for HttpResponse {
    fn error_body_for_status(self) -> Result<HttpResponse, Error> {
        HttpResponse::error_body_for_status(self)
    }
}

} // verus!
