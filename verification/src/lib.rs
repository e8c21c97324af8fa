//! Core of a command-line client for the UK Making Tax Digital VAT API:
//! the authorization-code capture race, the anti-fraud header set, and the
//! on-disk token cache, together with the request building around them.
//! Network, filesystem and terminal plumbing live outside this crate and
//! exchange plain values with it.
use vstd::prelude::*;

pub mod auth;
pub mod error;
pub mod fraud_prevention;
pub mod io;
pub mod json;
pub mod strutil;
pub mod vat;

verus! {

/// Base URL of the site that serves the interactive consent page.
pub open spec fn spec_www_base() -> Seq<char> {
    "https://www.tax.service.gov.uk"@
}

/// Base URL of the API host that serves the token endpoint and the VAT API.
pub open spec fn spec_api_base() -> Seq<char> {
    "https://api.service.hmrc.gov.uk"@
}

/// The fixed loopback address the consent flow redirects the browser to.
pub open spec fn spec_redirect_url() -> Seq<char> {
    "http://localhost:54786/"@
}

/// Base URL of the site that serves the interactive consent page.
pub fn www_base_url() -> (r: &'static str)
    ensures
        r@ == spec_www_base(),
{
    "https://www.tax.service.gov.uk"
}

/// Base URL of the API host that serves the token endpoint and the VAT API.
pub fn api_base_url() -> (r: &'static str)
    ensures
        r@ == spec_api_base(),
{
    "https://api.service.hmrc.gov.uk"
}

/// The fixed loopback address the consent flow redirects the browser to.
pub fn redirect_url() -> (r: &'static str)
    ensures
        r@ == spec_redirect_url(),
{
    "http://localhost:54786/"
}

/// Command-line arguments of the tool, as plain values.
pub struct Args {
    /// VAT registration number.
    pub vrn: String,
    /// Registered app client id.
    pub client_id: String,
    /// Registered app client secret.
    pub client_secret: String,
    /// Access token to be re-used from a previous run.
    pub access_token: Option<String>,
}

} // verus!
