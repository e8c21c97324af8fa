//! The authorization-code grant: the one-shot completion slot behind the
//! local redirect listener, the consent URL, and the token exchange.
use vstd::prelude::*;

use crate::error::Error;
use crate::json::spec_parse_token;
use crate::json::parse_access_token;
use crate::spec_api_base;
use crate::spec_redirect_url;
use crate::spec_www_base;
use crate::strutil::opt_view;

verus! {

/// The durable credential: the bearer access token of the remote API.
#[derive(Debug, Clone, PartialEq, Eq)]
pub struct Token {
    pub access_token: String,
}

/// The credentials of the registered app, supplied by the caller.
#[derive(Debug, Clone)]
pub struct ClientCredentials {
    pub client_id: String,
    pub client_secret: String,
}

/// The fixed page served to the browser on every redirect request.
pub open spec fn spec_redirect_page() -> Seq<char> {
    "mtd-vat-cli redirect success, continue with CLI"@
}

/// How one redirect request changes the slot: only a non-empty `code`
/// parameter arriving while the slot is pending fulfils it; every other
/// request leaves the slot as it stands.
pub open spec fn slot_after_request(pre: Option<Seq<char>>, code: Option<Seq<char>>) -> Option<
    Seq<char>,
> {
    match (pre, code) {
        (None, Some(c)) => if c.len() > 0 {
            Some(c)
        } else {
            None
        },
        _ => pre,
    }
}

/// The slot after a whole sequence of redirect requests, first request first.
pub open spec fn slot_after_requests(pre: Option<Seq<char>>, reqs: Seq<Option<Seq<char>>>) -> Option<
    Seq<char>,
>
    decreases reqs.len(),
{
    if reqs.len() == 0 {
        pre
    } else {
        slot_after_requests(slot_after_request(pre, reqs[0]), reqs.drop_first())
    }
}

/// The first non-empty `code` parameter in a sequence of requests.
pub open spec fn first_code(reqs: Seq<Option<Seq<char>>>) -> Option<Seq<char>>
    decreases reqs.len(),
{
    if reqs.len() == 0 {
        None
    } else {
        match reqs[0] {
            Some(c) => if c.len() > 0 {
                Some(c)
            } else {
                first_code(reqs.drop_first())
            },
            None => first_code(reqs.drop_first()),
        }
    }
}

proof fn lemma_fulfilled_slot_stays(code: Seq<char>, reqs: Seq<Option<Seq<char>>>)
    ensures
        slot_after_requests(Some(code), reqs) == Some(code),
    decreases reqs.len(),
{
    if reqs.len() != 0 {
        lemma_fulfilled_slot_stays(code, reqs.drop_first());
    }
}

/// Law: over any sequence of redirect requests served on a pending slot, the
/// slot ends up holding exactly the first non-empty `code` parameter, and
/// none if no request carried one. Later codes never replace it.
pub proof fn lemma_first_code_wins(reqs: Seq<Option<Seq<char>>>)
    ensures
        slot_after_requests(None, reqs) == first_code(reqs),
    decreases reqs.len(),
{
    if reqs.len() != 0 {
        match reqs[0] {
            Some(c) => {
                if c.len() > 0 {
                    lemma_fulfilled_slot_stays(c, reqs.drop_first());
                } else {
                    lemma_first_code_wins(reqs.drop_first());
                }
            },
            None => {
                lemma_first_code_wins(reqs.drop_first());
            },
        }
    }
}

/// The single-use completion slot shared between the inbound request handler
/// and the waiting orchestrator. It starts pending and is fulfilled by at
/// most one request; taking an already-taken slot is a no-op.
pub struct CompletionSlot {
    code: Option<String>,
}

impl CompletionSlot {
    /// The slot's state: the captured code once fulfilled.
    pub closed spec fn spec_state(self) -> Option<Seq<char>> {
        opt_view(self.code)
    }

    /// A fresh, pending slot.
    pub fn new() -> (r: CompletionSlot)
        ensures
            r.spec_state() is None,
    {
        CompletionSlot { code: None }
    }

    /// Whether the slot has been fulfilled.
    pub fn is_fulfilled(&self) -> (r: bool)
        ensures
            r == (self.spec_state() is Some),
    {
        self.code.is_some()
    }

    /// Serves one inbound request on the redirect route. The browser always
    /// gets the same fixed page back; the slot moves as `slot_after_request`
    /// says; the newly captured code, if this very request fulfilled the
    /// slot, is handed out for delivery to the waiting caller.
    pub fn handle_redirect(&mut self, code: Option<String>) -> (r: (&'static str, Option<String>))
        ensures
            r.0@ == spec_redirect_page(),
            final(self).spec_state() == slot_after_request(old(self).spec_state(), opt_view(code)),
            (r.1 is Some) <==> (old(self).spec_state() is None && (opt_view(code) matches Some(c)
                && c.len() > 0)),
            r.1 matches Some(c) ==> (opt_view(code) == Some(c@) && final(self).spec_state() == Some(
                c@,
            )),
    {
        let delivered = match code {
            Some(c) => {
                if c.as_str().unicode_len() > 0 && self.code.is_none() {
                    self.code = Some(c.clone());
                    Some(c)
                } else {
                    None
                }
            },
            None => None,
        };
        ("mtd-vat-cli redirect success, continue with CLI", delivered)
    }
}

/// What settled the race between the serving listener and the completion
/// wait: either the server ended before any code arrived, or a code was
/// delivered.
pub enum RaceEvent {
    /// The listener terminated; its reason, rendered as text.
    ServerEnded { detail: String },
    /// The completion slot delivered the captured code.
    CodeDelivered { code: String },
}

/// Decides the outcome of the two-branch race: a delivered code wins as is; a
/// server end before any code is a fatal transport error that names it.
pub fn race_outcome(event: RaceEvent) -> (r: Result<String, Error>)
    ensures
        event matches RaceEvent::CodeDelivered { code } ==> (r matches Ok(c) && c == code),
        event matches RaceEvent::ServerEnded { detail } ==> (r matches Err(e)
            && e matches Error::TransportError { detail: d } && d@ == "localhost server ended: "@
            + detail@),
{
    match event {
        RaceEvent::CodeDelivered { code } => Ok(code),
        RaceEvent::ServerEnded { detail } => {
            let mut d = String::from_str("localhost server ended: ");
            d.append(detail.as_str());
            Err(Error::TransportError { detail: d })
        },
    }
}

/// The consent URL the browser is sent to.
pub open spec fn spec_consent_url(client_id: Seq<char>) -> Seq<char> {
    spec_www_base() + "/oauth/authorize?response_type=code&client_id="@ + client_id
        + "&scope=read:vat+write:vat&redirect_uri="@ + spec_redirect_url()
}

/// Builds the consent URL embedding the response type, the client id, the
/// fixed scope and the fixed local redirect URI.
pub fn consent_url(client_id: &str) -> (r: String)
    ensures
        r@ == spec_consent_url(client_id@),
{
    let mut url = crate::www_base_url().to_owned();
    url.append("/oauth/authorize?response_type=code&client_id=");
    url.append(client_id);
    url.append("&scope=read:vat+write:vat&redirect_uri=");
    url.append(crate::redirect_url());
    proof {
        assert(url@ =~= spec_consent_url(client_id@));
    }
    url
}

/// Relies on `webbrowser::open`: asks the platform to open the URL in the
/// default browser; whether that succeeded.
#[verifier::external_body]
fn open_browser(url: &str) -> (r: bool) {
    webbrowser::open(url).is_ok()
}

/// Opens the consent page of `client_id` in the user's browser. Failure here
/// is not fatal: the caller gets the URL back, alongside whether the browser
/// was asked successfully, and prints it as a fallback instruction.
pub fn open_consent_page(client_id: &str) -> (r: (String, bool))
    ensures
        r.0@ == spec_consent_url(client_id@),
{
    let url = consent_url(client_id);
    let opened = open_browser(url.as_str());
    (url, opened)
}

/// The fallback instruction shown when no browser could be opened.
pub fn browser_fallback_message(url: &str) -> (r: String)
    ensures
        r@ == "Open "@ + url@ + " in browser to authorize"@,
{
    let mut m = String::from_str("Open ");
    m.append(url);
    m.append(" in browser to authorize");
    proof {
        assert(m@ =~= "Open "@ + url@ + " in browser to authorize"@);
    }
    m
}

/// The token endpoint the captured code is exchanged at.
pub fn token_endpoint_url() -> (r: String)
    ensures
        r@ == spec_api_base() + "/oauth/token"@,
{
    let mut url = crate::api_base_url().to_owned();
    url.append("/oauth/token");
    proof {
        assert(url@ =~= spec_api_base() + "/oauth/token"@);
    }
    url
}

/// The form fields of the token exchange request, in order.
pub open spec fn spec_token_request_form(
    client_id: Seq<char>,
    client_secret: Seq<char>,
    code: Seq<char>,
) -> Seq<(Seq<char>, Seq<char>)> {
    seq![
        ("client_id"@, client_id),
        ("client_secret"@, client_secret),
        ("grant_type"@, "authorization_code"@),
        ("redirect_uri"@, spec_redirect_url()),
        ("code"@, code),
    ]
}

/// The view of a list of owned string pairs.
pub open spec fn pairs_view(s: Seq<(String, String)>) -> Seq<(Seq<char>, Seq<char>)> {
    s.map_values(|p: (String, String)| (p.0@, p.1@))
}

/// Builds the form body of the token exchange: client credentials, the fixed
/// grant type and redirect URI, and the authorization code, which is consumed
/// here and must not be used again.
pub fn token_request_form(credentials: &ClientCredentials, code: String) -> (r: Vec<
    (String, String),
>)
    ensures
        pairs_view(r@) == spec_token_request_form(
            credentials.client_id@,
            credentials.client_secret@,
            code@,
        ),
{
    let mut form: Vec<(String, String)> = Vec::new();
    form.push((String::from_str("client_id"), credentials.client_id.clone()));
    form.push((String::from_str("client_secret"), credentials.client_secret.clone()));
    form.push((String::from_str("grant_type"), String::from_str("authorization_code")));
    form.push((String::from_str("redirect_uri"), crate::redirect_url().to_owned()));
    form.push((String::from_str("code"), code));
    proof {
        assert(pairs_view(form@) =~= spec_token_request_form(
            credentials.client_id@,
            credentials.client_secret@,
            code@,
        ));
    }
    form
}

/// Interprets the token endpoint's response. A non-success status is a fatal
/// status error carrying the numeric status and the full body; a success body
/// is read as a token record, and anything else in it is a fatal
/// deserialization error.
pub fn parse_token_response(status: u16, url: &str, body: &str) -> (r: Result<Token, Error>)
    ensures
        !(200 <= status < 300) ==> (r matches Err(e) && e matches Error::StatusError {
            url: u,
            status: st,
            body: b,
        } && u@ == url@ && st == status && b@ == body@),
        (200 <= status < 300) ==> match spec_parse_token(body@) {
            Some(t) => r matches Ok(tok) && tok.access_token@ == t,
            None => r matches Err(e) && e matches Error::DeserializationError { .. },
        },
{
    let resp = crate::error::HttpResponse {
        status,
        url: url.to_owned(),
        body: body.to_owned(),
    };
    let resp = match resp.error_body_for_status() {
        Ok(resp) => resp,
        Err(e) => {
            return Err(e);
        },
    };
    match parse_access_token(resp.body.as_str()) {
        Some(access_token) => Ok(Token { access_token }),
        None => Err(
            Error::DeserializationError {
                detail: String::from_str("token response is not a token record"),
            },
        ),
    }
}

} // verus!
