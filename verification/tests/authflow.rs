//! The completion slot, the race outcome, and the token exchange.
use mtd_vat_cli::auth::browser_fallback_message;
use mtd_vat_cli::auth::consent_url;
use mtd_vat_cli::auth::parse_token_response;
use mtd_vat_cli::auth::race_outcome;
use mtd_vat_cli::auth::token_endpoint_url;
use mtd_vat_cli::auth::token_request_form;
use mtd_vat_cli::auth::ClientCredentials;
use mtd_vat_cli::auth::CompletionSlot;
use mtd_vat_cli::auth::RaceEvent;
use mtd_vat_cli::error::Error;
use mtd_vat_cli::error::HttpResponse;
use mtd_vat_cli::error::ResponseExt;

const PAGE: &str = "mtd-vat-cli redirect success, continue with CLI";

#[test]
fn first_nonempty_code_wins_and_later_requests_are_noops() {
    let mut slot = CompletionSlot::new();
    assert!(!slot.is_fulfilled());

    // a request without a code is a no-op and still gets the page
    let (page, delivered) = slot.handle_redirect(None);
    assert_eq!(page, PAGE);
    assert_eq!(delivered, None);
    assert!(!slot.is_fulfilled());

    // an empty code never fulfils the slot
    let (page, delivered) = slot.handle_redirect(Some(String::new()));
    assert_eq!(page, PAGE);
    assert_eq!(delivered, None);
    assert!(!slot.is_fulfilled());

    // the first non-empty code fulfils it and is handed out
    let (page, delivered) = slot.handle_redirect(Some("XYZ".to_string()));
    assert_eq!(page, PAGE);
    assert_eq!(delivered, Some("XYZ".to_string()));
    assert!(slot.is_fulfilled());

    // any later code is ignored, with the same page and no second delivery
    let (page, delivered) = slot.handle_redirect(Some("ABC".to_string()));
    assert_eq!(page, PAGE);
    assert_eq!(delivered, None);
    assert!(slot.is_fulfilled());
}

#[test]
fn codeless_request_returns_same_page_as_one_with_code() {
    let mut pending = CompletionSlot::new();
    let (without_code, _) = pending.handle_redirect(None);
    let mut pending2 = CompletionSlot::new();
    let (with_code, _) = pending2.handle_redirect(Some("XYZ".to_string()));
    assert_eq!(without_code, with_code);
}

#[test]
fn race_delivers_code_or_transport_error() {
    let r = race_outcome(RaceEvent::CodeDelivered {
        code: "XYZ".to_string(),
    });
    assert_eq!(r.unwrap(), "XYZ");

    let r = race_outcome(RaceEvent::ServerEnded {
        detail: "closed".to_string(),
    });
    let e = r.unwrap_err();
    assert_eq!(e.message(), "localhost server ended: closed");
}

#[test]
fn consent_url_is_exact() {
    assert_eq!(
        consent_url("my-id"),
        "https://www.tax.service.gov.uk/oauth/authorize?response_type=code&client_id=my-id\
         &scope=read:vat+write:vat&redirect_uri=http://localhost:54786/"
    );
}

#[test]
fn browser_fallback_names_the_url() {
    assert_eq!(
        browser_fallback_message("http://u"),
        "Open http://u in browser to authorize"
    );
}

#[test]
fn token_request_form_is_exact() {
    let credentials = ClientCredentials {
        client_id: "id".to_string(),
        client_secret: "secret".to_string(),
    };
    let form = token_request_form(&credentials, "XYZ".to_string());
    let expect = vec![
        ("client_id", "id"),
        ("client_secret", "secret"),
        ("grant_type", "authorization_code"),
        ("redirect_uri", "http://localhost:54786/"),
        ("code", "XYZ"),
    ];
    assert_eq!(form.len(), expect.len());
    for (pair, (k, v)) in form.iter().zip(expect.iter()) {
        assert_eq!(pair.0, *k);
        assert_eq!(pair.1, *v);
    }
}

#[test]
fn token_endpoint_is_exact() {
    assert_eq!(
        token_endpoint_url(),
        "https://api.service.hmrc.gov.uk/oauth/token"
    );
}

#[test]
fn exchange_status_400_reports_status_and_body() {
    let r = parse_token_response(400, "https://t/oauth/token", "invalid_grant");
    let e = r.unwrap_err();
    let message = e.message();
    assert!(message.contains("400"));
    assert!(message.contains("invalid_grant"));
    assert_eq!(message, "https://t/oauth/token failed 400: invalid_grant");
}

#[test]
fn exchange_success_parses_token() {
    let r = parse_token_response(200, "https://t", "{\"access_token\":\"tok\"}");
    assert_eq!(r.unwrap().access_token, "tok");
}

#[test]
fn exchange_success_with_garbage_body_is_deserialization_error() {
    let r = parse_token_response(200, "https://t", "<html>");
    assert!(matches!(r, Err(Error::DeserializationError { .. })));
}

#[test]
fn response_ext_passes_success_and_fails_errors() {
    let ok = HttpResponse {
        status: 204,
        url: "https://x".to_string(),
        body: String::new(),
    };
    assert!(ResponseExt::error_body_for_status(ok).is_ok());

    let bad = HttpResponse {
        status: 500,
        url: "https://x".to_string(),
        body: "boom".to_string(),
    };
    let e = ResponseExt::error_body_for_status(bad).unwrap_err();
    assert_eq!(e.message(), "https://x failed 500: boom");
}

#[test]
fn every_error_kind_renders_its_message() {
    let e = Error::BindError {
        detail: "port in use".to_string(),
    };
    assert_eq!(e.message(), "cannot bind local listener: port in use");
    let e = Error::TransportError {
        detail: "connection reset".to_string(),
    };
    assert_eq!(e.message(), "connection reset");
    let e = Error::StatusError {
        url: "https://x".to_string(),
        status: 403,
        body: "denied".to_string(),
    };
    assert_eq!(e.message(), "https://x failed 403: denied");
    let e = Error::DeserializationError {
        detail: "bad record".to_string(),
    };
    assert_eq!(e.message(), "invalid token record: bad record");
    let e = Error::CacheIoError {
        detail: "disk full".to_string(),
    };
    assert_eq!(e.message(), "cache error: disk full");
}

#[test]
fn end_to_end_code_capture_to_token() {
    // a harness stands in for the browser: it issues the redirect request
    let mut slot = CompletionSlot::new();
    let (_, delivered) = slot.handle_redirect(Some("XYZ".to_string()));
    let code = delivered.unwrap();

    // the race settles on the delivered code
    let code = race_outcome(RaceEvent::CodeDelivered { code }).unwrap();
    assert_eq!(code, "XYZ");

    // the code is exchanged: the form carries it, and a stub endpoint answers
    let credentials = ClientCredentials {
        client_id: "id".to_string(),
        client_secret: "secret".to_string(),
    };
    let form = token_request_form(&credentials, code);
    assert_eq!(form[4].0, "code");
    assert_eq!(form[4].1, "XYZ");
    let token = parse_token_response(
        200,
        &token_endpoint_url(),
        "{\"access_token\":\"token-for-XYZ\"}",
    )
    .unwrap();
    assert_eq!(token.access_token, "token-for-XYZ");
}
