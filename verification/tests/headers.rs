//! The anti-fraud header set and the request lines around the VAT API.
use mtd_vat_cli::fraud_prevention::compose_headers;
use mtd_vat_cli::fraud_prevention::gather_device_signals;
use mtd_vat_cli::fraud_prevention::DeviceSignals;
use mtd_vat_cli::fraud_prevention::FraudPreventionRequestBuilder;
use mtd_vat_cli::fraud_prevention::RequestHeaders;
use mtd_vat_cli::strutil::str_le;
use mtd_vat_cli::strutil::u64_to_string;
use mtd_vat_cli::vat::accept_header;
use mtd_vat_cli::vat::bearer_header;
use mtd_vat_cli::vat::obligations_query;
use mtd_vat_cli::vat::obligations_url;
use mtd_vat_cli::vat::returns_url;
use mtd_vat_cli::vat::sort_obligations;
use mtd_vat_cli::vat::Obligation;

const HEADER_NAMES: [&str; 13] = [
    "Gov-Client-Connection-Method",
    "Gov-Client-Device-ID",
    "Gov-Client-Local-IPs",
    "Gov-Client-Local-IPs-Timestamp",
    "Gov-Client-MAC-Addresses",
    "Gov-Client-Timezone",
    "Gov-Client-User-Agent",
    "Gov-Client-User-IDs",
    "Gov-Client-Screens",
    "Gov-Client-Window-Size",
    "Gov-Vendor-License-IDs",
    "Gov-Vendor-Product-Name",
    "Gov-Vendor-Version",
];

fn sample_signals() -> DeviceSignals {
    DeviceSignals {
        local_ip: Some("192.168.0.7".to_string()),
        mac_addresses: vec!["AB:CD:EF:00:11:22".to_string(), "01:23:45:67:89:AB".to_string()],
        os_family: "Linux Mint".to_string(),
        os_version: "21.3".to_string(),
        username: Some("john doe".to_string()),
    }
}

#[test]
fn header_names_and_constants_are_exact() {
    let hs = compose_headers(&sample_signals(), "ts".to_string(), "+01:00".to_string());
    assert_eq!(hs.len(), 13);
    for (pair, name) in hs.iter().zip(HEADER_NAMES.iter()) {
        assert_eq!(pair.0, *name);
    }
    assert_eq!(hs[0].1, "DESKTOP_APP_DIRECT");
    assert_eq!(hs[1].1, "142454b1-6368-444b-97b6-15bfdf4e19a3");
    assert_eq!(hs[2].1, "192.168.0.7");
    assert_eq!(hs[3].1, "ts");
    assert_eq!(hs[5].1, "UTC+01:00");
    assert_eq!(hs[8].1, "width=1920&height=1080&scaling-factor=1&colour-depth=16");
    assert_eq!(hs[9].1, "width=1920&height=1080");
    assert_eq!(hs[11].1, "mtd-vat-cli");
    assert_eq!(hs[12].1, "mtd-vat-cli=0.1.0");
}

#[test]
fn mac_addresses_are_percent_encoded_and_comma_joined() {
    let hs = compose_headers(&sample_signals(), "ts".to_string(), "z".to_string());
    assert_eq!(hs[4].1, "AB%3ACD%3AEF%3A00%3A11%3A22,01%3A23%3A45%3A67%3A89%3AAB");
}

#[test]
fn user_agent_and_user_ids_are_percent_encoded() {
    let hs = compose_headers(&sample_signals(), "ts".to_string(), "z".to_string());
    assert_eq!(
        hs[6].1,
        "os-family=Linux%20Mint&os-version=21%2E3\
         &device-manufacturer=unknown&device-model=unknown"
    );
    assert_eq!(hs[7].1, "os=john%20doe");
}

#[test]
fn unavailable_signals_fall_back() {
    let signals = DeviceSignals {
        local_ip: None,
        mac_addresses: vec![],
        os_family: "Linux".to_string(),
        os_version: "6.1".to_string(),
        username: None,
    };
    let hs = compose_headers(&signals, "ts".to_string(), "z".to_string());
    assert_eq!(hs[2].1, "null");
    assert_eq!(hs[4].1, "null");
    assert_eq!(hs[7].1, "os=unknown");
}

#[test]
fn license_header_carries_content_hash() {
    let hs = compose_headers(&sample_signals(), "ts".to_string(), "z".to_string());
    let value = &hs[10].1;
    assert!(value.starts_with("mtd-vat-cli="));
    let digest = &value["mtd-vat-cli=".len()..];
    assert_eq!(digest.len(), 64);
    assert!(digest.chars().all(|c| c.is_ascii_hexdigit() && !c.is_ascii_uppercase()));
    assert_ne!(digest, "foss");
}

#[test]
fn two_builds_differ_only_in_timestamp() {
    let signals = sample_signals();
    let first = compose_headers(&signals, "2024-01-01T00:00:00.000Z".to_string(), "z".to_string());
    let second = compose_headers(&signals, "2024-01-01T00:00:00.999Z".to_string(), "z".to_string());
    assert_eq!(first.len(), second.len());
    for (i, (a, b)) in first.iter().zip(second.iter()).enumerate() {
        assert_eq!(a.0, b.0);
        if i == 3 {
            assert_ne!(a.1, b.1);
        } else {
            assert_eq!(a.1, b.1);
        }
    }
}

#[test]
fn gathered_build_attaches_all_headers() {
    let headers = RequestHeaders::new().add_fraud_prevention_headers();
    assert_eq!(headers.headers.len(), 13);
    for (pair, name) in headers.headers.iter().zip(HEADER_NAMES.iter()) {
        assert_eq!(pair.0, *name);
    }
    // the builder appends; earlier headers stay in front
    let mut seeded = RequestHeaders::new();
    seeded.headers.push(("Accept".to_string(), "x".to_string()));
    let seeded = seeded.add_fraud_prevention_headers();
    assert_eq!(seeded.headers.len(), 14);
    assert_eq!(seeded.headers[0].0, "Accept");
}

#[test]
fn gathered_signals_compose_without_failing() {
    let signals = gather_device_signals();
    let hs = compose_headers(&signals, "ts".to_string(), "z".to_string());
    assert_eq!(hs.len(), 13);
}

#[test]
fn decimal_rendering_is_exact() {
    assert_eq!(u64_to_string(0), "0");
    assert_eq!(u64_to_string(7), "7");
    assert_eq!(u64_to_string(54786), "54786");
    assert_eq!(u64_to_string(65535), "65535");
}

#[test]
fn string_order_is_lexicographic() {
    assert!(str_le("2024-01-01", "2024-02-01"));
    assert!(!str_le("2024-02-01", "2024-01-01"));
    assert!(str_le("abc", "abc"));
    assert!(str_le("ab", "abc"));
}

fn obligation(start: &str, key: &str) -> Obligation {
    Obligation {
        start: start.to_string(),
        end: "2024-03-31".to_string(),
        due: "2024-05-07".to_string(),
        status: 'O',
        period_key: key.to_string(),
    }
}

#[test]
fn obligations_sort_by_start_date() {
    let mut rows = vec![
        obligation("2024-07-01", "24A3"),
        obligation("2024-01-01", "24A1"),
        obligation("2024-04-01", "24A2"),
        obligation("2024-01-01", "24B1"),
    ];
    sort_obligations(&mut rows);
    let starts: Vec<&str> = rows.iter().map(|o| o.start.as_str()).collect();
    assert_eq!(starts, vec!["2024-01-01", "2024-01-01", "2024-04-01", "2024-07-01"]);
    let keys: Vec<&str> = rows.iter().map(|o| o.period_key.as_str()).collect();
    assert!(keys.contains(&"24A1") && keys.contains(&"24B1"));
}

#[test]
fn vat_request_lines_are_exact() {
    assert_eq!(
        obligations_url("999999999"),
        "https://api.service.hmrc.gov.uk/organisations/vat/999999999/obligations"
    );
    assert_eq!(
        returns_url("999999999"),
        "https://api.service.hmrc.gov.uk/organisations/vat/999999999/returns"
    );
    assert_eq!(obligations_query(), ("status".to_string(), "O".to_string()));
    assert_eq!(accept_header(), "application/vnd.hmrc.1.0+json");
    assert_eq!(bearer_header("tok"), "Bearer tok");
}
