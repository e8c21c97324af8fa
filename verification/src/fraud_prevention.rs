//! The anti-fraud header set.
//!
//! Every authenticated API request carries a fixed, policy-mandated set of
//! headers derived from best-effort machine and network signals. Each signal
//! is computed independently; one that cannot be read is substituted by its
//! documented fallback literal, never failing the surrounding request.
use vstd::prelude::*;

use crate::auth::pairs_view;
use crate::strutil::opt_view;

verus! {

/// What `percent_encoding::utf8_percent_encode` with the `NON_ALPHANUMERIC`
/// set returns: a function of the characters alone.
pub uninterp spec fn percent_enc(s: Seq<char>) -> Seq<char>;

/// What the content hash of a text renders to: a function of the text alone.
pub uninterp spec fn content_hash_hex(s: Seq<char>) -> Seq<char>;

/// Whether every character is an ASCII code point.
pub open spec fn ascii_seq(s: Seq<char>) -> bool {
    forall|i: int| 0 <= i < s.len() ==> (s[i] as u32) < 128
}

/// ASCII alphanumeric characters, the ones percent-encoding leaves as they
/// stand.
pub open spec fn is_enc_unreserved(c: char) -> bool {
    let v = c as u32;
    (48 <= v && v <= 57) || (65 <= v && v <= 90) || (97 <= v && v <= 122)
}

/// Uppercase hexadecimal digit character of a value below sixteen.
pub open spec fn upper_hex_char(d: nat) -> char {
    if d < 10 {
        ((48 + d) as u8) as char
    } else {
        ((55 + d) as u8) as char
    }
}

/// The percent-encoded form of one ASCII character.
pub open spec fn enc_char(c: char) -> Seq<char> {
    if is_enc_unreserved(c) {
        seq![c]
    } else {
        seq![
            '%',
            upper_hex_char(((c as u32) / 16) as nat),
            upper_hex_char(((c as u32) % 16) as nat),
        ]
    }
}

/// The percent-encoded form of an ASCII text, character by character.
pub open spec fn spec_percent_encode_ascii(s: Seq<char>) -> Seq<char>
    decreases s.len(),
{
    if s.len() == 0 {
        Seq::empty()
    } else {
        enc_char(s[0]) + spec_percent_encode_ascii(s.drop_first())
    }
}

/// Relies on `percent_encoding::utf8_percent_encode` with the
/// `NON_ALPHANUMERIC` set: the result is a function of the input text alone,
/// and over ASCII text it keeps exactly the alphanumerics and writes every
/// other character as `%` and the two uppercase hexadecimal digits of its
/// byte.
#[verifier::external_body]
fn percent_encode_all(s: &str) -> (r: String)
    ensures
        r@ == percent_enc(s@),
        ascii_seq(s@) ==> r@ == spec_percent_encode_ascii(s@),
{
    percent_encoding::utf8_percent_encode(s, percent_encoding::NON_ALPHANUMERIC).to_string()
}

/// Relies on `blake3::hash` and `blake3::Hash::to_hex`: the digest is a
/// function of the input alone, rendered as 64 lowercase hexadecimal
/// characters.
#[verifier::external_body]
fn content_hash_hex_of(s: &str) -> (r: String)
    ensures
        r@ == content_hash_hex(s@),
        r@.len() == 64,
{
    blake3::hash(s.as_bytes()).to_hex().as_str().to_owned()
}

/// Relies on `local_ip_address::local_ip`: the machine's local IP address,
/// rendered as text, when the local network can be read at all.
#[verifier::external_body]
fn local_ip_string() -> (r: Option<String>) {
    local_ip_address::local_ip().ok().map(|ip| ip.to_string())
}

/// Relies on `mac_address::MacAddressIterator` and the display form of
/// `mac_address::MacAddress`: every adapter's address as colon-separated
/// uppercase hexadecimal pairs; nothing when enumeration fails.
#[verifier::external_body]
fn mac_address_strings() -> (r: Option<Vec<String>>) {
    match mac_address::MacAddressIterator::new() {
        Ok(iter) => Some(iter.map(|ma| ma.to_string()).collect()),
        Err(_) => None,
    }
}

/// Relies on `os_info::get`: the OS family and the OS version, as text.
#[verifier::external_body]
fn os_info_strings() -> (r: (String, String)) {
    let info = os_info::get();
    (info.os_type().to_string(), info.version().to_string())
}

/// Relies on `whoami::username`: the OS user name, when it can be read.
#[verifier::external_body]
fn os_username() -> (r: Option<String>) {
    whoami::username().ok()
}

/// Relies on `chrono::Utc::now` and `DateTime::to_rfc3339_opts`: the current
/// UTC time, ISO-8601, millisecond precision.
#[verifier::external_body]
fn utc_timestamp_millis() -> (r: String) {
    chrono::Utc::now().to_rfc3339_opts(chrono::SecondsFormat::Millis, true)
}

/// Relies on `chrono::Local::now`: the machine's UTC offset, as text.
#[verifier::external_body]
fn local_utc_offset() -> (r: String) {
    chrono::Local::now().offset().to_string()
}

/// The ephemeral machine signals a header set is built from, recomputed for
/// every call and never persisted. An unavailable signal is absent here and
/// replaced by its fallback literal during composition.
pub struct DeviceSignals {
    /// The local IP address, as text.
    pub local_ip: Option<String>,
    /// Every adapter's MAC address, as text; possibly none.
    pub mac_addresses: Vec<String>,
    /// The OS family, as text.
    pub os_family: String,
    /// The OS version, as text.
    pub os_version: String,
    /// The OS user name.
    pub username: Option<String>,
}

/// Reads every machine signal once, each independently and best-effort.
pub fn gather_device_signals() -> DeviceSignals {
    let (os_family, os_version) = os_info_strings();
    DeviceSignals {
        local_ip: local_ip_string(),
        mac_addresses: match mac_address_strings() {
            Some(macs) => macs,
            None => Vec::new(),
        },
        os_family,
        os_version,
        username: os_username(),
    }
}

/// The MAC-address header value before the fallback: each address
/// percent-encoded, the results comma-joined.
pub open spec fn spec_join_enc(macs: Seq<String>) -> Seq<char>
    decreases macs.len(),
{
    if macs.len() == 0 {
        Seq::empty()
    } else if macs.len() == 1 {
        percent_enc(macs[0]@)
    } else {
        spec_join_enc(macs.drop_last()) + ","@ + percent_enc(macs.last()@)
    }
}

/// The MAC-address header value: an empty enumeration is treated as
/// unavailable and falls back to `null`.
pub open spec fn spec_mac_header(macs: Seq<String>) -> Seq<char> {
    if macs.len() == 0 {
        "null"@
    } else {
        spec_join_enc(macs)
    }
}

/// The user-agent header value: OS family and version, each percent-encoded;
/// manufacturer and model are undetectable here and stand as `unknown`.
pub open spec fn spec_user_agent(os_family: Seq<char>, os_version: Seq<char>) -> Seq<char> {
    "os-family="@ + percent_enc(os_family) + "&os-version="@ + percent_enc(os_version)
        + "&device-manufacturer=unknown&device-model=unknown"@
}

/// The user-ids header value: the percent-encoded OS user name, or the
/// `unknown` fallback where none can be read.
pub open spec fn spec_user_ids(username: Option<Seq<char>>) -> Seq<char> {
    "os="@ + percent_enc(
        match username {
            Some(u) => u,
            None => "unknown"@,
        },
    )
}

/// The whole header set, in order, over the gathered signals, the timestamp
/// text and the timezone offset text. The timestamp stands at index 3 and is
/// the set's only time-dependent entry.
pub open spec fn spec_headers(sig: DeviceSignals, ts: Seq<char>, tz: Seq<char>) -> Seq<
    (Seq<char>, Seq<char>),
> {
    seq![
        ("Gov-Client-Connection-Method"@, "DESKTOP_APP_DIRECT"@),
        ("Gov-Client-Device-ID"@, "142454b1-6368-444b-97b6-15bfdf4e19a3"@),
        (
            "Gov-Client-Local-IPs"@,
            match opt_view(sig.local_ip) {
                Some(ip) => ip,
                None => "null"@,
            },
        ),
        ("Gov-Client-Local-IPs-Timestamp"@, ts),
        ("Gov-Client-MAC-Addresses"@, spec_mac_header(sig.mac_addresses@)),
        ("Gov-Client-Timezone"@, "UTC"@ + tz),
        ("Gov-Client-User-Agent"@, spec_user_agent(sig.os_family@, sig.os_version@)),
        ("Gov-Client-User-IDs"@, spec_user_ids(opt_view(sig.username))),
        ("Gov-Client-Screens"@, "width=1920&height=1080&scaling-factor=1&colour-depth=16"@),
        ("Gov-Client-Window-Size"@, "width=1920&height=1080"@),
        ("Gov-Vendor-License-IDs"@, "mtd-vat-cli="@ + content_hash_hex("foss"@)),
        ("Gov-Vendor-Product-Name"@, "mtd-vat-cli"@),
        ("Gov-Vendor-Version"@, "mtd-vat-cli=0.1.0"@),
    ]
}

/// Law: two header sets built from the same machine signals differ in
/// nothing but the value of the timestamp header, whatever the two
/// timestamps are.
pub proof fn lemma_headers_deterministic(
    sig: DeviceSignals,
    ts1: Seq<char>,
    ts2: Seq<char>,
    tz: Seq<char>,
)
    ensures
        spec_headers(sig, ts1, tz).len() == 13,
        spec_headers(sig, ts2, tz).len() == 13,
        forall|i: int|
            0 <= i < 13 && i != 3 ==> spec_headers(sig, ts1, tz)[i] == spec_headers(
                sig,
                ts2,
                tz,
            )[i],
        spec_headers(sig, ts1, tz)[3].0 == spec_headers(sig, ts2, tz)[3].0,
{
}

/// Joins the percent-encoded MAC addresses with commas.
fn join_encoded_macs(macs: &Vec<String>) -> (r: String)
    ensures
        r@ == spec_join_enc(macs@),
{
    let mut out = String::new();
    let mut i: usize = 0;
    proof {
        assert(macs@.take(0) =~= Seq::<String>::empty());
    }
    while i < macs.len()
        invariant
            i <= macs@.len(),
            out@ == spec_join_enc(macs@.take(i as int)),
        decreases macs@.len() - i,
    {
        if i > 0 {
            out.append(",");
        }
        let enc = percent_encode_all(macs[i].as_str());
        out.append(enc.as_str());
        proof {
            let t = macs@.take(i + 1);
            assert(t.drop_last() =~= macs@.take(i as int));
            assert(t.last() == macs@[i as int]);
            assert(out@ =~= spec_join_enc(t));
        }
        i = i + 1;
    }
    proof {
        assert(macs@.take(macs@.len() as int) =~= macs@);
    }
    out
}

/// The MAC-address header value of the gathered addresses.
fn mac_header_value(macs: &Vec<String>) -> (r: String)
    ensures
        r@ == spec_mac_header(macs@),
{
    if macs.len() == 0 {
        String::from_str("null")
    } else {
        join_encoded_macs(macs)
    }
}

/// Composes the whole header set from the gathered signals and the two time
/// texts. Total: every missing signal has already been replaced or is
/// replaced by its fallback literal here.
pub fn compose_headers(sig: &DeviceSignals, ts: String, tz: String) -> (r: Vec<(String, String)>)
    ensures
        pairs_view(r@) == spec_headers(*sig, ts@, tz@),
{
    let mut hs: Vec<(String, String)> = Vec::new();
    hs.push(
        (String::from_str("Gov-Client-Connection-Method"), String::from_str("DESKTOP_APP_DIRECT")),
    );
    hs.push(
        (
            String::from_str("Gov-Client-Device-ID"),
            String::from_str("142454b1-6368-444b-97b6-15bfdf4e19a3"),
        ),
    );
    let ips = match &sig.local_ip {
        Some(ip) => ip.clone(),
        None => String::from_str("null"),
    };
    hs.push((String::from_str("Gov-Client-Local-IPs"), ips));
    hs.push((String::from_str("Gov-Client-Local-IPs-Timestamp"), ts));
    hs.push((String::from_str("Gov-Client-MAC-Addresses"), mac_header_value(&sig.mac_addresses)));
    let mut tz_value = String::from_str("UTC");
    tz_value.append(tz.as_str());
    hs.push((String::from_str("Gov-Client-Timezone"), tz_value));
    let mut agent = String::from_str("os-family=");
    let fam = percent_encode_all(sig.os_family.as_str());
    agent.append(fam.as_str());
    agent.append("&os-version=");
    let ver = percent_encode_all(sig.os_version.as_str());
    agent.append(ver.as_str());
    agent.append("&device-manufacturer=unknown&device-model=unknown");
    proof {
        assert(agent@ =~= spec_user_agent(sig.os_family@, sig.os_version@));
    }
    hs.push((String::from_str("Gov-Client-User-Agent"), agent));
    let mut ids = String::from_str("os=");
    let name_enc = match &sig.username {
        Some(u) => percent_encode_all(u.as_str()),
        None => percent_encode_all("unknown"),
    };
    ids.append(name_enc.as_str());
    proof {
        assert(ids@ =~= spec_user_ids(opt_view(sig.username)));
    }
    hs.push((String::from_str("Gov-Client-User-IDs"), ids));
    hs.push(
        (
            String::from_str("Gov-Client-Screens"),
            String::from_str("width=1920&height=1080&scaling-factor=1&colour-depth=16"),
        ),
    );
    hs.push(
        (String::from_str("Gov-Client-Window-Size"), String::from_str("width=1920&height=1080")),
    );
    let mut license = String::from_str("mtd-vat-cli=");
    let hash = content_hash_hex_of("foss");
    license.append(hash.as_str());
    hs.push((String::from_str("Gov-Vendor-License-IDs"), license));
    hs.push((String::from_str("Gov-Vendor-Product-Name"), String::from_str("mtd-vat-cli")));
    hs.push((String::from_str("Gov-Vendor-Version"), String::from_str("mtd-vat-cli=0.1.0")));
    proof {
        assert(pairs_view(hs@) =~= spec_headers(*sig, ts@, tz@));
    }
    hs
}

/// A growing list of request headers, the plain shape a transport layer
/// copies onto its outbound request.
pub struct RequestHeaders {
    pub headers: Vec<(String, String)>,
}

impl RequestHeaders {
    /// An empty header list.
    pub fn new() -> (r: RequestHeaders)
        ensures
            r.headers@.len() == 0,
    {
        RequestHeaders { headers: Vec::new() }
    }

    /// Appends the whole anti-fraud header set, built from freshly gathered
    /// machine signals and the current time; never fails.
    pub fn with_fraud_prevention_headers(self) -> (r: RequestHeaders)
        ensures
            exists|sig: DeviceSignals, ts: Seq<char>, tz: Seq<char>|
                pairs_view(r.headers@) == pairs_view(self.headers@) + spec_headers(sig, ts, tz),
    {
        let sig = gather_device_signals();
        let ts = utc_timestamp_millis();
        let tz = local_utc_offset();
        let ghost ts_view = ts@;
        let ghost tz_view = tz@;
        let mut fresh = compose_headers(&sig, ts, tz);
        let mut headers = self.headers;
        let ghost pre = headers@;
        headers.append(&mut fresh);
        proof {
            assert(pairs_view(headers@) =~= pairs_view(pre) + spec_headers(sig, ts_view, tz_view));
        }
        RequestHeaders { headers }
    }
}

/// Decorating an outbound request with the anti-fraud header set.
pub trait FraudPreventionRequestBuilder: Sized {
    /// Attaches the whole anti-fraud header set to the request.
    fn add_fraud_prevention_headers(self) -> Self;
}

impl FraudPreventionRequestBuilder for RequestHeaders {
    fn add_fraud_prevention_headers(self) -> RequestHeaders {
        self.with_fraud_prevention_headers()
    }
}

} // verus!
