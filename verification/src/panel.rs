//! Talking to a 1Panel server: connection settings, the API base address and
//! the request signature.

use vstd::prelude::*;
use vstd::utf8::encode_utf8;
use crate::text::{
    chars_of, decimal, hex_lower, push_decimal, push_hex_lower, push_signed_decimal, signed_decimal,
    string_of, strip_prefixes, strip_prefixes_range, strip_trailing, strip_trailing_range, trim,
    trim_range,
};

verus! {

/// How to reach and authenticate to a 1Panel server.
#[derive(Debug, Clone)]
pub struct OnePanelConfig {
    pub host: String,
    pub port: u16,
    pub api_key: String,
    pub scheme: String,
    pub insecure_skip_tls_verify: bool,
}

impl OnePanelConfig {
    /// A configuration with exactly the given settings.
    pub fn new(
        host: String,
        port: u16,
        api_key: String,
        scheme: String,
        insecure_skip_tls_verify: bool,
    ) -> (r: Self)
        ensures
            r.host == host,
            r.port == port,
            r.api_key == api_key,
            r.scheme == scheme,
            r.insecure_skip_tls_verify == insecure_skip_tls_verify,
    {
        OnePanelConfig { host, port, api_key, scheme, insecure_skip_tls_verify }
    }
}

/// A host setting as an address part: trimmed, without any leading
/// `http://` and then `https://` prefixes, and without trailing `/`.
pub open spec fn cleaned_host(h: Seq<char>) -> Seq<char> {
    strip_trailing(strip_prefixes(strip_prefixes(trim(h), "http://"@), "https://"@), '/')
}

/// The host part of a host setting (see `cleaned_host`).
pub fn clean_host(host: &str) -> (r: String)
    ensures
        r@ == cleaned_host(host@),
{
    let v = chars_of(host);
    let http = chars_of("http://");
    let https = chars_of("https://");
    proof {
        reveal_strlit("http://");
        reveal_strlit("https://");
        assert(v@.subrange(0, v@.len() as int) =~= v@);
    }
    let (a, b) = trim_range(&v, 0, v.len());
    let a1 = strip_prefixes_range(&v, a, b, &http);
    let a2 = strip_prefixes_range(&v, a1, b, &https);
    let b2 = strip_trailing_range(&v, a2, b, '/');
    string_of(&v, a2, b2)
}

/// The two API generations a 1Panel server may offer.
#[derive(PartialEq, Eq, Structural, Clone, Copy, Debug)]
pub enum ApiVersion {
    V1,
    V2,
}

/// The path segment of an API generation.
pub open spec fn version_segment(v: ApiVersion) -> Seq<char> {
    match v {
        ApiVersion::V1 => "v1"@,
        ApiVersion::V2 => "v2"@,
    }
}

/// `{scheme}://{host}:{port}/api/{version}` with the host cleaned.
pub open spec fn api_base_of(cfg: OnePanelConfig, version: ApiVersion) -> Seq<char> {
    cfg.scheme@ + "://"@ + cleaned_host(cfg.host@) + ":"@ + decimal(cfg.port as nat) + "/api/"@
        + version_segment(version)
}

/// The base address of the server's API of the given generation.
pub fn api_base(cfg: &OnePanelConfig, version: ApiVersion) -> (r: String)
    ensures
        r@ == api_base_of(*cfg, version),
{
    let mut r = cfg.scheme.clone();
    r.append("://");
    let h = clean_host(cfg.host.as_str());
    r.append(h.as_str());
    r.append(":");
    push_decimal(&mut r, cfg.port as u64);
    r.append("/api/");
    match version {
        ApiVersion::V1 => r.append("v1"),
        ApiVersion::V2 => r.append("v2"),
    }
    r
}

/// The base address of the server's v2 API.
pub fn v2_base(cfg: &OnePanelConfig) -> (r: String)
    ensures
        r@ == api_base_of(*cfg, ApiVersion::V2),
{
    api_base(cfg, ApiVersion::V2)
}

/// Whether a request is sent again to the v1 API after its v2 attempt:
/// whenever the v2 attempt is unsuccessful, that is when it got no answer
/// (`None`) or an HTTP status outside 200..=299 (a missing route, a server
/// error, an unavailable service).
pub fn retry_with_v1(v2_status: Option<u16>) -> (r: bool)
    ensures
        r == (v2_status is None || !(200 <= v2_status->0 < 300)),
{
    match v2_status {
        Some(s) => !(200 <= s && s < 300),
        None => true,
    }
}

/// After a v1 retry, whether its answer is the one reported: when the v1
/// attempt succeeded (an HTTP status in 200..=299), or when the v2 attempt
/// got no answer; otherwise the v2 answer is kept.
pub fn report_v1_answer(v2_status: Option<u16>, v1_status: Option<u16>) -> (r: bool)
    ensures
        r == ((v1_status matches Some(s) && 200 <= s < 300) || v2_status is None),
{
    match v1_status {
        Some(s) => if 200 <= s && s < 300 {
            true
        } else {
            v2_status.is_none()
        },
        None => v2_status.is_none(),
    }
}

/// The MD5 digest of a byte string (`md5::compute`).
pub uninterp spec fn md5_of(data: Seq<u8>) -> Seq<u8>;

/// `md5::compute`: the 16-byte MD5 digest of `data`, which depends on
/// `data` alone.
#[verifier::external_body]
fn md5_digest(data: &[u8]) -> (r: [u8; 16])
    ensures
        r@ == md5_of(data@),
{
    md5::compute(data).0
}

/// `SystemTime::now().duration_since(UNIX_EPOCH)`: `Ok` with the whole
/// seconds since the Unix epoch, or `Err` with the whole seconds and the
/// further nanoseconds before it when the clock is set earlier. Nothing is
/// stated of the clock.
#[verifier::external_body]
fn seconds_since_epoch() -> Result<u64, (u64, u32)> {
    match std::time::SystemTime::now().duration_since(std::time::UNIX_EPOCH) {
        Ok(d) => Ok(d.as_secs()),
        Err(e) => Err((e.duration().as_secs(), e.duration().subsec_nanos())),
    }
}

/// A clock reading as a timestamp in whole seconds, rounded down: `Ok(s)`
/// is `s` seconds after the Unix epoch, `Err((s, n))` is `s` seconds and `n`
/// nanoseconds before it; kept within the `i64` range.
pub open spec fn timestamp_of(reading: Result<u64, (u64, u32)>) -> int {
    match reading {
        Ok(s) => if s > i64::MAX { i64::MAX as int } else { s as int },
        Err((s, n)) => {
            let t = if n > 0 { -(s + 1) } else { -s };
            if t < i64::MIN { i64::MIN as int } else { t }
        },
    }
}

/// Converts a clock reading to a timestamp (see `timestamp_of`).
pub fn timestamp_from(reading: Result<u64, (u64, u32)>) -> (r: i64)
    ensures
        r == timestamp_of(reading),
{
    match reading {
        Ok(s) => if s > 0x7fff_ffff_ffff_ffff {
            0x7fff_ffff_ffff_ffff
        } else {
            s as i64
        },
        Err((s, n)) => if s >= 0x8000_0000_0000_0000 || (n > 0 && s == 0x7fff_ffff_ffff_ffff) {
            -0x8000_0000_0000_0000
        } else if n > 0 {
            -(s as i64) - 1
        } else {
            -(s as i64)
        },
    }
}

/// The current time in whole seconds since the Unix epoch, rounded down
/// (as `chrono`'s `timestamp` counts it); negative when the clock is set
/// before the epoch.
fn now_timestamp() -> i64 {
    timestamp_from(seconds_since_epoch())
}

/// The text that is hashed to sign a request at time `ts`.
pub open spec fn token_source(api_key: Seq<char>, ts: int) -> Seq<char> {
    "1panel"@ + trim(api_key) + signed_decimal(ts)
}

/// The request signature at time `ts`: lower-case hex of the MD5 digest of
/// the UTF-8 bytes of `token_source`.
pub open spec fn auth_token(api_key: Seq<char>, ts: int) -> Seq<char> {
    hex_lower(md5_of(encode_utf8(token_source(api_key, ts))))
}

/// The `1Panel-Token` and `1Panel-Timestamp` header values for time `ts`.
pub fn auth_headers_at(api_key: &str, ts: i64) -> (r: (String, String))
    ensures
        r.0@ == auth_token(api_key@, ts as int),
        r.1@ == signed_decimal(ts as int),
{
    let mut raw = String::new();
    raw.append("1panel");
    let v = chars_of(api_key);
    let (a, b) = trim_range(&v, 0, v.len());
    proof {
        assert(v@.subrange(0, v@.len() as int) =~= v@);
    }
    let k = string_of(&v, a, b);
    raw.append(k.as_str());
    push_signed_decimal(&mut raw, ts);
    let digest = md5_digest(raw.as_str().as_bytes());
    let mut token = String::new();
    push_hex_lower(&mut token, &digest);
    let mut stamp = String::new();
    push_signed_decimal(&mut stamp, ts);
    proof {
        assert(raw@ == token_source(api_key@, ts as int));
        assert(token@ =~= hex_lower(md5_of(encode_utf8(raw@))));
        assert(stamp@ =~= signed_decimal(ts as int));
    }
    (token, stamp)
}

/// The header values for the current time: the result is `auth_headers_at`
/// of some time `ts`, which the second value spells out.
pub fn auth_headers(api_key: &str) -> (r: (String, String))
    ensures
        exists|ts: i64| r.0@ == auth_token(api_key@, ts as int) && r.1@ == signed_decimal(ts as int),
{
    let ts = now_timestamp();
    auth_headers_at(api_key, ts)
}

} // verus!
