//! Connection settings: the local configuration file's values, the
//! environment, the command line, and how they combine.

use vstd::prelude::*;
use crate::error::CliError;
use crate::panel::OnePanelConfig;
use crate::text::{
    chars_of, lower, lower_range, starts_with, starts_with_exec, str_eq, trim, trim_range,
};

verus! {

/// The settings kept in the local configuration file.
#[derive(Debug, Clone)]
pub struct LocalConfig {
    pub base_url: Option<String>,
    pub api_key: Option<String>,
    pub host: Option<String>,
    pub port: Option<u16>,
    pub insecure: Option<bool>,
}

/// The settings given on the command line.
#[derive(Debug, Clone)]
pub struct ServerAuth {
    pub host: Option<String>,
    pub port: Option<u16>,
    pub api_key: Option<String>,
    pub base_url: Option<String>,
    pub insecure: bool,
}

/// The settings read from the environment, as raw text.
#[derive(Debug, Clone)]
pub struct EnvSettings {
    pub host: Option<String>,
    pub port: Option<String>,
    pub api_key: Option<String>,
    pub base_url: Option<String>,
    pub insecure: Option<String>,
}

/// The view of an optional string.
pub open spec fn opt_str(o: Option<String>) -> Option<Seq<char>> {
    match o {
        Some(s) => Some(s@),
        None => None,
    }
}

/// The first of two options that holds a value.
pub open spec fn or_else<T>(a: Option<T>, b: Option<T>) -> Option<T> {
    if a is Some {
        a
    } else {
        b
    }
}

/// An ASCII decimal digit.
pub open spec fn is_digit(c: char) -> bool {
    '0' <= c <= '9'
}

/// The number that a string of decimal digits spells.
pub open spec fn digits_value(s: Seq<char>) -> int
    decreases s.len(),
{
    if s.len() == 0 {
        0
    } else {
        digits_value(s.drop_last()) * 10 + ((s.last() as int) - ('0' as int))
    }
}

/// The text after an optional leading `+`.
pub open spec fn unsigned_digits(s: Seq<char>) -> Seq<char> {
    if s.len() > 0 && s[0] == '+' {
        s.drop_first()
    } else {
        s
    }
}

/// Every character is a decimal digit.
pub open spec fn all_digits(d: Seq<char>) -> bool {
    forall|i: int| 0 <= i < d.len() ==> is_digit(#[trigger] d[i])
}

/// `str::parse::<u16>`: an optional `+`, then at least one decimal digit and
/// nothing else, with a value that fits in `u16`.
pub open spec fn parsed_u16(s: Seq<char>) -> Option<u16> {
    let d = unsigned_digits(s);
    if d.len() > 0 && all_digits(d) && digits_value(d) <= 65535 {
        Some(digits_value(d) as u16)
    } else {
        None
    }
}

proof fn lemma_digits_value_grows(d: Seq<char>, i: int)
    requires
        0 <= i <= d.len(),
        forall|k: int| 0 <= k < d.len() ==> is_digit(#[trigger] d[k]),
    ensures
        digits_value(d.take(i)) <= digits_value(d),
        0 <= digits_value(d.take(i)),
    decreases d.len() - i,
{
    if i < d.len() {
        lemma_digits_value_grows(d, i + 1);
        assert(d.take(i + 1).drop_last() =~= d.take(i));
        assert(is_digit(d[i]));
    } else {
        assert(d.take(i) =~= d);
    }
    lemma_digits_nonneg(d.take(i));
}

proof fn lemma_digits_nonneg(d: Seq<char>)
    requires
        forall|k: int| 0 <= k < d.len() ==> is_digit(#[trigger] d[k]),
    ensures
        0 <= digits_value(d),
    decreases d.len(),
{
    if d.len() > 0 {
        assert(is_digit(d.last()));
        lemma_digits_nonneg(d.drop_last());
    }
}

/// `str::parse::<u16>`.
pub fn parse_u16(s: &str) -> (r: Option<u16>)
    ensures
        r == parsed_u16(s@),
{
    let v = chars_of(s);
    let start: usize = if v.len() > 0 && v[0] == '+' {
        1
    } else {
        0
    };
    let ghost d = v@.skip(start as int);
    proof {
        if start == 1 {
            assert(d =~= s@.drop_first());
        } else {
            assert(d =~= s@);
        }
    }
    if start == v.len() {
        return None;
    }
    let mut value: u32 = 0;
    let mut i = start;
    while i < v.len()
        invariant
            start <= i <= v@.len(),
            d == v@.skip(start as int),
            d == unsigned_digits(s@),
            d.len() > 0,
            value as int == digits_value(d.take(i - start)),
            value <= 65535,
            forall|k: int| 0 <= k < i - start ==> is_digit(#[trigger] d[k]),
        decreases v@.len() - i,
    {
        let c = v[i];
        proof {
            assert(d[i - start] == c);
            assert(d.take(i - start + 1).drop_last() =~= d.take(i - start));
        }
        if !('0' <= c && c <= '9') {
            proof {
                assert(!is_digit(d[i - start]));
            }
            return None;
        }
        let digit = (c as u32) - ('0' as u32);
        value = value * 10 + digit;
        if value > 65535 {
            proof {
                assert forall|k: int| 0 <= k < i - start + 1 implies is_digit(#[trigger] d.take(i - start + 1)[k]) by {
                    assert(d.take(i - start + 1)[k] == d[k]);
                }
                if all_digits(d) {
                    lemma_digits_value_grows(d, i - start + 1);
                }
            }
            return None;
        }
        i += 1;
    }
    proof {
        assert(d.take(i - start) =~= d);
    }
    Some(value as u16)
}

/// A setting that reads as "on": after trimming and ASCII lower-casing,
/// one of `1`, `true`, `yes`, `on`.
pub open spec fn is_truthy(s: Seq<char>) -> bool {
    let n = lower(trim(s));
    n == "1"@ || n == "true"@ || n == "yes"@ || n == "on"@
}

/// Whether a setting reads as "on" (see `is_truthy`).
pub fn truthy(s: &str) -> (r: bool)
    ensures
        r == is_truthy(s@),
{
    let v = chars_of(s);
    let (a, b) = trim_range(&v, 0, v.len());
    proof {
        assert(v@.subrange(0, v@.len() as int) =~= v@);
    }
    let n = lower_range(&v, a, b);
    str_eq(n.as_str(), "1") || str_eq(n.as_str(), "true") || str_eq(n.as_str(), "yes") || str_eq(
        n.as_str(),
        "on",
    )
}

/// The parts of a parsed URL that connection settings use.
#[derive(Debug, Clone)]
pub struct UrlParts {
    pub scheme: String,
    pub host: Option<String>,
    pub port: Option<u16>,
}

/// What `reqwest::Url::parse` makes of a text, as (scheme, host, port or the
/// scheme's known default), or `None` where it reports an error.
pub uninterp spec fn url_parts(text: Seq<char>) -> Option<(Seq<char>, Option<Seq<char>>, Option<u16>)>;

/// `reqwest::Url::parse`, read through `Url::scheme`, `Url::host_str` and
/// `Url::port_or_known_default`; on failure, the parser's message. The
/// parts depend on the text alone; nothing is stated of the message.
#[verifier::external_body]
fn parse_url(text: &str) -> (r: Result<UrlParts, String>)
    ensures
        match r {
            Ok(p) => url_parts(text@) == Some((p.scheme@, opt_str(p.host), p.port)),
            Err(_) => url_parts(text@) is None,
        },
{
    match reqwest::Url::parse(text) {
        Ok(u) => Ok(UrlParts { scheme: u.scheme().to_string(), host: u.host_str().map(|h| h.to_string()), port: u.port_or_known_default() }),
        Err(e) => Err(e.to_string()),
    }
}

/// A base URL with `http://` put in front unless it names `http` or `https`.
pub open spec fn normalized_base_url(u: Seq<char>) -> Seq<char> {
    if starts_with(u, "http://"@) || starts_with(u, "https://"@) {
        u
    } else {
        "http://"@ + u
    }
}

/// The (host, port, scheme) that a base URL gives: its host, its port or
/// the scheme's default or 9999, and its scheme.
pub open spec fn base_url_parts(u: Seq<char>) -> Option<(Seq<char>, u16, Seq<char>)> {
    match url_parts(normalized_base_url(u)) {
        Some((scheme, Some(host), port)) => Some(
            (
                host,
                match port {
                    Some(p) => p,
                    None => 9999,
                },
                scheme,
            ),
        ),
        _ => None,
    }
}

/// `e` reports why the base URL `u` gives no parts.
pub open spec fn base_url_refusal(u: Seq<char>, e: CliError) -> bool {
    if url_parts(normalized_base_url(u)) is None {
        e is InvalidBaseUrl
    } else {
        e is BaseUrlMissingHost
    }
}

/// Reads a base URL into (host, port, scheme).
pub fn parse_base_url(base_url: &str) -> (r: Result<(String, u16, String), CliError>)
    ensures
        match r {
            Ok((h, p, s)) => base_url_parts(base_url@) == Some((h@, p, s@)),
            Err(e) => base_url_parts(base_url@) is None && base_url_refusal(base_url@, e),
        },
{
    let v = chars_of(base_url);
    let http = chars_of("http://");
    let https = chars_of("https://");
    let normalized = if starts_with_exec(&v, &http) || starts_with_exec(&v, &https) {
        base_url.to_owned()
    } else {
        let mut n = "http://".to_owned();
        n.append(base_url);
        n
    };
    match parse_url(normalized.as_str()) {
        Err(message) => Err(CliError::InvalidBaseUrl { message }),
        Ok(parts) => match parts.host {
            None => Err(CliError::BaseUrlMissingHost),
            Some(host) => {
                let port = match parts.port {
                    Some(p) => p,
                    None => 9999,
                };
                Ok((host, port, parts.scheme))
            },
        },
    }
}


/// The base URL in use: command line, else environment, else local file.
pub open spec fn chosen_base_url(auth: ServerAuth, env: EnvSettings, local: LocalConfig) -> Option<
    Seq<char>,
> {
    or_else(opt_str(auth.base_url), or_else(opt_str(env.base_url), opt_str(local.base_url)))
}

/// The base URL in use parses, or there is none.
pub open spec fn base_ok(auth: ServerAuth, env: EnvSettings, local: LocalConfig) -> bool {
    chosen_base_url(auth, env, local) is None || base_url_parts(
        chosen_base_url(auth, env, local)->0,
    ) is Some
}

/// The (host, port, scheme) of the base URL in use, if any.
pub open spec fn base_of(auth: ServerAuth, env: EnvSettings, local: LocalConfig) -> Option<
    (Seq<char>, u16, Seq<char>),
> {
    match chosen_base_url(auth, env, local) {
        Some(u) => base_url_parts(u),
        None => None,
    }
}

/// The port that the environment sets, when it reads as a `u16`.
pub open spec fn env_port(env: EnvSettings) -> Option<u16> {
    match env.port {
        Some(p) => parsed_u16(p@),
        None => None,
    }
}

/// Whether the environment turns certificate checks off.
pub open spec fn env_insecure(env: EnvSettings) -> bool {
    match env.insecure {
        Some(v) => is_truthy(v@),
        None => false,
    }
}

/// Which source gives the base URL in use: 0 the command line, 1 the
/// environment, 2 the local file, 3 none.
pub open spec fn base_source(auth: ServerAuth, env: EnvSettings, local: LocalConfig) -> int {
    if auth.base_url is Some {
        0
    } else if env.base_url is Some {
        1
    } else if local.base_url is Some {
        2
    } else {
        3
    }
}

/// The host of the base URL in use, when the source `level` gives it.
pub open spec fn base_host_at(auth: ServerAuth, env: EnvSettings, local: LocalConfig, level: int) -> Option<
    Seq<char>,
> {
    match base_of(auth, env, local) {
        Some((h, _, _)) => if base_source(auth, env, local) == level {
            Some(h)
        } else {
            None
        },
        None => None,
    }
}

/// The port of the base URL in use, when the source `level` gives it.
pub open spec fn base_port_at(auth: ServerAuth, env: EnvSettings, local: LocalConfig, level: int) -> Option<
    u16,
> {
    match base_of(auth, env, local) {
        Some((_, p, _)) => if base_source(auth, env, local) == level {
            Some(p)
        } else {
            None
        },
        None => None,
    }
}

/// The host in use. Sources rank command line, environment, local file; in
/// each, an explicit host comes before the host of that source's base URL.
pub open spec fn config_host(auth: ServerAuth, env: EnvSettings, local: LocalConfig) -> Option<
    Seq<char>,
> {
    or_else(
        opt_str(auth.host),
        or_else(
            base_host_at(auth, env, local, 0),
            or_else(
                opt_str(env.host),
                or_else(
                    base_host_at(auth, env, local, 1),
                    or_else(opt_str(local.host), base_host_at(auth, env, local, 2)),
                ),
            ),
        ),
    )
}

/// The port in use, ranked as the host is (see `config_host`), else 9999.
pub open spec fn config_port(auth: ServerAuth, env: EnvSettings, local: LocalConfig) -> u16 {
    match or_else(
        auth.port,
        or_else(
            base_port_at(auth, env, local, 0),
            or_else(
                env_port(env),
                or_else(
                    base_port_at(auth, env, local, 1),
                    or_else(local.port, base_port_at(auth, env, local, 2)),
                ),
            ),
        ),
    ) {
        Some(p) => p,
        None => 9999,
    }
}

/// The scheme in use: the base URL's, else `http`.
pub open spec fn config_scheme(auth: ServerAuth, env: EnvSettings, local: LocalConfig) -> Seq<char> {
    match base_of(auth, env, local) {
        Some((_, _, s)) => s,
        None => "http"@,
    }
}

/// The API key in use: command line, environment, local file.
pub open spec fn config_api_key(auth: ServerAuth, env: EnvSettings, local: LocalConfig) -> Option<
    Seq<char>,
> {
    or_else(opt_str(auth.api_key), or_else(opt_str(env.api_key), opt_str(local.api_key)))
}

/// Certificate checks are off when any source turns them off.
pub open spec fn config_insecure(auth: ServerAuth, env: EnvSettings, local: LocalConfig) -> bool {
    auth.insecure || env_insecure(env) || local.insecure == Some(true)
}

/// The first of two optional strings that holds a value, copied.
fn first_of(a: &Option<String>, b: &Option<String>) -> (r: Option<String>)
    ensures
        opt_str(r) == or_else(opt_str(*a), opt_str(*b)),
{
    match a {
        Some(x) => Some(x.clone()),
        None => match b {
            Some(y) => Some(y.clone()),
            None => None,
        },
    }
}

/// Combines the command line, the environment and the local file into the
/// connection settings (each setting from the first source that has it; see
/// the `config_*` spec functions). Fails when the base URL in use does not
/// parse, when no host is known, or when no API key is known, in that order.
pub fn resolve_config(auth: &ServerAuth, env: &EnvSettings, local: &LocalConfig) -> (r: Result<
    OnePanelConfig,
    CliError,
>)
    ensures
        match r {
            Ok(cfg) => {
                &&& base_ok(*auth, *env, *local)
                &&& config_host(*auth, *env, *local) == Some(cfg.host@)
                &&& cfg.port == config_port(*auth, *env, *local)
                &&& config_api_key(*auth, *env, *local) == Some(cfg.api_key@)
                &&& cfg.scheme@ == config_scheme(*auth, *env, *local)
                &&& cfg.insecure_skip_tls_verify == config_insecure(*auth, *env, *local)
            },
            Err(e) => {
                ||| !base_ok(*auth, *env, *local) && base_url_refusal(
                    chosen_base_url(*auth, *env, *local)->0,
                    e,
                )
                ||| base_ok(*auth, *env, *local) && config_host(*auth, *env, *local) is None
                    && e is HostRequired
                ||| base_ok(*auth, *env, *local) && config_host(*auth, *env, *local) is Some
                    && config_api_key(*auth, *env, *local) is None && e is ApiKeyRequired
            },
        },
{
    let env_port_value: Option<u16> = match &env.port {
        Some(p) => parse_u16(p.as_str()),
        None => None,
    };
    let env_insecure_value = match &env.insecure {
        Some(v) => truthy(v.as_str()),
        None => false,
    };
    let base_url = first_of(&auth.base_url, &first_of(&env.base_url, &local.base_url));
    let level: u8 = if auth.base_url.is_some() {
        0
    } else if env.base_url.is_some() {
        1
    } else if local.base_url.is_some() {
        2
    } else {
        3
    };
    let parsed: Option<(String, u16, String)> = match &base_url {
        Some(u) => match parse_base_url(u.as_str()) {
            Ok(p) => Some(p),
            Err(e) => return Err(e),
        },
        None => None,
    };
    let (h0, h1, h2): (Option<String>, Option<String>, Option<String>) = match &parsed {
        Some((h, _, _)) => (
            if level == 0 { Some(h.clone()) } else { None },
            if level == 1 { Some(h.clone()) } else { None },
            if level == 2 { Some(h.clone()) } else { None },
        ),
        None => (None, None, None),
    };
    let (p0, p1, p2): (Option<u16>, Option<u16>, Option<u16>) = match &parsed {
        Some((_, p, _)) => (
            if level == 0 { Some(*p) } else { None },
            if level == 1 { Some(*p) } else { None },
            if level == 2 { Some(*p) } else { None },
        ),
        None => (None, None, None),
    };
    let host = match first_of(
        &auth.host,
        &first_of(&h0, &first_of(&env.host, &first_of(&h1, &first_of(&local.host, &h2)))),
    ) {
        Some(h) => h,
        None => return Err(CliError::HostRequired),
    };
    let port: u16 = match auth.port {
        Some(p) => p,
        None => match p0 {
            Some(p) => p,
            None => match env_port_value {
                Some(p) => p,
                None => match p1 {
                    Some(p) => p,
                    None => match local.port {
                        Some(p) => p,
                        None => match p2 {
                            Some(p) => p,
                            None => 9999,
                        },
                    },
                },
            },
        },
    };
    let scheme = match &parsed {
        Some((_, _, s)) => s.clone(),
        None => "http".to_owned(),
    };
    let api_key = match first_of(&auth.api_key, &first_of(&env.api_key, &local.api_key)) {
        Some(k) => k,
        None => return Err(CliError::ApiKeyRequired),
    };
    let insecure = auth.insecure || env_insecure_value || match local.insecure {
        Some(b) => b,
        None => false,
    };
    Ok(OnePanelConfig::new(host, port, api_key, scheme, insecure))
}

/// The local settings as optional sequences.
pub open spec fn local_view(c: LocalConfig) -> (
    Option<Seq<char>>,
    Option<Seq<char>>,
    Option<Seq<char>>,
    Option<u16>,
    Option<bool>,
) {
    (opt_str(c.base_url), opt_str(c.api_key), opt_str(c.host), c.port, c.insecure)
}

/// The keys that `unset_key` accepts, and the setting each one clears:
/// 0 base URL, 1 API key, 2 host, 3 port, 4 insecure.
pub open spec fn config_key_slot(key: Seq<char>) -> Option<int> {
    if key == "base-url"@ || key == "base_url"@ {
        Some(0)
    } else if key == "api-key"@ || key == "api_key"@ {
        Some(1)
    } else if key == "host"@ {
        Some(2)
    } else if key == "port"@ {
        Some(3)
    } else if key == "insecure"@ {
        Some(4)
    } else {
        None
    }
}

impl LocalConfig {
    /// No setting.
    pub fn empty() -> (r: Self)
        ensures
            local_view(r) == (
                None::<Seq<char>>,
                None::<Seq<char>>,
                None::<Seq<char>>,
                None::<u16>,
                None::<bool>,
            ),
    {
        LocalConfig { base_url: None, api_key: None, host: None, port: None, insecure: None }
    }

    /// Stores each given setting and keeps the others.
    pub fn apply_set(
        &mut self,
        base_url: Option<String>,
        api_key: Option<String>,
        host: Option<String>,
        port: Option<u16>,
        insecure: Option<bool>,
    )
        ensures
            opt_str(final(self).base_url) == or_else(opt_str(base_url), opt_str(old(self).base_url)),
            opt_str(final(self).api_key) == or_else(opt_str(api_key), opt_str(old(self).api_key)),
            opt_str(final(self).host) == or_else(opt_str(host), opt_str(old(self).host)),
            final(self).port == or_else(port, old(self).port),
            final(self).insecure == or_else(insecure, old(self).insecure),
    {
        if let Some(v) = base_url {
            self.base_url = Some(v);
        }
        if let Some(v) = api_key {
            self.api_key = Some(v);
        }
        if let Some(v) = host {
            self.host = Some(v);
        }
        if let Some(v) = port {
            self.port = Some(v);
        }
        if let Some(v) = insecure {
            self.insecure = Some(v);
        }
    }

    /// Clears the setting that `key` names (see `config_key_slot`); any
    /// other key is refused and nothing changes.
    pub fn unset_key(&mut self, key: &str) -> (r: Result<(), CliError>)
        ensures
            match config_key_slot(key@) {
                Some(slot) => {
                    &&& r is Ok
                    &&& opt_str(final(self).base_url) == if slot == 0 {
                        None
                    } else {
                        opt_str(old(self).base_url)
                    }
                    &&& opt_str(final(self).api_key) == if slot == 1 {
                        None
                    } else {
                        opt_str(old(self).api_key)
                    }
                    &&& opt_str(final(self).host) == if slot == 2 {
                        None
                    } else {
                        opt_str(old(self).host)
                    }
                    &&& final(self).port == if slot == 3 {
                        None
                    } else {
                        old(self).port
                    }
                    &&& final(self).insecure == if slot == 4 {
                        None
                    } else {
                        old(self).insecure
                    }
                },
                None => {
                    &&& r matches Err(e) && (e matches CliError::UnsupportedConfigKey { key: k }
                        && k@ == key@)
                    &&& local_view(*final(self)) == local_view(*old(self))
                },
            },
    {
        if str_eq(key, "base-url") || str_eq(key, "base_url") {
            self.base_url = None;
        } else if str_eq(key, "api-key") || str_eq(key, "api_key") {
            self.api_key = None;
        } else if str_eq(key, "host") {
            self.host = None;
        } else if str_eq(key, "port") {
            self.port = None;
        } else if str_eq(key, "insecure") {
            self.insecure = None;
        } else {
            return Err(CliError::UnsupportedConfigKey { key: key.to_owned() });
        }
        Ok(())
    }
}

} // verus!
