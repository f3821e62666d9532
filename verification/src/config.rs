//! Runtime settings read from the process environment, and the layered
//! service configuration with its defaults.

use vstd::prelude::*;
use crate::text::{
    all_digits, ascii_lower, ascii_lower_char, chars_of, is_whitespace, trim_end, trim_start, str_views, decimal_digits, decimal_value, digit_char, digit_value, is_ascii_digit, lowered_range_equals, trim,
    trimmed_bounds,
};

verus! {

/// Environment variable that overrides the address the backend binds to.
pub const BACKEND_HOST_VAR: &'static str = "TOT_BACKEND_HOST";

/// Environment variable that overrides the TCP port the backend listens on.
pub const BACKEND_PORT_VAR: &'static str = "TOT_BACKEND_PORT";

/// Environment variable that selects the log filter.
pub const LOG_LEVEL_VAR: &'static str = "TOT_LOG_LEVEL";

/// Environment variable that switches experimental features on or off.
pub const ENABLE_EXPERIMENTAL_VAR: &'static str = "TOT_ENABLE_EXPERIMENTAL";

/// Address used when [`BACKEND_HOST_VAR`] is unset.
pub const DEFAULT_BACKEND_HOST: &'static str = "0.0.0.0";

/// Port used when [`BACKEND_PORT_VAR`] is unset.
pub const DEFAULT_BACKEND_PORT: u16 = 8080;

/// Log filter used when [`LOG_LEVEL_VAR`] is unset.
pub const DEFAULT_LOG_LEVEL: &'static str = "info";

/// Settings of the running backend process.
#[derive(Debug, Clone, PartialEq, Eq)]
pub struct Config {
    pub host: String,
    pub port: u16,
    pub log_level: String,
    pub enable_experimental: bool,
}

/// The value of a [`Config`].
pub struct ConfigView {
    pub host: Seq<char>,
    pub port: u16,
    pub log_level: Seq<char>,
    pub enable_experimental: bool,
}

impl View for Config {
    type V = ConfigView;

    open spec fn view(&self) -> ConfigView {
        ConfigView {
            host: self.host@,
            port: self.port,
            log_level: self.log_level@,
            enable_experimental: self.enable_experimental,
        }
    }
}

/// A setting whose text could not be understood.
#[derive(Debug, PartialEq, Eq)]
pub enum ConfigError {
    /// The variable `name` does not hold a TCP port between 1 and 65535.
    InvalidPort { name: &'static str, value: String },
    /// The variable `name` does not hold one of the accepted boolean words.
    InvalidBool { name: &'static str, value: String },
}

/// The value of a [`ConfigError`].
pub enum ConfigErrorView {
    InvalidPort { name: Seq<char>, value: Seq<char> },
    InvalidBool { name: Seq<char>, value: Seq<char> },
}

impl View for ConfigError {
    type V = ConfigErrorView;

    open spec fn view(&self) -> ConfigErrorView {
        match self {
            ConfigError::InvalidPort { name, value } => ConfigErrorView::InvalidPort {
                name: name@,
                value: value@,
            },
            ConfigError::InvalidBool { name, value } => ConfigErrorView::InvalidBool {
                name: name@,
                value: value@,
            },
        }
    }
}

/// The value of an outcome of reading the configuration.
pub open spec fn config_result_view(r: Result<Config, ConfigError>) -> Result<
    ConfigView,
    ConfigErrorView,
> {
    match r {
        Ok(c) => Ok(c@),
        Err(e) => Err(e@),
    }
}

/// The number that `str::parse::<u16>` reads from `s`: an optional `+`
/// followed by at least one decimal digit, with a value that fits in 16 bits.
pub open spec fn u16_from_text(s: Seq<char>) -> Option<u16> {
    let digits = if s.len() > 0 && s[0] == '+' {
        s.drop_first()
    } else {
        s
    };
    if digits.len() > 0 && all_digits(digits) && decimal_value(digits) <= 65535 {
        Some(decimal_value(digits) as u16)
    } else {
        None
    }
}

/// The TCP port written in `s`, if it is one between 1 and 65535.
pub open spec fn port_from_text(s: Seq<char>) -> Option<u16> {
    match u16_from_text(s) {
        Some(p) => if p > 0 {
            Some(p)
        } else {
            None
        },
        None => None,
    }
}

/// The boolean written in `s`: after trimming whitespace and ignoring ASCII
/// case, one of `true`, `1`, `yes`, `on` or `false`, `0`, `no`, `off`.
pub open spec fn bool_from_text(s: Seq<char>) -> Option<bool> {
    let t = ascii_lower(trim(s));
    if t == "true"@ || t == "1"@ || t == "yes"@ || t == "on"@ {
        Some(true)
    } else if t == "false"@ || t == "0"@ || t == "no"@ || t == "off"@ {
        Some(false)
    } else {
        None
    }
}

/// The configuration that the four looked-up settings describe, or the first
/// setting, in the order port then experimental switch, that is malformed.
pub open spec fn config_from_settings(
    host: Option<Seq<char>>,
    port: Option<Seq<char>>,
    log_level: Option<Seq<char>>,
    enable_experimental: Option<Seq<char>>,
) -> Result<ConfigView, ConfigErrorView> {
    if port is Some && port_from_text(port->0) is None {
        Err(ConfigErrorView::InvalidPort { name: BACKEND_PORT_VAR@, value: port->0 })
    } else if enable_experimental is Some && bool_from_text(enable_experimental->0) is None {
        Err(
            ConfigErrorView::InvalidBool {
                name: ENABLE_EXPERIMENTAL_VAR@,
                value: enable_experimental->0,
            },
        )
    } else {
        Ok(
            ConfigView {
                host: match host {
                    Some(h) => h,
                    None => DEFAULT_BACKEND_HOST@,
                },
                port: match port {
                    Some(p) => port_from_text(p)->0,
                    None => DEFAULT_BACKEND_PORT,
                },
                log_level: match log_level {
                    Some(l) => l,
                    None => DEFAULT_LOG_LEVEL@,
                },
                enable_experimental: match enable_experimental {
                    Some(e) => bool_from_text(e)->0,
                    None => false,
                },
            },
        )
    }
}

/// The configuration used when no setting is given.
pub open spec fn default_config() -> ConfigView {
    ConfigView {
        host: DEFAULT_BACKEND_HOST@,
        port: DEFAULT_BACKEND_PORT,
        log_level: DEFAULT_LOG_LEVEL@,
        enable_experimental: false,
    }
}

/// Reads an unsigned 16-bit number the way `str::parse::<u16>` does.
fn parse_u16(value: &str) -> (res: Option<u16>)
    ensures
        res == u16_from_text(value@),
{
    let chars = chars_of(value);
    let len = chars.len();
    let start: usize = if len > 0 && chars[0] == '+' {
        1
    } else {
        0
    };
    let ghost digits = if value@.len() > 0 && value@[0] == '+' {
        value@.drop_first()
    } else {
        value@
    };
    assert(digits =~= chars@.subrange(start as int, len as int));
    if start == len {
        return None;
    }
    let mut acc: u32 = 0;
    let mut i: usize = start;
    assert(chars@.subrange(start as int, start as int) =~= Seq::<char>::empty());
    while i < len
        invariant
            start <= i <= len == chars@.len(),
            digits == chars@.subrange(start as int, len as int),
            chars@ == value@,
            digits == (if value@.len() > 0 && value@[0] == '+' {
                value@.drop_first()
            } else {
                value@
            }),
            all_digits(chars@.subrange(start as int, i as int)),
            acc as int == if decimal_value(chars@.subrange(start as int, i as int)) <= 65535 {
                decimal_value(chars@.subrange(start as int, i as int)) as int
            } else {
                65536
            },
        decreases len - i,
    {
        let c = chars[i];
        if !('0' <= c && c <= '9') {
            assert(digits[i - start] == c);
            assert(!is_ascii_digit(digits[i - start]));
            assert(!all_digits(digits));
            return None;
        }
        let ghost prev = chars@.subrange(start as int, i as int);
        let ghost next = chars@.subrange(start as int, i + 1);
        assert(next.drop_last() =~= prev);
        let d = (c as u32) - ('0' as u32);
        if acc <= 65535 {
            let v = acc * 10 + d;
            acc = if v <= 65535 {
                v
            } else {
                65536
            };
        }
        i = i + 1;
    }
    assert(chars@.subrange(start as int, len as int) =~= digits);
    if acc <= 65535 {
        Some(acc as u16)
    } else {
        None
    }
}

/// Reads the TCP port held by the variable `name`.
pub fn parse_port(name: &'static str, value: &str) -> (res: Result<u16, ConfigError>)
    ensures
        match res {
            Ok(p) => port_from_text(value@) == Some(p),
            Err(e) => port_from_text(value@) is None && e@ == (ConfigErrorView::InvalidPort {
                name: name@,
                value: value@,
            }),
        },
{
    match parse_u16(value) {
        Some(port) => {
            if port > 0 {
                return Ok(port);
            }
        },
        None => {},
    }
    Err(ConfigError::InvalidPort { name, value: String::from_str(value) })
}

/// Reads the boolean switch held by the variable `name`.
pub fn parse_bool(name: &'static str, value: &str) -> (res: Result<bool, ConfigError>)
    ensures
        match res {
            Ok(b) => bool_from_text(value@) == Some(b),
            Err(e) => bool_from_text(value@) is None && e@ == (ConfigErrorView::InvalidBool {
                name: name@,
                value: value@,
            }),
        },
{
    let chars = chars_of(value);
    let (start, end) = trimmed_bounds(&chars);
    if lowered_range_equals(&chars, start, end, "true") || lowered_range_equals(
        &chars,
        start,
        end,
        "1",
    ) || lowered_range_equals(&chars, start, end, "yes") || lowered_range_equals(
        &chars,
        start,
        end,
        "on",
    ) {
        Ok(true)
    } else if lowered_range_equals(&chars, start, end, "false") || lowered_range_equals(
        &chars,
        start,
        end,
        "0",
    ) || lowered_range_equals(&chars, start, end, "no") || lowered_range_equals(
        &chars,
        start,
        end,
        "off",
    ) {
        Ok(false)
    } else {
        Err(ConfigError::InvalidBool { name, value: String::from_str(value) })
    }
}


impl Config {
    /// Builds the configuration from what the environment holds for
    /// [`BACKEND_HOST_VAR`], [`BACKEND_PORT_VAR`], [`LOG_LEVEL_VAR`] and
    /// [`ENABLE_EXPERIMENTAL_VAR`]; `None` stands for an unset variable.
    pub fn from_lookup(
        host: Option<String>,
        port: Option<String>,
        log_level: Option<String>,
        enable_experimental: Option<String>,
    ) -> (res: Result<Config, ConfigError>)
        ensures
            config_result_view(res) == config_from_settings(
                host.deep_view(),
                port.deep_view(),
                log_level.deep_view(),
                enable_experimental.deep_view(),
            ),
    {
        let host = match host {
            Some(h) => h,
            None => String::from_str(DEFAULT_BACKEND_HOST),
        };
        let port = match port {
            Some(value) => match parse_port(BACKEND_PORT_VAR, value.as_str()) {
                Ok(p) => p,
                Err(e) => {
                    return Err(e);
                },
            },
            None => DEFAULT_BACKEND_PORT,
        };
        let log_level = match log_level {
            Some(l) => l,
            None => String::from_str(DEFAULT_LOG_LEVEL),
        };
        let enable_experimental = match enable_experimental {
            Some(value) => match parse_bool(ENABLE_EXPERIMENTAL_VAR, value.as_str()) {
                Ok(b) => b,
                Err(e) => {
                    return Err(e);
                },
            },
            None => false,
        };
        Ok(Config { host, port, log_level, enable_experimental })
    }
}

impl Default for Config {
    fn default() -> (res: Self)
        ensures
            res@ == default_config(),
    {
        Config {
            host: String::from_str(DEFAULT_BACKEND_HOST),
            port: DEFAULT_BACKEND_PORT,
            log_level: String::from_str(DEFAULT_LOG_LEVEL),
            enable_experimental: false,
        }
    }
}

/// With no variable set, the environment yields exactly the default
/// configuration.
pub proof fn lemma_unset_environment_is_default()
    ensures
        config_from_settings(None, None, None, None) == Ok::<ConfigView, ConfigErrorView>(
            default_config(),
        ),
{
}

proof fn lemma_decimal_digits_read_back(n: nat)
    ensures
        decimal_digits(n).len() > 0,
        all_digits(decimal_digits(n)),
        decimal_value(decimal_digits(n)) == n,
    decreases n,
{
    assert(digit_value(digit_char(n % 10)) == n % 10);
    if n >= 10 {
        lemma_decimal_digits_read_back(n / 10);
        let s = decimal_digits(n);
        assert(s.drop_last() =~= decimal_digits(n / 10));
        assert(decimal_value(s) == decimal_value(s.drop_last()) * 10 + digit_value(s.last()));
        assert forall|i: int| 0 <= i < s.len() implies #[trigger] is_ascii_digit(s[i]) by {
            if i < s.len() - 1 {
                assert(s[i] == decimal_digits(n / 10)[i]);
            }
        }
    } else {
        assert(decimal_digits(n).drop_last() =~= Seq::<char>::empty());
        assert(decimal_value(Seq::<char>::empty()) == 0);
    }
}

/// Every TCP port from 1 to 65535, written in decimal, is accepted as that
/// port, with or without a leading `+`.
pub proof fn lemma_decimal_port_accepted(p: u16)
    requires
        p > 0,
    ensures
        port_from_text(decimal_digits(p as nat)) == Some(p),
        port_from_text(seq!['+'] + decimal_digits(p as nat)) == Some(p),
{
    let s = decimal_digits(p as nat);
    lemma_decimal_digits_read_back(p as nat);
    assert(is_ascii_digit(s[0]));
    assert((seq!['+'] + s).drop_first() =~= s);
}

/// Identity and endpoint of this service.
#[derive(Debug, Clone)]
pub struct ServiceConfig {
    pub name: String,
    pub version: String,
    pub host: String,
    pub port: u16,
    pub tls_enabled: bool,
    pub tls_cert_path: Option<String>,
    pub tls_key_path: Option<String>,
}

/// Connection to the service registry.
#[derive(Debug, Clone)]
pub struct RegistryConfig {
    pub backend: String,
    pub endpoints: Vec<String>,
    pub heartbeat_interval_ms: u64,
    pub ttl_seconds: u64,
    pub replication_factor: u32,
}

/// How the service announces itself for discovery.
#[derive(Debug, Clone)]
pub struct DiscoveryConfig {
    pub provider: String,
    pub namespace: String,
    pub tags: Vec<String>,
    pub health_check_path: String,
    pub health_check_interval_ms: u64,
}

/// Connection to the message broker.
#[derive(Debug, Clone)]
pub struct MessagingConfig {
    pub broker_type: String,
    pub uris: Vec<String>,
    pub consumer_group: String,
    pub max_retries: u32,
    pub retry_backoff_ms: u64,
    pub batch_size: u32,
    pub compression: String,
}

/// The whole service configuration, as the configuration file holds it.
#[derive(Debug, Clone)]
pub struct RootConfig {
    pub service: ServiceConfig,
    pub registry: RegistryConfig,
    pub discovery: DiscoveryConfig,
    pub messaging: MessagingConfig,
}

/// The tag that marks a service running with experimental features.
pub const EXPERIMENTAL_TAG: &'static str = "experimental";

/// The discovery tags once experimental features are switched `enabled`:
/// the experimental tag is added when enabled and not already present.
pub open spec fn tags_with_experimental(tags: Seq<Seq<char>>, enabled: bool) -> Seq<Seq<char>> {
    if enabled && !tags.contains(EXPERIMENTAL_TAG@) {
        tags.push(EXPERIMENTAL_TAG@)
    } else {
        tags
    }
}

/// A vector of strings built from string slices.
fn strings_from(items: &[&str]) -> (res: Vec<String>)
    ensures
        res.deep_view() == str_views(items@),
{
    let mut out: Vec<String> = Vec::new();
    let mut i: usize = 0;
    while i < items.len()
        invariant
            i <= items@.len(),
            out@.len() == i,
            out.deep_view() == str_views(items@).take(i as int),
        decreases items@.len() - i,
    {
        let item = String::from_str(items[i]);
        let ghost before = out.deep_view();
        out.push(item);
        assert(out@[i as int]@ == items@[i as int]@);
        assert(out.deep_view() =~= before.push(items@[i as int]@));
        assert(out.deep_view() =~= str_views(items@).take(i + 1));
        i = i + 1;
    }
    assert(str_views(items@).take(items@.len() as int) =~= str_views(items@));
    out
}

impl Default for RootConfig {
    fn default() -> (res: Self)
        ensures
            res.service.name@ == "tent-backend"@,
            res.service.version@ == "0.1.0"@,
            res.service.host@ == DEFAULT_BACKEND_HOST@,
            res.service.port == DEFAULT_BACKEND_PORT,
            !res.service.tls_enabled,
            res.service.tls_cert_path is None,
            res.service.tls_key_path is None,
            res.registry.backend@ == "etcd"@,
            res.registry.endpoints.deep_view() == seq!["localhost:2379"@],
            res.registry.heartbeat_interval_ms == 5000,
            res.registry.ttl_seconds == 30,
            res.registry.replication_factor == 3,
            res.discovery.provider@ == "consul"@,
            res.discovery.namespace@ == "tent"@,
            res.discovery.tags.deep_view() == seq!["microservice"@, "orchestration"@],
            res.discovery.health_check_path@ == "/health"@,
            res.discovery.health_check_interval_ms == 10000,
            res.messaging.broker_type@ == "kafka"@,
            res.messaging.uris.deep_view() == seq!["localhost:9092"@],
            res.messaging.consumer_group@ == "tent-consumers"@,
            res.messaging.max_retries == 3,
            res.messaging.retry_backoff_ms == 1000,
            res.messaging.batch_size == 500,
            res.messaging.compression@ == "snappy"@,
    {
        let endpoints: [&str; 1] = ["localhost:2379"];
        let tags: [&str; 2] = ["microservice", "orchestration"];
        let uris: [&str; 1] = ["localhost:9092"];
        assert(str_views(endpoints@) =~= seq!["localhost:2379"@]);
        assert(str_views(tags@) =~= seq!["microservice"@, "orchestration"@]);
        assert(str_views(uris@) =~= seq!["localhost:9092"@]);
        RootConfig {
            service: ServiceConfig {
                name: String::from_str("tent-backend"),
                version: String::from_str("0.1.0"),
                host: String::from_str(DEFAULT_BACKEND_HOST),
                port: DEFAULT_BACKEND_PORT,
                tls_enabled: false,
                tls_cert_path: None,
                tls_key_path: None,
            },
            registry: RegistryConfig {
                backend: String::from_str("etcd"),
                endpoints: strings_from(endpoints.as_slice()),
                heartbeat_interval_ms: 5000,
                ttl_seconds: 30,
                replication_factor: 3,
            },
            discovery: DiscoveryConfig {
                provider: String::from_str("consul"),
                namespace: String::from_str("tent"),
                tags: strings_from(tags.as_slice()),
                health_check_path: String::from_str("/health"),
                health_check_interval_ms: 10000,
            },
            messaging: MessagingConfig {
                broker_type: String::from_str("kafka"),
                uris: strings_from(uris.as_slice()),
                consumer_group: String::from_str("tent-consumers"),
                max_retries: 3,
                retry_backoff_ms: 1000,
                batch_size: 500,
                compression: String::from_str("snappy"),
            },
        }
    }
}

impl RootConfig {
    /// Lets the runtime settings take precedence over the file: the service
    /// binds where `runtime` says, and is tagged experimental when
    /// experimental features are enabled.
    pub fn apply_runtime_config(&mut self, runtime: &Config)
        ensures
            final(self).service.host@ == runtime.host@,
            final(self).service.port == runtime.port,
            final(self).discovery.tags.deep_view() == tags_with_experimental(
                old(self).discovery.tags.deep_view(),
                runtime.enable_experimental,
            ),
            final(self).service.name == old(self).service.name,
            final(self).service.version == old(self).service.version,
            final(self).service.tls_enabled == old(self).service.tls_enabled,
            final(self).service.tls_cert_path == old(self).service.tls_cert_path,
            final(self).service.tls_key_path == old(self).service.tls_key_path,
            final(self).discovery.provider == old(self).discovery.provider,
            final(self).discovery.namespace == old(self).discovery.namespace,
            final(self).discovery.health_check_path == old(self).discovery.health_check_path,
            final(self).discovery.health_check_interval_ms
                == old(self).discovery.health_check_interval_ms,
            final(self).registry == old(self).registry,
            final(self).messaging == old(self).messaging,
    {
        self.service.host = runtime.host.clone();
        self.service.port = runtime.port;
        if runtime.enable_experimental {
            let marker = String::from_str(EXPERIMENTAL_TAG);
            let mut present = false;
            let mut i: usize = 0;
            while i < self.discovery.tags.len()
                invariant
                    i <= self.discovery.tags@.len(),
                    marker@ == EXPERIMENTAL_TAG@,
                    present == exists|j: int|
                        0 <= j < i && #[trigger] self.discovery.tags@[j]@ == EXPERIMENTAL_TAG@,
                decreases self.discovery.tags@.len() - i,
            {
                if self.discovery.tags[i] == marker {
                    present = true;
                }
                i = i + 1;
            }
            let ghost tags = self.discovery.tags.deep_view();
            assert(present == tags.contains(EXPERIMENTAL_TAG@)) by {
                if tags.contains(EXPERIMENTAL_TAG@) {
                    let k = choose|k: int| 0 <= k < tags.len() && tags[k] == EXPERIMENTAL_TAG@;
                    assert(self.discovery.tags@[k]@ == EXPERIMENTAL_TAG@);
                }
                if present {
                    let k = choose|k: int|
                        0 <= k < i && #[trigger] self.discovery.tags@[k]@ == EXPERIMENTAL_TAG@;
                    assert(tags[k] == EXPERIMENTAL_TAG@);
                }
            }
            if !present {
                self.discovery.tags.push(marker);
                assert(self.discovery.tags.deep_view() =~= tags.push(EXPERIMENTAL_TAG@));
            }
        }
    }
}

/// Applying the runtime switch twice leaves the tags as applying it once,
/// and afterwards the experimental tag is present exactly when it was before
/// or the switch is on.
pub proof fn lemma_experimental_tag_idempotent(tags: Seq<Seq<char>>, enabled: bool)
    ensures
        tags_with_experimental(tags_with_experimental(tags, enabled), enabled)
            == tags_with_experimental(tags, enabled),
        tags_with_experimental(tags, enabled).contains(EXPERIMENTAL_TAG@) <==> (enabled
            || tags.contains(EXPERIMENTAL_TAG@)),
{
    if enabled && !tags.contains(EXPERIMENTAL_TAG@) {
        assert(tags.push(EXPERIMENTAL_TAG@).last() == EXPERIMENTAL_TAG@);
        assert(tags.push(EXPERIMENTAL_TAG@).contains(EXPERIMENTAL_TAG@));
    }
}


/// Every character of `s` is whitespace.
pub open spec fn all_whitespace(s: Seq<char>) -> bool {
    forall|i: int| 0 <= i < s.len() ==> #[trigger] is_whitespace(s[i])
}

proof fn lemma_trim_start_skips_whitespace(p: Seq<char>, x: Seq<char>)
    requires
        all_whitespace(p),
    ensures
        trim_start(p + x) == trim_start(x),
    decreases p.len(),
{
    if p.len() > 0 {
        assert((p + x)[0] == p[0]);
        assert((p + x).drop_first() =~= p.drop_first() + x);
        lemma_trim_start_skips_whitespace(p.drop_first(), x);
    } else {
        assert(p + x =~= x);
    }
}

proof fn lemma_trim_end_skips_whitespace(x: Seq<char>, q: Seq<char>)
    requires
        all_whitespace(q),
    ensures
        trim_end(x + q) == trim_end(x),
    decreases q.len(),
{
    if q.len() > 0 {
        assert((x + q).last() == q.last());
        assert((x + q).drop_last() =~= x + q.drop_last());
        lemma_trim_end_skips_whitespace(x, q.drop_last());
    } else {
        assert(x + q =~= x);
    }
}

proof fn lemma_trim_start_before_whitespace(s: Seq<char>, q: Seq<char>)
    requires
        all_whitespace(q),
    ensures
        trim_start(s + q) == trim_start(s) + q || (trim_start(s).len() == 0 && trim_start(s + q).len()
            == 0),
    decreases s.len(),
{
    if s.len() == 0 {
        assert(s + q =~= Seq::<char>::empty() + q);
        lemma_trim_start_skips_whitespace(q, Seq::<char>::empty());
        assert(q + Seq::<char>::empty() =~= q);
        assert(s + q =~= q);
    } else if is_whitespace(s[0]) {
        assert((s + q)[0] == s[0]);
        assert((s + q).drop_first() =~= s.drop_first() + q);
        lemma_trim_start_before_whitespace(s.drop_first(), q);
    } else {
        assert((s + q)[0] == s[0]);
    }
}

/// Whitespace around a boolean setting does not change how it reads.
pub proof fn lemma_bool_ignores_surrounding_whitespace(
    before: Seq<char>,
    s: Seq<char>,
    after: Seq<char>,
)
    requires
        all_whitespace(before),
        all_whitespace(after),
    ensures
        bool_from_text(before + s + after) == bool_from_text(s),
{
    assert(before + s + after =~= before + (s + after));
    lemma_trim_start_skips_whitespace(before, s + after);
    lemma_trim_start_before_whitespace(s, after);
    if trim_start(s + after) == trim_start(s) + after {
        lemma_trim_end_skips_whitespace(trim_start(s), after);
    } else {
        assert(trim_start(s + after) =~= Seq::<char>::empty());
        assert(trim_start(s) =~= Seq::<char>::empty());
    }
    assert(trim(before + s + after) == trim(s));
}

proof fn lemma_lower_keeps_whitespace(c: char)
    ensures
        is_whitespace(ascii_lower_char(c)) == is_whitespace(c),
{
}

proof fn lemma_trim_start_commutes_with_lower(s: Seq<char>)
    ensures
        trim_start(ascii_lower(s)) == ascii_lower(trim_start(s)),
    decreases s.len(),
{
    if s.len() > 0 {
        lemma_lower_keeps_whitespace(s[0]);
        assert(ascii_lower(s)[0] == ascii_lower_char(s[0]));
        assert(ascii_lower(s).drop_first() =~= ascii_lower(s.drop_first()));
        lemma_trim_start_commutes_with_lower(s.drop_first());
    } else {
        assert(ascii_lower(s) =~= s);
    }
}

proof fn lemma_trim_end_commutes_with_lower(s: Seq<char>)
    ensures
        trim_end(ascii_lower(s)) == ascii_lower(trim_end(s)),
    decreases s.len(),
{
    if s.len() > 0 {
        lemma_lower_keeps_whitespace(s.last());
        assert(ascii_lower(s).last() == ascii_lower_char(s.last()));
        assert(ascii_lower(s).drop_last() =~= ascii_lower(s.drop_last()));
        lemma_trim_end_commutes_with_lower(s.drop_last());
    } else {
        assert(ascii_lower(s) =~= s);
    }
}

/// ASCII case does not change how a boolean setting reads.
pub proof fn lemma_bool_ignores_ascii_case(s: Seq<char>)
    ensures
        bool_from_text(ascii_lower(s)) == bool_from_text(s),
{
    lemma_trim_start_commutes_with_lower(s);
    lemma_trim_end_commutes_with_lower(trim_start(s));
    assert(ascii_lower(ascii_lower(trim(s))) =~= ascii_lower(trim(s)));
}


/// The experimental switch is the boolean the variable spells: off for
/// `false`, `0`, `no`, `off`, on for `true`, `1`, `yes`, `on` (in any ASCII
/// case, with surrounding whitespace), and off when the variable is unset;
/// with a well-formed port the configuration is then always read.
pub proof fn lemma_experimental_switch_follows_word(
    host: Option<Seq<char>>,
    port: Option<Seq<char>>,
    log_level: Option<Seq<char>>,
    word: Seq<char>,
)
    requires
        port is None || port_from_text(port->0) is Some,
    ensures
        ({
            let w = ascii_lower(trim(word));
            w == "false"@ || w == "0"@ || w == "no"@ || w == "off"@
        }) ==> (config_from_settings(host, port, log_level, Some(word)) matches Ok(c)
            && !c.enable_experimental),
        ({
            let w = ascii_lower(trim(word));
            w == "true"@ || w == "1"@ || w == "yes"@ || w == "on"@
        }) ==> (config_from_settings(host, port, log_level, Some(word)) matches Ok(c)
            && c.enable_experimental),
        config_from_settings(host, port, log_level, None) matches Ok(c) && !c.enable_experimental,
{
    reveal_strlit("false");
    reveal_strlit("0");
    reveal_strlit("no");
    reveal_strlit("off");
    reveal_strlit("true");
    reveal_strlit("1");
    reveal_strlit("yes");
    reveal_strlit("on");
    let falses = seq!["false"@, "0"@, "no"@, "off"@];
    let trues = seq!["true"@, "1"@, "yes"@, "on"@];
    assert forall|i: int, j: int| 0 <= i < 4 && 0 <= j < 4 implies falses[i] != trues[j] by {
        let f = falses[i];
        let t = trues[j];
        if f.len() == t.len() {
            assert(f[0] != t[0]);
        }
    }
    let w = ascii_lower(trim(word));
    if w == "false"@ || w == "0"@ || w == "no"@ || w == "off"@ {
        assert(w != "true"@ && w != "1"@ && w != "yes"@ && w != "on"@) by {
            assert(falses[0] != trues[0] && falses[0] != trues[1] && falses[0] != trues[2]
                && falses[0] != trues[3]);
            assert(falses[1] != trues[0] && falses[1] != trues[1] && falses[1] != trues[2]
                && falses[1] != trues[3]);
            assert(falses[2] != trues[0] && falses[2] != trues[1] && falses[2] != trues[2]
                && falses[2] != trues[3]);
            assert(falses[3] != trues[0] && falses[3] != trues[1] && falses[3] != trues[2]
                && falses[3] != trues[3]);
        }
    }
}

} // verus!
