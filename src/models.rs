//! The data the engine works on: managed domains, address snapshots, update
//! history, vendor identifiers and application settings.

use vstd::prelude::*;
use crate::ambient::{lower_of, lowercase, new_uuid_string, unix_now};
use crate::text::str_eq;

verus! {

/// The characters of an optional string.
pub open spec fn opt_view(o: Option<String>) -> Option<Seq<char>> {
    match o {
        Some(s) => Some(s@),
        None => None,
    }
}

/// A copy of an optional string that keeps its contents.
pub fn clone_opt(o: &Option<String>) -> (r: Option<String>)
    ensures
        r == *o,
{
    match o {
        Some(s) => Some(s.clone()),
        None => None,
    }
}

/// Record types a managed domain can hold.
#[derive(Debug, Clone, Copy, PartialEq, Eq, Structural)]
pub enum RecordType {
    A,
    AAAA,
    CNAME,
}

/// A managed domain, as persistence stores it.
#[derive(Debug, Clone)]
pub struct Domain {
    pub id: String,
    pub name: String,
    pub provider: String,
    pub subdomain: String,
    pub record_type: String,
    pub current_ip: Option<String>,
    /// Unix time of the last confirmed update.
    pub last_updated: Option<i64>,
    /// Seconds between two ticks of the domain's worker.
    pub update_interval: i64,
    pub enabled: bool,
    pub created_at: i64,
    pub updated_at: i64,
}

/// The input that creates a domain.
#[derive(Debug, Clone)]
pub struct CreateDomain {
    pub name: String,
    pub provider: String,
    pub subdomain: String,
    pub record_type: String,
    pub update_interval: i64,
    pub enabled: bool,
}

/// A partial change to a domain: each present field replaces the old value.
#[derive(Debug, Clone)]
pub struct UpdateDomain {
    pub name: Option<String>,
    pub subdomain: Option<String>,
    pub update_interval: Option<i64>,
    pub enabled: Option<bool>,
}

/// The fully qualified name: the root alone for an empty or `@` subdomain,
/// else `subdomain.name`.
pub open spec fn full_domain_of(subdomain: Seq<char>, name: Seq<char>) -> Seq<char> {
    if subdomain.len() == 0 || subdomain == "@"@ {
        name
    } else {
        subdomain + "."@ + name
    }
}

/// Whether a domain is due at time `now`: enabled, and either never updated
/// or updated at least one interval ago.
pub open spec fn due_at(enabled: bool, last_updated: Option<i64>, interval: i64, now: i64) -> bool {
    enabled && match last_updated {
        Some(t) => now - t >= interval,
        None => true,
    }
}

impl Domain {
    /// A new domain with a fresh random id, no address yet, created now.
    pub fn new(create: CreateDomain) -> (r: Self)
        ensures
            r.id@.len() == 36,
            r.name == create.name,
            r.provider == create.provider,
            r.subdomain == create.subdomain,
            r.record_type == create.record_type,
            r.current_ip.is_none(),
            r.last_updated.is_none(),
            r.update_interval == create.update_interval,
            r.enabled == create.enabled,
            r.created_at == r.updated_at,
    {
        let now = unix_now();
        Domain {
            id: new_uuid_string(),
            name: create.name,
            provider: create.provider,
            subdomain: create.subdomain,
            record_type: create.record_type,
            current_ip: None,
            last_updated: None,
            update_interval: create.update_interval,
            enabled: create.enabled,
            created_at: now,
            updated_at: now,
        }
    }

    /// The fully qualified domain name.
    pub fn full_domain(&self) -> (r: String)
        ensures
            r@ == full_domain_of(self.subdomain@, self.name@),
    {
        let sub = self.subdomain.as_str();
        let is_root = sub.unicode_len() == 0 || (sub.unicode_len() == 1 && sub.get_char(0) == '@');
        proof {
            reveal_strlit("@");
            if sub@.len() == 1 && sub@[0] == '@' {
                assert(sub@ =~= "@"@);
            }
            if sub@ == "@"@ {
                assert(sub@[0] == '@');
            }
        }
        if is_root {
            self.name.clone()
        } else {
            self.subdomain.clone().concat(".").concat(self.name.as_str())
        }
    }

    /// Applies a partial change at time `now`: each present field replaces
    /// the old value, and the change time is refreshed.
    pub fn apply_update(&mut self, update: UpdateDomain, now: i64)
        ensures
            final(self).name == (match update.name {
                Some(n) => n,
                None => old(self).name,
            }),
            final(self).subdomain == (match update.subdomain {
                Some(n) => n,
                None => old(self).subdomain,
            }),
            final(self).update_interval == (match update.update_interval {
                Some(n) => n,
                None => old(self).update_interval,
            }),
            final(self).enabled == (match update.enabled {
                Some(n) => n,
                None => old(self).enabled,
            }),
            final(self).updated_at == now,
            final(self).id == old(self).id,
            final(self).provider == old(self).provider,
            final(self).record_type == old(self).record_type,
            final(self).current_ip == old(self).current_ip,
            final(self).last_updated == old(self).last_updated,
            final(self).created_at == old(self).created_at,
    {
        if let Some(name) = update.name {
            self.name = name;
        }
        if let Some(subdomain) = update.subdomain {
            self.subdomain = subdomain;
        }
        if let Some(interval) = update.update_interval {
            self.update_interval = interval;
        }
        if let Some(enabled) = update.enabled {
            self.enabled = enabled;
        }
        self.updated_at = now;
    }

    /// Records a confirmed update to `ip` at time `now`.
    pub fn record_ip(&mut self, ip: String, now: i64)
        ensures
            final(self).current_ip == Some(ip),
            final(self).last_updated == Some(now),
            final(self).updated_at == now,
            final(self).id == old(self).id,
            final(self).name == old(self).name,
            final(self).provider == old(self).provider,
            final(self).subdomain == old(self).subdomain,
            final(self).record_type == old(self).record_type,
            final(self).update_interval == old(self).update_interval,
            final(self).enabled == old(self).enabled,
            final(self).created_at == old(self).created_at,
    {
        self.current_ip = Some(ip);
        self.last_updated = Some(now);
        self.updated_at = now;
    }

    /// Whether the domain is due for an update at time `now`.
    pub fn should_update_at(&self, now: i64) -> (r: bool)
        ensures
            r == due_at(self.enabled, self.last_updated, self.update_interval, now),
    {
        if !self.enabled {
            return false;
        }
        match self.last_updated {
            Some(t) => (now as i128) - (t as i128) >= self.update_interval as i128,
            None => true,
        }
    }

    /// Whether the domain is due for an update now.
    pub fn should_update(&self) -> (r: bool)
        ensures
            !self.enabled ==> !r,
            self.enabled && self.last_updated.is_none() ==> r,
    {
        let now = unix_now();
        self.should_update_at(now)
    }
}

/// An address snapshot: what detection found, by which strategy, and when.
#[derive(Debug, Clone)]
pub struct IPInfo {
    pub ipv4: Option<String>,
    pub ipv6: Option<String>,
    pub detection_method: String,
    /// Unix time of the detection.
    pub timestamp: i64,
}

impl IPInfo {
    /// A snapshot taken at the given time.
    pub fn new_at(
        ipv4: Option<String>,
        ipv6: Option<String>,
        detection_method: String,
        timestamp: i64,
    ) -> (r: Self)
        ensures
            r.ipv4 == ipv4,
            r.ipv6 == ipv6,
            r.detection_method == detection_method,
            r.timestamp == timestamp,
    {
        IPInfo { ipv4, ipv6, detection_method, timestamp }
    }

    /// A snapshot taken now.
    pub fn new(ipv4: Option<String>, ipv6: Option<String>, detection_method: String) -> (r: Self)
        ensures
            r.ipv4 == ipv4,
            r.ipv6 == ipv6,
            r.detection_method == detection_method,
    {
        let now = unix_now();
        IPInfo::new_at(ipv4, ipv6, detection_method, now)
    }

    /// A snapshot that holds an IPv4 address only.
    pub fn ipv4(ip: String, detection_method: String) -> (r: Self)
        ensures
            r.ipv4 == Some(ip),
            r.ipv6.is_none(),
            r.detection_method == detection_method,
    {
        IPInfo::new(Some(ip), None, detection_method)
    }

    /// A snapshot that holds an IPv6 address only.
    pub fn ipv6(ip: String, detection_method: String) -> (r: Self)
        ensures
            r.ipv4.is_none(),
            r.ipv6 == Some(ip),
            r.detection_method == detection_method,
    {
        IPInfo::new(None, Some(ip), detection_method)
    }

    /// The main address: the IPv4 one if there is one, else the IPv6 one.
    pub fn primary_ip(&self) -> (r: Option<&String>)
        ensures
            self.ipv4.is_some() ==> r == Some(&self.ipv4.unwrap()),
            self.ipv4.is_none() && self.ipv6.is_some() ==> r == Some(&self.ipv6.unwrap()),
            self.ipv4.is_none() && self.ipv6.is_none() ==> r.is_none(),
    {
        match &self.ipv4 {
            Some(a) => Some(a),
            None => match &self.ipv6 {
                Some(b) => Some(b),
                None => None,
            },
        }
    }
}

/// Severity of a log line.
#[derive(Debug, Clone, Copy, PartialEq, Eq, Structural)]
pub enum LogLevel {
    Error,
    Warn,
    Info,
    Debug,
}

pub open spec fn log_level_name(l: LogLevel) -> Seq<char> {
    match l {
        LogLevel::Error => "error"@,
        LogLevel::Warn => "warn"@,
        LogLevel::Info => "info"@,
        LogLevel::Debug => "debug"@,
    }
}

impl LogLevel {
    /// The level's name in lower case, as stored.
    pub fn as_str(&self) -> (r: &'static str)
        ensures
            r@ == log_level_name(*self),
    {
        match self {
            LogLevel::Error => "error",
            LogLevel::Warn => "warn",
            LogLevel::Info => "info",
            LogLevel::Debug => "debug",
        }
    }
}

/// A stored log line.
#[derive(Debug, Clone)]
pub struct LogEntry {
    pub id: i64,
    pub level: String,
    pub message: String,
    /// Context as JSON text.
    pub context: Option<String>,
    pub timestamp: i64,
}

impl LogEntry {
    /// A log line written now; storage assigns the id.
    pub fn new(level: LogLevel, message: String, context: Option<String>) -> (r: Self)
        ensures
            r.id == 0,
            r.level@ == log_level_name(level),
            r.message == message,
            r.context == context,
    {
        let now = unix_now();
        LogEntry { id: 0, level: level.as_str().to_string(), message, context, timestamp: now }
    }
}

/// One append-only record of an update attempt.
#[derive(Debug, Clone)]
pub struct UpdateHistory {
    pub id: i64,
    pub domain_id: String,
    pub old_ip: Option<String>,
    pub new_ip: String,
    /// `success` or `failed`.
    pub status: String,
    pub error_message: Option<String>,
    pub timestamp: i64,
}

/// A history entry for a confirmed update from `old_ip` to `new_ip`.
pub open spec fn is_success_entry(
    h: UpdateHistory,
    domain_id: Seq<char>,
    old_ip: Option<String>,
    new_ip: Seq<char>,
) -> bool {
    &&& h.id == 0
    &&& h.domain_id@ == domain_id
    &&& h.old_ip == old_ip
    &&& h.new_ip@ == new_ip
    &&& h.status@ == "success"@
    &&& h.error_message.is_none()
}

/// A history entry for a failed update, carrying the error text.
pub open spec fn is_failure_entry(h: UpdateHistory, domain_id: Seq<char>, error: Seq<char>) -> bool {
    &&& h.id == 0
    &&& h.domain_id@ == domain_id
    &&& h.old_ip.is_none()
    &&& h.new_ip@.len() == 0
    &&& h.status@ == "failed"@
    &&& h.error_message.is_some()
    &&& h.error_message.unwrap()@ == error
}

impl UpdateHistory {
    /// A success entry stamped with the given time.
    pub fn success_at(domain_id: String, old_ip: Option<String>, new_ip: String, timestamp: i64) -> (r: Self)
        ensures
            is_success_entry(r, domain_id@, old_ip, new_ip@),
            r.timestamp == timestamp,
    {
        UpdateHistory {
            id: 0,
            domain_id,
            old_ip,
            new_ip,
            status: "success".to_string(),
            error_message: None,
            timestamp,
        }
    }

    /// A failure entry stamped with the given time.
    pub fn failed_at(domain_id: String, error: String, timestamp: i64) -> (r: Self)
        ensures
            is_failure_entry(r, domain_id@, error@),
            r.timestamp == timestamp,
    {
        UpdateHistory {
            id: 0,
            domain_id,
            old_ip: None,
            new_ip: String::new(),
            status: "failed".to_string(),
            error_message: Some(error),
            timestamp,
        }
    }

    /// A success entry stamped now.
    pub fn success(domain_id: String, old_ip: Option<String>, new_ip: String) -> (r: Self)
        ensures
            is_success_entry(r, domain_id@, old_ip, new_ip@),
    {
        let now = unix_now();
        UpdateHistory::success_at(domain_id, old_ip, new_ip, now)
    }

    /// A failure entry stamped now.
    pub fn failed(domain_id: String, error: String) -> (r: Self)
        ensures
            is_failure_entry(r, domain_id@, error@),
    {
        let now = unix_now();
        UpdateHistory::failed_at(domain_id, error, now)
    }
}

/// The DNS vendors a credential set can belong to.
#[derive(Debug, Clone, Copy, PartialEq, Eq, Structural)]
pub enum ProviderType {
    Aliyun,
    Cloudflare,
    Tencent,
    Aws,
    Huawei,
    Baidu,
    Jdcloud,
}

/// The identifier of each vendor.
pub open spec fn provider_type_name(p: ProviderType) -> Seq<char> {
    match p {
        ProviderType::Aliyun => "aliyun"@,
        ProviderType::Cloudflare => "cloudflare"@,
        ProviderType::Tencent => "tencent"@,
        ProviderType::Aws => "aws"@,
        ProviderType::Huawei => "huawei"@,
        ProviderType::Baidu => "baidu"@,
        ProviderType::Jdcloud => "jdcloud"@,
    }
}

/// The vendor whose identifier is exactly `s`, if any.
pub open spec fn provider_type_named(s: Seq<char>) -> Option<ProviderType> {
    if s == "aliyun"@ {
        Some(ProviderType::Aliyun)
    } else if s == "cloudflare"@ {
        Some(ProviderType::Cloudflare)
    } else if s == "tencent"@ {
        Some(ProviderType::Tencent)
    } else if s == "aws"@ {
        Some(ProviderType::Aws)
    } else if s == "huawei"@ {
        Some(ProviderType::Huawei)
    } else if s == "baidu"@ {
        Some(ProviderType::Baidu)
    } else if s == "jdcloud"@ {
        Some(ProviderType::Jdcloud)
    } else {
        None
    }
}

impl ProviderType {
    /// The vendor's identifier.
    pub fn as_str(&self) -> (r: &'static str)
        ensures
            r@ == provider_type_name(*self),
    {
        match self {
            ProviderType::Aliyun => "aliyun",
            ProviderType::Cloudflare => "cloudflare",
            ProviderType::Tencent => "tencent",
            ProviderType::Aws => "aws",
            ProviderType::Huawei => "huawei",
            ProviderType::Baidu => "baidu",
            ProviderType::Jdcloud => "jdcloud",
        }
    }

    /// The vendor whose identifier is `s` exactly.
    pub fn from_lowercase(s: &str) -> (r: Option<Self>)
        ensures
            r == provider_type_named(s@),
    {
        if str_eq(s, "aliyun") {
            Some(ProviderType::Aliyun)
        } else if str_eq(s, "cloudflare") {
            Some(ProviderType::Cloudflare)
        } else if str_eq(s, "tencent") {
            Some(ProviderType::Tencent)
        } else if str_eq(s, "aws") {
            Some(ProviderType::Aws)
        } else if str_eq(s, "huawei") {
            Some(ProviderType::Huawei)
        } else if str_eq(s, "baidu") {
            Some(ProviderType::Baidu)
        } else if str_eq(s, "jdcloud") {
            Some(ProviderType::Jdcloud)
        } else {
            None
        }
    }

    /// The vendor whose identifier is `s` in any letter case.
    pub fn from_str(s: &str) -> (r: Option<Self>)
        ensures
            r == provider_type_named(lower_of(s@)),
    {
        let lower = lowercase(s);
        ProviderType::from_lowercase(lower.as_str())
    }
}

/// Credentials kept by the vault for one vendor.
#[derive(Debug, Clone)]
pub struct Credentials {
    pub provider_id: ProviderType,
    pub api_key: Option<String>,
    pub api_secret: Option<String>,
    pub access_key: Option<String>,
    pub region: Option<String>,
    /// Vendor-specific fields, by name.
    pub extra: Vec<(String, String)>,
}

/// Application settings.
#[derive(Debug, Clone)]
pub struct AppConfig {
    pub ip_detection_method: String,
    /// Seconds.
    pub default_update_interval: i64,
    pub log_level: String,
    pub enable_notifications: bool,
    pub auto_start: bool,
}

impl Default for AppConfig {
    fn default() -> (r: Self)
        ensures
            r.ip_detection_method@ == "api"@,
            r.default_update_interval == 300,
            r.log_level@ == "info"@,
            r.enable_notifications,
            !r.auto_start,
    {
        AppConfig {
            ip_detection_method: "api".to_string(),
            default_update_interval: 300,
            log_level: "info".to_string(),
            enable_notifications: true,
            auto_start: false,
        }
    }
}

} // verus!
