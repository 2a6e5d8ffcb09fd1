//! The uniform vendor contract: record types, records, credentials, the
//! vendors' configuration and request-signing rules, and the factory that
//! maps a vendor identifier to an adapter. The HTTPS calls themselves are
//! made by the caller with what these functions compute.

use vstd::prelude::*;
use crate::error::{AppError, ProviderError};
use crate::models::opt_view;
use crate::text::str_eq;
use crate::ambient::{new_uuid_string, random_nonce, unix_now, utc_now_iso8601};
use crate::signing::{
    canonical_query_of, rfc3986_encoded, sign, signature_of, url_encode_text, decimal,
    decimal_of, ParamSet,
};

verus! {

/// DNS record types.
#[derive(Debug, Clone, Copy, PartialEq, Eq, Structural)]
pub enum DNSRecordType {
    A,
    AAAA,
    CNAME,
    MX,
    TXT,
    NS,
    SOA,
}

pub open spec fn record_type_name(t: DNSRecordType) -> Seq<char> {
    match t {
        DNSRecordType::A => "A"@,
        DNSRecordType::AAAA => "AAAA"@,
        DNSRecordType::CNAME => "CNAME"@,
        DNSRecordType::MX => "MX"@,
        DNSRecordType::TXT => "TXT"@,
        DNSRecordType::NS => "NS"@,
        DNSRecordType::SOA => "SOA"@,
    }
}

/// The record type a vendor's type text names; an unknown text reads as `A`.
pub open spec fn record_type_from_name(s: Seq<char>) -> DNSRecordType {
    if s == "AAAA"@ {
        DNSRecordType::AAAA
    } else if s == "CNAME"@ {
        DNSRecordType::CNAME
    } else if s == "MX"@ {
        DNSRecordType::MX
    } else if s == "TXT"@ {
        DNSRecordType::TXT
    } else if s == "NS"@ {
        DNSRecordType::NS
    } else if s == "SOA"@ {
        DNSRecordType::SOA
    } else {
        DNSRecordType::A
    }
}

impl DNSRecordType {
    /// The type's name, as vendors write it.
    pub fn as_str(&self) -> (r: &'static str)
        ensures
            r@ == record_type_name(*self),
    {
        match self {
            DNSRecordType::A => "A",
            DNSRecordType::AAAA => "AAAA",
            DNSRecordType::CNAME => "CNAME",
            DNSRecordType::MX => "MX",
            DNSRecordType::TXT => "TXT",
            DNSRecordType::NS => "NS",
            DNSRecordType::SOA => "SOA",
        }
    }

    /// The type's name as an owned string.
    pub fn to_string(&self) -> (r: String)
        ensures
            r@ == record_type_name(*self),
    {
        self.as_str().to_string()
    }

    /// Reads a vendor's type text; an unknown text reads as `A`.
    pub fn from_name(s: &str) -> (r: DNSRecordType)
        ensures
            r == record_type_from_name(s@),
    {
        if str_eq(s, "AAAA") {
            DNSRecordType::AAAA
        } else if str_eq(s, "CNAME") {
            DNSRecordType::CNAME
        } else if str_eq(s, "MX") {
            DNSRecordType::MX
        } else if str_eq(s, "TXT") {
            DNSRecordType::TXT
        } else if str_eq(s, "NS") {
            DNSRecordType::NS
        } else if str_eq(s, "SOA") {
            DNSRecordType::SOA
        } else {
            DNSRecordType::A
        }
    }
}

/// A record as a vendor lists it.
#[derive(Debug, Clone)]
pub struct DNSRecord {
    pub id: String,
    pub name: String,
    pub record_type: DNSRecordType,
    pub content: String,
    pub ttl: u32,
    pub proxied: Option<bool>,
    pub priority: Option<u16>,
}

/// The outcome of a record update.
#[derive(Debug, Clone)]
pub struct UpdateResult {
    pub success: bool,
    pub record_id: String,
    pub old_ip: String,
    pub new_ip: String,
    pub message: String,
}

/// The first record with the name and type, in the vendor's listing order.
pub fn find_record(records: &Vec<DNSRecord>, name: &str, record_type: DNSRecordType) -> (r: Option<usize>)
    ensures
        match r {
            Some(i) => i < records@.len() && records@[i as int].name@ == name@
                && records@[i as int].record_type == record_type && forall|k: int| 0 <= k < i ==> !(
                records@[k].name@ == name@ && records@[k].record_type == record_type),
            None => forall|k: int| 0 <= k < records@.len() ==> !(records@[k].name@ == name@
                && records@[k].record_type == record_type),
        },
{
    let mut i: usize = 0;
    while i < records.len()
        invariant
            i <= records@.len(),
            forall|k: int| 0 <= k < i ==> !(records@[k].name@ == name@ && records@[k].record_type
                == record_type),
        decreases records@.len() - i,
    {
        if str_eq(records[i].name.as_str(), name) && records[i].record_type == record_type {
            return Some(i);
        }
        i = i + 1;
    }
    None
}

/// The record types a vendor supports unless it says otherwise.
pub fn default_supported_record_types() -> (r: Vec<DNSRecordType>)
    ensures
        r@ == seq![DNSRecordType::A, DNSRecordType::AAAA, DNSRecordType::CNAME],
{
    let r = vec![DNSRecordType::A, DNSRecordType::AAAA, DNSRecordType::CNAME];
    assert(r@ =~= seq![DNSRecordType::A, DNSRecordType::AAAA, DNSRecordType::CNAME]);
    r
}

/// Credentials handed to a vendor adapter.
#[derive(Debug, Clone)]
pub struct Credentials {
    pub api_key: Option<String>,
    pub api_secret: Option<String>,
    pub access_key: Option<String>,
    pub region: Option<String>,
    /// Vendor-specific fields, by name.
    pub extra: Vec<(String, String)>,
}

/// The value of the first vendor-specific field named `key`.
pub open spec fn extra_value(extra: Seq<(String, String)>, key: Seq<char>) -> Option<Seq<char>>
    decreases extra.len(),
{
    if extra.len() == 0 {
        None
    } else if extra[0].0@ == key {
        Some(extra[0].1@)
    } else {
        extra_value(extra.drop_first(), key)
    }
}

impl Default for Credentials {
    fn default() -> (r: Self)
        ensures
            r.api_key.is_none(),
            r.api_secret.is_none(),
            r.access_key.is_none(),
            r.region.is_none(),
            r.extra@.len() == 0,
    {
        Credentials { api_key: None, api_secret: None, access_key: None, region: None, extra: Vec::new() }
    }
}

impl Credentials {
    /// The vendor-specific field named `key`.
    pub fn extra_get(&self, key: &str) -> (r: Option<String>)
        ensures
            opt_view(r) == extra_value(self.extra@, key@),
    {
        let mut i: usize = 0;
        assert(self.extra@.subrange(0, self.extra@.len() as int) =~= self.extra@);
        while i < self.extra.len()
            invariant
                i <= self.extra@.len(),
                extra_value(self.extra@, key@) == extra_value(self.extra@.subrange(i as int, self.extra@.len() as int), key@),
            decreases self.extra@.len() - i,
        {
            let ghost rest = self.extra@.subrange(i as int, self.extra@.len() as int);
            assert(rest.drop_first() =~= self.extra@.subrange(i + 1, self.extra@.len() as int));
            if str_eq(self.extra[i].0.as_str(), key) {
                return Some(self.extra[i].1.clone());
            }
            i = i + 1;
        }
        None
    }
}

// ---------------------------------------------------------------------------
// Cloudflare: token or email-and-key headers.
// ---------------------------------------------------------------------------

/// How requests to Cloudflare are authenticated.
pub enum CloudflareAuth {
    Bearer(String),
    EmailKey { email: String, key: String },
    Anonymous,
}

/// The Cloudflare adapter's configuration.
#[derive(Debug, Clone)]
pub struct CloudflareProvider {
    pub api_token: Option<String>,
    pub account_email: Option<String>,
    pub api_key: Option<String>,
}

impl Default for CloudflareProvider {
    fn default() -> (r: Self)
        ensures
            r.api_token.is_none() && r.account_email.is_none() && r.api_key.is_none(),
    {
        CloudflareProvider::new()
    }
}

impl CloudflareProvider {
    pub fn new() -> (r: Self)
        ensures
            r.api_token.is_none() && r.account_email.is_none() && r.api_key.is_none(),
    {
        CloudflareProvider { api_token: None, account_email: None, api_key: None }
    }

    pub fn provider_id(&self) -> (r: &'static str)
        ensures
            r@ == "cloudflare"@,
    {
        "cloudflare"
    }

    pub fn provider_name(&self) -> (r: &'static str)
        ensures
            r@ == "Cloudflare"@,
    {
        "Cloudflare"
    }

    pub fn supported_record_types(&self) -> (r: Vec<DNSRecordType>)
        ensures
            r@ == seq![
                DNSRecordType::A,
                DNSRecordType::AAAA,
                DNSRecordType::CNAME,
                DNSRecordType::MX,
                DNSRecordType::TXT,
                DNSRecordType::NS,
                DNSRecordType::SOA,
            ],
    {
        let r = vec![
            DNSRecordType::A,
            DNSRecordType::AAAA,
            DNSRecordType::CNAME,
            DNSRecordType::MX,
            DNSRecordType::TXT,
            DNSRecordType::NS,
            DNSRecordType::SOA,
        ];
        assert(r@ =~= seq![
            DNSRecordType::A,
            DNSRecordType::AAAA,
            DNSRecordType::CNAME,
            DNSRecordType::MX,
            DNSRecordType::TXT,
            DNSRecordType::NS,
            DNSRecordType::SOA,
        ]);
        r
    }

    /// Takes the credentials: an API token (`api_key`) is preferred; else an
    /// account email (the `email` field) with a global key (`api_secret`);
    /// with neither the configuration is invalid and nothing changes. The
    /// connectivity probe is the caller's next step.
    pub fn configure(&mut self, credentials: &Credentials) -> (r: Result<(), ProviderError>)
        ensures
            credentials.api_key.is_some() ==> r is Ok && final(self).api_token == credentials.api_key
                && final(self).account_email == old(self).account_email
                && final(self).api_key == old(self).api_key,
            credentials.api_key.is_none() && extra_value(credentials.extra@, "email"@).is_some()
                && credentials.api_secret.is_some() ==> r is Ok && final(self).api_token == old(self).api_token
                && opt_view(final(self).account_email) == extra_value(credentials.extra@, "email"@)
                && final(self).api_key == credentials.api_secret,
            credentials.api_key.is_none() && !(extra_value(credentials.extra@, "email"@).is_some()
                && credentials.api_secret.is_some()) ==> r is Err && r->Err_0 is InvalidConfig
                && *final(self) == *old(self),
    {
        if let Some(token) = &credentials.api_key {
            self.api_token = Some(token.clone());
            return Ok(());
        }
        let email = credentials.extra_get("email");
        match (email, &credentials.api_secret) {
            (Some(e), Some(k)) => {
                self.account_email = Some(e);
                self.api_key = Some(k.clone());
                Ok(())
            },
            _ => Err(
                ProviderError::InvalidConfig(
                    "Cloudflare needs api_key (API token) or email with api_secret".to_string(),
                ),
            ),
        }
    }

    /// The authentication its requests carry: the token if set, else the
    /// email and key if both are set, else none.
    pub fn auth(&self) -> (r: CloudflareAuth)
        ensures
            self.api_token.is_some() ==> r is Bearer && r->Bearer_0 == self.api_token.unwrap(),
            self.api_token.is_none() && self.account_email.is_some() && self.api_key.is_some() ==> r is EmailKey
                && r->email == self.account_email.unwrap() && r->key == self.api_key.unwrap(),
            self.api_token.is_none() && !(self.account_email.is_some() && self.api_key.is_some()) ==> r is Anonymous,
    {
        match &self.api_token {
            Some(t) => CloudflareAuth::Bearer(t.clone()),
            None => match (&self.account_email, &self.api_key) {
                (Some(e), Some(k)) => CloudflareAuth::EmailKey { email: e.clone(), key: k.clone() },
                _ => CloudflareAuth::Anonymous,
            },
        }
    }
}

/// How a connectivity probe ends an initialization: an accepted probe
/// succeeds, a rejected one fails with `AuthenticationFailed`, and a probe
/// that could not be made fails with its own error.
pub fn probe_outcome(probe: Result<bool, ProviderError>) -> (r: Result<(), ProviderError>)
    ensures
        probe == Ok::<bool, ProviderError>(true) ==> r is Ok,
        probe == Ok::<bool, ProviderError>(false) ==> r is Err && r->Err_0 is AuthenticationFailed,
        probe is Err ==> r == Err::<(), ProviderError>(probe->Err_0),
{
    match probe {
        Ok(true) => Ok(()),
        Ok(false) => Err(ProviderError::AuthenticationFailed("the provider rejected the credentials".to_string())),
        Err(e) => Err(e),
    }
}

/// The error a failed Cloudflare answer carries: its first error message,
/// or a fixed text when it lists none.
pub fn first_error_message(errors: &Vec<String>) -> (r: String)
    ensures
        errors@.len() > 0 ==> r@ == errors@[0]@,
        errors@.len() == 0 ==> r@ == "unknown error"@,
{
    if errors.len() > 0 {
        errors[0].clone()
    } else {
        "unknown error".to_string()
    }
}

/// The zone id in a Cloudflare zone lookup: the first listed zone of a
/// successful answer. A failed answer gives `DomainNotFound` with its first
/// error message; a successful one with no zone, `DomainNotFound` too.
pub fn zone_id_from(success: bool, errors: &Vec<String>, zone_ids: &Vec<String>) -> (r: Result<String, ProviderError>)
    ensures
        !success ==> r is Err && r->Err_0 is DomainNotFound,
        success && zone_ids@.len() > 0 ==> r is Ok && r->Ok_0@ == zone_ids@[0]@,
        success && zone_ids@.len() == 0 ==> r is Err && r->Err_0 is DomainNotFound,
{
    if !success {
        return Err(ProviderError::DomainNotFound(first_error_message(errors)));
    }
    if zone_ids.len() > 0 {
        Ok(zone_ids[0].clone())
    } else {
        Err(ProviderError::DomainNotFound("zone not found".to_string()))
    }
}

// ---------------------------------------------------------------------------
// The HMAC-signed vendors.
// ---------------------------------------------------------------------------

/// The Aliyun string to sign: the method, the encoded resource path `/` and
/// the encoded canonical query, joined with `&`.
pub open spec fn aliyun_string_to_sign(method: Seq<char>, query: Seq<char>) -> Seq<char> {
    method + "&"@ + rfc3986_encoded("/"@) + "&"@ + rfc3986_encoded(query)
}

/// The Tencent string to sign: the method, host and path, `?` and the
/// canonical query.
pub open spec fn tencent_string_to_sign(method: Seq<char>, query: Seq<char>) -> Seq<char> {
    method + "cns.api.qcloud.com/v2/index.php?"@ + query
}

/// The Aliyun adapter's configuration.
#[derive(Debug, Clone)]
pub struct AliyunProvider {
    pub initialized: bool,
    pub access_key_id: Option<String>,
    pub access_key_secret: Option<String>,
    pub region: Option<String>,
}

impl Default for AliyunProvider {
    fn default() -> (r: Self)
        ensures
            !r.initialized && r.access_key_id.is_none() && r.access_key_secret.is_none(),
            opt_view(r.region) == Some("cn-hangzhou"@),
    {
        AliyunProvider::new()
    }
}

impl AliyunProvider {
    pub fn new() -> (r: Self)
        ensures
            !r.initialized && r.access_key_id.is_none() && r.access_key_secret.is_none(),
            opt_view(r.region) == Some("cn-hangzhou"@),
    {
        AliyunProvider {
            initialized: false,
            access_key_id: None,
            access_key_secret: None,
            region: Some("cn-hangzhou".to_string()),
        }
    }

    pub fn provider_id(&self) -> (r: &'static str)
        ensures
            r@ == "aliyun"@,
    {
        "aliyun"
    }

    pub fn provider_name(&self) -> (r: &'static str)
        ensures
            r@ == "Aliyun (阿里云)"@,
    {
        "Aliyun (阿里云)"
    }

    pub fn supported_record_types(&self) -> (r: Vec<DNSRecordType>)
        ensures
            r@ == seq![DNSRecordType::A, DNSRecordType::AAAA, DNSRecordType::CNAME],
    {
        default_supported_record_types()
    }

    /// Takes the `access_key_id`, `access_key_secret` and `region` fields that
    /// are present. Fails with `InvalidConfig` when the key id or the secret
    /// is still missing afterwards. The probe is the caller's next step.
    pub fn configure(&mut self, credentials: &Credentials) -> (r: Result<(), ProviderError>)
        ensures
            opt_view(final(self).access_key_id) == match extra_value(credentials.extra@, "access_key_id"@) {
                Some(v) => Some(v),
                None => opt_view(old(self).access_key_id),
            },
            opt_view(final(self).access_key_secret) == match extra_value(credentials.extra@, "access_key_secret"@) {
                Some(v) => Some(v),
                None => opt_view(old(self).access_key_secret),
            },
            opt_view(final(self).region) == match extra_value(credentials.extra@, "region"@) {
                Some(v) => Some(v),
                None => opt_view(old(self).region),
            },
            final(self).initialized == old(self).initialized,
            r is Ok <==> (final(self).access_key_id.is_some() && final(self).access_key_secret.is_some()),
            r is Err ==> r->Err_0 is InvalidConfig,
    {
        if let Some(v) = credentials.extra_get("access_key_id") {
            self.access_key_id = Some(v);
        }
        if let Some(v) = credentials.extra_get("access_key_secret") {
            self.access_key_secret = Some(v);
        }
        if let Some(v) = credentials.extra_get("region") {
            self.region = Some(v);
        }
        if self.access_key_id.is_none() || self.access_key_secret.is_none() {
            return Err(
                ProviderError::InvalidConfig("missing Access Key ID or Access Key Secret".to_string()),
            );
        }
        Ok(())
    }

    /// Adds the protocol fields to `params` and signs them: `Format` JSON,
    /// `Version` 2015-01-09, `AccessKeyId`, `SignatureMethod` HMAC-SHA1,
    /// `SignatureNonce`, `SignatureVersion` 1.0 and `Timestamp`. The result
    /// is the signature of the Aliyun string to sign for `method` and the
    /// canonical query of the completed set. Fails with `InvalidConfig`
    /// when no key id or secret is configured.
    pub fn build_signature(
        &self,
        method: &str,
        params: &mut ParamSet,
        nonce: &String,
        timestamp: &String,
    ) -> (r: Result<String, ProviderError>)
        requires
            old(params).wf(),
        ensures
            final(params).wf(),
            (self.access_key_id.is_none() || self.access_key_secret.is_none()) ==> r is Err
                && r->Err_0 is InvalidConfig && *final(params) == *old(params),
            self.access_key_id.is_some() && self.access_key_secret.is_some() ==> {
                &&& r is Ok
                &&& final(params).value_of("Format"@) == Some("JSON"@)
                &&& final(params).value_of("Version"@) == Some("2015-01-09"@)
                &&& final(params).value_of("AccessKeyId"@) == Some(self.access_key_id.unwrap()@)
                &&& final(params).value_of("SignatureMethod"@) == Some("HMAC-SHA1"@)
                &&& final(params).value_of("SignatureNonce"@) == Some(nonce@)
                &&& final(params).value_of("SignatureVersion"@) == Some("1.0"@)
                &&& final(params).value_of("Timestamp"@) == Some(timestamp@)
                &&& forall|k: Seq<char>| !aliyun_protocol_key(k) ==> final(params).value_of(k) == old(params).value_of(k)
                &&& r->Ok_0@ == signature_of(self.access_key_secret.unwrap()@, aliyun_string_to_sign(method@, canonical_query_of(final(params).view())))
            },
    {
        let (key_id, secret) = match (&self.access_key_id, &self.access_key_secret) {
            (Some(k), Some(s)) => (k, s),
            _ => return Err(ProviderError::InvalidConfig("missing Access Key ID or Access Key Secret".to_string())),
        };
        proof {
            reveal_strlit("Format");
            reveal_strlit("Version");
            reveal_strlit("AccessKeyId");
            reveal_strlit("SignatureMethod");
            reveal_strlit("SignatureNonce");
            reveal_strlit("SignatureVersion");
            reveal_strlit("Timestamp");
            assert("Format"@.len() == 6);
            assert("Version"@.len() == 7);
            assert("AccessKeyId"@.len() == 11);
            assert("SignatureMethod"@.len() == 15);
            assert("SignatureNonce"@.len() == 14);
            assert("SignatureVersion"@.len() == 16);
            assert("Timestamp"@.len() == 9);
        }
        params.insert("Format".to_string(), "JSON".to_string());
        params.insert("Version".to_string(), "2015-01-09".to_string());
        params.insert("AccessKeyId".to_string(), key_id.clone());
        params.insert("SignatureMethod".to_string(), "HMAC-SHA1".to_string());
        params.insert("SignatureNonce".to_string(), nonce.clone());
        params.insert("SignatureVersion".to_string(), "1.0".to_string());
        params.insert("Timestamp".to_string(), timestamp.clone());
        let query = params.canonical_query();
        let path = url_encode_text("/");
        let encoded_query = url_encode_text(query.as_str());
        let string_to_sign = method.to_string().concat("&").concat(path.as_str()).concat("&").concat(
            encoded_query.as_str(),
        );
        let sig = sign(secret.as_str(), string_to_sign.as_str());
        assert(string_to_sign@ =~= aliyun_string_to_sign(method@, query@));
        Ok(sig)
    }
}

impl AliyunProvider {
    /// The signed GET URL of an API call: `action` and the call's fields,
    /// completed with the protocol fields and the `Signature`, as the
    /// canonical query of the endpoint. Fails with `InvalidConfig` when no
    /// key id or secret is configured.
    pub fn request_url(
        &self,
        action: &str,
        params: &mut ParamSet,
        nonce: &String,
        timestamp: &String,
    ) -> (r: Result<String, ProviderError>)
        requires
            old(params).wf(),
        ensures
            final(params).wf(),
            (self.access_key_id.is_none() || self.access_key_secret.is_none()) ==> r is Err
                && r->Err_0 is InvalidConfig,
            self.access_key_id.is_some() && self.access_key_secret.is_some() ==> {
                &&& r is Ok
                &&& final(params).value_of("Action"@) == Some(action@)
                &&& final(params).value_of("Signature"@).is_some()
                &&& r->Ok_0@ == "https://alidns.aliyuncs.com/?"@ + canonical_query_of(final(params).view())
            },
    {
        proof {
            reveal_strlit("Action");
            reveal_strlit("Signature");
            reveal_strlit("Format");
            reveal_strlit("Version");
            reveal_strlit("AccessKeyId");
            reveal_strlit("SignatureMethod");
            reveal_strlit("SignatureNonce");
            reveal_strlit("SignatureVersion");
            reveal_strlit("Timestamp");
            assert("Action"@.len() == 6 && "Action"@[0] == 'A');
            assert("Format"@.len() == 6 && "Format"@[0] == 'F');
            assert("Signature"@.len() == 9 && "Signature"@[0] == 'S');
            assert("Version"@.len() == 7);
            assert("AccessKeyId"@.len() == 11);
            assert("SignatureMethod"@.len() == 15);
            assert("SignatureNonce"@.len() == 14);
            assert("SignatureVersion"@.len() == 16);
            assert("Timestamp"@.len() == 9 && "Timestamp"@[0] == 'T');
        }
        params.insert("Action".to_string(), action.to_string());
        assert(!aliyun_protocol_key("Action"@));
        let sig = match self.build_signature("GET", params, nonce, timestamp) {
            Ok(s) => s,
            Err(e) => return Err(e),
        };
        assert(params.value_of("Action"@) == Some(action@));
        params.insert("Signature".to_string(), sig);
        assert(params.value_of("Action"@) == Some(action@));
        let query = params.canonical_query();
        let url = "https://alidns.aliyuncs.com/?".to_string().concat(query.as_str());
        Ok(url)
    }
}

impl AliyunProvider {
    /// `request_url` with a fresh random nonce and the current time.
    pub fn request_url_now(&self, action: &str, params: &mut ParamSet) -> (r: Result<String, ProviderError>)
        requires
            old(params).wf(),
        ensures
            final(params).wf(),
            (self.access_key_id.is_none() || self.access_key_secret.is_none()) ==> r is Err
                && r->Err_0 is InvalidConfig,
            self.access_key_id.is_some() && self.access_key_secret.is_some() ==> {
                &&& r is Ok
                &&& final(params).value_of("Action"@) == Some(action@)
                &&& r->Ok_0@ == "https://alidns.aliyuncs.com/?"@ + canonical_query_of(final(params).view())
            },
    {
        let nonce = new_uuid_string();
        let timestamp = utc_now_iso8601();
        self.request_url(action, params, &nonce, &timestamp)
    }
}

/// The fields that the Aliyun protocol sets on every request.
pub open spec fn aliyun_protocol_key(k: Seq<char>) -> bool {
    k == "Format"@ || k == "Version"@ || k == "AccessKeyId"@ || k == "SignatureMethod"@ || k
        == "SignatureNonce"@ || k == "SignatureVersion"@ || k == "Timestamp"@
}

/// The fields that the Tencent protocol sets on every request.
pub open spec fn tencent_protocol_key(k: Seq<char>) -> bool {
    k == "Action"@ || k == "Nonce"@ || k == "Region"@ || k == "SecretId"@ || k == "Timestamp"@
}

/// The Tencent adapter's configuration.
#[derive(Debug, Clone)]
pub struct TencentProvider {
    pub initialized: bool,
    pub secret_id: Option<String>,
    pub secret_key: Option<String>,
}

impl Default for TencentProvider {
    fn default() -> (r: Self)
        ensures
            !r.initialized && r.secret_id.is_none() && r.secret_key.is_none(),
    {
        TencentProvider::new()
    }
}

impl TencentProvider {
    pub fn new() -> (r: Self)
        ensures
            !r.initialized && r.secret_id.is_none() && r.secret_key.is_none(),
    {
        TencentProvider { initialized: false, secret_id: None, secret_key: None }
    }

    pub fn provider_id(&self) -> (r: &'static str)
        ensures
            r@ == "tencent"@,
    {
        "tencent"
    }

    pub fn provider_name(&self) -> (r: &'static str)
        ensures
            r@ == "Tencent (腾讯云)"@,
    {
        "Tencent (腾讯云)"
    }

    pub fn supported_record_types(&self) -> (r: Vec<DNSRecordType>)
        ensures
            r@ == seq![DNSRecordType::A, DNSRecordType::AAAA, DNSRecordType::CNAME],
    {
        default_supported_record_types()
    }

    /// Takes the `secret_id` and `secret_key` fields that are present. Fails
    /// with `InvalidConfig` when either is still missing afterwards.
    pub fn configure(&mut self, credentials: &Credentials) -> (r: Result<(), ProviderError>)
        ensures
            opt_view(final(self).secret_id) == match extra_value(credentials.extra@, "secret_id"@) {
                Some(v) => Some(v),
                None => opt_view(old(self).secret_id),
            },
            opt_view(final(self).secret_key) == match extra_value(credentials.extra@, "secret_key"@) {
                Some(v) => Some(v),
                None => opt_view(old(self).secret_key),
            },
            final(self).initialized == old(self).initialized,
            r is Ok <==> (final(self).secret_id.is_some() && final(self).secret_key.is_some()),
            r is Err ==> r->Err_0 is InvalidConfig,
    {
        if let Some(v) = credentials.extra_get("secret_id") {
            self.secret_id = Some(v);
        }
        if let Some(v) = credentials.extra_get("secret_key") {
            self.secret_key = Some(v);
        }
        if self.secret_id.is_none() || self.secret_key.is_none() {
            return Err(ProviderError::InvalidConfig("missing SecretId or SecretKey".to_string()));
        }
        Ok(())
    }

    /// Adds the protocol fields to `params` (`Action`, `Nonce`, `Region`
    /// ap-guangzhou, `SecretId`, `Timestamp`) and signs them: the result is
    /// the signature of the Tencent string to sign for GET and the canonical
    /// query of the completed set. Fails with `InvalidConfig` when no secret
    /// is configured.
    pub fn build_signature(
        &self,
        action: &str,
        params: &mut ParamSet,
        nonce: u64,
        timestamp: u64,
    ) -> (r: Result<String, ProviderError>)
        requires
            old(params).wf(),
        ensures
            final(params).wf(),
            (self.secret_id.is_none() || self.secret_key.is_none()) ==> r is Err
                && r->Err_0 is InvalidConfig && *final(params) == *old(params),
            self.secret_id.is_some() && self.secret_key.is_some() ==> {
                &&& r is Ok
                &&& final(params).value_of("Action"@) == Some(action@)
                &&& final(params).value_of("Nonce"@) == Some(decimal_of(nonce as nat))
                &&& final(params).value_of("Region"@) == Some("ap-guangzhou"@)
                &&& final(params).value_of("SecretId"@) == Some(self.secret_id.unwrap()@)
                &&& final(params).value_of("Timestamp"@) == Some(decimal_of(timestamp as nat))
                &&& forall|k: Seq<char>| !tencent_protocol_key(k) ==> final(params).value_of(k) == old(params).value_of(k)
                &&& r->Ok_0@ == signature_of(self.secret_key.unwrap()@, tencent_string_to_sign("GET"@, canonical_query_of(final(params).view())))
            },
    {
        let (id, secret) = match (&self.secret_id, &self.secret_key) {
            (Some(i), Some(s)) => (i, s),
            _ => return Err(ProviderError::InvalidConfig("missing SecretId or SecretKey".to_string())),
        };
        proof {
            reveal_strlit("Action");
            reveal_strlit("Nonce");
            reveal_strlit("Region");
            reveal_strlit("SecretId");
            reveal_strlit("Timestamp");
            assert("Action"@.len() == 6 && "Action"@[0] == 'A');
            assert("Nonce"@.len() == 5);
            assert("Region"@.len() == 6 && "Region"@[0] == 'R');
            assert("SecretId"@.len() == 8);
            assert("Timestamp"@.len() == 9);
        }
        params.insert("Action".to_string(), action.to_string());
        params.insert("Nonce".to_string(), decimal(nonce));
        params.insert("Region".to_string(), "ap-guangzhou".to_string());
        params.insert("SecretId".to_string(), id.clone());
        params.insert("Timestamp".to_string(), decimal(timestamp));
        let query = params.canonical_query();
        let string_to_sign = "GET".to_string().concat("cns.api.qcloud.com/v2/index.php?").concat(query.as_str());
        let sig = sign(secret.as_str(), string_to_sign.as_str());
        assert(string_to_sign@ =~= tencent_string_to_sign("GET"@, query@));
        Ok(sig)
    }
}

impl TencentProvider {
    /// The signed GET URL of an API call: the call's fields (with
    /// `recordLine` defaulting to 默认), the protocol fields and the
    /// `Signature`, as the canonical query of the endpoint. Fails with
    /// `InvalidConfig` when no secret is configured.
    pub fn request_url(
        &self,
        action: &str,
        params: &mut ParamSet,
        nonce: u64,
        timestamp: u64,
    ) -> (r: Result<String, ProviderError>)
        requires
            old(params).wf(),
        ensures
            final(params).wf(),
            (self.secret_id.is_none() || self.secret_key.is_none()) ==> r is Err
                && r->Err_0 is InvalidConfig,
            self.secret_id.is_some() && self.secret_key.is_some() ==> {
                &&& r is Ok
                &&& final(params).value_of("Action"@) == Some(action@)
                &&& final(params).value_of("recordLine"@).is_some()
                &&& final(params).value_of("Signature"@).is_some()
                &&& r->Ok_0@ == "https://cns.api.qcloud.com/v2/index.php?"@ + canonical_query_of(final(params).view())
            },
    {
        proof {
            reveal_strlit("recordLine");
            reveal_strlit("Action");
            reveal_strlit("Signature");
            reveal_strlit("Nonce");
            reveal_strlit("Region");
            reveal_strlit("SecretId");
            reveal_strlit("Timestamp");
            assert("recordLine"@.len() == 10);
            assert("Action"@.len() == 6);
            assert("Signature"@.len() == 9);
            assert("Nonce"@.len() == 5);
            assert("Region"@.len() == 6 && "Region"@[0] == 'R');
            assert("SecretId"@.len() == 8);
            assert("Timestamp"@.len() == 9 && "Timestamp"@[0] == 'T');
            assert("Signature"@[0] == 'S');
        }
        if !params.contains_key("recordLine") {
            params.insert("recordLine".to_string(), "默认".to_string());
        }
        assert(params.value_of("recordLine"@).is_some());
        assert(!tencent_protocol_key("recordLine"@));
        let sig = match self.build_signature(action, params, nonce, timestamp) {
            Ok(s) => s,
            Err(e) => return Err(e),
        };
        assert(params.value_of("recordLine"@).is_some());
        params.insert("Signature".to_string(), sig);
        assert(params.value_of("recordLine"@).is_some());
        assert(params.value_of("Action"@) == Some(action@));
        let query = params.canonical_query();
        let url = "https://cns.api.qcloud.com/v2/index.php?".to_string().concat(query.as_str());
        Ok(url)
    }
}

impl TencentProvider {
    /// `request_url` with a fresh random nonce and the current time (a clock
    /// before 1970 reads as 0).
    pub fn request_url_now(&self, action: &str, params: &mut ParamSet) -> (r: Result<String, ProviderError>)
        requires
            old(params).wf(),
        ensures
            final(params).wf(),
            (self.secret_id.is_none() || self.secret_key.is_none()) ==> r is Err
                && r->Err_0 is InvalidConfig,
            self.secret_id.is_some() && self.secret_key.is_some() ==> {
                &&& r is Ok
                &&& final(params).value_of("Action"@) == Some(action@)
                &&& r->Ok_0@ == "https://cns.api.qcloud.com/v2/index.php?"@ + canonical_query_of(final(params).view())
            },
    {
        let nonce = random_nonce();
        let now = unix_now();
        let timestamp: u64 = if now < 0 {
            0
        } else {
            now as u64
        };
        self.request_url(action, params, nonce, timestamp)
    }
}

/// The AWS Route53 adapter: configured, but its record operations are not
/// offered yet.
#[derive(Debug, Clone)]
pub struct AwsProvider {
    pub initialized: bool,
}

impl Default for AwsProvider {
    fn default() -> (r: Self)
        ensures
            !r.initialized,
    {
        AwsProvider::new()
    }
}

impl AwsProvider {
    pub fn new() -> (r: Self)
        ensures
            !r.initialized,
    {
        AwsProvider { initialized: false }
    }

    pub fn provider_id(&self) -> (r: &'static str)
        ensures
            r@ == "aws"@,
    {
        "aws"
    }

    pub fn provider_name(&self) -> (r: &'static str)
        ensures
            r@ == "AWS Route53"@,
    {
        "AWS Route53"
    }

    pub fn supported_record_types(&self) -> (r: Vec<DNSRecordType>)
        ensures
            r@ == seq![DNSRecordType::A, DNSRecordType::AAAA, DNSRecordType::CNAME],
    {
        default_supported_record_types()
    }

    /// Accepts any credentials.
    pub fn configure(&mut self, _credentials: &Credentials) -> (r: Result<(), ProviderError>)
        ensures
            r is Ok,
            final(self).initialized,
    {
        self.initialized = true;
        Ok(())
    }

    /// What every record operation of this adapter fails with.
    pub fn unsupported(&self) -> (r: ProviderError)
        ensures
            r is Unknown,
    {
        ProviderError::Unknown("the AWS Route53 provider is not implemented yet".to_string())
    }
}

// ---------------------------------------------------------------------------
// The factory.
// ---------------------------------------------------------------------------

/// An adapter of one of the known vendors.
pub enum ProviderKind {
    Cloudflare(CloudflareProvider),
    Aliyun(AliyunProvider),
    Tencent(TencentProvider),
    Aws(AwsProvider),
}

pub open spec fn kind_id(k: ProviderKind) -> Seq<char> {
    match k {
        ProviderKind::Cloudflare(_) => "cloudflare"@,
        ProviderKind::Aliyun(_) => "aliyun"@,
        ProviderKind::Tencent(_) => "tencent"@,
        ProviderKind::Aws(_) => "aws"@,
    }
}

/// The identifiers the factory knows, in listing order.
pub open spec fn known_provider_ids() -> Seq<Seq<char>> {
    seq!["cloudflare"@, "aliyun"@, "tencent"@, "aws"@]
}

impl ProviderKind {
    pub fn provider_id(&self) -> (r: &'static str)
        ensures
            r@ == kind_id(*self),
    {
        match self {
            ProviderKind::Cloudflare(p) => p.provider_id(),
            ProviderKind::Aliyun(p) => p.provider_id(),
            ProviderKind::Tencent(p) => p.provider_id(),
            ProviderKind::Aws(p) => p.provider_id(),
        }
    }

    pub fn provider_name(&self) -> (r: &'static str)
        ensures
            self is Cloudflare ==> r@ == "Cloudflare"@,
            self is Aliyun ==> r@ == "Aliyun (阿里云)"@,
            self is Tencent ==> r@ == "Tencent (腾讯云)"@,
            self is Aws ==> r@ == "AWS Route53"@,
    {
        match self {
            ProviderKind::Cloudflare(p) => p.provider_name(),
            ProviderKind::Aliyun(p) => p.provider_name(),
            ProviderKind::Tencent(p) => p.provider_name(),
            ProviderKind::Aws(p) => p.provider_name(),
        }
    }

    pub fn supported_record_types(&self) -> (r: Vec<DNSRecordType>)
        ensures
            self is Cloudflare ==> r@.len() == 7,
            !(self is Cloudflare) ==> r@ == seq![DNSRecordType::A, DNSRecordType::AAAA, DNSRecordType::CNAME],
    {
        match self {
            ProviderKind::Cloudflare(p) => p.supported_record_types(),
            ProviderKind::Aliyun(p) => p.supported_record_types(),
            ProviderKind::Tencent(p) => p.supported_record_types(),
            ProviderKind::Aws(p) => p.supported_record_types(),
        }
    }
}

/// Maps vendor identifiers to adapters.
pub struct ProviderFactory;

impl ProviderFactory {
    /// A fresh adapter for a known identifier; any other identifier fails
    /// with an "unknown provider" error that names it, and no adapter is
    /// made.
    pub fn create(provider_id: &str) -> (r: Result<ProviderKind, AppError>)
        ensures
            known_provider_ids().contains(provider_id@) ==> r is Ok && kind_id(r->Ok_0) == provider_id@,
            !known_provider_ids().contains(provider_id@) ==> r is Err && r->Err_0 is Custom
                && r->Err_0->Custom_0@ == "unknown provider: "@ + provider_id@,
    {
        proof {
            assert(known_provider_ids()[0] == "cloudflare"@);
            assert(known_provider_ids()[1] == "aliyun"@);
            assert(known_provider_ids()[2] == "tencent"@);
            assert(known_provider_ids()[3] == "aws"@);
        }
        if str_eq(provider_id, "cloudflare") {
            Ok(ProviderKind::Cloudflare(CloudflareProvider::new()))
        } else if str_eq(provider_id, "aliyun") {
            Ok(ProviderKind::Aliyun(AliyunProvider::new()))
        } else if str_eq(provider_id, "tencent") {
            Ok(ProviderKind::Tencent(TencentProvider::new()))
        } else if str_eq(provider_id, "aws") {
            Ok(ProviderKind::Aws(AwsProvider::new()))
        } else {
            Err(AppError::Custom("unknown provider: ".to_string().concat(provider_id)))
        }
    }

    /// The identifiers of every known vendor.
    pub fn list_providers() -> (r: Vec<&'static str>)
        ensures
            r@.len() == 4,
            forall|i: int| 0 <= i < 4 ==> r@[i]@ == #[trigger] known_provider_ids()[i],
    {
        vec!["cloudflare", "aliyun", "tencent", "aws"]
    }
}

} // verus!
