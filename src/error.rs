//! Error types of the update engine.

use vstd::prelude::*;

verus! {

/// What a DNS vendor operation can fail with.
#[derive(Debug, Clone, PartialEq, Eq)]
pub enum ProviderError {
    AuthenticationFailed(String),
    ApiError(String),
    RateLimitExceeded,
    NetworkError(String),
    InvalidConfig(String),
    RecordNotFound(String),
    DomainNotFound(String),
    Unknown(String),
    ParseError(String),
}

/// The engine's error: one variant per failing collaborator.
#[derive(Debug, Clone, PartialEq, Eq)]
pub enum AppError {
    Database(String),
    Io(String),
    Serialization(String),
    CredentialStore(String),
    Provider(ProviderError),
    IPDetection(String),
    Validation(String),
    NotFound(String),
    Custom(String),
}

/// `prefix` followed by `detail`.
pub fn prefixed(prefix: &str, detail: &String) -> (r: String)
    ensures
        r@ == prefix@ + detail@,
{
    prefix.to_string().concat(detail.as_str())
}

impl ProviderError {
    /// The human-readable form of the error.
    pub fn message(&self) -> (r: String)
        ensures
            r@ == provider_error_text(*self),
    {
        match self {
            ProviderError::AuthenticationFailed(d) => prefixed("authentication failed: ", d),
            ProviderError::ApiError(d) => prefixed("API error: ", d),
            ProviderError::RateLimitExceeded => "rate limit exceeded".to_string(),
            ProviderError::NetworkError(d) => prefixed("network error: ", d),
            ProviderError::InvalidConfig(d) => prefixed("invalid configuration: ", d),
            ProviderError::RecordNotFound(d) => prefixed("record not found: ", d),
            ProviderError::DomainNotFound(d) => prefixed("domain not found: ", d),
            ProviderError::Unknown(d) => prefixed("unknown error: ", d),
            ProviderError::ParseError(d) => prefixed("parse error: ", d),
        }
    }
}

/// The human-readable form of an engine error.
pub open spec fn app_error_text(e: AppError) -> Seq<char> {
    match e {
        AppError::Database(d) => "database error: "@ + d@,
        AppError::Io(d) => "I/O error: "@ + d@,
        AppError::Serialization(d) => "serialization error: "@ + d@,
        AppError::CredentialStore(d) => "credential store error: "@ + d@,
        AppError::Provider(p) => "DNS provider error: "@ + provider_error_text(p),
        AppError::IPDetection(d) => "IP detection error: "@ + d@,
        AppError::Validation(d) => "validation error: "@ + d@,
        AppError::NotFound(d) => "not found: "@ + d@,
        AppError::Custom(d) => "error: "@ + d@,
    }
}

/// The human-readable form of a provider error.
pub open spec fn provider_error_text(e: ProviderError) -> Seq<char> {
    match e {
        ProviderError::AuthenticationFailed(d) => "authentication failed: "@ + d@,
        ProviderError::ApiError(d) => "API error: "@ + d@,
        ProviderError::RateLimitExceeded => "rate limit exceeded"@,
        ProviderError::NetworkError(d) => "network error: "@ + d@,
        ProviderError::InvalidConfig(d) => "invalid configuration: "@ + d@,
        ProviderError::RecordNotFound(d) => "record not found: "@ + d@,
        ProviderError::DomainNotFound(d) => "domain not found: "@ + d@,
        ProviderError::Unknown(d) => "unknown error: "@ + d@,
        ProviderError::ParseError(d) => "parse error: "@ + d@,
    }
}

impl AppError {
    /// The human-readable form of the error.
    pub fn message(&self) -> (r: String)
        ensures
            r@ == app_error_text(*self),
    {
        match self {
            AppError::Database(d) => prefixed("database error: ", d),
            AppError::Io(d) => prefixed("I/O error: ", d),
            AppError::Serialization(d) => prefixed("serialization error: ", d),
            AppError::CredentialStore(d) => prefixed("credential store error: ", d),
            AppError::Provider(p) => {
                let inner = p.message();
                prefixed("DNS provider error: ", &inner)
            },
            AppError::IPDetection(d) => prefixed("IP detection error: ", d),
            AppError::Validation(d) => prefixed("validation error: ", d),
            AppError::NotFound(d) => prefixed("not found: ", d),
            AppError::Custom(d) => prefixed("error: ", d),
        }
    }
}

} // verus!
