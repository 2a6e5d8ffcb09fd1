//! Resolution of the vendor adapter and of the record that a domain's
//! update targets.

use vstd::prelude::*;
use crate::error::AppError;
use crate::models::{full_domain_of, Domain};
use crate::providers::{
    kind_id, known_provider_ids, record_type_from_name, DNSRecordType, ProviderFactory,
    ProviderKind,
};

verus! {

/// The record name a vendor lists for a domain: Cloudflare lists fully
/// qualified names; the others list the subdomain, with `@` for the root.
pub open spec fn record_name_for(cloudflare: bool, subdomain: Seq<char>, name: Seq<char>) -> Seq<char> {
    if cloudflare {
        full_domain_of(subdomain, name)
    } else if subdomain.len() == 0 {
        "@"@
    } else {
        subdomain
    }
}

/// Finds, for a domain, the adapter and the record an update goes to.
pub struct DNSUpdaterService;

impl DNSUpdaterService {
    pub fn new() -> (r: Self) {
        DNSUpdaterService
    }

    /// The adapter of the domain's vendor, from the factory.
    pub fn provider_for(&self, domain: &Domain) -> (r: Result<ProviderKind, AppError>)
        ensures
            known_provider_ids().contains(domain.provider@) ==> r is Ok && kind_id(r->Ok_0)
                == domain.provider@,
            !known_provider_ids().contains(domain.provider@) ==> r is Err && r->Err_0 is Custom,
    {
        ProviderFactory::create(domain.provider.as_str())
    }

    /// The name under which the vendor lists the domain's record.
    pub fn record_name(&self, kind: &ProviderKind, domain: &Domain) -> (r: String)
        ensures
            r@ == record_name_for(kind is Cloudflare, domain.subdomain@, domain.name@),
    {
        match kind {
            ProviderKind::Cloudflare(_) => domain.full_domain(),
            _ => if domain.subdomain.as_str().unicode_len() == 0 {
                "@".to_string()
            } else {
                domain.subdomain.clone()
            },
        }
    }

    /// The type of the domain's record.
    pub fn record_type(&self, domain: &Domain) -> (r: DNSRecordType)
        ensures
            r == record_type_from_name(domain.record_type@),
    {
        DNSRecordType::from_name(domain.record_type.as_str())
    }
}

} // verus!
