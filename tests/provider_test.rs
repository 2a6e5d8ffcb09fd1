use ddns::error::{AppError, ProviderError};
use ddns::providers::{
    find_record, zone_id_from, AliyunProvider, AwsProvider, CloudflareAuth, CloudflareProvider,
    Credentials, DNSRecord, DNSRecordType, ProviderFactory, ProviderKind, TencentProvider,
};
use ddns::signing::{decimal, ParamSet};

#[test]
fn test_provider_factory() {
    let cloudflare = ProviderFactory::create("cloudflare");
    assert!(cloudflare.is_ok());
    let provider = cloudflare.ok().unwrap();
    assert_eq!(provider.provider_id(), "cloudflare");
    assert_eq!(provider.provider_name(), "Cloudflare");

    let unknown = ProviderFactory::create("unknown");
    assert!(unknown.is_err());
}

#[test]
fn unknown_provider_is_named_in_the_error() {
    match ProviderFactory::create("unknown") {
        Err(AppError::Custom(msg)) => assert_eq!(msg, "unknown provider: unknown"),
        _ => panic!("expected an unknown provider error"),
    }
    assert!(ProviderFactory::create("Cloudflare").is_err());
    assert!(matches!(ProviderFactory::create("aws"), Ok(ProviderKind::Aws(_))));
}

#[test]
fn test_list_providers() {
    let providers = ProviderFactory::list_providers();
    assert!(providers.contains(&"cloudflare"));
    assert!(providers.contains(&"aliyun"));
    assert!(providers.contains(&"tencent"));
    assert!(providers.contains(&"aws"));
}

#[test]
fn provider_trait_test_record_type_display() {
    assert_eq!(DNSRecordType::A.to_string(), "A");
    assert_eq!(DNSRecordType::AAAA.to_string(), "AAAA");
    assert_eq!(DNSRecordType::CNAME.to_string(), "CNAME");
}

#[test]
fn provider_test_test_record_type_display() {
    assert_eq!(DNSRecordType::A.to_string(), "A");
    assert_eq!(DNSRecordType::AAAA.to_string(), "AAAA");
    assert_eq!(DNSRecordType::CNAME.to_string(), "CNAME");
    assert_eq!(DNSRecordType::MX.to_string(), "MX");
    assert_eq!(DNSRecordType::TXT.to_string(), "TXT");
    assert_eq!(DNSRecordType::NS.to_string(), "NS");
    assert_eq!(DNSRecordType::SOA.to_string(), "SOA");
}

#[test]
fn record_type_from_name_defaults_to_a() {
    assert_eq!(DNSRecordType::from_name("MX"), DNSRecordType::MX);
    assert_eq!(DNSRecordType::from_name("SRV"), DNSRecordType::A);
}

#[test]
fn provider_trait_test_credentials_default() {
    let creds = Credentials::default();
    assert!(creds.api_key.is_none());
    assert!(creds.api_secret.is_none());
}

#[test]
fn provider_test_test_credentials_default() {
    let creds = Credentials::default();
    assert!(creds.api_key.is_none());
    assert!(creds.api_secret.is_none());
    assert!(creds.access_key.is_none());
    assert!(creds.region.is_none());
}

#[test]
fn test_provider_creation() {
    let provider = CloudflareProvider::new();
    assert_eq!(provider.provider_id(), "cloudflare");
    assert_eq!(provider.provider_name(), "Cloudflare");
}

#[test]
fn test_default_credentials() {
    let provider = CloudflareProvider::default();
    assert!(provider.api_token.is_none());
    assert!(provider.account_email.is_none());
}

#[test]
fn test_cloudflare_provider_creation() {
    let provider = CloudflareProvider::new();
    assert_eq!(provider.provider_id(), "cloudflare");
    assert_eq!(provider.provider_name(), "Cloudflare");

    let types = provider.supported_record_types();
    assert!(types.contains(&DNSRecordType::A));
    assert!(types.contains(&DNSRecordType::AAAA));
    assert!(types.contains(&DNSRecordType::CNAME));
    assert!(types.contains(&DNSRecordType::MX));
}

#[test]
fn test_aliyun_provider_creation() {
    let provider = AliyunProvider::new();
    assert_eq!(provider.provider_id(), "aliyun");
    assert!(provider.provider_name().contains("阿里云"));
}

#[test]
fn test_tencent_provider_creation() {
    let provider = TencentProvider::new();
    assert_eq!(provider.provider_id(), "tencent");
    assert!(provider.provider_name().contains("腾讯"));
}

#[test]
fn test_aws_provider_creation() {
    let provider = AwsProvider::new();
    assert_eq!(provider.provider_id(), "aws");
    assert!(provider.provider_name().contains("AWS"));
}

#[test]
fn test_provider_initialization() {
    let mut provider = CloudflareProvider::new();
    let creds = Credentials::default();
    let result = provider.configure(&creds);
    assert!(result.is_err());
}

#[test]
fn cloudflare_configuration_choices() {
    let mut p = CloudflareProvider::new();
    let mut creds = Credentials::default();
    creds.api_secret = Some("globalkey".to_string());
    creds.extra.push(("email".to_string(), "me@example.com".to_string()));
    assert!(p.configure(&creds).is_ok());
    match p.auth() {
        CloudflareAuth::EmailKey { email, key } => {
            assert_eq!(email, "me@example.com");
            assert_eq!(key, "globalkey");
        }
        _ => panic!("expected email and key"),
    }
    creds.api_key = Some("tok".to_string());
    let mut q = CloudflareProvider::new();
    assert!(q.configure(&creds).is_ok());
    assert!(matches!(q.auth(), CloudflareAuth::Bearer(t) if t == "tok"));
    assert!(matches!(CloudflareProvider::new().auth(), CloudflareAuth::Anonymous));
}

#[test]
fn aliyun_and_tencent_need_secrets() {
    let mut a = AliyunProvider::new();
    assert!(matches!(a.configure(&Credentials::default()), Err(ProviderError::InvalidConfig(_))));
    let mut creds = Credentials::default();
    creds.extra.push(("access_key_id".to_string(), "id".to_string()));
    creds.extra.push(("access_key_secret".to_string(), "secret".to_string()));
    creds.extra.push(("region".to_string(), "cn-shanghai".to_string()));
    assert!(a.configure(&creds).is_ok());
    assert_eq!(a.region, Some("cn-shanghai".to_string()));

    let mut t = TencentProvider::new();
    let mut only_id = Credentials::default();
    only_id.extra.push(("secret_id".to_string(), "id".to_string()));
    assert!(matches!(t.configure(&only_id), Err(ProviderError::InvalidConfig(_))));
    assert_eq!(t.secret_id, Some("id".to_string()));
}

fn aliyun() -> AliyunProvider {
    let mut p = AliyunProvider::new();
    p.access_key_id = Some("testid".to_string());
    p.access_key_secret = Some("testsecret".to_string());
    p
}

#[test]
fn aliyun_signature_regression() {
    let p = aliyun();
    let mut params = ParamSet::new();
    params.insert("Action".to_string(), "DescribeDomainRecords".to_string());
    params.insert("DomainName".to_string(), "example.com".to_string());
    let sig = p
        .build_signature("GET", &mut params, &"42".to_string(), &"2023-11-14T22:13:20Z".to_string())
        .unwrap();
    assert_eq!(sig, "6ceDlsCmefAlEEKBcwVU7mc2Neo=");
    assert_eq!(
        params.canonical_query(),
        "AccessKeyId=testid&Action=DescribeDomainRecords&DomainName=example.com&Format=JSON&SignatureMethod=HMAC-SHA1&SignatureNonce=42&SignatureVersion=1.0&Timestamp=2023-11-14T22%3A13%3A20Z&Version=2015-01-09"
    );
}

#[test]
fn aliyun_request_url_carries_signature() {
    let p = aliyun();
    let mut params = ParamSet::new();
    params.insert("DomainName".to_string(), "example.com".to_string());
    let url = p
        .request_url("DescribeDomainRecords", &mut params, &"42".to_string(), &"2023-11-14T22:13:20Z".to_string())
        .unwrap();
    assert_eq!(
        url,
        "https://alidns.aliyuncs.com/?AccessKeyId=testid&Action=DescribeDomainRecords&DomainName=example.com&Format=JSON&Signature=6ceDlsCmefAlEEKBcwVU7mc2Neo%3D&SignatureMethod=HMAC-SHA1&SignatureNonce=42&SignatureVersion=1.0&Timestamp=2023-11-14T22%3A13%3A20Z&Version=2015-01-09"
    );
}

#[test]
fn aliyun_signing_without_secret_fails() {
    let p = AliyunProvider::new();
    let mut params = ParamSet::new();
    let r = p.build_signature("GET", &mut params, &"42".to_string(), &"t".to_string());
    assert!(matches!(r, Err(ProviderError::InvalidConfig(_))));
}

#[test]
fn tencent_signature_regression() {
    let mut p = TencentProvider::new();
    p.secret_id = Some("AKIDtest".to_string());
    p.secret_key = Some("testkey".to_string());
    let mut params = ParamSet::new();
    params.insert("domain".to_string(), "example.com".to_string());
    let sig = p.build_signature("DescribeRecordList", &mut params, 42, 1700000000).unwrap();
    assert_eq!(sig, "Kt3Cx66IqmReyaAX+R+UccUdM9A=");

    // an empty field is left out of the signed set
    let mut with_empty = ParamSet::new();
    with_empty.insert("domain".to_string(), "example.com".to_string());
    with_empty.insert("subDomain".to_string(), String::new());
    let sig2 = p.build_signature("DescribeRecordList", &mut with_empty, 42, 1700000000).unwrap();
    assert_eq!(sig2, "Kt3Cx66IqmReyaAX+R+UccUdM9A=");
}

#[test]
fn param_set_replaces_and_sorts() {
    let mut params = ParamSet::new();
    params.insert("b".to_string(), "2".to_string());
    params.insert("a".to_string(), "x y".to_string());
    params.insert("b".to_string(), "3".to_string());
    params.insert("C".to_string(), "~-_.".to_string());
    assert_eq!(params.canonical_query(), "C=~-_.&a=x%20y&b=3");
    assert!(params.contains_key("a"));
    assert!(!params.contains_key("z"));
    assert_eq!(decimal(0), "0");
    assert_eq!(decimal(1700000000), "1700000000");
    assert_eq!(decimal(u64::MAX), "18446744073709551615");
}

#[test]
fn zone_lookup_outcomes() {
    let zones = vec!["z1".to_string(), "z2".to_string()];
    assert_eq!(zone_id_from(true, &vec![], &zones), Ok("z1".to_string()));
    assert!(matches!(zone_id_from(true, &vec![], &vec![]), Err(ProviderError::DomainNotFound(_))));
    match zone_id_from(false, &vec!["bad token".to_string()], &zones) {
        Err(ProviderError::DomainNotFound(m)) => assert_eq!(m, "bad token"),
        _ => panic!("expected DomainNotFound"),
    }
}

#[test]
fn find_record_takes_first_match() {
    let rec = |id: &str, name: &str, t: DNSRecordType| DNSRecord {
        id: id.to_string(),
        name: name.to_string(),
        record_type: t,
        content: "1.1.1.1".to_string(),
        ttl: 600,
        proxied: None,
        priority: None,
    };
    let records = vec![
        rec("1", "www", DNSRecordType::AAAA),
        rec("2", "www", DNSRecordType::A),
        rec("3", "www", DNSRecordType::A),
    ];
    assert_eq!(find_record(&records, "www", DNSRecordType::A), Some(1));
    assert_eq!(find_record(&records, "mail", DNSRecordType::A), None);
}

#[test]
fn provider_error_messages() {
    assert_eq!(ProviderError::NetworkError("timeout".to_string()).message(), "network error: timeout");
    assert_eq!(ProviderError::RateLimitExceeded.message(), "rate limit exceeded");
    assert_eq!(
        AppError::Provider(ProviderError::ApiError("x".to_string())).message(),
        "DNS provider error: API error: x"
    );
}

#[test]
fn probe_outcomes() {
    assert_eq!(ddns::providers::probe_outcome(Ok(true)), Ok(()));
    assert!(matches!(
        ddns::providers::probe_outcome(Ok(false)),
        Err(ProviderError::AuthenticationFailed(_))
    ));
    assert_eq!(
        ddns::providers::probe_outcome(Err(ProviderError::RateLimitExceeded)),
        Err(ProviderError::RateLimitExceeded)
    );
}

#[test]
fn signed_urls_with_fresh_nonce() {
    let p = aliyun();
    let mut params = ParamSet::new();
    let url = p.request_url_now("DescribeDomains", &mut params).unwrap();
    assert!(url.starts_with("https://alidns.aliyuncs.com/?AccessKeyId=testid&Action=DescribeDomains&"));
    assert!(url.contains("&Signature="));
    let mut t = TencentProvider::new();
    assert!(t.request_url_now("DescribeDomainList", &mut ParamSet::new()).is_err());
    t.secret_id = Some("id".to_string());
    t.secret_key = Some("key".to_string());
    let url = t.request_url_now("DescribeDomainList", &mut ParamSet::new()).unwrap();
    assert!(url.starts_with("https://cns.api.qcloud.com/v2/index.php?Action=DescribeDomainList&Nonce="));
    assert!(url.contains("recordLine=%E9%BB%98%E8%AE%A4"));
}
