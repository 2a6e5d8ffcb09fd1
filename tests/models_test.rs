use ddns::models::{AppConfig, CreateDomain, Domain, IPInfo, LogLevel, ProviderType, UpdateHistory};

fn domain(subdomain: &str) -> Domain {
    Domain {
        id: "1".to_string(),
        name: "example.com".to_string(),
        provider: "cloudflare".to_string(),
        subdomain: subdomain.to_string(),
        record_type: "A".to_string(),
        current_ip: None,
        last_updated: None,
        update_interval: 300,
        enabled: true,
        created_at: 0,
        updated_at: 0,
    }
}

#[test]
fn test_full_domain() {
    let domain = domain("www");
    assert_eq!(domain.full_domain(), "www.example.com");
}

#[test]
fn test_full_domain_root() {
    let domain = domain("@");
    assert_eq!(domain.full_domain(), "example.com");
}

#[test]
fn full_domain_with_empty_subdomain_is_the_root() {
    assert_eq!(domain("").full_domain(), "example.com");
}

#[test]
fn should_update_follows_the_interval() {
    let mut d = domain("www");
    assert!(d.should_update_at(1000));
    d.last_updated = Some(1000);
    assert!(!d.should_update_at(1299));
    assert!(d.should_update_at(1300));
    d.enabled = false;
    assert!(!d.should_update_at(5000));
}

#[test]
fn new_domain_has_fresh_id_and_no_address() {
    let d = Domain::new(CreateDomain {
        name: "example.com".to_string(),
        provider: "aliyun".to_string(),
        subdomain: "home".to_string(),
        record_type: "A".to_string(),
        update_interval: 600,
        enabled: true,
    });
    assert_eq!(d.id.len(), 36);
    assert!(d.current_ip.is_none());
    assert_eq!(d.update_interval, 600);
    assert_eq!(d.created_at, d.updated_at);
}

#[test]
fn primary_ip_prefers_ipv4() {
    let both = IPInfo::new_at(Some("1.2.3.4".to_string()), Some("::1".to_string()), "api".to_string(), 7);
    assert_eq!(both.primary_ip(), Some(&"1.2.3.4".to_string()));
    let v6 = IPInfo::ipv6("::1".to_string(), "dns".to_string());
    assert_eq!(v6.primary_ip(), Some(&"::1".to_string()));
    let none = IPInfo::new_at(None, None, "api".to_string(), 0);
    assert_eq!(none.primary_ip(), None);
}

#[test]
fn history_entries_carry_status() {
    let ok = UpdateHistory::success_at("d".to_string(), Some("1.1.1.1".to_string()), "2.2.2.2".to_string(), 5);
    assert_eq!(ok.status, "success");
    assert_eq!(ok.old_ip, Some("1.1.1.1".to_string()));
    assert_eq!(ok.timestamp, 5);
    let bad = UpdateHistory::failed_at("d".to_string(), "boom".to_string(), 6);
    assert_eq!(bad.status, "failed");
    assert_eq!(bad.error_message, Some("boom".to_string()));
    assert_eq!(bad.new_ip, "");
}

#[test]
fn provider_type_round_trips() {
    assert_eq!(ProviderType::Jdcloud.as_str(), "jdcloud");
    assert_eq!(ProviderType::from_str("CloudFlare"), Some(ProviderType::Cloudflare));
    assert_eq!(ProviderType::from_str("aws"), Some(ProviderType::Aws));
    assert_eq!(ProviderType::from_str("godaddy"), None);
    assert_eq!(ProviderType::from_lowercase("Aws"), None);
}

#[test]
fn default_config_values() {
    let c = AppConfig::default();
    assert_eq!(c.ip_detection_method, "api");
    assert_eq!(c.default_update_interval, 300);
    assert_eq!(c.log_level, "info");
    assert!(c.enable_notifications);
    assert!(!c.auto_start);
    assert_eq!(LogLevel::Warn.as_str(), "warn");
}

#[test]
fn partial_update_replaces_present_fields() {
    let mut d = domain("www");
    d.apply_update(
        ddns::models::UpdateDomain {
            name: None,
            subdomain: Some("home".to_string()),
            update_interval: Some(60),
            enabled: None,
        },
        42,
    );
    assert_eq!(d.name, "example.com");
    assert_eq!(d.subdomain, "home");
    assert_eq!(d.update_interval, 60);
    assert!(d.enabled);
    assert_eq!(d.updated_at, 42);
    d.record_ip("5.6.7.8".to_string(), 77);
    assert_eq!(d.current_ip, Some("5.6.7.8".to_string()));
    assert_eq!(d.last_updated, Some(77));
    assert_eq!(d.updated_at, 77);
}
