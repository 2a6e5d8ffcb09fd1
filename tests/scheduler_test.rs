use ddns::error::{AppError, ProviderError};
use ddns::models::{Domain, IPInfo};
use ddns::scheduler::{
    force_update_message, force_update_target, on_domain_fetched, on_ip_detected,
    on_update_finished, FetchOutcome, SchedulerService, SchedulerStatus, WorkerAction,
};
use ddns::dns_updater::DNSUpdaterService;
use ddns::providers::{DNSRecordType, ProviderKind};

fn domain(id: &str, enabled: bool, current_ip: Option<&str>) -> Domain {
    Domain {
        id: id.to_string(),
        name: "example.com".to_string(),
        provider: "cloudflare".to_string(),
        subdomain: "www".to_string(),
        record_type: "A".to_string(),
        current_ip: current_ip.map(|s| s.to_string()),
        last_updated: None,
        update_interval: 300,
        enabled,
        created_at: 0,
        updated_at: 0,
    }
}

fn detected(ip: &str) -> Result<IPInfo, AppError> {
    Ok(IPInfo::new_at(Some(ip.to_string()), None, "api".to_string(), 0))
}

#[test]
fn test_status() {
    let status = SchedulerStatus {
        running: true,
        active_tasks: 5,
    };

    assert!(status.running);
    assert_eq!(status.active_tasks, 5);
}

#[test]
fn start_spawns_enabled_domains_once() {
    let mut s = SchedulerService::new();
    let domains = vec![domain("a", true, None), domain("b", false, None), domain("c", true, None)];
    let spawn = s.start(&domains);
    assert_eq!(spawn, vec!["a".to_string(), "c".to_string()]);
    assert_eq!(s.get_status(), SchedulerStatus { running: true, active_tasks: 2 });
    // a second start on a running scheduler is a no-op
    let again = s.start(&domains);
    assert!(again.is_empty());
    assert_eq!(s.get_status(), SchedulerStatus { running: true, active_tasks: 2 });
}

#[test]
fn stop_cancels_everything() {
    let mut s = SchedulerService::new();
    s.start(&vec![domain("a", true, None), domain("b", true, None)]);
    let cancel = s.stop();
    assert_eq!(cancel, vec!["a".to_string(), "b".to_string()]);
    assert_eq!(s.get_status(), SchedulerStatus { running: false, active_tasks: 0 });
}

#[test]
fn add_and_remove_schedules() {
    let mut s = SchedulerService::new();
    assert!(!s.add_domain_schedule(&domain("off", false, None)));
    assert_eq!(s.get_status().active_tasks, 0);
    assert!(s.add_domain_schedule(&domain("x", true, None)));
    assert!(!s.add_domain_schedule(&domain("x", true, None)));
    assert!(s.add_domain_schedule(&domain("y", true, None)));
    assert_eq!(s.get_status().active_tasks, 2);
    assert!(s.remove_domain_schedule(&"x".to_string()));
    assert!(!s.remove_domain_schedule(&"x".to_string()));
    assert!(s.has_task(&"y".to_string()));
    assert_eq!(s.get_status().active_tasks, 1);
}

#[test]
fn reload_restarts_from_the_domains() {
    let mut s = SchedulerService::new();
    s.start(&vec![domain("a", true, None)]);
    let (cancel, spawn) = s.reload_schedules(&vec![domain("b", true, None), domain("c", false, None)]);
    assert_eq!(cancel, vec!["a".to_string()]);
    assert_eq!(spawn, vec!["b".to_string()]);
    assert_eq!(s.get_status(), SchedulerStatus { running: true, active_tasks: 1 });
}

#[test]
fn fetch_outcomes_drive_the_worker() {
    assert!(matches!(on_domain_fetched(FetchOutcome::Missing), WorkerAction::Exit));
    assert!(matches!(
        on_domain_fetched(FetchOutcome::Failed(AppError::Database("locked".to_string()))),
        WorkerAction::Wait
    ));
    assert!(matches!(on_domain_fetched(FetchOutcome::Found(domain("x", false, None))), WorkerAction::Wait));
    assert!(matches!(on_domain_fetched(FetchOutcome::Found(domain("x", true, None))), WorkerAction::Detect(_)));
}

#[test]
fn unchanged_address_makes_no_call() {
    let d = domain("x", true, Some("1.2.3.4"));
    assert!(matches!(on_ip_detected(d, detected("1.2.3.4")), WorkerAction::Wait));
    let d = domain("x", true, Some("1.2.3.4"));
    assert!(matches!(on_ip_detected(d, Err(AppError::IPDetection("down".to_string()))), WorkerAction::Wait));
    let d = domain("x", true, Some("1.2.3.4"));
    let empty = Ok(IPInfo::new_at(None, Some("::1".to_string()), "api".to_string(), 0));
    assert!(matches!(on_ip_detected(d, empty), WorkerAction::Wait));
}

#[test]
fn first_address_is_always_pushed() {
    let d = domain("x", true, None);
    match on_ip_detected(d, detected("9.9.9.9")) {
        WorkerAction::Update { new_ip, .. } => assert_eq!(new_ip, "9.9.9.9"),
        _ => panic!("expected an update"),
    }
}

#[test]
fn update_on_change() {
    let d = domain("X", true, Some("1.2.3.4"));
    let (dom, new_ip) = match on_ip_detected(d, detected("5.6.7.8")) {
        WorkerAction::Update { domain, new_ip } => (domain, new_ip),
        _ => panic!("expected exactly one update"),
    };
    assert_eq!(new_ip, "5.6.7.8");
    let record = on_update_finished(&dom, &new_ip, Ok::<(), AppError>(()), 1700000000);
    assert_eq!(record.ip_write, Some("5.6.7.8".to_string()));
    assert_eq!(record.history.domain_id, "X");
    assert_eq!(record.history.status, "success");
    assert_eq!(record.history.old_ip, Some("1.2.3.4".to_string()));
    assert_eq!(record.history.new_ip, "5.6.7.8");
    assert_eq!(record.history.timestamp, 1700000000);
}

#[test]
fn failure_retains_state() {
    let d = domain("X", true, Some("1.2.3.4"));
    let new_ip = "5.6.7.8".to_string();
    let err = AppError::Provider(ProviderError::NetworkError("timeout".to_string()));
    let record = on_update_finished(&d, &new_ip, Err::<(), AppError>(err), 5);
    assert_eq!(record.ip_write, None);
    assert_eq!(record.history.status, "failed");
    assert_eq!(
        record.history.error_message,
        Some("DNS provider error: network error: timeout".to_string())
    );
    assert_eq!(d.current_ip, Some("1.2.3.4".to_string()));
    // the next tick tries again
    assert!(matches!(on_ip_detected(d, detected("5.6.7.8")), WorkerAction::Update { .. }));
}

#[test]
fn forced_update_skips_the_comparison() {
    assert_eq!(force_update_target(detected("1.2.3.4")), Ok("1.2.3.4".to_string()));
    let none = Ok(IPInfo::new_at(None, None, "api".to_string(), 0));
    assert_eq!(force_update_target(none), Err("no IP address detected".to_string()));
    let d = domain("x", true, Some("1.2.3.4"));
    assert_eq!(force_update_message(&d, &"1.2.3.4".to_string()), "updated www.example.com to 1.2.3.4");
}

#[test]
fn updater_resolves_adapter_and_record() {
    let svc = DNSUpdaterService::new();
    let d = domain("x", true, None);
    let kind = svc.provider_for(&d).ok().unwrap();
    assert!(matches!(kind, ProviderKind::Cloudflare(_)));
    assert_eq!(svc.record_name(&kind, &d), "www.example.com");
    let mut other = domain("y", true, None);
    other.provider = "aliyun".to_string();
    other.subdomain = String::new();
    let kind = svc.provider_for(&other).ok().unwrap();
    assert_eq!(svc.record_name(&kind, &other), "@");
    assert_eq!(svc.record_type(&other), DNSRecordType::A);
    other.provider = "nope".to_string();
    assert!(svc.provider_for(&other).is_err());
}
