use ddns::error::AppError;
use ddns::ip_detector::{
    http_endpoints, ApiDetectionMethod, DetectStart, DetectionRun, IPDetectorService, IpFamily,
    Probe,
};
use ddns::models::IPInfo;

#[test]
fn test_ipv4_validation() {
    assert!(ApiDetectionMethod::is_valid_ipv4("192.168.1.1"));
    assert!(ApiDetectionMethod::is_valid_ipv4("8.8.8.8"));
    assert!(ApiDetectionMethod::is_valid_ipv4("255.255.255.255"));
    assert!(ApiDetectionMethod::is_valid_ipv4("0.0.0.0"));

    assert!(!ApiDetectionMethod::is_valid_ipv4("2001:4860:4860::8888"));
    assert!(!ApiDetectionMethod::is_valid_ipv4("240e:337:b5:b470:4eaa:10f8:f6af:fdc8"));
    assert!(!ApiDetectionMethod::is_valid_ipv4("fe80::1"));

    assert!(!ApiDetectionMethod::is_valid_ipv4("not.an.ip"));
    assert!(!ApiDetectionMethod::is_valid_ipv4("256.1.1.1"));
}

#[test]
fn test_ipv6_validation() {
    assert!(ApiDetectionMethod::is_valid_ipv6("2001:4860:4860::8888"));
    assert!(ApiDetectionMethod::is_valid_ipv6("240e:337:b5:b470:4eaa:10f8:f6af:fdc8"));
    assert!(ApiDetectionMethod::is_valid_ipv6("fe80::1"));
    assert!(ApiDetectionMethod::is_valid_ipv6("::1"));

    assert!(!ApiDetectionMethod::is_valid_ipv6("192.168.1.1"));
    assert!(!ApiDetectionMethod::is_valid_ipv6("8.8.8.8"));
}

#[test]
fn ipv4_validation_edge_cases() {
    assert!(ApiDetectionMethod::is_valid_ipv4("  1.2.3.4\n"));
    assert!(ApiDetectionMethod::is_valid_ipv4("+1.02.3.004"));
    assert!(!ApiDetectionMethod::is_valid_ipv4("1.2.3"));
    assert!(!ApiDetectionMethod::is_valid_ipv4("1.2.3.4.5"));
    assert!(!ApiDetectionMethod::is_valid_ipv4("1..3.4"));
    assert!(!ApiDetectionMethod::is_valid_ipv4(""));
    assert!(!ApiDetectionMethod::is_valid_ipv4("1.2.3.-4"));
    assert!(!ApiDetectionMethod::is_valid_ipv4("1.2.3.1000"));
    assert!(!ApiDetectionMethod::is_valid_ipv6("[::1"));
    assert!(ApiDetectionMethod::is_valid_ipv6("[::1]"));
    assert!(!ApiDetectionMethod::is_valid_ipv6(""));
}

fn probe_all(run: &mut DetectionRun, answers: &[Option<&str>], now: i64) -> (Vec<Probe>, Option<IPInfo>) {
    let mut probes = Vec::new();
    for a in answers {
        let p = run.next_probe().expect("a probe is left");
        probes.push(p);
        if let Some(info) = run.on_answer(a.map(|s| s.to_string()), now) {
            return (probes, Some(info));
        }
    }
    (probes, None)
}

#[test]
fn fallback_runs_dns_before_interface() {
    let mut run = DetectionRun::begin(IpFamily::V4);
    let (probes, found) = probe_all(
        &mut run,
        &[None, Some("<html>"), None, Some("fe80::1"), None, Some("10.0.0.7")],
        99,
    );
    assert_eq!(
        probes,
        vec![Probe::Http(0), Probe::Http(1), Probe::Http(2), Probe::Http(3), Probe::Dns, Probe::Interface]
    );
    let info = found.expect("interface answer accepted");
    assert_eq!(info.ipv4, Some("10.0.0.7".to_string()));
    assert_eq!(info.detection_method, "interface");
    assert_eq!(info.timestamp, 99);
}

#[test]
fn dns_result_is_tagged_dns() {
    let mut run = DetectionRun::begin(IpFamily::V6);
    let (probes, found) = probe_all(&mut run, &[None, None, Some("2001:db8::5")], 1);
    assert_eq!(probes, vec![Probe::Http(0), Probe::Http(1), Probe::Dns]);
    let info = found.unwrap();
    assert_eq!(info.ipv6, Some("2001:db8::5".to_string()));
    assert_eq!(info.ipv4, None);
    assert_eq!(info.detection_method, "dns");
}

#[test]
fn http_answer_is_trimmed_and_tagged_api() {
    let mut run = DetectionRun::begin(IpFamily::V4);
    let info = run.on_answer(Some(" 5.6.7.8\n".to_string()), 3).unwrap();
    assert_eq!(info.ipv4, Some("5.6.7.8".to_string()));
    assert_eq!(info.detection_method, "api");
}

#[test]
fn exhausted_run_has_no_probe_left() {
    let mut run = DetectionRun::begin(IpFamily::V6);
    let (_, found) = probe_all(&mut run, &[None, None, None, None], 0);
    assert!(found.is_none());
    assert_eq!(run.next_probe(), None);
    assert!(matches!(run.exhausted_error(), AppError::IPDetection(_)));
    assert_eq!(http_endpoints(IpFamily::V4).len(), 4);
    assert_eq!(http_endpoints(IpFamily::V6).len(), 2);
}

#[test]
fn cache_hits_within_ttl_and_misses_after() {
    let mut svc = IPDetectorService::with_cache_ttl(10);
    assert!(matches!(svc.begin_detect(IpFamily::V4, 1000), DetectStart::Probe(_)));
    svc.finish_detect(IpFamily::V4, "1.2.3.4".to_string(), 1000);
    for now in [1000, 1005, 1009] {
        match svc.begin_detect(IpFamily::V4, now) {
            DetectStart::Cached(info) => {
                assert_eq!(info.ipv4, Some("1.2.3.4".to_string()));
                assert_eq!(info.detection_method, "cache");
            }
            DetectStart::Probe(_) => panic!("expected a cache hit at {}", now),
        }
    }
    assert!(matches!(svc.begin_detect(IpFamily::V4, 1010), DetectStart::Probe(_)));
    assert!(matches!(svc.begin_detect(IpFamily::V6, 1001), DetectStart::Probe(_)));
}

#[test]
fn cache_keeps_other_family_and_clears() {
    let mut svc = IPDetectorService::new();
    svc.finish_detect(IpFamily::V4, "1.2.3.4".to_string(), 100);
    svc.finish_detect(IpFamily::V6, "2001:db8::1".to_string(), 101);
    match svc.begin_detect(IpFamily::V4, 102) {
        DetectStart::Cached(info) => assert_eq!(info.ipv4, Some("1.2.3.4".to_string())),
        DetectStart::Probe(_) => panic!("ipv4 entry was lost"),
    }
    svc.clear_cache();
    assert!(matches!(svc.begin_detect(IpFamily::V4, 102), DetectStart::Probe(_)));
    assert!(matches!(svc.begin_detect(IpFamily::V6, 102), DetectStart::Probe(_)));
}

#[test]
fn combining_families() {
    let v4 = Ok(IPInfo::new_at(Some("1.2.3.4".to_string()), None, "api".to_string(), 1));
    let v6: Result<IPInfo, AppError> = Err(AppError::IPDetection("x".to_string()));
    let both = IPDetectorService::combine_all(v4, v6, 9).unwrap();
    assert_eq!(both.ipv4, Some("1.2.3.4".to_string()));
    assert_eq!(both.ipv6, None);
    assert_eq!(both.detection_method, "combined");
    let none = IPDetectorService::combine_all(
        Err(AppError::IPDetection("a".to_string())),
        Err(AppError::IPDetection("b".to_string())),
        9,
    );
    assert!(matches!(none, Err(AppError::IPDetection(_))));
}
