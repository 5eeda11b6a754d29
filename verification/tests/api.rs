//! The scan service.
use rustnmap::api::{
    default_scan_type, ApiConfig, ApiError, ApiResponse, CreateScanRequest, HealthResponse,
    ManagedStatus, ScanOptions, ScanProgress, ScanResultsResponse, ScanStatus,
};
use rustnmap::clock::Timestamp;
use rustnmap::manager::{ScanManager, ScanTask};
use rustnmap::models::{Protocol, ScanType};
use rustnmap::orchestrator::{ScanMetadata, ScanResult, ScanStatistics};
use rustnmap::runner::{
    execute_scan, failure_text, find_queued, parse_scan_type, process_queued_scans, scan_finished,
    ScanStage, POLL_INTERVAL,
};
use rustnmap::server::{server_config, split_keys};

fn create_test_manager() -> ScanManager {
    let config = ApiConfig::new("fresh-key".to_string())
        .with_api_keys(vec!["test-api-key".to_string()])
        .with_max_concurrent_scans(3);
    ScanManager::new(config)
}

fn at(secs: i64) -> Timestamp {
    Timestamp { secs, nanos: 0 }
}

fn no_statistics() -> ScanStatistics {
    ScanStatistics {
        total_hosts: 0,
        hosts_up: 0,
        hosts_down: 0,
        total_ports: 0,
        open_ports: 0,
        closed_ports: 0,
        filtered_ports: 0,
        bytes_sent: 0,
        bytes_received: 0,
        packets_sent: 0,
        packets_received: 0,
    }
}

fn results_for(id: &str) -> ScanResultsResponse {
    ScanResultsResponse {
        id: id.to_string(),
        status: ScanStatus::Completed,
        started_at: at(1),
        completed_at: Some(at(2)),
        hosts: vec![],
        statistics: no_statistics(),
    }
}

fn one_target() -> Vec<String> {
    vec!["192.168.1.1".to_string()]
}

#[test]
fn test_create_scan_success() {
    let mut manager = create_test_manager();
    let result = manager.create_scan("scan_001", one_target(), "syn".to_string());
    result.unwrap();

    let task = manager.get_scan_summary("scan_001");
    assert!(task.is_some());
    let task = task.unwrap();
    assert_eq!(task.id, "scan_001");
    assert_eq!(task.status, ScanStatus::Queued);
    assert_eq!(task.targets, vec!["192.168.1.1"]);
    assert_eq!(task.scan_type, "syn");
}

#[test]
fn test_create_scan_duplicate_id() {
    let mut manager = create_test_manager();
    manager.create_scan("scan_001", one_target(), "syn".to_string()).unwrap();

    let result =
        manager.create_scan("scan_001", vec!["192.168.1.2".to_string()], "connect".to_string());
    assert!(result.is_err());
    if let ApiError::ScanAlreadyExists(id) = result.unwrap_err() {
        assert_eq!(id, "scan_001");
    } else {
        panic!("Expected ScanAlreadyExists error");
    }
    assert_eq!(manager.get_scan_summary("scan_001").unwrap().scan_type, "syn");
}

#[test]
fn test_update_status_to_running() {
    let mut manager = create_test_manager();
    manager.create_scan("scan_001", one_target(), "syn".to_string()).unwrap();

    let result = manager.update_status("scan_001", ScanStatus::Running);
    result.unwrap();

    let task = manager.get_scan_summary("scan_001").unwrap();
    assert_eq!(task.status, ScanStatus::Running);
    assert!(task.started_at.is_some());
}

#[test]
fn test_update_status_to_completed() {
    let mut manager = create_test_manager();
    manager.create_scan("scan_001", one_target(), "syn".to_string()).unwrap();
    manager.update_status("scan_001", ScanStatus::Running).unwrap();

    let result = manager.update_status("scan_001", ScanStatus::Completed);
    result.unwrap();

    let task = manager.get_scan_summary("scan_001").unwrap();
    assert_eq!(task.status, ScanStatus::Completed);
    assert!(task.completed_at.is_some());
}

#[test]
fn test_update_status_nonexistent_scan() {
    let mut manager = create_test_manager();
    let result = manager.update_status("nonexistent", ScanStatus::Running);
    assert!(result.is_err());
    if let ApiError::ScanNotFound(id) = result.unwrap_err() {
        assert_eq!(id, "nonexistent");
    } else {
        panic!("Expected ScanNotFound error");
    }
}

#[test]
fn test_update_progress() {
    let mut manager = create_test_manager();
    manager.create_scan("scan_001", one_target(), "syn".to_string()).unwrap();

    let progress = ScanProgress {
        total_hosts: 10,
        completed_hosts: 5,
        percentage_bits: 50.0f64.to_bits(),
        current_phase: Some("port_scanning".to_string()),
        pps: Some(1000),
        eta_seconds: Some(30),
    };

    let result = manager.update_progress("scan_001", progress.clone());
    result.unwrap();

    let task = manager.get_scan_summary("scan_001").unwrap();
    assert_eq!(task.progress.total_hosts, 10);
    assert_eq!(task.progress.completed_hosts, 5);
    let percentage = f64::from_bits(task.progress.percentage_bits);
    assert!((percentage - 50.0).abs() < f64::EPSILON);
    assert_eq!(task.progress.current_phase.as_deref(), Some("port_scanning"));
    assert!(manager.update_progress("nonexistent", progress).is_err());
}

#[test]
fn test_cancel_scan() {
    let mut manager = create_test_manager();
    manager.create_scan("scan_001", one_target(), "syn".to_string()).unwrap();

    let result = manager.cancel_scan("scan_001");
    result.unwrap();

    let task = manager.get_scan_summary("scan_001").unwrap();
    assert_eq!(task.status, ScanStatus::Cancelled);
    assert!(task.completed_at.is_some());
}

#[test]
fn test_cancel_scan_nonexistent() {
    let mut manager = create_test_manager();
    let result = manager.cancel_scan("nonexistent");
    assert!(result.is_err());
}

#[test]
fn test_list_scans_empty() {
    let manager = create_test_manager();
    let scans = manager.list_scans();
    assert!(scans.is_empty());
}

#[test]
fn test_list_scans_multiple() {
    let mut manager = create_test_manager();
    manager.create_scan("scan_001", one_target(), "syn".to_string()).unwrap();
    manager
        .create_scan("scan_002", vec!["192.168.1.2".to_string()], "udp".to_string())
        .unwrap();
    manager.update_status("scan_001", ScanStatus::Running).unwrap();

    let scans = manager.list_scans();
    assert_eq!(scans.len(), 2);
    let mut ids: Vec<&str> = scans.iter().map(|t| t.id.as_str()).collect();
    ids.sort_unstable();
    assert_eq!(ids, ["scan_001", "scan_002"]);
}

#[test]
fn test_active_count() {
    let mut manager = create_test_manager();
    manager.create_scan("scan_001", one_target(), "syn".to_string()).unwrap();
    manager
        .create_scan("scan_002", vec!["192.168.1.2".to_string()], "syn".to_string())
        .unwrap();
    manager.update_status("scan_001", ScanStatus::Running).unwrap();

    assert_eq!(manager.active_count(), 1);
    assert_eq!(manager.queued_count(), 1);
}

#[test]
fn test_can_start_scan_under_limit() {
    let mut manager = create_test_manager(); // max 3
    manager.create_scan("scan_001", one_target(), "syn".to_string()).unwrap();
    manager.update_status("scan_001", ScanStatus::Running).unwrap();

    assert!(manager.can_start_scan());
}

#[test]
fn test_can_start_scan_at_limit() {
    let mut manager = create_test_manager(); // max 3
    for i in 0..3 {
        let id = format!("scan_{i:03}");
        manager.create_scan(&id, one_target(), "syn".to_string()).unwrap();
        manager.update_status(&id, ScanStatus::Running).unwrap();
    }

    assert!(!manager.can_start_scan());
}

#[test]
fn test_create_scan_if_allowed_under_limit() {
    let mut manager = create_test_manager();
    let result = manager.create_scan_if_allowed("scan_001", one_target(), "syn".to_string());
    result.unwrap();
}

#[test]
fn test_create_scan_if_allowed_at_limit() {
    let mut manager = create_test_manager(); // max 3
    for i in 0..3 {
        let id = format!("scan_{i:03}");
        manager.create_scan(&id, one_target(), "syn".to_string()).unwrap();
        manager.update_status(&id, ScanStatus::Running).unwrap();
    }

    let result = manager.create_scan_if_allowed("scan_003", one_target(), "syn".to_string());
    assert!(result.is_err());
    if let ApiError::ScanLimitReached(max) = result.unwrap_err() {
        assert_eq!(max, 3);
    } else {
        panic!("Expected ScanLimitReached error");
    }
    assert!(manager.get_scan_summary("scan_003").is_none());
}

#[test]
fn test_store_and_get_results() {
    let mut manager = create_test_manager();
    manager.create_scan("scan_001", one_target(), "syn".to_string()).unwrap();

    let store_result = manager.store_results("scan_001", results_for("scan_001"));
    store_result.unwrap();

    let retrieved = manager.get_scan_results("scan_001");
    assert!(retrieved.is_some());
    let retrieved = retrieved.unwrap();
    assert_eq!(retrieved.id, "scan_001");
    assert_eq!(retrieved.status, ScanStatus::Completed);
}

#[test]
fn test_store_results_nonexistent_scan() {
    let mut manager = create_test_manager();

    let store_result = manager.store_results("nonexistent", results_for("nonexistent"));
    assert!(store_result.is_err());
    if let ApiError::ScanNotFound(id) = store_result.unwrap_err() {
        assert_eq!(id, "nonexistent");
    } else {
        panic!("Expected ScanNotFound error");
    }
}

#[test]
fn test_has_results() {
    let mut manager = create_test_manager();
    manager.create_scan("scan_001", one_target(), "syn".to_string()).unwrap();

    assert!(!manager.has_results("scan_001"));

    manager.store_results("scan_001", results_for("scan_001")).unwrap();

    assert!(manager.has_results("scan_001"));
}

#[test]
fn test_validate_api_key_valid() {
    let manager = create_test_manager();
    assert!(manager.validate_api_key("test-api-key"));
}

#[test]
fn test_validate_api_key_invalid() {
    let manager = create_test_manager();
    assert!(!manager.validate_api_key("wrong-key"));
}

#[test]
fn test_available_slots() {
    let mut manager = create_test_manager(); // max 3
    assert_eq!(manager.available_slots(), 3);

    manager.create_scan("scan_001", one_target(), "syn".to_string()).unwrap();
    manager.update_status("scan_001", ScanStatus::Running).unwrap();

    assert_eq!(manager.available_slots(), 2);
}

#[test]
fn the_limit_counts_waiting_scans_too() {
    let mut manager = create_test_manager(); // max 3
    for i in 0..3 {
        let id = format!("scan_{i}");
        manager.create_scan_if_allowed(&id, one_target(), "syn".to_string()).unwrap();
    }
    assert!(!manager.can_start_scan());
    assert_eq!(manager.available_slots(), 3);
    manager.cancel_scan("scan_1").unwrap();
    assert!(manager.can_start_scan());
    assert!(matches!(
        manager.create_scan_if_allowed("scan_1", one_target(), "syn".to_string()),
        Err(ApiError::ScanAlreadyExists(_))
    ));
}

#[test]
fn times_of_a_scan() {
    let mut manager = create_test_manager();
    manager.create_scan_at("a", one_target(), "syn".to_string(), at(10)).unwrap();
    manager.update_status_at("a", ScanStatus::Running, at(20)).unwrap();
    manager.update_status_at("a", ScanStatus::Running, at(30)).unwrap();
    manager.update_status_at("a", ScanStatus::Failed, at(40)).unwrap();
    let task = manager.get_scan_summary("a").unwrap();
    assert_eq!(task.created_at, at(10));
    assert_eq!(task.started_at, Some(at(20)));
    assert_eq!(task.completed_at, Some(at(40)));
    assert_eq!(task.status, ScanStatus::Failed);
}

#[test]
fn the_clock_is_read() {
    let task = ScanTask::new("a".to_string(), one_target(), "syn".to_string());
    // Later than the beginning of 2020.
    assert!(task.created_at.secs > 1_577_836_800);
    assert!(task.created_at.nanos < 1_000_000_000);
}

#[test]
fn results_are_replaced() {
    let mut manager = create_test_manager();
    for id in ["a", "b"] {
        manager.create_scan(id, one_target(), "syn".to_string()).unwrap();
        manager.store_results(id, results_for(id)).unwrap();
    }
    let mut again = results_for("a");
    again.started_at = at(77);
    manager.store_results("a", again).unwrap();
    assert_eq!(manager.get_scan_results("a").unwrap().started_at, at(77));
    assert_eq!(manager.get_scan_results("b").unwrap().started_at, at(1));
    assert!(manager.get_scan_results("c").is_none());
}

#[test]
fn updates_do_not_touch_other_scans() {
    let mut manager = create_test_manager();
    for id in ["a", "b", "c", "d", "e", "f", "g", "h"] {
        manager.create_scan(id, one_target(), format!("type {id}")).unwrap();
    }
    manager.update_status("c", ScanStatus::Running).unwrap();
    for id in ["a", "b", "d", "e", "f", "g", "h"] {
        let task = manager.get_scan_summary(id).unwrap();
        assert_eq!(task.status, ScanStatus::Queued);
        assert_eq!(task.scan_type, format!("type {id}"));
    }
    assert_eq!(manager.queued_count(), 7);
    assert_eq!(manager.list_scans().len(), 8);
}

#[test]
fn the_default_manager() {
    let manager = ScanManager::default("fresh-key".to_string());
    assert_eq!(manager.max_concurrent_scans(), 5);
    assert_eq!(manager.config().listen_addr, "127.0.0.1:8080");
    assert!(manager.is_sse_enabled());
    assert_eq!(manager.result_retention(), 86_400_000_000_000);
    assert!(manager.validate_api_key("fresh-key"));
    assert!(!manager.validate_api_key(""));
    let config = ApiConfig::default("k".to_string());
    assert_eq!(config.listen_addr, "127.0.0.1:8080");
    assert_eq!(config.api_keys, ["k"]);
    // Keys that are set replace the fresh one.
    let config = ApiConfig::new("k".to_string()).with_api_keys(vec!["l".to_string()]);
    assert!(config.is_valid_key("l") && !config.is_valid_key("k"));
}

#[test]
fn the_runner_takes_one_scan_at_a_time() {
    let mut manager = create_test_manager();
    assert!(process_queued_scans(&mut manager).is_none());
    manager.create_scan("a", one_target(), "fin".to_string()).unwrap();
    manager.create_scan("b", one_target(), "fin".to_string()).unwrap();
    assert!(find_queued(&manager).is_some());
    let first = process_queued_scans(&mut manager).unwrap();
    assert_eq!(first.targets, one_target());
    assert_eq!(first.scan_type, "fin");
    assert_eq!(manager.get_scan_summary(&first.id).unwrap().status, ScanStatus::Running);
    assert_eq!((manager.active_count(), manager.queued_count()), (1, 1));
    let second = process_queued_scans(&mut manager).unwrap();
    assert_ne!(first.id, second.id);
    assert!(process_queued_scans(&mut manager).is_none());

    let result = ScanResult {
        metadata: ScanMetadata {
            scanner_version: "0.1.0".to_string(),
            command_line: String::new(),
            start_time: at(5),
            end_time: at(9),
            elapsed: 4_000_000_000,
            scan_type: ScanType::TcpFin,
            protocol: Protocol::Tcp,
        },
        hosts: vec![],
        statistics: no_statistics(),
        errors: vec![],
    };
    scan_finished(&mut manager, &first.id, Ok(result));
    let stored = manager.get_scan_results(&first.id).unwrap();
    assert_eq!(stored.id, first.id);
    assert_eq!((stored.started_at, stored.completed_at), (at(5), Some(at(9))));
    assert_eq!(manager.get_scan_summary(&first.id).unwrap().status, ScanStatus::Completed);
    scan_finished(&mut manager, &second.id, Err("no route".to_string()));
    assert_eq!(manager.get_scan_summary(&second.id).unwrap().status, ScanStatus::Failed);
    assert!(!manager.has_results(&second.id));
    scan_finished(&mut manager, "unknown", Err("no route".to_string()));
    assert!(manager.get_scan_summary("unknown").is_none());
    assert_eq!(POLL_INTERVAL, 500_000_000);
}

#[test]
fn names_of_scan_types() {
    let types = [
        ("syn", ScanType::TcpSyn),
        ("connect", ScanType::TcpConnect),
        ("fin", ScanType::TcpFin),
        ("null", ScanType::TcpNull),
        ("xmas", ScanType::TcpXmas),
        ("ack", ScanType::TcpAck),
        ("window", ScanType::TcpWindow),
        ("maimon", ScanType::TcpMaimon),
        ("udp", ScanType::Udp),
        ("sctp_init", ScanType::SctpInit),
    ];
    for (name, scan_type) in types {
        assert_eq!(parse_scan_type(name), Ok(scan_type));
    }
    assert_eq!(parse_scan_type("SYN"), Err("Unsupported scan type: SYN".to_string()));
}

#[test]
fn what_a_scan_is_executed_with() {
    let targets = vec!["10.0.0.1".to_string(), "10.0.0.2".to_string()];
    let (config, text) = execute_scan(&targets, "udp").unwrap();
    assert_eq!(config.scan_types, [ScanType::Udp]);
    assert!(config.host_discovery);
    assert_eq!(text, "10.0.0.1,10.0.0.2");
    assert!(execute_scan(&targets, "idle").is_err());
    assert_eq!(failure_text(ScanStage::Targets, "a", "x"), "Invalid targets: x");
    assert_eq!(
        failure_text(ScanStage::Session, "a", "x"),
        "Failed to create scan session for a: x"
    );
    assert_eq!(failure_text(ScanStage::Execution, "a", "x"), "Scan execution failed: x");
}

#[test]
fn keys_from_the_environment() {
    assert_eq!(split_keys("a,b"), ["a", "b"]);
    assert_eq!(split_keys(" a ,, \t b\u{3000}, "), ["a", "b"]);
    assert_eq!(split_keys("two words"), ["two words"]);
    assert!(split_keys("").is_empty());
    assert!(split_keys(" , ").is_empty());
    let fresh = || "fresh".to_string();
    let config =
        server_config(Some("0.0.0.0:1".to_string()), Some("k1, k2".to_string()), fresh());
    assert_eq!(config.listen_addr, "0.0.0.0:1");
    assert_eq!(config.api_keys, ["k1", "k2"]);
    assert!(config.is_valid_key("k2"));
    assert!(!config.is_valid_key(" k2"));
    let plain = server_config(None, Some(",".to_string()), fresh());
    assert_eq!(plain.listen_addr, "127.0.0.1:8080");
    assert_eq!(plain.api_keys, ["fresh"]);
    assert_eq!(plain.max_concurrent_scans, 5);
    assert_eq!(server_config(None, None, fresh()).api_keys, ["fresh"]);
}

#[test]
fn responses() {
    let good = ApiResponse::success(5);
    assert!(good.success);
    assert_eq!((good.data, good.error), (Some(5), None));
    let bad: ApiResponse<u8> = ApiResponse::error("no");
    assert!(!bad.success);
    assert_eq!((bad.data, bad.error), (None, Some("no".to_string())));
    let health = HealthResponse::default();
    assert_eq!(health.status, "healthy");
    assert_eq!(health.version, "0.1.0");
    assert_eq!(default_scan_type(), "syn");
    let request = CreateScanRequest::new(one_target(), None, None);
    assert_eq!(request.scan_type, "syn");
    assert!(!request.options.service_detection);
    assert!(ScanOptions::default().ports.is_none());
}

#[test]
fn names_of_statuses() {
    assert_eq!(ScanStatus::Queued.to_text(), "queued");
    assert_eq!(ScanStatus::Running.to_text(), "running");
    assert_eq!(ScanStatus::Completed.to_text(), "completed");
    assert_eq!(ScanStatus::Cancelled.to_text(), "cancelled");
    assert_eq!(ScanStatus::Failed.to_text(), "failed");
    assert_eq!(ScanStatus::from(ManagedStatus::Failed), ScanStatus::Failed);
    assert_eq!(ScanStatus::from(ManagedStatus::Running), ScanStatus::Running);
}
