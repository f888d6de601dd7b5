use nessus::structs::{Folder, Scan, ScanDetails, ScanDetailsInfo, ScanListResponse};
use nessus::{status_is_success, wait_replay, WaitReport};

#[test]
fn it_works() {
}

fn info_with_status(status: &str) -> ScanDetailsInfo {
    ScanDetailsInfo {
        edit_allowed: None,
        status: status.to_owned(),
        policy: None,
        pci_can_upload: None,
        hasaudittrail: None,
        scan_start: None,
        folder_id: 1,
        targets: None,
        timestamp: None,
        object_id: 1,
        scanner_name: "local".to_owned(),
        haskb: None,
        uuid: None,
        hostcount: None,
        name: "scan".to_owned(),
        user_permissions: 0,
        control: false,
    }
}

fn details_with_status(status: &str) -> ScanDetails {
    ScanDetails {
        info: info_with_status(status),
        hosts: vec![],
        comphosts: vec![],
        vulnerabilities: vec![],
        compliance: vec![],
    }
}

#[test]
fn scan_status_predicates() {
    assert!(details_with_status("complete").is_complete());
    assert!(!details_with_status("complete").is_running());
    assert!(details_with_status("running").is_running());
    assert!(!details_with_status("running").is_complete());
    assert!(!details_with_status("paused").is_running());
    assert!(!details_with_status("paused").is_complete());
}

#[test]
fn export_status_ready() {
    let ready = nessus::structs::ExportStatus { status: "ready".to_owned() };
    let loading = nessus::structs::ExportStatus { status: "loading".to_owned() };
    assert!(ready.is_ready());
    assert!(!loading.is_ready());
}

#[test]
fn success_status_codes() {
    assert!(status_is_success(200));
    assert!(status_is_success(201));
    assert!(!status_is_success(204));
    assert!(!status_is_success(404));
    assert!(!status_is_success(500));
}

fn folder(id: u64, name: &str) -> Folder {
    Folder {
        unread_count: None,
        custom: 0,
        default_tag: 0,
        folder_type: "custom".to_owned(),
        name: name.to_owned(),
        id,
    }
}

fn scan(id: u64, folder_id: u64, name: &str) -> Scan {
    Scan {
        folder_id,
        read: true,
        last_modification_date: 0,
        creation_date: 0,
        status: "complete".to_owned(),
        uuid: None,
        shared: false,
        user_permissions: 0,
        owner: "admin".to_owned(),
        timezone: None,
        rrules: None,
        starttime: None,
        control: false,
        name: name.to_owned(),
        id,
    }
}

#[test]
fn scan_folder_filters_and_keeps_order() {
    let listing = ScanListResponse {
        folders: vec![folder(1, "a"), folder(2, "b"), folder(1, "c")],
        scans: vec![scan(10, 1, "x"), scan(11, 2, "y"), scan(12, 1, "z")],
        timestamp: 42,
    };
    let narrowed = listing.scan_folder(1);
    assert_eq!(narrowed.timestamp, 42);
    assert_eq!(narrowed.folders.len(), 2);
    assert_eq!(narrowed.folders[0].name, "a");
    assert_eq!(narrowed.folders[1].name, "c");
    assert_eq!(narrowed.scans.len(), 2);
    assert_eq!(narrowed.scans[0].name, "x");
    assert_eq!(narrowed.scans[1].name, "z");
}

#[test]
fn scan_folder_empty_result() {
    let listing = ScanListResponse {
        folders: vec![folder(1, "a")],
        scans: vec![scan(10, 1, "x")],
        timestamp: 7,
    };
    let narrowed = listing.scan_folder(9);
    assert_eq!(narrowed.folders.len(), 0);
    assert_eq!(narrowed.scans.len(), 0);
    assert_eq!(narrowed.timestamp, 7);
}

#[test]
fn replay_always_pending_times_out() {
    // an attempt budget of 3 admits exactly 4 checks with 3 sleeps between
    let verdicts = vec![true, true, true, true];
    assert_eq!(
        wait_replay(&verdicts, Some(3)),
        WaitReport::TimedOut { checks: 4, sleeps: 3 }
    );
}

#[test]
fn replay_zero_budget_still_checks_once() {
    let verdicts = vec![true];
    assert_eq!(
        wait_replay(&verdicts, Some(0)),
        WaitReport::TimedOut { checks: 1, sleeps: 0 }
    );
}

#[test]
fn replay_detects_on_kth_check() {
    let verdicts = vec![true, true, false];
    assert_eq!(
        wait_replay(&verdicts, Some(10)),
        WaitReport::Done { checks: 3, sleeps: 2 }
    );
    assert_eq!(
        wait_replay(&verdicts, None),
        WaitReport::Done { checks: 3, sleeps: 2 }
    );
}

#[test]
fn replay_first_check_success_never_sleeps() {
    let verdicts = vec![false];
    assert_eq!(
        wait_replay(&verdicts, Some(5)),
        WaitReport::Done { checks: 1, sleeps: 0 }
    );
}

#[test]
fn replay_unbounded_budget_keeps_running() {
    let verdicts = vec![true, true, true, true, true, true];
    assert_eq!(wait_replay(&verdicts, None), WaitReport::Running);
}

#[test]
fn parse_u64_accepts_digits() {
    assert_eq!(nessus::text::parse_u64("3"), Some(3));
    assert_eq!(nessus::text::parse_u64("0"), Some(0));
    assert_eq!(nessus::text::parse_u64("101322"), Some(101322));
    assert_eq!(nessus::text::parse_u64("18446744073709551615"), Some(u64::MAX));
}

#[test]
fn parse_u64_rejects_non_numbers() {
    assert_eq!(nessus::text::parse_u64(""), None);
    assert_eq!(nessus::text::parse_u64("High"), None);
    assert_eq!(nessus::text::parse_u64("3a"), None);
    assert_eq!(nessus::text::parse_u64("-3"), None);
    assert_eq!(nessus::text::parse_u64(" 3"), None);
    assert_eq!(nessus::text::parse_u64("18446744073709551616"), None);
}
