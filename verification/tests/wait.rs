use nessus::parser::NessusClientDatav2;
use nessus::structs::{
    CreateScanResponse, ExportStatus, ExportToken, PolicyReponse, ScanDetails, ScanDetailsInfo,
    ScanLaunchResponse, ScanListResponse, ScanSettings, ScanSettingsUpdate, UpdateScanResponse,
};
use nessus::{Error, VulnScanner};
use std::cell::{Cell, RefCell};
use std::time::Duration;

fn details_with_status(status: &str) -> ScanDetails {
    ScanDetails {
        info: ScanDetailsInfo {
            edit_allowed: None,
            status: status.to_owned(),
            policy: None,
            pci_can_upload: None,
            hasaudittrail: None,
            scan_start: None,
            folder_id: 1,
            targets: None,
            timestamp: None,
            object_id: 1,
            scanner_name: "local".to_owned(),
            haskb: None,
            uuid: None,
            hostcount: None,
            name: "scan".to_owned(),
            user_permissions: 0,
            control: false,
        },
        hosts: vec![],
        comphosts: vec![],
        vulnerabilities: vec![],
        compliance: vec![],
    }
}

/// A scanner double that replays a fixed sequence of status answers and
/// counts the checks and pauses the waiter performs.
struct ScriptedScanner {
    statuses: RefCell<Vec<&'static str>>,
    fail_next: Cell<bool>,
    checks: Cell<usize>,
    sleeps: Cell<usize>,
}

impl ScriptedScanner {
    fn new(statuses: Vec<&'static str>) -> ScriptedScanner {
        ScriptedScanner {
            statuses: RefCell::new(statuses),
            fail_next: Cell::new(false),
            checks: Cell::new(0),
            sleeps: Cell::new(0),
        }
    }

    fn next_status(&self) -> &'static str {
        let mut s = self.statuses.borrow_mut();
        if s.is_empty() {
            "running"
        } else {
            s.remove(0)
        }
    }
}

impl VulnScanner for ScriptedScanner {
    fn list_policies(&self) -> Result<PolicyReponse, Error> {
        unreachable!()
    }

    fn create_scan(
        &self,
        _template_uuid: &str,
        _settings: ScanSettings,
    ) -> Result<CreateScanResponse, Error> {
        unreachable!()
    }

    fn configure_scan(
        &self,
        _scan_id: u64,
        _template_uuid: Option<String>,
        _settings: ScanSettingsUpdate,
    ) -> Result<UpdateScanResponse, Error> {
        unreachable!()
    }

    fn delete_history(&self, _scan_id: u64, _history_id: u64) -> Result<(), Error> {
        unreachable!()
    }

    fn delete_scan(&self, _scan_id: u64) -> Result<(), Error> {
        unreachable!()
    }

    fn launch_scan(&self, _id: u64) -> Result<ScanLaunchResponse, Error> {
        unreachable!()
    }

    fn stop_scan(&self, _id: u64) -> Result<(), Error> {
        unreachable!()
    }

    fn pause_scan(&self, _id: u64) -> Result<(), Error> {
        unreachable!()
    }

    fn resume_scan(&self, _id: u64) -> Result<(), Error> {
        unreachable!()
    }

    fn scan_details(&self, _id: u64) -> Result<ScanDetails, Error> {
        if self.fail_next.get() {
            return Err(Error::Http("connection reset".to_owned()));
        }
        self.checks.set(self.checks.get() + 1);
        Ok(details_with_status(self.next_status()))
    }

    fn list_scans(&self) -> Result<ScanListResponse, Error> {
        unreachable!()
    }

    fn list_scan_folder(&self, _id: u64) -> Result<ScanListResponse, Error> {
        unreachable!()
    }

    fn export_scan(&self, _scan_id: u64) -> Result<ExportToken, Error> {
        unreachable!()
    }

    fn export_status(&self, _scan_id: u64, _file_id: u64) -> Result<ExportStatus, Error> {
        self.checks.set(self.checks.get() + 1);
        Ok(ExportStatus { status: self.next_status().to_owned() })
    }

    fn download_export_raw(&self, _scan_id: u64, _file_id: u64) -> Result<String, Error> {
        unreachable!()
    }

    fn download_export(&self, _scan_id: u64, _file_id: u64) -> Result<NessusClientDatav2, Error> {
        Err(Error::Http("no export here".to_owned()))
    }

    fn pause(&self, _interval: Duration) {
        self.sleeps.set(self.sleeps.get() + 1);
    }
}

fn launch_handle() -> ScanLaunchResponse {
    ScanLaunchResponse { scan_uuid: "uuid".to_owned(), scan_id: Some(1) }
}

#[test]
fn wait_always_pending_times_out_after_budget() {
    let client = ScriptedScanner::new(vec![]);
    let r = launch_handle().wait(&client, Duration::from_millis(1), Some(3));
    assert!(matches!(r, Err(Error::WaitTimeout)));
    // a budget of 3 admits exactly 4 checks, with a sleep between each pair
    assert_eq!(client.checks.get(), 4);
    assert_eq!(client.sleeps.get(), 3);
}

#[test]
fn wait_zero_budget_still_checks_once() {
    let client = ScriptedScanner::new(vec![]);
    let r = launch_handle().wait(&client, Duration::from_millis(1), Some(0));
    assert!(matches!(r, Err(Error::WaitTimeout)));
    assert_eq!(client.checks.get(), 1);
    assert_eq!(client.sleeps.get(), 0);
}

#[test]
fn wait_succeeds_on_kth_check_and_sleeps_k_minus_one_times() {
    let client = ScriptedScanner::new(vec!["running", "running", "complete"]);
    let r = launch_handle().wait(&client, Duration::from_millis(1), Some(10));
    assert!(r.is_ok());
    assert_eq!(client.checks.get(), 3);
    assert_eq!(client.sleeps.get(), 2);
}

#[test]
fn wait_without_budget_runs_until_not_pending() {
    let client = ScriptedScanner::new(vec!["running", "running", "running", "running", "paused"]);
    let r = launch_handle().wait(&client, Duration::from_millis(1), None);
    assert!(r.is_ok());
    assert_eq!(client.checks.get(), 5);
    assert_eq!(client.sleeps.get(), 4);
}

#[test]
fn wait_propagates_predicate_error_without_retry() {
    let client = ScriptedScanner::new(vec![]);
    client.fail_next.set(true);
    let r = launch_handle().wait(&client, Duration::from_millis(1), Some(5));
    assert!(matches!(r, Err(Error::Http(_))));
    assert_eq!(client.checks.get(), 0);
    assert_eq!(client.sleeps.get(), 0);
}

#[test]
fn export_wait_polls_until_ready() {
    let client = ScriptedScanner::new(vec!["loading", "loading", "ready"]);
    let token = ExportToken { file: 7, token: "t".to_owned(), scan_id: Some(1) };
    let r = token.wait(&client, Duration::from_millis(1), Some(40));
    assert!(r.is_ok());
    assert_eq!(client.checks.get(), 3);
    assert_eq!(client.sleeps.get(), 2);
}

#[test]
fn export_download_delegates_to_client() {
    let client = ScriptedScanner::new(vec![]);
    let token = ExportToken { file: 7, token: "t".to_owned(), scan_id: Some(1) };
    let r = token.download(&client);
    assert!(matches!(r, Err(Error::Http(_))));
}
