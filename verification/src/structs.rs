//! Request and response payloads of the scanner's management API, and
//! the job handles that pair with the polling waiter.

use crate::error::Error;
use crate::parser;
use crate::text::str_eq;
use crate::VulnScanner;
use crate::Waitable;
use core::time::Duration;
use vstd::prelude::*;

verus! {

/// Listing of the policy templates the server offers.
#[derive(Debug, Clone, PartialEq)]
pub struct PolicyReponse {
    pub templates: Vec<Policy>,
}

/// One policy template.
#[derive(Debug, Clone, PartialEq)]
pub struct Policy {
    pub desc: String,
    pub title: String,
    pub name: String,
    pub subscription_only: bool,
    pub uuid: String,
    pub cloud_only: Option<bool>,
}

/// Payload for creating a scan from a template and settings.
#[derive(Debug, Clone, PartialEq)]
pub struct CreateScanRequest {
    pub uuid: String,
    pub settings: ScanSettings,
}

/// The server's answer to a scan creation.
#[derive(Debug, Clone, PartialEq)]
pub struct CreateScanResponse {
    pub uuid: String,
}

/// Settings of a scan to create.
#[derive(Debug, Clone, PartialEq)]
pub struct ScanSettings {
    /// The name of the scan
    pub name: String,
    /// The description of the scan
    pub description: Option<String>,
    /// The unique id of the policy to use
    pub policy_id: Option<u32>,
    /// The unique id of the destination folder for the scan
    pub folder_id: Option<u32>,
    /// The unique id of the scanner to use
    pub scanner_id: Option<u32>,
    /// If true, the schedule for the scan is enabled
    pub enabled: bool,
    /// When to launch the scan. (i.e. ON_DEMAND, DAILY, WEEKLY, MONTHLY, YEARLY)
    pub launch: Option<String>,
    /// The starting time and date for the scan (i.e. YYYYMMDDTHHMMSS)
    pub starttime: Option<String>,
    /// Expects a semi-colon delimited string comprised of three values: the
    /// frequency, the interval, and the days of the week on which to run.
    pub rrules: Option<String>,
    /// The timezone for the scan schedule
    pub timezone: Option<String>,
    /// The list of targets to scan
    pub text_targets: String,
    /// The name of a file containing the list of targets to scan
    pub file_targets: Option<String>,
    /// A comma separated list of accounts who will recieve the email summary report
    pub emails: Option<String>,
}

/// Payload for reconfiguring an existing scan.
#[derive(Debug, Clone, PartialEq)]
pub struct UpdateScanRequest {
    pub uuid: Option<String>,
    pub settings: ScanSettingsUpdate,
}

/// The server's answer to a scan reconfiguration.
#[derive(Debug, Clone, PartialEq)]
pub struct UpdateScanResponse {
    pub uuid: String,
}

/// Settings of a scan to reconfigure; unset fields keep their value.
#[derive(Debug, Clone, PartialEq)]
pub struct ScanSettingsUpdate {
    /// The name of the scan
    pub name: Option<String>,
    /// The description of the scan
    pub description: Option<String>,
    /// The unique id of the policy to use
    pub policy_id: Option<u32>,
    /// The unique id of the destination folder for the scan
    pub folder_id: Option<u32>,
    /// The unique id of the scanner to use
    pub scanner_id: Option<u32>,
    /// If true, the schedule for the scan is enabled
    pub enabled: bool,
    /// When to launch the scan. (i.e. ON_DEMAND, DAILY, WEEKLY, MONTHLY, YEARLY)
    pub launch: Option<String>,
    /// The starting time and date for the scan (i.e. YYYYMMDDTHHMMSS)
    pub starttime: Option<String>,
    /// Expects a semi-colon delimited string comprised of three values: the
    /// frequency, the interval, and the days of the week on which to run.
    pub rrules: Option<String>,
    /// The timezone for the scan schedule
    pub timezone: Option<String>,
    /// The list of targets to scan
    pub text_targets: String,
    /// The name of a file containing the list of targets to scan
    pub file_targets: Option<String>,
    /// A comma separated list of accounts who will recieve the email summary report
    pub emails: Option<String>,
}

/// Handle on a launched scan. The server names only the run's uuid; the
/// launching scan's id is attached locally so that later status queries
/// can name the scan — a documented widening of the server payload.
#[derive(Debug, Clone, PartialEq)]
pub struct ScanLaunchResponse {
    pub scan_uuid: String,
    pub scan_id: Option<u64>,
}

impl ScanLaunchResponse {
    /// Polls the scan's status until it is no longer running; see
    /// [`Waitable::wait`] for the polling contract.
    pub fn wait<V: VulnScanner>(
        &self,
        client: &V,
        interval: Duration,
        max_attempts: Option<u64>,
    ) -> Result<(), Error>
        requires
            self.scan_id is Some,
    {
        <ScanLaunchResponse as Waitable<V>>::wait(self, client, interval, max_attempts)
    }
}

impl<V: VulnScanner> Waitable<V> for ScanLaunchResponse {
    /// The locally attached scan id must be present before the handle can
    /// query the scan's status.
    open spec fn wf(&self) -> bool {
        self.scan_id is Some
    }

    /// The scan is pending while the server reports it running.
    fn is_pending(&self, client: &V) -> Result<bool, Error> {
        let details = match client.scan_details(self.scan_id.unwrap()) {
            Ok(d) => d,
            Err(e) => {
                return Err(e);
            },
        };
        Ok(details.is_running())
    }
}

/// Listing of scans and scan folders.
#[derive(Debug, Clone, PartialEq)]
pub struct ScanListResponse {
    pub folders: Vec<Folder>,
    pub scans: Vec<Scan>,
    pub timestamp: u64,
}

impl ScanListResponse {
    /// Narrows a listing to one folder: the folders with the given id and
    /// the scans filed under it, in listing order, with the listing
    /// timestamp kept.
    pub fn scan_folder(self, id: u64) -> (r: ScanListResponse)
        ensures
            r.folders@ == self.folders@.filter(|f: Folder| f.id == id),
            r.scans@ == self.scans@.filter(|s: Scan| s.folder_id == id),
            r.timestamp == self.timestamp,
    {
        let mut rest_folders = self.folders;
        let ghost all_folders = rest_folders@;
        let ghost fpred = |f: Folder| f.id == id;
        let mut folders: Vec<Folder> = Vec::new();
        let ghost mut seen: Seq<Folder> = Seq::empty();
        proof {
            assert(seen + rest_folders@ =~= all_folders);
            assert(seen.filter(fpred) =~= folders@);
        }
        while rest_folders.len() > 0
            invariant
                seen + rest_folders@ == all_folders,
                folders@ == seen.filter(fpred),
                fpred == (|f: Folder| f.id == id),
            decreases rest_folders@.len(),
        {
            let f = rest_folders.remove(0);
            proof {
                let prev = seen;
                seen = seen.push(f);
                assert(seen.drop_last() =~= prev);
                assert(seen + rest_folders@ =~= all_folders);
                reveal(Seq::filter);
            }
            if f.id == id {
                folders.push(f);
            }
        }
        proof {
            assert(seen =~= all_folders);
        }
        let mut rest_scans = self.scans;
        let ghost all_scans = rest_scans@;
        let ghost spred = |s: Scan| s.folder_id == id;
        let mut scans: Vec<Scan> = Vec::new();
        let ghost mut seen_s: Seq<Scan> = Seq::empty();
        proof {
            assert(seen_s + rest_scans@ =~= all_scans);
            assert(seen_s.filter(spred) =~= scans@);
        }
        while rest_scans.len() > 0
            invariant
                seen_s + rest_scans@ == all_scans,
                scans@ == seen_s.filter(spred),
                spred == (|s: Scan| s.folder_id == id),
            decreases rest_scans@.len(),
        {
            let s = rest_scans.remove(0);
            proof {
                let prev = seen_s;
                seen_s = seen_s.push(s);
                assert(seen_s.drop_last() =~= prev);
                assert(seen_s + rest_scans@ =~= all_scans);
                reveal(Seq::filter);
            }
            if s.folder_id == id {
                scans.push(s);
            }
        }
        proof {
            assert(seen_s =~= all_scans);
        }
        ScanListResponse { folders, scans, timestamp: self.timestamp }
    }
}

/// One scan folder.
#[derive(Debug, Clone, PartialEq)]
pub struct Folder {
    pub unread_count: Option<u32>,
    pub custom: u32,
    pub default_tag: u32,
    pub folder_type: String,
    pub name: String,
    pub id: u64,
}

/// One scan in a listing.
#[derive(Debug, Clone, PartialEq)]
pub struct Scan {
    pub folder_id: u64,
    pub read: bool,
    pub last_modification_date: u64,
    pub creation_date: u64,
    pub status: String,
    pub uuid: Option<String>,
    pub shared: bool,
    pub user_permissions: u64,
    pub owner: String,
    pub timezone: Option<String>,
    pub rrules: Option<String>,
    pub starttime: Option<String>,
    pub control: bool,
    pub name: String,
    pub id: u64,
}

/// Details of one scan, with its per-host and per-plugin summaries.
#[derive(Debug, Clone, PartialEq)]
pub struct ScanDetails {
    pub info: ScanDetailsInfo,
    pub hosts: Vec<ScanDetailsHost>,
    pub comphosts: Vec<ScanDetailsHost>,
    pub vulnerabilities: Vec<ScanDetailsVulnerability>,
    pub compliance: Vec<ScanDetailsVulnerability>,
}

impl ScanDetails {
    /// The scan reached its terminal state: status is exactly "complete".
    pub fn is_complete(&self) -> (r: bool)
        ensures
            r == (self.info.status@ == "complete"@),
    {
        str_eq(self.info.status.as_str(), "complete")
    }

    /// The scan is still executing: status is exactly "running".
    pub fn is_running(&self) -> (r: bool)
        ensures
            r == (self.info.status@ == "running"@),
    {
        str_eq(self.info.status.as_str(), "running")
    }
}

/// General information of one scan.
#[derive(Debug, Clone, PartialEq)]
pub struct ScanDetailsInfo {
    pub edit_allowed: Option<bool>,
    pub status: String,
    pub policy: Option<String>,
    pub pci_can_upload: Option<bool>,
    pub hasaudittrail: Option<bool>,
    pub scan_start: Option<u64>,
    pub folder_id: u64,
    pub targets: Option<String>,
    pub timestamp: Option<u64>,
    pub object_id: u64,
    pub scanner_name: String,
    pub haskb: Option<bool>,
    pub uuid: Option<String>,
    pub hostcount: Option<u64>,
    pub name: String,
    pub user_permissions: u64,
    pub control: bool,
}

/// Per-host progress and per-severity counts of one scan.
#[derive(Debug, Clone, PartialEq)]
pub struct ScanDetailsHost {
    pub host_id: u64,
    pub host_index: u64,
    pub hostname: String,
    pub progress: String,
    pub critical: u64,
    pub high: u64,
    pub medium: u64,
    pub low: u64,
    pub info: u64,
    pub totalchecksconsidered: u64,
    pub numchecksconsidered: u64,
    pub scanprogresstotal: u64,
    pub scanprogresscurrent: u64,
    pub score: u64,
}

/// Per-plugin counts of one scan.
#[derive(Debug, Clone, PartialEq)]
pub struct ScanDetailsVulnerability {
    pub plugin_id: u64,
    pub plugin_name: String,
    pub plugin_family: String,
    pub count: u64,
    pub vuln_index: Option<u64>,
    pub severity_index: u64,
}

/// Handle on a report export job. The server names the rendered file and
/// a token; the exporting scan's id is attached locally so that later
/// status and download calls can name the scan — a documented widening
/// of the server payload.
#[derive(Debug, Clone, PartialEq)]
pub struct ExportToken {
    pub file: u64,
    pub token: String,
    pub scan_id: Option<u64>,
}

impl ExportToken {
    /// Polls the export's status until it is ready; see [`Waitable::wait`]
    /// for the polling contract.
    pub fn wait<V: VulnScanner>(
        &self,
        client: &V,
        interval: Duration,
        max_attempts: Option<u64>,
    ) -> Result<(), Error>
        requires
            self.scan_id is Some,
    {
        <ExportToken as Waitable<V>>::wait(self, client, interval, max_attempts)
    }

    /// Fetches and parses the rendered report document.
    pub fn download<V: VulnScanner>(&self, client: &V) -> Result<parser::NessusClientDatav2, Error>
        requires
            self.scan_id is Some,
    {
        client.download_export(self.scan_id.unwrap(), self.file)
    }
}

impl<V: VulnScanner> Waitable<V> for ExportToken {
    /// The locally attached scan id must be present before the handle can
    /// query the export's status.
    open spec fn wf(&self) -> bool {
        self.scan_id is Some
    }

    /// The export is pending until the server reports it ready.
    fn is_pending(&self, client: &V) -> Result<bool, Error> {
        let status = match client.export_status(self.scan_id.unwrap(), self.file) {
            Ok(s) => s,
            Err(e) => {
                return Err(e);
            },
        };
        Ok(!status.is_ready())
    }
}

/// Status of a report export job.
#[derive(Debug, Clone, PartialEq)]
pub struct ExportStatus {
    pub status: String,
}

impl ExportStatus {
    /// The export can be downloaded: status is exactly "ready".
    pub fn is_ready(&self) -> (r: bool)
        ensures
            r == (self.status@ == "ready"@),
    {
        str_eq(self.status.as_str(), "ready")
    }
}

} // verus!
