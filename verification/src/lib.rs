//! Client library for a vulnerability scanner's management API, together
//! with a verified parser for the scanner's exported report documents and
//! an extractor that mines upgrade advisories from plugin narratives.
//!
//! The remote transport itself is out of scope here: it is reached only
//! through the [`VulnScanner`] trait, whose methods an unverified client
//! implements. Everything that decides or computes — the report parser,
//! the advisory extractor, and the polling policy — lives in this crate
//! and carries contracts.

use vstd::prelude::*;

pub mod error;
pub mod parser;
pub mod structs;
pub mod text;

pub use error::Error;

use core::time::Duration;

verus! {

/// Outcome of a bounded polling run, as a function of the sequence of
/// pending verdicts the status predicate reported, one per check.
pub enum WaitOutcome {
    /// The predicate reported not-pending; `checks` checks were performed
    /// and `sleeps` sleeps separated them.
    Done { checks: nat, sleeps: nat },
    /// The attempt budget ran out while the predicate still reported pending.
    TimedOut { checks: nat, sleeps: nat },
    /// Every verdict so far reported pending and budget remains: the wait
    /// goes on past this prefix of verdicts.
    Running,
}

/// The polling loop's behaviour on a prefix of pending verdicts
/// (`true` = still pending), with an optional attempt budget.
///
/// The first not-pending verdict ends the run successfully. A pending
/// verdict with an exhausted budget ends it in timeout; otherwise one
/// sleep follows and the run continues on the remaining verdicts. A
/// budget of `Some(0)` still admits one check before timing out.
pub open spec fn wait_run(verdicts: Seq<bool>, budget: Option<u64>) -> WaitOutcome
    decreases verdicts.len(),
{
    if verdicts.len() == 0 {
        WaitOutcome::Running
    } else if !verdicts[0] {
        WaitOutcome::Done { checks: 1, sleeps: 0 }
    } else {
        match budget {
            Some(b) => {
                if b == 0 {
                    WaitOutcome::TimedOut { checks: 1, sleeps: 0 }
                } else {
                    wait_run_later(wait_run(verdicts.drop_first(), Some((b - 1) as u64)))
                }
            },
            None => wait_run_later(wait_run(verdicts.drop_first(), None)),
        }
    }
}

/// Accounts for one pending check followed by one sleep before the rest
/// of the run.
pub open spec fn wait_run_later(rest: WaitOutcome) -> WaitOutcome {
    match rest {
        WaitOutcome::Done { checks, sleeps } => WaitOutcome::Done {
            checks: checks + 1,
            sleeps: sleeps + 1,
        },
        WaitOutcome::TimedOut { checks, sleeps } => WaitOutcome::TimedOut {
            checks: checks + 1,
            sleeps: sleeps + 1,
        },
        WaitOutcome::Running => WaitOutcome::Running,
    }
}

/// A waiter whose predicate always reports pending performs exactly
/// `b + 1` checks under a budget of `Some(b)` — at least one check even
/// when the budget is zero — sleeps between consecutive checks only,
/// and ends in timeout.
pub proof fn lemma_wait_all_pending_bounded(verdicts: Seq<bool>, b: u64)
    requires
        verdicts.len() == b + 1,
        forall|i: int| 0 <= i < verdicts.len() ==> verdicts[i],
    ensures
        wait_run(verdicts, Some(b)) == (WaitOutcome::TimedOut {
            checks: (b + 1) as nat,
            sleeps: b as nat,
        }),
    decreases b,
{
    if b == 0 {
        assert(verdicts[0]);
    } else {
        lemma_wait_all_pending_bounded(verdicts.drop_first(), (b - 1) as u64);
    }
}

/// A waiter without an attempt budget whose predicate always reports
/// pending is still running after any number of checks: it never ends.
pub proof fn lemma_wait_all_pending_unbounded(verdicts: Seq<bool>)
    requires
        forall|i: int| 0 <= i < verdicts.len() ==> verdicts[i],
    ensures
        wait_run(verdicts, None) == WaitOutcome::Running,
    decreases verdicts.len(),
{
    if verdicts.len() > 0 {
        lemma_wait_all_pending_unbounded(verdicts.drop_first());
    }
}

/// A waiter whose predicate reports not-pending on the k-th check, with
/// every budget — `None`, or `Some(b)` with `k <= b + 1` — performs
/// exactly `k` checks, sleeps exactly `k - 1` times, and succeeds.
pub proof fn lemma_wait_detects_kth(verdicts: Seq<bool>, budget: Option<u64>)
    requires
        verdicts.len() >= 1,
        forall|i: int| 0 <= i < verdicts.len() - 1 ==> verdicts[i],
        !verdicts[verdicts.len() - 1],
        budget matches Some(b) ==> verdicts.len() <= b + 1,
    ensures
        wait_run(verdicts, budget) == (WaitOutcome::Done {
            checks: verdicts.len(),
            sleeps: (verdicts.len() - 1) as nat,
        }),
    decreases verdicts.len(),
{
    if verdicts.len() > 1 {
        let rest = verdicts.drop_first();
        assert(!rest[rest.len() - 1]);
        match budget {
            Some(b) => lemma_wait_detects_kth(rest, Some((b - 1) as u64)),
            None => lemma_wait_detects_kth(rest, None),
        }
    }
}

/// `wait_run` on a prefix of all-pending verdicts that the budget still
/// admits is `Running`: the loop has not decided yet.
proof fn lemma_wait_prefix_running(verdicts: Seq<bool>, budget: Option<u64>)
    requires
        forall|i: int| 0 <= i < verdicts.len() ==> verdicts[i],
        budget matches Some(b) ==> verdicts.len() <= b,
    ensures
        wait_run(verdicts, budget) == WaitOutcome::Running,
    decreases verdicts.len(),
{
    if verdicts.len() > 0 {
        match budget {
            Some(b) => lemma_wait_prefix_running(verdicts.drop_first(), Some((b - 1) as u64)),
            None => lemma_wait_prefix_running(verdicts.drop_first(), None),
        }
    }
}

/// Exec image of a decided [`WaitOutcome`]: how a finite polling run
/// ended and how many checks and sleeps it performed.
#[derive(Debug, Clone, PartialEq)]
pub enum WaitReport {
    Done { checks: u64, sleeps: u64 },
    TimedOut { checks: u64, sleeps: u64 },
    Running,
}

impl WaitReport {
    /// The spec outcome this report stands for.
    pub open spec fn view(&self) -> WaitOutcome {
        match *self {
            WaitReport::Done { checks, sleeps } => WaitOutcome::Done {
                checks: checks as nat,
                sleeps: sleeps as nat,
            },
            WaitReport::TimedOut { checks, sleeps } => WaitOutcome::TimedOut {
                checks: checks as nat,
                sleeps: sleeps as nat,
            },
            WaitReport::Running => WaitOutcome::Running,
        }
    }
}

/// Replays the polling policy on a recorded prefix of pending verdicts:
/// the decision core of the waiter, as a function of data alone.
///
/// `verdicts[i]` is what the status predicate reported on the i-th check.
/// The result says how a waiter with the given attempt budget would have
/// ended on those answers, and how many checks and sleeps it performed.
pub fn wait_replay(verdicts: &Vec<bool>, max_attempts: Option<u64>) -> (r: WaitReport)
    requires
        verdicts@.len() <= u64::MAX,
    ensures
        r.view() == wait_run(verdicts@, max_attempts),
{
    let mut checks: u64 = 0;
    let mut left = max_attempts;
    let n = verdicts.len();
    let mut i: usize = 0;
    while i < n
        invariant
            n == verdicts@.len() <= u64::MAX,
            0 <= i <= n,
            checks == i,
            forall|j: int| 0 <= j < i ==> verdicts@[j],
            match (max_attempts, left) {
                (Some(b), Some(l)) => l <= b && i == b - l,
                (None, None) => true,
                _ => false,
            },
        decreases n - i,
    {
        let pending = verdicts[i];
        proof {
            if !pending {
                lemma_wait_decided(verdicts@, max_attempts, i as int, false);
            }
        }
        if !pending {
            return WaitReport::Done { checks: checks + 1, sleeps: checks };
        }
        match left {
            Some(l) => {
                if l == 0 {
                    proof {
                        lemma_wait_decided(verdicts@, max_attempts, i as int, true);
                    }
                    return WaitReport::TimedOut { checks: checks + 1, sleeps: checks };
                }
                left = Some(l - 1);
            },
            None => {},
        }
        checks = checks + 1;
        i = i + 1;
    }
    proof {
        lemma_wait_prefix_running_of(verdicts@, max_attempts, n as int);
    }
    WaitReport::Running
}

/// On an all-pending strict prefix of length `k` that the budget admits,
/// the k-th verdict decides the run: not-pending ends it in `Done` after
/// `k + 1` checks, an exhausted budget ends it in `TimedOut`.
proof fn lemma_wait_decided(verdicts: Seq<bool>, budget: Option<u64>, k: int, timeout: bool)
    requires
        0 <= k < verdicts.len(),
        forall|i: int| 0 <= i < k ==> verdicts[i],
        if timeout {
            verdicts[k] && (budget matches Some(b) && b == k)
        } else {
            !verdicts[k] && (budget matches Some(b) ==> k <= b)
        },
    ensures
        wait_run(verdicts, budget) == if timeout {
            WaitOutcome::TimedOut { checks: (k + 1) as nat, sleeps: k as nat }
        } else {
            WaitOutcome::Done { checks: (k + 1) as nat, sleeps: k as nat }
        },
    decreases k,
{
    if k == 0 {
    } else {
        let rest = verdicts.drop_first();
        match budget {
            Some(b) => lemma_wait_decided(rest, Some((b - 1) as u64), k - 1, timeout),
            None => lemma_wait_decided(rest, None, k - 1, timeout),
        }
    }
}

/// An all-pending prefix that exhausts neither the verdicts nor the
/// budget leaves the run `Running`.
proof fn lemma_wait_prefix_running_of(verdicts: Seq<bool>, budget: Option<u64>, n: int)
    requires
        n == verdicts.len(),
        forall|i: int| 0 <= i < n ==> verdicts[i],
        budget matches Some(b) ==> n <= b,
    ensures
        wait_run(verdicts, budget) == WaitOutcome::Running,
{
    lemma_wait_prefix_running(verdicts, budget);
}

/// The scanner's management interface, as far as this library needs it.
///
/// Implementations talk to the remote service; nothing is promised of
/// their results, and the verified code that consumes those results
/// states what it does for every value of them.
pub trait VulnScanner: Sized {
    fn list_policies(&self) -> Result<structs::PolicyReponse, Error>;

    fn create_scan(&self, template_uuid: &str, settings: structs::ScanSettings) -> Result<
        structs::CreateScanResponse,
        Error,
    >;

    fn configure_scan(
        &self,
        scan_id: u64,
        template_uuid: Option<String>,
        settings: structs::ScanSettingsUpdate,
    ) -> Result<structs::UpdateScanResponse, Error>;

    fn delete_history(&self, scan_id: u64, history_id: u64) -> Result<(), Error>;

    fn delete_scan(&self, scan_id: u64) -> Result<(), Error>;

    fn launch_scan(&self, id: u64) -> Result<structs::ScanLaunchResponse, Error>;

    fn stop_scan(&self, id: u64) -> Result<(), Error>;

    fn pause_scan(&self, id: u64) -> Result<(), Error>;

    fn resume_scan(&self, id: u64) -> Result<(), Error>;

    fn scan_details(&self, id: u64) -> Result<structs::ScanDetails, Error>;

    fn list_scans(&self) -> Result<structs::ScanListResponse, Error>;

    fn list_scan_folder(&self, id: u64) -> Result<structs::ScanListResponse, Error>;

    fn export_scan(&self, scan_id: u64) -> Result<structs::ExportToken, Error>;

    fn export_status(&self, scan_id: u64, file_id: u64) -> Result<structs::ExportStatus, Error>;

    fn download_export_raw(&self, scan_id: u64, file_id: u64) -> Result<String, Error>;

    fn download_export(&self, scan_id: u64, file_id: u64) -> Result<
        parser::NessusClientDatav2,
        Error,
    >;

    /// Blocks the caller for one poll interval. The waiter calls this
    /// between two checks, and never after the last one.
    fn pause(&self, interval: Duration);
}

/// A handle on a long-running server-side job that can answer, through a
/// scanner client, whether the job is still pending.
pub trait Waitable<V: VulnScanner>: Sized {
    /// When the handle carries everything a pending query needs.
    spec fn wf(&self) -> bool;

    /// Queries the remote service once: is the job still pending?
    /// A transport or protocol failure is an error, never a verdict.
    fn is_pending(&self, client: &V) -> Result<bool, Error>
        requires
            self.wf(),
    ;

    /// Polls `is_pending` until it reports not-pending, pausing one
    /// interval between consecutive checks, at most `max_attempts + 1`
    /// checks when a budget is given (`Some(0)` still admits one check).
    /// With no budget the waiter keeps polling; its attempt counter then
    /// starts at `u64::MAX`, a bound no real run reaches.
    ///
    /// Success, timeout, the checks performed and the sleeps between them
    /// follow [`wait_run`] on the verdicts the predicate reports; an error
    /// from the predicate propagates at once, retrying nothing.
    fn wait(&self, client: &V, interval: Duration, max_attempts: Option<u64>) -> (r: Result<
        (),
        Error,
    >)
        requires
            self.wf(),
    {
        let ghost mut vs: Seq<bool> = Seq::empty();
        let mut left: u64 = match max_attempts {
            Some(b) => b,
            None => u64::MAX,
        };
        loop
            invariant
                self.wf(),
                wait_run(vs, max_attempts) == WaitOutcome::Running,
                forall|i: int| 0 <= i < vs.len() ==> vs[i],
                match max_attempts {
                    Some(b) => left <= b && vs.len() == b - left,
                    None => vs.len() == u64::MAX - left,
                },
            decreases left,
        {
            let pending = match self.is_pending(client) {
                Ok(p) => p,
                Err(e) => {
                    return Err(e);
                },
            };
            proof {
                if !pending {
                    lemma_wait_decided(vs.push(false), max_attempts, vs.len() as int, false);
                }
            }
            if !pending {
                // the run on the observed verdicts is Done
                proof {
                    vs = vs.push(false);
                    assert(wait_run(vs, max_attempts) is Done);
                }
                return Ok(());
            }
            proof {
                vs = vs.push(true);
            }
            if left == 0 {
                // under a budget, the run on the observed verdicts is TimedOut
                proof {
                    if max_attempts is Some {
                        lemma_wait_decided(vs, max_attempts, vs.len() - 1, true);
                        assert(wait_run(vs, max_attempts) is TimedOut);
                    }
                }
                return Err(Error::WaitTimeout);
            }
            left = left - 1;
            proof {
                lemma_wait_prefix_running(vs, max_attempts);
            }
            client.pause(interval);
        }
    }
}

/// Accepts exactly the two success status codes: plain success and
/// created. Any other status is surfaced as a protocol-level error.
pub fn status_is_success(code: u16) -> (r: bool)
    ensures
        r == (code == 200 || code == 201),
{
    code == 200 || code == 201
}

} // verus!
