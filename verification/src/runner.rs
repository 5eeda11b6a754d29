//! Background scan runner that picks up queued scans and executes them.
use crate::api::{ScanResultsResponse, ScanStatus};
use crate::clock::Timestamp;
use crate::config::ScanConfig;
use crate::manager;
use crate::manager::ScanManager;
use crate::models::ScanType;
use crate::orchestrator::ScanResult;
use crate::text;
use crate::text::{join, joined, same_text};
use vstd::prelude::*;
use vstd::string::StringExecFns;

verus! {

/// Interval between polling for queued scans, in nanoseconds.
pub const POLL_INTERVAL: u128 = 500_000_000;

/// A scan to execute.
#[derive(Debug)]
pub struct ScanJob {
    pub id: String,
    pub targets: Vec<String>,
    pub scan_type: String,
}

/// The job is that of a task that waits.
pub open spec fn is_queued_job(job: ScanJob, m: manager::ManagerModel) -> bool {
    &&& m.tasks.dom().contains(job.id@)
    &&& m.tasks[job.id@].status is Queued
    &&& job.targets@ == m.tasks[job.id@].targets
    &&& job.scan_type == m.tasks[job.id@].scan_type
}

/// Finds one queued scan.
#[must_use]
pub fn find_queued(manager: &ScanManager) -> (r: Option<ScanJob>)
    requires
        manager.wf(),
    ensures
        match r {
            Some(job) => is_queued_job(job, manager@),
            None => manager::queued(manager@.tasks) == Set::<Seq<char>>::empty(),
        },
{
    let scans = manager.list_scans();
    let mut i: usize = 0;
    while i < scans.len()
        invariant
            i <= scans.len(),
            manager::lists_tasks(scans@, manager@.tasks),
            forall|j: int| 0 <= j < i ==> !((#[trigger] scans@[j])@.status is Queued),
        decreases scans.len() - i,
    {
        if scans[i].status == ScanStatus::Queued {
            let task = scans[i].clone();
            return Some(
                ScanJob { id: task.id, targets: task.targets, scan_type: task.scan_type },
            );
        }
        i += 1;
    }
    proof {
        assert(manager::queued(manager@.tasks) =~= Set::<Seq<char>>::empty());
    }
    None
}

/// Finds one queued scan and has it run: the scan that is to be executed.
pub fn process_queued_scans(manager: &mut ScanManager) -> (r: Option<ScanJob>)
    requires
        old(manager).wf(),
    ensures
        final(manager).wf(),
        final(manager)@.wf(),
        match r {
            Some(job) => is_queued_job(job, old(manager)@) && exists|now: Timestamp| #[trigger]
                manager::a_time(now) && manager::is_updated(
                    old(manager)@,
                    final(manager)@,
                    Ok(()),
                    job.id@,
                    ScanStatus::Running,
                    now,
                ),
            None => manager::queued(old(manager)@.tasks) == Set::<Seq<char>>::empty()
                && final(manager)@ == old(manager)@,
        },
{
    proof {
        manager.holds_what_it_should();
    }
    match find_queued(manager) {
        Some(job) => match manager.update_status(job.id.as_str(), ScanStatus::Running) {
            Ok(_) => Some(job),
            Err(_) => None,
        },
        None => None,
    }
}

/// The results as clients get them.
#[must_use]
pub fn results_of(id: &str, result: ScanResult) -> (r: ScanResultsResponse)
    ensures
        r.id@ == id@,
        r.status is Completed,
        r.started_at == result.metadata.start_time,
        r.completed_at == Some(result.metadata.end_time),
        r.hosts == result.hosts,
        r.statistics == result.statistics,
{
    ScanResultsResponse {
        id: id.to_string(),
        status: ScanStatus::Completed,
        started_at: result.metadata.start_time,
        completed_at: Some(result.metadata.end_time),
        hosts: result.hosts,
        statistics: result.statistics,
    }
}

/// What a scan of the manager came to.
pub open spec fn is_finished(
    before: manager::ManagerModel,
    after: manager::ManagerModel,
    id: Seq<char>,
    result: Result<ScanResult, String>,
    now: Timestamp,
) -> bool {
    if before.tasks.dom().contains(id) {
        let status = if result is Ok {
            ScanStatus::Completed
        } else {
            ScanStatus::Failed
        };
        &&& after.tasks == before.tasks.insert(
            id,
            manager::with_status(before.tasks[id], status, now),
        )
        &&& after.config == before.config
        &&& match result {
            Ok(scan) => {
                &&& after.results.dom() == before.results.dom().insert(id)
                &&& after.results == before.results.insert(id, after.results[id])
                &&& after.results[id].id@ == id
                &&& after.results[id].status is Completed
                &&& after.results[id].started_at == scan.metadata.start_time
                &&& after.results[id].completed_at == Some(scan.metadata.end_time)
                &&& after.results[id].hosts == scan.hosts
                &&& after.results[id].statistics == scan.statistics
            },
            Err(_) => after.results == before.results,
        }
    } else {
        after == before
    }
}

/// Takes note of what a scan came to: its results are stored and it is completed, or
/// it has failed.
pub fn scan_finished(manager: &mut ScanManager, id: &str, result: Result<ScanResult, String>)
    requires
        old(manager).wf(),
    ensures
        final(manager).wf(),
        final(manager)@.wf(),
        exists|now: Timestamp| #[trigger]
            manager::a_time(now) && is_finished(old(manager)@, final(manager)@, id@, result, now),
{
    let ghost before = manager@;
    match result {
        Ok(scan) => {
            let stored = manager.store_results(id, results_of(id, scan));
            let ghost between = manager@;
            let updated = manager.update_status(id, ScanStatus::Completed);
            proof {
                let now = choose|now: Timestamp| #[trigger]
                    manager::a_time(now) && manager::is_updated(
                        between,
                        manager@,
                        updated,
                        id@,
                        ScanStatus::Completed,
                        now,
                    );
                assert(manager::a_time(now));
                if before.tasks.dom().contains(id@) {
                    assert(manager@.results.dom() =~= before.results.dom().insert(id@));
                    assert(manager@.results =~= before.results.insert(id@, manager@.results[id@]));
                }
                assert(is_finished(before, manager@, id@, Ok(scan), now));
            }
        },
        Err(text) => {
            let updated = manager.update_status(id, ScanStatus::Failed);
            proof {
                let now = choose|now: Timestamp| #[trigger]
                    manager::a_time(now) && manager::is_updated(
                        before,
                        manager@,
                        updated,
                        id@,
                        ScanStatus::Failed,
                        now,
                    );
                assert(manager::a_time(now));
                assert(is_finished(before, manager@, id@, Err(text), now));
            }
        },
    }
}

/// The scan type of a name.
pub open spec fn scan_type_of(s: Seq<char>) -> Option<ScanType> {
    if s == "syn"@ {
        Some(ScanType::TcpSyn)
    } else if s == "connect"@ {
        Some(ScanType::TcpConnect)
    } else if s == "fin"@ {
        Some(ScanType::TcpFin)
    } else if s == "null"@ {
        Some(ScanType::TcpNull)
    } else if s == "xmas"@ {
        Some(ScanType::TcpXmas)
    } else if s == "ack"@ {
        Some(ScanType::TcpAck)
    } else if s == "window"@ {
        Some(ScanType::TcpWindow)
    } else if s == "maimon"@ {
        Some(ScanType::TcpMaimon)
    } else if s == "udp"@ {
        Some(ScanType::Udp)
    } else if s == "sctp_init"@ {
        Some(ScanType::SctpInit)
    } else {
        None
    }
}

/// Parse scan type string into `ScanType` enum.
pub fn parse_scan_type(s: &str) -> (r: Result<ScanType, String>)
    ensures
        match r {
            Ok(t) => scan_type_of(s@) == Some(t),
            Err(e) => scan_type_of(s@) is None && e@ == "Unsupported scan type: "@ + s@,
        },
{
    if same_text(s, "syn") {
        Ok(ScanType::TcpSyn)
    } else if same_text(s, "connect") {
        Ok(ScanType::TcpConnect)
    } else if same_text(s, "fin") {
        Ok(ScanType::TcpFin)
    } else if same_text(s, "null") {
        Ok(ScanType::TcpNull)
    } else if same_text(s, "xmas") {
        Ok(ScanType::TcpXmas)
    } else if same_text(s, "ack") {
        Ok(ScanType::TcpAck)
    } else if same_text(s, "window") {
        Ok(ScanType::TcpWindow)
    } else if same_text(s, "maimon") {
        Ok(ScanType::TcpMaimon)
    } else if same_text(s, "udp") {
        Ok(ScanType::Udp)
    } else if same_text(s, "sctp_init") {
        Ok(ScanType::SctpInit)
    } else {
        Err(joined("Unsupported scan type: ", s))
    }
}

/// What a scan is executed with: the configuration, and the text that names the
/// targets.
pub fn execute_scan(targets: &Vec<String>, scan_type: &str) -> (r: Result<
    (ScanConfig, String),
    String,
>)
    ensures
        match r {
            Ok((config, target_text)) => {
                &&& scan_type_of(scan_type@) is Some
                &&& config.scan_types@ == seq![scan_type_of(scan_type@)->0]
                &&& exists|d: ScanConfig|
                    call_ensures(<ScanConfig as Default>::default, (), d) && config == (
                    ScanConfig { scan_types: config.scan_types, ..d })
                &&& target_text@ == text::join_spec(text::views(targets@), ","@)
            },
            Err(e) => scan_type_of(scan_type@) is None && e@ == "Unsupported scan type: "@
                + scan_type@,
        },
{
    match parse_scan_type(scan_type) {
        Ok(t) => {
            let defaults = ScanConfig::default();
            let config = ScanConfig { scan_types: vec![t], ..defaults };
            proof {
                assert(config.scan_types@ =~= seq![t]);
            }
            Ok((config, join(targets, ",")))
        },
        Err(e) => Err(e),
    }
}

/// Where the execution of a scan failed.
#[derive(Debug, Clone, Copy, PartialEq, Eq, Structural)]
pub enum ScanStage {
    /// The targets could not be read.
    Targets,
    /// No session could be made.
    Session,
    /// The scan itself failed.
    Execution,
}

/// What is said of a scan that failed.
#[must_use]
pub fn failure_text(stage: ScanStage, scan_id: &str, reason: &str) -> (r: String)
    ensures
        r@ == match stage {
            ScanStage::Targets => "Invalid targets: "@ + reason@,
            ScanStage::Session => "Failed to create scan session for "@ + scan_id@ + ": "@
                + reason@,
            ScanStage::Execution => "Scan execution failed: "@ + reason@,
        },
{
    match stage {
        ScanStage::Targets => joined("Invalid targets: ", reason),
        ScanStage::Session => joined("Failed to create scan session for ", scan_id).concat(
            ": ",
        ).concat(reason),
        ScanStage::Execution => joined("Scan execution failed: ", reason),
    }
}

/// Each word names its own scan type, and no other word names one.
pub proof fn words_name_scan_types(s: Seq<char>, t: Seq<char>)
    ensures
        scan_type_of(s) == Some(ScanType::TcpSyn) <==> s == "syn"@,
        scan_type_of(s) == Some(ScanType::TcpConnect) <==> s == "connect"@,
        scan_type_of(s) == Some(ScanType::TcpFin) <==> s == "fin"@,
        scan_type_of(s) == Some(ScanType::TcpNull) <==> s == "null"@,
        scan_type_of(s) == Some(ScanType::TcpXmas) <==> s == "xmas"@,
        scan_type_of(s) == Some(ScanType::TcpAck) <==> s == "ack"@,
        scan_type_of(s) == Some(ScanType::TcpWindow) <==> s == "window"@,
        scan_type_of(s) == Some(ScanType::TcpMaimon) <==> s == "maimon"@,
        scan_type_of(s) == Some(ScanType::Udp) <==> s == "udp"@,
        scan_type_of(s) == Some(ScanType::SctpInit) <==> s == "sctp_init"@,
        scan_type_of(s) is Some && scan_type_of(s) == scan_type_of(t) ==> s == t,
{
    lemma_words();
}

proof fn lemma_words()
    ensures
        "syn"@[0] == 's' && "syn"@[1] == 'y',
        "connect"@[0] == 'c',
        "fin"@[0] == 'f',
        "null"@[0] == 'n',
        "xmas"@[0] == 'x',
        "ack"@[0] == 'a',
        "window"@[0] == 'w',
        "maimon"@[0] == 'm',
        "udp"@[0] == 'u',
        "sctp_init"@[0] == 's' && "sctp_init"@[1] == 'c',
{
    reveal_strlit("syn");
    reveal_strlit("connect");
    reveal_strlit("fin");
    reveal_strlit("null");
    reveal_strlit("xmas");
    reveal_strlit("ack");
    reveal_strlit("window");
    reveal_strlit("maimon");
    reveal_strlit("udp");
    reveal_strlit("sctp_init");
}

/// A job is taken from a scan that waits, with its targets and its type.
pub proof fn jobs_are_waiting_scans(job: ScanJob, m: manager::ManagerModel)
    requires
        is_queued_job(job, m),
    ensures
        m.tasks.contains_key(job.id@),
        m.tasks[job.id@].status is Queued,
        job.targets@ == m.tasks[job.id@].targets,
        job.scan_type == m.tasks[job.id@].scan_type,
{
}

/// A scan that went well is completed and its hosts and statistics are kept under its
/// name; one that failed is failed and brings no result. No other scan changes.
pub proof fn finished_scans_keep_their_results(
    before: manager::ManagerModel,
    after: manager::ManagerModel,
    id: Seq<char>,
    result: Result<ScanResult, String>,
    now: Timestamp,
    other: Seq<char>,
)
    requires
        is_finished(before, after, id, result, now),
    ensures
        !before.tasks.contains_key(id) ==> after == before,
        before.tasks.contains_key(id) ==> {
            &&& after.tasks[id].status is Completed <==> result is Ok
            &&& after.tasks[id].status is Failed <==> result is Err
            &&& after.tasks[id].completed_at == Some(now)
            &&& result matches Ok(scan) ==> after.results.contains_key(id)
                && after.results[id].hosts == scan.hosts && after.results[id].statistics
                == scan.statistics && after.results[id].id@ == id && after.results[id].started_at
                == scan.metadata.start_time && after.results[id].completed_at == Some(
                scan.metadata.end_time,
            ) && after.results[id].status is Completed
            &&& result is Err ==> after.results == before.results
        },
        other != id && before.tasks.contains_key(other) ==> after.tasks[other]
            == before.tasks[other],
        other != id && before.results.contains_key(other) ==> after.results.contains_key(other)
            && after.results[other] == before.results[other],
        after.config == before.config,
{
}

} // verus!
