//! What clients of the scan service send and get.
use crate::clock::Timestamp;
use crate::models::{clone_text, HostResult};
use crate::orchestrator::ScanStatistics;
use crate::text::same_text;
use vstd::prelude::*;
use vstd::std_specs::convert::FromSpecImpl;

verus! {

/// What can go wrong in the scan service.
#[derive(Debug)]
pub enum ApiError {
    /// There is a scan of this name.
    ScanAlreadyExists(String),
    /// There is no scan of this name.
    ScanNotFound(String),
    /// As many scans are there as may be.
    ScanLimitReached(usize),
}

/// API response wrapper for consistent response format.
#[derive(Debug)]
pub struct ApiResponse<T> {
    pub success: bool,
    pub data: Option<T>,
    pub error: Option<String>,
}

impl<T> ApiResponse<T> {
    /// Create a success response.
    pub fn success(data: T) -> (r: Self)
        ensures
            r == (ApiResponse { success: true, data: Some(data), error: None }),
    {
        Self { success: true, data: Some(data), error: None }
    }

    /// Create an error response.
    pub fn error<M: Into<String>>(message: M) -> (r: Self)
        ensures
            !r.success,
            r.data is None,
            match r.error {
                Some(text) => call_ensures(<M as Into<String>>::into, (message,), text),
                None => false,
            },
    {
        Self { success: false, data: None, error: Some(message.into()) }
    }
}

/// Health check response.
#[derive(Debug)]
pub struct HealthResponse {
    pub status: String,
    pub version: String,
    pub uptime_seconds: u64,
    pub active_scans: usize,
    pub queued_scans: usize,
}

impl Default for HealthResponse {
    fn default() -> (r: Self)
        ensures
            r.status@ == "healthy"@,
            r.version@ == "0.1.0"@,
            r.uptime_seconds == 0,
            r.active_scans == 0,
            r.queued_scans == 0,
    {
        Self {
            status: "healthy".to_string(),
            version: "0.1.0".to_string(),
            uptime_seconds: 0,
            active_scans: 0,
            queued_scans: 0,
        }
    }
}

/// Where a scan is.
#[derive(Debug, Clone, Copy, PartialEq, Eq, Structural)]
pub enum ScanStatus {
    Queued,
    Running,
    Completed,
    Cancelled,
    Failed,
}

impl ScanStatus {
    /// The name of the status.
    pub open spec fn name(self) -> Seq<char> {
        match self {
            ScanStatus::Queued => "queued"@,
            ScanStatus::Running => "running"@,
            ScanStatus::Completed => "completed"@,
            ScanStatus::Cancelled => "cancelled"@,
            ScanStatus::Failed => "failed"@,
        }
    }

    /// The scan is over.
    pub open spec fn is_final(self) -> bool {
        self is Completed || self is Cancelled || self is Failed
    }

    /// The name of the status as text.
    #[must_use]
    pub fn to_text(&self) -> (r: String)
        ensures
            r@ == self.name(),
    {
        match self {
            ScanStatus::Queued => "queued".to_string(),
            ScanStatus::Running => "running".to_string(),
            ScanStatus::Completed => "completed".to_string(),
            ScanStatus::Cancelled => "cancelled".to_string(),
            ScanStatus::Failed => "failed".to_string(),
        }
    }
}

/// The status of a scan that has been started: a scan that waits is known to the
/// service alone.
#[derive(Debug, Clone, Copy, PartialEq, Eq, Structural)]
pub enum ManagedStatus {
    Running,
    Completed,
    Failed,
    Cancelled,
}

impl From<ManagedStatus> for ScanStatus {
    fn from(status: ManagedStatus) -> (r: Self) {
        match status {
            ManagedStatus::Running => ScanStatus::Running,
            ManagedStatus::Completed => ScanStatus::Completed,
            ManagedStatus::Failed => ScanStatus::Failed,
            ManagedStatus::Cancelled => ScanStatus::Cancelled,
        }
    }
}

impl FromSpecImpl<ManagedStatus> for ScanStatus {
    open spec fn obeys_from_spec() -> bool {
        true
    }

    open spec fn from_spec(status: ManagedStatus) -> Self {
        match status {
            ManagedStatus::Running => ScanStatus::Running,
            ManagedStatus::Completed => ScanStatus::Completed,
            ManagedStatus::Failed => ScanStatus::Failed,
            ManagedStatus::Cancelled => ScanStatus::Cancelled,
        }
    }
}

/// Scan progress information.
#[derive(Debug)]
pub struct ScanProgress {
    pub total_hosts: usize,
    pub completed_hosts: usize,
    /// The bits of the percentage as a 64-bit floating point number.
    pub percentage_bits: u64,
    pub current_phase: Option<String>,
    pub pps: Option<u64>,
    pub eta_seconds: Option<u64>,
}

impl Clone for ScanProgress {
    fn clone(&self) -> (r: Self)
        ensures
            r == *self,
    {
        ScanProgress {
            total_hosts: self.total_hosts,
            completed_hosts: self.completed_hosts,
            percentage_bits: self.percentage_bits,
            current_phase: clone_text(&self.current_phase),
            pps: self.pps,
            eta_seconds: self.eta_seconds,
        }
    }
}

/// No progress: the bits of the number zero are zero.
pub open spec fn no_progress() -> ScanProgress {
    ScanProgress {
        total_hosts: 0,
        completed_hosts: 0,
        percentage_bits: 0,
        current_phase: None,
        pps: None,
        eta_seconds: None,
    }
}

/// Scan options.
#[derive(Debug)]
pub struct ScanOptions {
    pub ports: Option<String>,
    pub service_detection: bool,
    pub os_detection: bool,
    pub vulnerability_scan: bool,
    pub timing: Option<String>,
}

/// No option is set.
pub open spec fn no_options() -> ScanOptions {
    ScanOptions {
        ports: None,
        service_detection: false,
        os_detection: false,
        vulnerability_scan: false,
        timing: None,
    }
}

impl Default for ScanOptions {
    fn default() -> (r: Self)
        ensures
            r == no_options(),
    {
        ScanOptions {
            ports: None,
            service_detection: false,
            os_detection: false,
            vulnerability_scan: false,
            timing: None,
        }
    }
}

/// The scan type of a request that names none.
#[must_use]
pub fn default_scan_type() -> (r: String)
    ensures
        r@ == "syn"@,
{
    "syn".to_string()
}

/// Create scan request.
#[derive(Debug)]
pub struct CreateScanRequest {
    pub targets: Vec<String>,
    pub scan_type: String,
    pub options: ScanOptions,
}

impl CreateScanRequest {
    /// The request that a client sent, with what it left out filled in.
    #[must_use]
    pub fn new(
        targets: Vec<String>,
        scan_type: Option<String>,
        options: Option<ScanOptions>,
    ) -> (r: Self)
        ensures
            r.targets == targets,
            match scan_type {
                Some(t) => r.scan_type == t,
                None => r.scan_type@ == "syn"@,
            },
            match options {
                Some(o) => r.options == o,
                None => r.options == no_options(),
            },
    {
        CreateScanRequest {
            targets,
            scan_type: match scan_type {
                Some(t) => t,
                None => default_scan_type(),
            },
            options: match options {
                Some(o) => o,
                None => ScanOptions::default(),
            },
        }
    }
}

/// Scan summary for list response.
#[derive(Debug)]
pub struct ScanSummary {
    pub id: String,
    pub status: ScanStatus,
    pub created_at: Timestamp,
    pub started_at: Option<Timestamp>,
    pub completed_at: Option<Timestamp>,
    pub targets: Vec<String>,
    pub progress: ScanProgress,
}

/// Scan detail response.
#[derive(Debug)]
pub struct ScanDetail {
    pub id: String,
    pub status: ScanStatus,
    pub created_at: Timestamp,
    pub started_at: Option<Timestamp>,
    pub completed_at: Option<Timestamp>,
    pub targets: Vec<String>,
    pub scan_type: String,
    pub progress: ScanProgress,
}

/// Scan results response.
#[derive(Debug)]
pub struct ScanResultsResponse {
    pub id: String,
    pub status: ScanStatus,
    pub started_at: Timestamp,
    pub completed_at: Option<Timestamp>,
    pub hosts: Vec<HostResult>,
    pub statistics: ScanStatistics,
}

/// Configuration of the scan service.
#[derive(Debug)]
pub struct ApiConfig {
    /// The address to listen on.
    pub listen_addr: String,
    /// The accepted keys.
    pub api_keys: Vec<String>,
    /// How many scans may wait or run at a time.
    pub max_concurrent_scans: usize,
    /// Whether progress is streamed.
    pub enable_sse: bool,
    /// How long results are kept, in nanoseconds.
    pub result_retention: u128,
}

impl ApiConfig {
    /// The configuration that listens on the local host and accepts this key alone.
    pub open spec fn starts_with(self, fresh_key: String) -> bool {
        &&& self.listen_addr@ == "127.0.0.1:8080"@
        &&& self.api_keys@ == seq![fresh_key]
        &&& self.max_concurrent_scans == 5
        &&& self.enable_sse
        &&& self.result_retention == 86_400_000_000_000
    }

    /// A configuration that listens on the local host and accepts one key, which the
    /// caller has freshly generated.
    #[must_use]
    pub fn new(fresh_key: String) -> (r: Self)
        ensures
            r.starts_with(fresh_key),
    {
        let api_keys: Vec<String> = vec![fresh_key];
        assert(api_keys@ =~= seq![fresh_key]);
        ApiConfig {
            listen_addr: "127.0.0.1:8080".to_string(),
            api_keys,
            max_concurrent_scans: 5,
            enable_sse: true,
            result_retention: 86_400_000_000_000,
        }
    }

    /// The default configuration, with a freshly generated key.
    #[must_use]
    pub fn default(fresh_key: String) -> (r: Self)
        ensures
            r.starts_with(fresh_key),
    {
        Self::new(fresh_key)
    }

    /// Sets the address to listen on.
    #[must_use]
    pub fn with_listen_addr(self, listen_addr: String) -> (r: Self)
        ensures
            r == (ApiConfig { listen_addr, ..self }),
    {
        ApiConfig { listen_addr, ..self }
    }

    /// Sets the accepted keys.
    #[must_use]
    pub fn with_api_keys(self, api_keys: Vec<String>) -> (r: Self)
        ensures
            r == (ApiConfig { api_keys, ..self }),
    {
        ApiConfig { api_keys, ..self }
    }

    /// Sets how many scans may wait or run at a time.
    #[must_use]
    pub fn with_max_concurrent_scans(self, max_concurrent_scans: usize) -> (r: Self)
        ensures
            r == (ApiConfig { max_concurrent_scans, ..self }),
    {
        ApiConfig { max_concurrent_scans, ..self }
    }

    /// The key is one of the accepted keys.
    pub open spec fn accepts(self, key: Seq<char>) -> bool {
        exists|i: int| 0 <= i < self.api_keys@.len() && (#[trigger] self.api_keys@[i])@ == key
    }

    /// Whether the key is one of the accepted keys.
    #[must_use]
    pub fn is_valid_key(&self, key: &str) -> (r: bool)
        ensures
            r == self.accepts(key@),
    {
        let mut i: usize = 0;
        while i < self.api_keys.len()
            invariant
                i <= self.api_keys.len(),
                forall|j: int| 0 <= j < i ==> (#[trigger] self.api_keys@[j])@ != key@,
            decreases self.api_keys.len() - i,
        {
            if same_text(self.api_keys[i].as_str(), key) {
                return true;
            }
            i += 1;
        }
        false
    }
}

/// Each status has its own word, and a scan is over in exactly those states in which it
/// neither waits nor runs.
pub proof fn statuses_have_their_own_words(a: ScanStatus, b: ScanStatus)
    ensures
        a is Queued ==> a.name() == "queued"@,
        a is Running ==> a.name() == "running"@,
        a is Completed ==> a.name() == "completed"@,
        a is Cancelled ==> a.name() == "cancelled"@,
        a is Failed ==> a.name() == "failed"@,
        a.name() == b.name() ==> a == b,
        a.is_final() <==> !(a is Queued) && !(a is Running),
{
    reveal_strlit("queued");
    reveal_strlit("running");
    reveal_strlit("completed");
    reveal_strlit("cancelled");
    reveal_strlit("failed");
    let p = a.name();
    let q = b.name();
    if p == q {
        assert(p.len() == q.len() && p[0] == q[0] && p[1] == q[1]);
    }
}

/// A managed scan keeps its status: one that runs runs, and each way to end stays what it
/// is; none is waiting.
pub proof fn managed_scans_keep_their_status(s: ManagedStatus, t: ManagedStatus)
    ensures
        <ScanStatus as vstd::std_specs::convert::FromSpec<ManagedStatus>>::from_spec(s) is Running <==> s is Running,
        <ScanStatus as vstd::std_specs::convert::FromSpec<ManagedStatus>>::from_spec(s) is Completed <==> s is Completed,
        <ScanStatus as vstd::std_specs::convert::FromSpec<ManagedStatus>>::from_spec(s) is Failed <==> s is Failed,
        <ScanStatus as vstd::std_specs::convert::FromSpec<ManagedStatus>>::from_spec(s) is Cancelled <==> s is Cancelled,
        !(<ScanStatus as vstd::std_specs::convert::FromSpec<ManagedStatus>>::from_spec(s) is Queued),
        <ScanStatus as vstd::std_specs::convert::FromSpec<ManagedStatus>>::from_spec(s).is_final() <==> !(s is Running),
        <ScanStatus as vstd::std_specs::convert::FromSpec<ManagedStatus>>::from_spec(s) == <ScanStatus as vstd::std_specs::convert::FromSpec<ManagedStatus>>::from_spec(t) ==> s == t,
{
}

/// The configuration that the service starts with lets in the holder of the fresh key and
/// no one else, listens on the own machine only, and keeps results for a day.
pub proof fn the_first_configuration(c: ApiConfig, fresh_key: String, key: Seq<char>)
    requires
        c.starts_with(fresh_key),
    ensures
        c.accepts(key) <==> key == fresh_key@,
        c.listen_addr@ == "127.0.0.1:8080"@,
        c.max_concurrent_scans == 5,
        c.enable_sse,
        c.result_retention == 24 * 60 * 60 * 1_000_000_000,
{
    if key == fresh_key@ {
        assert(c.api_keys@[0]@ == key);
    }
}

/// A scan that has not begun has made no progress, and options that are not given ask for
/// nothing.
pub proof fn nothing_is_the_beginning(p: ScanProgress, o: ScanOptions)
    ensures
        p == no_progress() <==> p.total_hosts == 0 && p.completed_hosts == 0 && p.percentage_bits
            == 0 && p.current_phase is None && p.pps is None && p.eta_seconds is None,
        o == no_options() <==> o.ports is None && !o.service_detection && !o.os_detection
            && !o.vulnerability_scan && o.timing is None,
{
}

} // verus!
