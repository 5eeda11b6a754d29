//! Scan task manager for in-memory scan orchestration.
use crate::api::{ApiConfig, ApiError, ScanProgress, ScanResultsResponse, ScanStatus};
use crate::clock::{utc_now, Timestamp};
use crate::index::{empty_index, index_contains, index_entries, index_get, index_insert};
use crate::models::clone_texts;
use crate::{api, index};
use dashmap::DashMap;
use vstd::prelude::*;

verus! {

/// In-memory scan task.
#[derive(Debug)]
pub struct ScanTask {
    pub id: String,
    pub status: ScanStatus,
    pub created_at: Timestamp,
    pub started_at: Option<Timestamp>,
    pub completed_at: Option<Timestamp>,
    pub targets: Vec<String>,
    pub scan_type: String,
    pub progress: ScanProgress,
}

/// A scan task.
pub struct TaskModel {
    pub id: Seq<char>,
    pub status: ScanStatus,
    pub created_at: Timestamp,
    pub started_at: Option<Timestamp>,
    pub completed_at: Option<Timestamp>,
    pub targets: Seq<String>,
    pub scan_type: String,
    pub progress: ScanProgress,
}

impl View for ScanTask {
    type V = TaskModel;

    open spec fn view(&self) -> TaskModel {
        TaskModel {
            id: self.id@,
            status: self.status,
            created_at: self.created_at,
            started_at: self.started_at,
            completed_at: self.completed_at,
            targets: self.targets@,
            scan_type: self.scan_type,
            progress: self.progress,
        }
    }
}

/// A task that was created at `now` and waits.
pub open spec fn queued_task(
    id: Seq<char>,
    targets: Seq<String>,
    scan_type: String,
    now: Timestamp,
) -> TaskModel {
    TaskModel {
        id,
        status: ScanStatus::Queued,
        created_at: now,
        started_at: None,
        completed_at: None,
        targets,
        scan_type,
        progress: api::no_progress(),
    }
}

/// A point in time that the clock can show.
pub open spec fn a_time(now: Timestamp) -> bool {
    now.wf() && now.secs >= 0
}

impl ScanTask {
    /// A task that is created now and waits.
    #[must_use]
    pub fn new(id: String, targets: Vec<String>, scan_type: String) -> (r: Self)
        ensures
            exists|now: Timestamp| #[trigger]
                a_time(now) && r@ == queued_task(id@, targets@, scan_type, now),
    {
        let now = utc_now();
        assert(a_time(now));
        Self::new_at(id, targets, scan_type, now)
    }

    /// A task that is created at `now` and waits.
    #[must_use]
    pub fn new_at(id: String, targets: Vec<String>, scan_type: String, now: Timestamp) -> (r: Self)
        ensures
            r@ == queued_task(id@, targets@, scan_type, now),
    {
        Self {
            id,
            status: ScanStatus::Queued,
            created_at: now,
            started_at: None,
            completed_at: None,
            targets,
            scan_type,
            progress: ScanProgress {
                total_hosts: 0,
                completed_hosts: 0,
                percentage_bits: 0,
                current_phase: None,
                pps: None,
                eta_seconds: None,
            },
        }
    }
}

impl Clone for ScanTask {
    fn clone(&self) -> (r: Self)
        ensures
            r@ == self@,
    {
        ScanTask {
            id: self.id.clone(),
            status: self.status,
            created_at: self.created_at,
            started_at: self.started_at,
            completed_at: self.completed_at,
            targets: clone_texts(&self.targets),
            scan_type: self.scan_type.clone(),
            progress: self.progress.clone(),
        }
    }
}

/// The task with a new status: it has been started when it first runs, and it is
/// completed when it is over.
pub open spec fn with_status(task: TaskModel, status: ScanStatus, now: Timestamp) -> TaskModel {
    TaskModel {
        status,
        started_at: if status is Running && task.started_at is None {
            Some(now)
        } else {
            task.started_at
        },
        completed_at: if status.is_final() {
            Some(now)
        } else {
            task.completed_at
        },
        ..task
    }
}

/// A task that runs has been started, and one that is over has been completed.
pub open spec fn is_timed(task: TaskModel) -> bool {
    (task.status is Running ==> task.started_at is Some) && (task.status.is_final()
        ==> task.completed_at is Some)
}

/// Every task is timed, whatever becomes of it; the time of its start does not change
/// once it is set; and nothing but status and times changes with the status.
pub proof fn tasks_are_timed(
    id: Seq<char>,
    targets: Seq<String>,
    scan_type: String,
    task: TaskModel,
    status: ScanStatus,
    now: Timestamp,
)
    ensures
        is_timed(queued_task(id, targets, scan_type, now)),
        is_timed(with_status(task, status, now)),
        task.started_at is Some ==> with_status(task, status, now).started_at == task.started_at,
        with_status(task, status, now).id == task.id,
        with_status(task, status, now).created_at == task.created_at,
        with_status(task, status, now).targets == task.targets,
        with_status(task, status, now).scan_type == task.scan_type,
        with_status(task, status, now).progress == task.progress,
{
}

/// Scan task manager.
#[derive(Debug)]
pub struct ScanManager {
    tasks: DashMap<String, usize>,
    task_slots: Vec<ScanTask>,
    results: DashMap<String, usize>,
    result_slots: Vec<ScanResultsResponse>,
    config: ApiConfig,
}

/// What a scan manager holds.
pub struct ManagerModel {
    /// The scans by their names.
    pub tasks: Map<Seq<char>, TaskModel>,
    /// The results by the names of the scans.
    pub results: Map<Seq<char>, ScanResultsResponse>,
    /// The configuration.
    pub config: ApiConfig,
}

/// The numbers are places in a list of this length, each used for one key.
spec fn is_placed(m: Map<Seq<char>, usize>, len: nat) -> bool {
    &&& m.dom().finite()
    &&& forall|k: Seq<char>| #[trigger] m.dom().contains(k) ==> m[k] < len
    &&& forall|k: Seq<char>, l: Seq<char>|
        #![trigger m[k], m[l]]
        m.dom().contains(k) && m.dom().contains(l) && m[k] == m[l] ==> k == l
}

/// The scans that wait.
pub open spec fn queued(tasks: Map<Seq<char>, TaskModel>) -> Set<Seq<char>> {
    tasks.dom().filter(|k: Seq<char>| tasks[k].status is Queued)
}

/// The scans that run.
pub open spec fn active(tasks: Map<Seq<char>, TaskModel>) -> Set<Seq<char>> {
    tasks.dom().filter(|k: Seq<char>| tasks[k].status is Running)
}

/// The scans that wait or run.
pub open spec fn busy(tasks: Map<Seq<char>, TaskModel>) -> Set<Seq<char>> {
    tasks.dom().filter(|k: Seq<char>| tasks[k].status is Queued || tasks[k].status is Running)
}

/// The list holds every scan once, in some order.
pub open spec fn lists_tasks(list: Seq<ScanTask>, tasks: Map<Seq<char>, TaskModel>) -> bool {
    &&& forall|i: int|
        0 <= i < list.len() ==> tasks.dom().contains((#[trigger] list[i])@.id)
            && tasks[list[i]@.id] == list[i]@
    &&& forall|i: int, j: int|
        0 <= i < j < list.len() ==> (#[trigger] list[i])@.id != (#[trigger] list[j])@.id
    &&& forall|k: Seq<char>| #[trigger]
        tasks.dom().contains(k) ==> exists|i: int|
            0 <= i < list.len() && (#[trigger] list[i])@.id == k
}

impl View for ScanManager {
    type V = ManagerModel;

    closed spec fn view(&self) -> ManagerModel {
        ManagerModel {
            tasks: index::slots(self.tasks).map_values(|i: usize| self.task_slots@[i as int]@),
            results: index::slots(self.results).map_values(
                |i: usize| self.result_slots@[i as int],
            ),
            config: self.config,
        }
    }
}

impl ManagerModel {
    /// There are finitely many scans, each is stored under its name, and there are
    /// results of known scans alone.
    pub open spec fn wf(self) -> bool {
        &&& self.tasks.dom().finite()
        &&& forall|k: Seq<char>| #[trigger]
            self.tasks.dom().contains(k) ==> self.tasks[k].id == k
        &&& self.results.dom().subset_of(self.tasks.dom())
    }
}

impl ScanManager {
    /// What the names stand for is where it should be.
    pub closed spec fn wf(&self) -> bool {
        &&& is_placed(index::slots(self.tasks), self.task_slots@.len())
        &&& is_placed(index::slots(self.results), self.result_slots@.len())
        &&& self@.wf()
    }

    /// A manager whose parts are where they should be holds what a manager should.
    pub proof fn holds_what_it_should(&self)
        requires
            self.wf(),
        ensures
            self@.wf(),
    {
    }

    /// Create a new scan manager.
    #[must_use]
    pub fn new(config: ApiConfig) -> (r: Self)
        ensures
            r.wf(),
            r@.wf(),
            r@.tasks.dom() == Set::<Seq<char>>::empty(),
            r@.results.dom() == Set::<Seq<char>>::empty(),
            r@.config == config,
    {
        let r = Self {
            tasks: empty_index(),
            task_slots: Vec::new(),
            results: empty_index(),
            result_slots: Vec::new(),
            config,
        };
        proof {
            assert(r@.tasks.dom() =~= Set::<Seq<char>>::empty());
            assert(r@.results.dom() =~= Set::<Seq<char>>::empty());
        }
        r
    }

    /// Create a scan task that is created now.
    pub fn create_scan(&mut self, id: &str, targets: Vec<String>, scan_type: String) -> (r: Result<
        (),
        ApiError,
    >)
        requires
            old(self).wf(),
        ensures
            final(self).wf(),
            final(self)@.wf(),
            exists|now: Timestamp| #[trigger]
                a_time(now) && is_created(
                    old(self)@,
                    final(self)@,
                    r,
                    id@,
                    targets@,
                    scan_type,
                    now,
                ),
    {
        let now = utc_now();
        assert(a_time(now));
        self.create_scan_at(id, targets, scan_type, now)
    }

    /// Create a scan task that is created at `now`.
    pub fn create_scan_at(
        &mut self,
        id: &str,
        targets: Vec<String>,
        scan_type: String,
        now: Timestamp,
    ) -> (r: Result<(), ApiError>)
        requires
            old(self).wf(),
        ensures
            final(self).wf(),
            final(self)@.wf(),
            is_created(old(self)@, final(self)@, r, id@, targets@, scan_type, now),
    {
        if index_contains(&self.tasks, id) {
            return Err(ApiError::ScanAlreadyExists(id.to_string()));
        }
        let ghost before = self@;
        let ghost places = index::slots(self.tasks);
        let task = ScanTask::new_at(id.to_string(), targets, scan_type, now);
        let place: usize = self.task_slots.len();
        self.task_slots.push(task);
        index_insert(&mut self.tasks, id, place);
        proof {
            let task = queued_task(id@, targets@, scan_type, now);
            assert(index::slots(self.tasks).dom() =~= places.dom().insert(id@));
            assert(self@.tasks =~= before.tasks.insert(id@, task)) by {
                assert forall|k: Seq<char>| #[trigger]
                    self@.tasks.dom().contains(k) implies self@.tasks[k] == before.tasks.insert(
                    id@,
                    task,
                )[k] by {
                    if k != id@ {
                        assert(places.dom().contains(k));
                    }
                }
            }
            assert forall|k: Seq<char>, l: Seq<char>|
                #![trigger index::slots(self.tasks)[k], index::slots(self.tasks)[l]]
                index::slots(self.tasks).dom().contains(k) && index::slots(
                    self.tasks,
                ).dom().contains(l) && index::slots(self.tasks)[k] == index::slots(
                    self.tasks,
                )[l] implies k == l by {
                if k != id@ {
                    assert(places.dom().contains(k) && places[k] < place);
                }
                if l != id@ {
                    assert(places.dom().contains(l) && places[l] < place);
                }
            }
            assert(self@.results =~= before.results);
        }
        Ok(())
    }

    /// Get scan summary.
    #[must_use]
    pub fn get_scan_summary(&self, id: &str) -> (r: Option<ScanTask>)
        requires
            self.wf(),
        ensures
            match r {
                Some(t) => self@.tasks.dom().contains(id@) && t@ == self@.tasks[id@],
                None => !self@.tasks.dom().contains(id@),
            },
    {
        match index_get(&self.tasks, id) {
            Some(place) => Some(self.task_slots[place].clone()),
            None => None,
        }
    }

    /// Update scan status.
    pub fn update_status(&mut self, id: &str, status: ScanStatus) -> (r: Result<(), ApiError>)
        requires
            old(self).wf(),
        ensures
            final(self).wf(),
            final(self)@.wf(),
            exists|now: Timestamp| #[trigger]
                a_time(now) && is_updated(old(self)@, final(self)@, r, id@, status, now),
    {
        let now = utc_now();
        assert(a_time(now));
        self.update_status_at(id, status, now)
    }

    /// Update scan status at `now`.
    pub fn update_status_at(&mut self, id: &str, status: ScanStatus, now: Timestamp) -> (r: Result<
        (),
        ApiError,
    >)
        requires
            old(self).wf(),
        ensures
            final(self).wf(),
            final(self)@.wf(),
            is_updated(old(self)@, final(self)@, r, id@, status, now),
    {
        match index_get(&self.tasks, id) {
            Some(place) => {
                let ghost before = *self;
                let started = match status {
                    ScanStatus::Running => self.task_slots[place].started_at.is_none(),
                    _ => false,
                };
                let ended = match status {
                    ScanStatus::Completed => true,
                    ScanStatus::Cancelled => true,
                    ScanStatus::Failed => true,
                    _ => false,
                };
                let task = &mut self.task_slots[place];
                task.status = status;
                if started {
                    task.started_at = Some(now);
                }
                if ended {
                    task.completed_at = Some(now);
                }
                proof {
                    assert(self.task_slots@ =~= before.task_slots@.update(
                        place as int,
                        self.task_slots@[place as int],
                    ));
                    self.lemma_replaced(before, id@, place);
                }
                Ok(())
            },
            None => Err(ApiError::ScanNotFound(id.to_string())),
        }
    }

    /// Replacing what is at the place of a name changes what that name stands for, and
    /// nothing else.
    proof fn lemma_replaced(self, before: Self, id: Seq<char>, place: usize)
        requires
            before.wf(),
            index::slots(before.tasks).dom().contains(id),
            index::slots(before.tasks)[id] == place,
            self.tasks == before.tasks,
            self.results == before.results,
            self.result_slots == before.result_slots,
            self.config == before.config,
            self.task_slots@ == before.task_slots@.update(
                place as int,
                self.task_slots@[place as int],
            ),
            self.task_slots@[place as int]@.id == before.task_slots@[place as int]@.id,
        ensures
            self.wf(),
            self@.wf(),
            self@.tasks == before@.tasks.insert(id, self.task_slots@[place as int]@),
            self@.results == before@.results,
            self@.config == before@.config,
    {
        let places = index::slots(before.tasks);
        let task = self.task_slots@[place as int]@;
        assert forall|k: Seq<char>| #[trigger] places.dom().contains(k) implies self@.tasks[k]
            == before@.tasks.insert(id, task)[k] by {
            if k != id {
                assert(places[k] != places[id]);
            }
        }
        assert(before@.tasks.dom().contains(id));
        assert(self@.tasks.dom() =~= before@.tasks.dom());
        assert(self@.tasks =~= before@.tasks.insert(id, task));
        assert(before@.tasks[id].id == id);
        assert forall|k: Seq<char>| #[trigger] self@.tasks.dom().contains(k) implies self@.tasks[k].id
            == k by {
            assert(before@.tasks.dom().contains(k));
        }
    }

    /// Update scan progress.
    pub fn update_progress(&mut self, id: &str, progress: ScanProgress) -> (r: Result<(), ApiError>)
        requires
            old(self).wf(),
        ensures
            final(self).wf(),
            final(self)@.wf(),
            if old(self)@.tasks.dom().contains(id@) {
                r is Ok && final(self)@ == (ManagerModel {
                    tasks: old(self)@.tasks.insert(
                        id@,
                        TaskModel { progress, ..old(self)@.tasks[id@] },
                    ),
                    ..old(self)@
                })
            } else {
                is_not_found(r, id@) && final(self)@ == old(self)@
            },
    {
        match index_get(&self.tasks, id) {
            Some(place) => {
                let ghost before = *self;
                let task = &mut self.task_slots[place];
                task.progress = progress;
                proof {
                    assert(self.task_slots@ =~= before.task_slots@.update(
                        place as int,
                        self.task_slots@[place as int],
                    ));
                    self.lemma_replaced(before, id@, place);
                }
                Ok(())
            },
            None => Err(ApiError::ScanNotFound(id.to_string())),
        }
    }

    /// Cancel a scan.
    pub fn cancel_scan(&mut self, id: &str) -> (r: Result<(), ApiError>)
        requires
            old(self).wf(),
        ensures
            final(self).wf(),
            final(self)@.wf(),
            exists|now: Timestamp| #[trigger]
                a_time(now) && is_updated(
                    old(self)@,
                    final(self)@,
                    r,
                    id@,
                    ScanStatus::Cancelled,
                    now,
                ),
    {
        self.update_status(id, ScanStatus::Cancelled)
    }

    /// List all scans.
    #[must_use]
    pub fn list_scans(&self) -> (r: Vec<ScanTask>)
        requires
            self.wf(),
        ensures
            lists_tasks(r@, self@.tasks),
    {
        let entries = index_entries(&self.tasks);
        let ghost places = index::slots(self.tasks);
        let mut r: Vec<ScanTask> = Vec::new();
        let mut i: usize = 0;
        while i < entries.len()
            invariant
                i <= entries.len(),
                r@.len() == i,
                self.wf(),
                places == index::slots(self.tasks),
                index::lists(entries@, places),
                forall|j: int|
                    0 <= j < i ==> (#[trigger] r@[j])@ == self@.tasks[entries@[j].0@]
                        && r@[j]@.id == entries@[j].0@,
            decreases entries.len() - i,
        {
            proof {
                assert(places.dom().contains(entries@[i as int].0@));
                assert(self@.tasks.dom().contains(entries@[i as int].0@));
            }
            r.push(self.task_slots[entries[i].1].clone());
            i += 1;
        }
        proof {
            assert forall|j: int| 0 <= j < r@.len() implies self@.tasks.dom().contains(
                (#[trigger] r@[j])@.id,
            ) && self@.tasks[r@[j]@.id] == r@[j]@ by {
                assert(places.dom().contains(entries@[j].0@));
            }
            assert forall|a: int, b: int| 0 <= a < b < r@.len() implies (#[trigger] r@[a])@.id != (
            #[trigger] r@[b])@.id by {
                assert(entries@[a].0@ != entries@[b].0@);
            }
            assert forall|k: Seq<char>| #[trigger] self@.tasks.dom().contains(k) implies exists|
                j: int,
            |
                0 <= j < r@.len() && (#[trigger] r@[j])@.id == k by {
                assert(places.dom().contains(k));
                let j = choose|j: int| 0 <= j < entries@.len() && (#[trigger] entries@[j]).0@ == k;
                assert(r@[j]@.id == k);
            }
        }
        r
    }

    /// The number of scans that wait, of those that run, or of both.
    fn count(&self, waiting: bool, running: bool) -> (r: usize)
        requires
            self.wf(),
        ensures
            r == counted(self@.tasks, waiting, running).len(),
    {
        let entries = index_entries(&self.tasks);
        let ghost places = index::slots(self.tasks);
        let ghost mut seen: Set<Seq<char>> = Set::empty();
        let mut r: usize = 0;
        let mut i: usize = 0;
        while i < entries.len()
            invariant
                i <= entries.len(),
                r <= i,
                self.wf(),
                places == index::slots(self.tasks),
                index::lists(entries@, places),
                seen.finite(),
                seen.len() == r,
                forall|k: Seq<char>|
                    #[trigger] seen.contains(k) <==> counted(
                        self@.tasks,
                        waiting,
                        running,
                    ).contains(k) && exists|j: int|
                        0 <= j < i && (#[trigger] entries@[j]).0@ == k,
            decreases entries.len() - i,
        {
            let ghost key = entries@[i as int].0@;
            let ghost all = counted(self@.tasks, waiting, running);
            proof {
                assert(places.dom().contains(key));
                assert(self@.tasks.dom().contains(key));
                assert(!seen.contains(key));
            }
            let counts = match self.task_slots[entries[i].1].status {
                ScanStatus::Queued => waiting,
                ScanStatus::Running => running,
                _ => false,
            };
            let ghost before = seen;
            if counts {
                r += 1;
                proof {
                    seen = seen.insert(key);
                }
            }
            proof {
                assert(all.contains(key) == counts);
                assert forall|k: Seq<char>| #[trigger] seen.contains(k) <==> all.contains(k)
                    && exists|j: int| 0 <= j < i + 1 && (#[trigger] entries@[j]).0@ == k by {
                    if all.contains(k) && exists|j: int|
                        0 <= j < i + 1 && (#[trigger] entries@[j]).0@ == k {
                        let j = choose|j: int| 0 <= j < i + 1 && (#[trigger] entries@[j]).0@ == k;
                        if j < i {
                            assert(before.contains(k));
                        }
                    }
                    if before.contains(k) {
                        let j = choose|j: int| 0 <= j < i && (#[trigger] entries@[j]).0@ == k;
                        assert(0 <= j < i + 1 && entries@[j].0@ == k);
                    }
                    assert(entries@[i as int].0@ == key);
                }
            }
            i += 1;
        }
        proof {
            let all = counted(self@.tasks, waiting, running);
            assert forall|k: Seq<char>| #[trigger] seen.contains(k) <==> all.contains(k) by {
                if all.contains(k) {
                    assert(places.dom().contains(k));
                }
            }
            assert(seen =~= all);
        }
        r
    }

    /// Get active scan count.
    #[must_use]
    pub fn active_count(&self) -> (r: usize)
        requires
            self.wf(),
        ensures
            r == active(self@.tasks).len(),
    {
        proof {
            assert(counted(self@.tasks, false, true) =~= active(self@.tasks));
        }
        self.count(false, true)
    }

    /// Get queued scan count.
    #[must_use]
    pub fn queued_count(&self) -> (r: usize)
        requires
            self.wf(),
        ensures
            r == queued(self@.tasks).len(),
    {
        proof {
            assert(counted(self@.tasks, true, false) =~= queued(self@.tasks));
        }
        self.count(true, false)
    }

    /// Check if a new scan can be started based on max concurrent limit.
    /// Counts both queued and running scans against the limit.
    #[must_use]
    pub fn can_start_scan(&self) -> (r: bool)
        requires
            self.wf(),
        ensures
            r == (busy(self@.tasks).len() < self@.config.max_concurrent_scans),
    {
        proof {
            assert(counted(self@.tasks, true, true) =~= busy(self@.tasks));
        }
        self.count(true, true) < self.config.max_concurrent_scans
    }

    /// Validate an API key against the configured keys.
    #[must_use]
    pub fn validate_api_key(&self, key: &str) -> (r: bool)
        ensures
            r == self@.config.accepts(key@),
    {
        self.config.is_valid_key(key)
    }

    /// Get a reference to the API configuration.
    #[must_use]
    pub fn config(&self) -> (r: &ApiConfig)
        ensures
            *r == self@.config,
    {
        &self.config
    }

    /// Check if there are available scan slots.
    #[must_use]
    pub fn available_slots(&self) -> (r: usize)
        requires
            self.wf(),
        ensures
            r == if active(self@.tasks).len() < self@.config.max_concurrent_scans {
                self@.config.max_concurrent_scans - active(self@.tasks).len()
            } else {
                0
            },
    {
        self.config.max_concurrent_scans.saturating_sub(self.active_count())
    }

    /// Get the maximum concurrent scans limit.
    #[must_use]
    pub fn max_concurrent_scans(&self) -> (r: usize)
        ensures
            r == self@.config.max_concurrent_scans,
    {
        self.config.max_concurrent_scans
    }

    /// Check if progress streaming is enabled.
    #[must_use]
    pub fn is_sse_enabled(&self) -> (r: bool)
        ensures
            r == self@.config.enable_sse,
    {
        self.config.enable_sse
    }

    /// Get the result retention duration, in nanoseconds.
    #[must_use]
    pub fn result_retention(&self) -> (r: u128)
        ensures
            r == self@.config.result_retention,
    {
        self.config.result_retention
    }

    /// Create a scan if under concurrency limit.
    pub fn create_scan_if_allowed(
        &mut self,
        id: &str,
        targets: Vec<String>,
        scan_type: String,
    ) -> (r: Result<(), ApiError>)
        requires
            old(self).wf(),
        ensures
            final(self).wf(),
            final(self)@.wf(),
            if busy(old(self)@.tasks).len() < old(self)@.config.max_concurrent_scans {
                exists|now: Timestamp| #[trigger]
                    a_time(now) && is_created(
                        old(self)@,
                        final(self)@,
                        r,
                        id@,
                        targets@,
                        scan_type,
                        now,
                    )
            } else {
                r == Err::<(), ApiError>(
                    ApiError::ScanLimitReached(old(self)@.config.max_concurrent_scans),
                ) && final(self)@ == old(self)@
            },
    {
        if !self.can_start_scan() {
            return Err(ApiError::ScanLimitReached(self.config.max_concurrent_scans));
        }
        self.create_scan(id, targets, scan_type)
    }

    /// Get scan results.
    ///
    /// Returns the complete scan results if available.
    #[must_use]
    pub fn get_scan_results(&self, id: &str) -> (r: Option<&ScanResultsResponse>)
        requires
            self.wf(),
        ensures
            match r {
                Some(x) => self@.results.dom().contains(id@) && *x == self@.results[id@],
                None => !self@.results.dom().contains(id@),
            },
    {
        match index_get(&self.results, id) {
            Some(place) => Some(&self.result_slots[place]),
            None => None,
        }
    }

    /// Store scan results.
    pub fn store_results(&mut self, id: &str, results: ScanResultsResponse) -> (r: Result<
        (),
        ApiError,
    >)
        requires
            old(self).wf(),
        ensures
            final(self).wf(),
            final(self)@.wf(),
            is_stored(old(self)@, final(self)@, r, id@, results),
    {
        if !index_contains(&self.tasks, id) {
            return Err(ApiError::ScanNotFound(id.to_string()));
        }
        let ghost before = *self;
        let ghost places = index::slots(self.results);
        match index_get(&self.results, id) {
            Some(place) => {
                self.result_slots.set(place, results);
                proof {
                    assert forall|k: Seq<char>| #[trigger]
                        places.dom().contains(k) implies self@.results[k] == before@.results.insert(
                        id@,
                        results,
                    )[k] by {
                        if k != id@ {
                            assert(places[k] != places[id@]);
                        }
                    }
                    assert(self@.results.dom() =~= before@.results.insert(id@, results).dom());
                    assert(self@.results =~= before@.results.insert(id@, results));
                }
            },
            None => {
                let place: usize = self.result_slots.len();
                self.result_slots.push(results);
                index_insert(&mut self.results, id, place);
                proof {
                    assert(index::slots(self.results).dom() =~= places.dom().insert(id@));
                    assert forall|k: Seq<char>| #[trigger]
                        self@.results.dom().contains(k) implies self@.results[k]
                        == before@.results.insert(id@, results)[k] by {
                        if k != id@ {
                            assert(places.dom().contains(k));
                        }
                    }
                    assert(self@.results =~= before@.results.insert(id@, results));
                    let now = index::slots(self.results);
                    assert forall|k: Seq<char>, l: Seq<char>|
                        #![trigger now[k], now[l]]
                        now.dom().contains(k) && now.dom().contains(l) && now[k]
                            == now[l] implies k == l by {
                        if k != id@ {
                            assert(places.dom().contains(k) && places[k] < place);
                        }
                        if l != id@ {
                            assert(places.dom().contains(l) && places[l] < place);
                        }
                    }
                }
            },
        }
        proof {
            assert(self@.tasks =~= before@.tasks);
        }
        Ok(())
    }

    /// A manager with the default configuration, for which a key has been freshly
    /// generated.
    #[must_use]
    pub fn default(fresh_key: String) -> (r: Self)
        ensures
            r.wf(),
            r@.wf(),
            r@.tasks.dom() == Set::<Seq<char>>::empty(),
            r@.results.dom() == Set::<Seq<char>>::empty(),
            r@.config.starts_with(fresh_key),
    {
        Self::new(ApiConfig::default(fresh_key))
    }

    /// Check if results are available for a scan.
    #[must_use]
    pub fn has_results(&self, id: &str) -> (r: bool)
        ensures
            r == self@.results.dom().contains(id@),
    {
        index_contains(&self.results, id)
    }
}

/// The scans that wait if `waiting`, and those that run if `running`.
pub open spec fn counted(
    tasks: Map<Seq<char>, TaskModel>,
    waiting: bool,
    running: bool,
) -> Set<Seq<char>> {
    tasks.dom().filter(
        |k: Seq<char>|
            (waiting && tasks[k].status is Queued) || (running && tasks[k].status is Running),
    )
}

/// The scan was not found.
pub open spec fn is_not_found(r: Result<(), ApiError>, id: Seq<char>) -> bool {
    match r {
        Err(ApiError::ScanNotFound(i)) => i@ == id,
        _ => false,
    }
}

/// A scan that is not there is created; one that is there is left as it is.
pub open spec fn is_created(
    before: ManagerModel,
    after: ManagerModel,
    r: Result<(), ApiError>,
    id: Seq<char>,
    targets: Seq<String>,
    scan_type: String,
    now: Timestamp,
) -> bool {
    if before.tasks.dom().contains(id) {
        after == before && match r {
            Err(ApiError::ScanAlreadyExists(i)) => i@ == id,
            _ => false,
        }
    } else {
        r is Ok && after == (ManagerModel {
            tasks: before.tasks.insert(id, queued_task(id, targets, scan_type, now)),
            ..before
        })
    }
}

/// A scan that is there gets the status; nothing else changes.
pub open spec fn is_updated(
    before: ManagerModel,
    after: ManagerModel,
    r: Result<(), ApiError>,
    id: Seq<char>,
    status: ScanStatus,
    now: Timestamp,
) -> bool {
    if before.tasks.dom().contains(id) {
        r is Ok && after == (ManagerModel {
            tasks: before.tasks.insert(id, with_status(before.tasks[id], status, now)),
            ..before
        })
    } else {
        is_not_found(r, id) && after == before
    }
}

/// The results of a scan that is there are stored, in place of earlier ones.
pub open spec fn is_stored(
    before: ManagerModel,
    after: ManagerModel,
    r: Result<(), ApiError>,
    id: Seq<char>,
    results: ScanResultsResponse,
) -> bool {
    if before.tasks.dom().contains(id) {
        r is Ok && after == (ManagerModel { results: before.results.insert(id, results), ..before })
    } else {
        is_not_found(r, id) && after == before
    }
}

/// The limit is kept: a scan that is created while fewer scans than allowed wait or
/// run makes them one more, which is not more than allowed.
pub proof fn limit_is_kept(
    before: ManagerModel,
    after: ManagerModel,
    id: Seq<char>,
    targets: Seq<String>,
    scan_type: String,
    now: Timestamp,
)
    requires
        before.wf(),
        busy(before.tasks).len() < before.config.max_concurrent_scans,
        !before.tasks.dom().contains(id),
        is_created(before, after, Ok(()), id, targets, scan_type, now),
    ensures
        busy(after.tasks).len() == busy(before.tasks).len() + 1,
        busy(after.tasks).len() <= after.config.max_concurrent_scans,
{
    assert(busy(after.tasks) =~= busy(before.tasks).insert(id));
    assert(busy(before.tasks).subset_of(before.tasks.dom()));
    vstd::set_lib::lemma_len_subset(busy(before.tasks), before.tasks.dom());
}

/// Every scan that waits or runs does one of the two.
pub proof fn busy_are_queued_or_active(m: ManagerModel)
    requires
        m.wf(),
    ensures
        busy(m.tasks).len() == queued(m.tasks).len() + active(m.tasks).len(),
{
    assert(busy(m.tasks) =~= queued(m.tasks).union(active(m.tasks)));
    vstd::set_lib::lemma_len_subset(queued(m.tasks), m.tasks.dom());
    vstd::set_lib::lemma_len_subset(active(m.tasks), m.tasks.dom());
    assert(queued(m.tasks).disjoint(active(m.tasks)));
    vstd::set_lib::lemma_set_disjoint_lens(queued(m.tasks), active(m.tasks));
}

/// Results are given back as they were stored, whatever happens to other scans.
pub proof fn results_are_given_back(
    before: ManagerModel,
    after: ManagerModel,
    id: Seq<char>,
    results: ScanResultsResponse,
    other: Seq<char>,
)
    requires
        before.tasks.dom().contains(id),
        is_stored(before, after, Ok(()), id, results),
    ensures
        after.results.dom().contains(id),
        after.results[id] == results,
        other != id ==> after.results.dom().contains(other) == before.results.dom().contains(other),
        other != id && before.results.dom().contains(other) ==> after.results[other]
            == before.results[other],
{
}

/// A new scan waits: it has the name, the targets and the type that it was made with, and
/// has neither begun nor ended.
pub proof fn new_scans_wait(
    id: Seq<char>,
    targets: Seq<String>,
    scan_type: String,
    now: Timestamp,
)
    ensures
        ({
            let t = queued_task(id, targets, scan_type, now);
            &&& t.id == id
            &&& t.targets == targets
            &&& t.scan_type == scan_type
            &&& t.status is Queued
            &&& t.created_at == now
            &&& t.started_at is None
            &&& t.completed_at is None
            &&& t.progress.completed_hosts == 0
            &&& t.progress.total_hosts == 0
        }),
{
}

/// A change of status changes the status and the times that belong to it: a scan begins
/// when it first runs, and ends when it is completed, cancelled or failed.
pub proof fn status_changes_are_timed(t: TaskModel, status: ScanStatus, now: Timestamp)
    ensures
        ({
            let r = with_status(t, status, now);
            &&& r.status == status
            &&& r.id == t.id
            &&& r.targets == t.targets
            &&& r.scan_type == t.scan_type
            &&& r.created_at == t.created_at
            &&& r.progress == t.progress
            &&& t.started_at is Some || !(status is Running) ==> r.started_at == t.started_at
            &&& t.started_at is None && status is Running ==> r.started_at == Some(now)
            &&& status is Completed || status is Cancelled || status is Failed ==> r.completed_at
                == Some(now)
            &&& status is Queued || status is Running ==> r.completed_at == t.completed_at
        }),
{
}

/// A scan is counted as waiting or running by its status alone, and as busy if it is
/// either.
pub proof fn scans_are_counted_by_status(tasks: Map<Seq<char>, TaskModel>, id: Seq<char>)
    ensures
        queued(tasks).contains(id) <==> tasks.contains_key(id) && tasks[id].status is Queued,
        active(tasks).contains(id) <==> tasks.contains_key(id) && tasks[id].status is Running,
        busy(tasks).contains(id) <==> queued(tasks).contains(id) || active(tasks).contains(id),
        counted(tasks, true, true) =~= busy(tasks),
        counted(tasks, true, false) =~= queued(tasks),
        counted(tasks, false, true) =~= active(tasks),
{
}

/// A scan is created under a name that is free, and then waits under it; a name that is
/// taken is refused. No other scan, no result and no setting changes.
pub proof fn created_scans_are_found(
    before: ManagerModel,
    after: ManagerModel,
    r: Result<(), ApiError>,
    id: Seq<char>,
    targets: Seq<String>,
    scan_type: String,
    now: Timestamp,
    other: Seq<char>,
)
    requires
        is_created(before, after, r, id, targets, scan_type, now),
    ensures
        r is Ok <==> !before.tasks.contains_key(id),
        r matches Err(e) ==> (e matches ApiError::ScanAlreadyExists(name) && name@ == id) && after
            == before,
        r is Ok ==> after.tasks.contains_key(id) && after.tasks[id].status is Queued
            && after.tasks[id].targets == targets && after.tasks[id].scan_type == scan_type,
        other != id ==> after.tasks.contains_key(other) == before.tasks.contains_key(other) && (
        before.tasks.contains_key(other) ==> after.tasks[other] == before.tasks[other]),
        after.results == before.results,
        after.config == before.config,
{
}

/// An update reaches the scan of the name and no other, and is refused if there is none.
pub proof fn updates_reach_one_scan(
    before: ManagerModel,
    after: ManagerModel,
    r: Result<(), ApiError>,
    id: Seq<char>,
    status: ScanStatus,
    now: Timestamp,
    other: Seq<char>,
)
    requires
        is_updated(before, after, r, id, status, now),
    ensures
        r is Ok <==> before.tasks.contains_key(id),
        r matches Err(e) ==> (e matches ApiError::ScanNotFound(name) && name@ == id) && after
            == before,
        r is Ok ==> after.tasks.contains_key(id) && after.tasks[id].status == status
            && after.tasks[id].targets == before.tasks[id].targets,
        after.tasks.dom() =~= before.tasks.dom(),
        other != id && before.tasks.contains_key(other) ==> after.tasks[other]
            == before.tasks[other],
        after.results == before.results,
        after.config == before.config,
{
}

/// What is not found is told by its identifier, and no success says so.
pub proof fn missing_scans_are_named(r: Result<(), ApiError>, id: Seq<char>, other: Seq<char>)
    requires
        is_not_found(r, id),
    ensures
        r is Err,
        is_not_found(r, other) ==> other == id,
        r->Err_0 matches ApiError::ScanNotFound(i) && i@ == id,
{
}

/// The results that were stored for a scan are the ones that are found, those of other
/// scans stay, and for a scan that is not there nothing is stored.
pub proof fn stored_results_are_found(
    before: ManagerModel,
    after: ManagerModel,
    r: Result<(), ApiError>,
    id: Seq<char>,
    results: ScanResultsResponse,
    other: Seq<char>,
)
    requires
        is_stored(before, after, r, id, results),
    ensures
        r is Ok <==> before.tasks.dom().contains(id),
        r is Ok ==> after.results.dom().contains(id) && after.results[id] == results,
        r is Err ==> after == before,
        other != id ==> (after.results.dom().contains(other) <==> before.results.dom().contains(
            other,
        )) && after.results[other] == before.results[other],
        after.tasks == before.tasks,
        after.config == before.config,
{
}

} // verus!
