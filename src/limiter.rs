use vstd::prelude::*;
use std::collections::HashSet;
use crate::process_manager::{ProcessStatus, StatusView, views, pid_label_spec};

verus! {

broadcast use vstd::std_specs::hash::group_hash_axioms;

/// The interval of the monitor loop when none is given, in milliseconds.
pub const DEFAULT_INTERVAL_MS: u64 = 30000;

/// The events one monitor cycle fires.
pub struct CycleEvents {
    /// At least one process was adjusted in this cycle.
    pub process_updated: bool,
    /// The cycle is complete; fired every cycle.
    pub scan_completed: bool,
}

/// The state shared by the monitor loop and the on-demand operations: the
/// identifiers of processes confirmed adjusted, the time of the last scan, and
/// whether a monitor loop is running.
pub struct Limiter {
    limited: Option<HashSet<u32>>,
    last_scan: Option<u64>,
    running: bool,
}

/// The tracked set after recording one limit result: the pid is added exactly
/// when the result says it was adjusted.
pub open spec fn recorded(limited: Set<u32>, result: StatusView) -> Set<u32> {
    if result.adjusted {
        limited.insert(result.pid)
    } else {
        limited
    }
}

/// The tracked set after recording a sequence of results in order.
pub open spec fn recorded_all(limited: Set<u32>, results: Seq<StatusView>) -> Set<u32>
    decreases results.len(),
{
    if results.len() == 0 {
        limited
    } else {
        recorded(recorded_all(limited, results.drop_last()), results.last())
    }
}

/// Some result in the sequence is an adjustment.
pub open spec fn any_adjusted(results: Seq<StatusView>) -> bool {
    exists|i: int| 0 <= i < results.len() && (#[trigger] results[i]).adjusted
}

/// A scan record with the tracked processes marked as adjusted.
pub open spec fn with_tracking(limited: Set<u32>, s: StatusView) -> StatusView {
    StatusView { adjusted: s.adjusted || limited.contains(s.pid), ..s }
}

/// The identifiers of the scanned processes not yet tracked, in scan order.
pub open spec fn untracked_pids(limited: Set<u32>, scanned: Seq<StatusView>) -> Seq<u32>
    decreases scanned.len(),
{
    if scanned.len() == 0 {
        Seq::empty()
    } else {
        let before = untracked_pids(limited, scanned.drop_last());
        if limited.contains(scanned.last().pid) {
            before
        } else {
            before.push(scanned.last().pid)
        }
    }
}

/// Once a limit result records an adjustment, the pid is tracked, so a second
/// limit request for it is answered as adjusted without adjusting again; and
/// recording the same result twice tracks nothing more than recording it once.
pub proof fn lemma_limit_is_idempotent(limited: Set<u32>, first: StatusView)
    requires
        first.adjusted,
    ensures
        recorded(limited, first).contains(first.pid),
        recorded(recorded(limited, first), first) == recorded(limited, first),
{
    assert(recorded(recorded(limited, first), first) =~= recorded(limited, first));
}

/// Tracking only grows: no limit result and no monitor cycle removes a pid.
pub proof fn lemma_tracking_is_monotonic(limited: Set<u32>, results: Seq<StatusView>)
    ensures
        forall|r: StatusView| limited.subset_of(#[trigger] recorded(limited, r)),
        limited.subset_of(recorded_all(limited, results)),
    decreases results.len(),
{
    if results.len() > 0 {
        lemma_tracking_is_monotonic(limited, results.drop_last());
        assert(recorded_all(limited, results.drop_last()).subset_of(
            recorded(recorded_all(limited, results.drop_last()), results.last()),
        ));
    }
}

/// The monitor interval: the given one, else the default.
pub fn monitor_interval(interval_ms: Option<u64>) -> (r: u64)
    ensures
        r == match interval_ms {
            Some(ms) => ms,
            None => DEFAULT_INTERVAL_MS,
        },
{
    match interval_ms {
        Some(ms) => ms,
        None => DEFAULT_INTERVAL_MS,
    }
}

impl Limiter {
    /// The identifiers confirmed adjusted.
    pub closed spec fn limited_view(&self) -> Set<u32> {
        match self.limited {
            Some(s) => s@,
            None => Set::empty(),
        }
    }

    /// The tracked set exists.
    pub closed spec fn is_initialized(&self) -> bool {
        self.limited is Some
    }

    pub closed spec fn last_scan_view(&self) -> Option<u64> {
        self.last_scan
    }

    pub closed spec fn running_view(&self) -> bool {
        self.running
    }

    /// Nothing tracked, no scan yet, no monitor running.
    pub fn new() -> (r: Limiter)
        ensures
            r.limited_view() == Set::<u32>::empty(),
            r.last_scan_view() is None,
            !r.running_view(),
    {
        Limiter { limited: None, last_scan: None, running: false }
    }

    /// Creates the tracked set on first use; what it holds is unchanged.
    pub fn init_limited_pids(&mut self)
        ensures
            final(self).is_initialized(),
            final(self).limited_view() == old(self).limited_view(),
            final(self).last_scan_view() == old(self).last_scan_view(),
            final(self).running_view() == old(self).running_view(),
    {
        if self.limited.is_none() {
            self.limited = Some(HashSet::new());
        }
    }

    /// Whether `pid` was confirmed adjusted.
    pub fn is_pid_limited(&mut self, pid: u32) -> (r: bool)
        ensures
            r == old(self).limited_view().contains(pid),
            final(self).limited_view() == old(self).limited_view(),
            final(self).last_scan_view() == old(self).last_scan_view(),
            final(self).running_view() == old(self).running_view(),
    {
        self.init_limited_pids();
        match &self.limited {
            Some(s) => s.contains(&pid),
            None => false,
        }
    }

    /// Records `pid` as adjusted; recording it again changes nothing.
    pub fn mark_pid_limited(&mut self, pid: u32)
        ensures
            final(self).limited_view() == old(self).limited_view().insert(pid),
            final(self).last_scan_view() == old(self).last_scan_view(),
            final(self).running_view() == old(self).running_view(),
    {
        self.init_limited_pids();
        match &mut self.limited {
            Some(s) => {
                s.insert(pid);
            },
            None => {},
        }
    }

    /// Takes the records of a scan made at `now_ms` and reports the tracked
    /// processes as adjusted, without adjusting anything again; the scan time
    /// becomes `now_ms`.
    pub fn scan_processes(&mut self, scanned: Vec<ProcessStatus>, now_ms: u64) -> (r: Vec<ProcessStatus>)
        ensures
            final(self).limited_view() == old(self).limited_view(),
            final(self).last_scan_view() == Some(now_ms),
            final(self).running_view() == old(self).running_view(),
            views(r@) == views(scanned@).map_values(|s: StatusView| with_tracking(old(self).limited_view(), s)),
    {
        self.last_scan = Some(now_ms);
        let mut scanned = scanned;
        let ghost original = scanned@;
        let mut i: usize = 0;
        while i < scanned.len()
            invariant
                self.limited_view() == old(self).limited_view(),
                self.last_scan == Some(now_ms),
                self.running == old(self).running_view(),
                i <= scanned@.len(),
                scanned@.len() == original.len(),
                forall|j: int| 0 <= j < i ==> scanned@[j]@ == with_tracking(old(self).limited_view(), original[j]@),
                forall|j: int| i <= j < scanned@.len() ==> scanned@[j] == original[j],
            decreases scanned@.len() - i,
        {
            let pid = scanned[i].pid;
            if self.is_pid_limited(pid) {
                let mut p = scanned[i].duplicate();
                p.adjusted = true;
                scanned.set(i, p);
            }
            i = i + 1;
        }
        proof {
            assert(views(scanned@) =~= views(original).map_values(
                |s: StatusView| with_tracking(old(self).limited_view(), s),
            ));
        }
        scanned
    }

    /// When the last scan happened, in milliseconds since the Unix epoch.
    pub fn get_last_scan_time(&self) -> (r: Option<u64>)
        ensures
            r == self.last_scan_view(),
    {
        self.last_scan
    }

    /// The answer to a limit request for `pid` when it is already tracked: an
    /// adjusted record under the `PID:` label, with nothing adjusted again.
    /// `None` when the process still has to be adjusted.
    pub fn already_limited(&mut self, pid: u32) -> (r: Option<ProcessStatus>)
        ensures
            r is Some <==> old(self).limited_view().contains(pid),
            r matches Some(s) ==> s@ == (StatusView { name: pid_label_spec(pid), pid, adjusted: true, error: None }),
            final(self).limited_view() == old(self).limited_view(),
            final(self).last_scan_view() == old(self).last_scan_view(),
            final(self).running_view() == old(self).running_view(),
    {
        if self.is_pid_limited(pid) {
            Some(ProcessStatus { name: crate::process_manager::pid_label(pid), pid, adjusted: true, error: None })
        } else {
            None
        }
    }

    /// The answer to a limit request for a scanned process when it is already
    /// tracked: the scan record marked adjusted, without error. `None` when the
    /// process still has to be adjusted.
    pub fn already_limited_entry(&mut self, p: &ProcessStatus) -> (r: Option<ProcessStatus>)
        ensures
            r is Some <==> old(self).limited_view().contains(p.pid),
            r matches Some(s) ==> s@ == (StatusView { adjusted: true, error: None, ..p@ }),
            final(self).limited_view() == old(self).limited_view(),
            final(self).last_scan_view() == old(self).last_scan_view(),
            final(self).running_view() == old(self).running_view(),
    {
        if self.is_pid_limited(p.pid) {
            Some(ProcessStatus { name: p.name.clone(), pid: p.pid, adjusted: true, error: None })
        } else {
            None
        }
    }

    /// Tracks the process of a limit result when it was adjusted; returns
    /// whether it was.
    pub fn record_result(&mut self, result: &ProcessStatus) -> (r: bool)
        ensures
            r == result.adjusted,
            final(self).limited_view() == recorded(old(self).limited_view(), result@),
            final(self).last_scan_view() == old(self).last_scan_view(),
            final(self).running_view() == old(self).running_view(),
    {
        if result.adjusted {
            self.mark_pid_limited(result.pid);
        }
        result.adjusted
    }

    /// Starts a monitor cycle at `now_ms` over the scanned target processes:
    /// records the scan time and returns the identifiers still to adjust.
    pub fn begin_cycle(&mut self, scanned: &Vec<ProcessStatus>, now_ms: u64) -> (r: Vec<u32>)
        ensures
            r@ == untracked_pids(old(self).limited_view(), views(scanned@)),
            final(self).limited_view() == old(self).limited_view(),
            final(self).last_scan_view() == Some(now_ms),
            final(self).running_view() == old(self).running_view(),
    {
        self.last_scan = Some(now_ms);
        let mut pending: Vec<u32> = Vec::new();
        let mut i: usize = 0;
        while i < scanned.len()
            invariant
                self.limited_view() == old(self).limited_view(),
                self.last_scan == Some(now_ms),
                self.running == old(self).running_view(),
                i <= scanned@.len(),
                pending@ == untracked_pids(old(self).limited_view(), views(scanned@).subrange(0, i as int)),
            decreases scanned@.len() - i,
        {
            proof {
                assert(views(scanned@).subrange(0, i + 1).drop_last() =~= views(scanned@).subrange(0, i as int));
            }
            let pid = scanned[i].pid;
            if !self.is_pid_limited(pid) {
                pending.push(pid);
            }
            i = i + 1;
        }
        proof {
            assert(views(scanned@).subrange(0, scanned@.len() as int) =~= views(scanned@));
        }
        pending
    }

    /// Ends a monitor cycle with the limit results of its adjustments: tracks
    /// each adjusted process, and fires the update event exactly when one was
    /// adjusted; the completion event fires every cycle.
    pub fn finish_cycle(&mut self, results: &Vec<ProcessStatus>) -> (r: CycleEvents)
        ensures
            final(self).limited_view() == recorded_all(old(self).limited_view(), views(results@)),
            r.process_updated == any_adjusted(views(results@)),
            r.scan_completed,
            final(self).last_scan_view() == old(self).last_scan_view(),
            final(self).running_view() == old(self).running_view(),
    {
        let mut changed = false;
        let mut i: usize = 0;
        while i < results.len()
            invariant
                i <= results@.len(),
                self.limited_view() == recorded_all(old(self).limited_view(), views(results@).subrange(0, i as int)),
                changed == any_adjusted(views(results@).subrange(0, i as int)),
                self.last_scan == old(self).last_scan_view(),
                self.running == old(self).running_view(),
            decreases results@.len() - i,
        {
            proof {
                let sub = views(results@).subrange(0, i + 1);
                assert(sub.drop_last() =~= views(results@).subrange(0, i as int));
                if any_adjusted(sub) {
                    let k = choose|k: int| 0 <= k < sub.len() && (#[trigger] sub[k]).adjusted;
                    if k < i {
                        assert(views(results@).subrange(0, i as int)[k] == sub[k]);
                    }
                }
                if changed {
                    let k = choose|k: int| 0 <= k < i && (#[trigger] views(results@).subrange(0, i as int)[k]).adjusted;
                    assert(sub[k] == views(results@).subrange(0, i as int)[k]);
                }
                if results@[i as int].adjusted {
                    assert(sub[i as int].adjusted);
                }
            }
            if self.record_result(&results[i]) {
                changed = true;
            }
            i = i + 1;
        }
        proof {
            assert(views(results@).subrange(0, results@.len() as int) =~= views(results@));
        }
        CycleEvents { process_updated: changed, scan_completed: true }
    }

    /// Starts the monitor: true when it was stopped, false, with nothing
    /// changed, when one is already running.
    pub fn start_monitor(&mut self) -> (r: bool)
        ensures
            r == !old(self).running_view(),
            final(self).running_view(),
            final(self).limited_view() == old(self).limited_view(),
            final(self).last_scan_view() == old(self).last_scan_view(),
    {
        if self.running {
            false
        } else {
            self.running = true;
            true
        }
    }

    /// Asks the monitor to stop after its current cycle; always true.
    pub fn stop_monitor(&mut self) -> (r: bool)
        ensures
            r,
            !final(self).running_view(),
            final(self).limited_view() == old(self).limited_view(),
            final(self).last_scan_view() == old(self).last_scan_view(),
    {
        self.running = false;
        true
    }

    /// Whether a monitor loop is running.
    pub fn is_monitor_running(&self) -> (r: bool)
        ensures
            r == self.running_view(),
    {
        self.running
    }
}

} // verus!
