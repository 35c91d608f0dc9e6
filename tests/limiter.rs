use ace_limiter::adjuster::{AdjustAction, Adjuster};
use ace_limiter::limiter::{monitor_interval, Limiter};
use ace_limiter::process_manager::{limit_process, scan_only, ProcessEntry, ProcessStatus};

fn units(s: &str) -> Vec<u16> {
    s.encode_utf16().collect()
}

fn status(name: &str, pid: u32) -> ProcessStatus {
    ProcessStatus { name: name.to_string(), pid, adjusted: false, error: None }
}

#[test]
fn tracker_marks_and_queries() {
    let mut l = Limiter::new();
    assert!(!l.is_pid_limited(10));
    l.mark_pid_limited(10);
    assert!(l.is_pid_limited(10));
    l.mark_pid_limited(10);
    assert!(l.is_pid_limited(10));
    assert!(!l.is_pid_limited(11));
    l.init_limited_pids();
    assert!(l.is_pid_limited(10));
}

#[test]
fn scan_with_no_target_sets_scan_time() {
    let mut l = Limiter::new();
    assert_eq!(l.get_last_scan_time(), None);
    let scanned = scan_only(&vec![ProcessEntry { pid: 4, name: Some(units("System")) }]);
    let r = l.scan_processes(scanned, 1_700_000_000_000);
    assert!(r.is_empty());
    assert_eq!(l.get_last_scan_time(), Some(1_700_000_000_000));
}

#[test]
fn limited_pid_is_reported_adjusted_by_scan() {
    let mut l = Limiter::new();
    assert!(l.already_limited(100).is_none());
    let result = limit_process(100, Some(units("SGuard64.exe")), Ok(()));
    assert!(result.adjusted);
    assert!(l.record_result(&result));
    let scanned = scan_only(&vec![
        ProcessEntry { pid: 100, name: Some(units("SGuard64.exe")) },
        ProcessEntry { pid: 101, name: Some(units("SGuardSvc64.exe")) },
    ]);
    let r = l.scan_processes(scanned, 5);
    assert_eq!(r.len(), 2);
    assert!(r[0].adjusted);
    assert_eq!(r[0].pid, 100);
    assert!(!r[1].adjusted);
}

#[test]
fn second_limit_is_short_circuited() {
    let mut l = Limiter::new();
    let first = limit_process(55, None, Ok(()));
    l.record_result(&first);
    let second = l.already_limited(55).expect("tracked pid");
    assert!(second.adjusted);
    assert_eq!(second.name, "PID:55");
    assert!(second.error.is_none());
    let entry = l.already_limited_entry(&status("SGuardSvc64.exe", 55)).expect("tracked pid");
    assert_eq!(entry.name, "SGuardSvc64.exe");
    assert!(entry.adjusted);
    assert!(l.already_limited_entry(&status("SGuard64.exe", 56)).is_none());
}

#[test]
fn tracking_survives_later_failures() {
    let mut l = Limiter::new();
    l.record_result(&limit_process(77, None, Ok(())));
    assert!(!l.record_result(&limit_process(77, None, Err("gone".to_string()))));
    assert!(l.is_pid_limited(77));
    l.scan_processes(Vec::new(), 1);
    l.begin_cycle(&Vec::new(), 2);
    l.finish_cycle(&vec![limit_process(77, None, Err("gone".to_string()))]);
    l.stop_monitor();
    assert!(l.is_pid_limited(77));
}

#[test]
fn failed_priority_step_is_not_tracked_and_retried() {
    let mut l = Limiter::new();
    assert!(l.start_monitor());
    let (mut a, _) = Adjuster::begin(200, 4);
    a.step(Ok(()));
    assert!(matches!(a.step(Err("denied".to_string())), AdjustAction::Close));
    let outcome = match a.step(Ok(())) {
        AdjustAction::Finish(out) => out,
        _ => panic!("expected the end of the adjustment"),
    };
    let result = limit_process(200, Some(units("SGuardSvc64.exe")), outcome);
    assert!(!result.adjusted);
    assert!(!result.error.as_ref().unwrap().is_empty());
    let events = l.finish_cycle(&vec![result]);
    assert!(!events.process_updated);
    assert!(events.scan_completed);
    assert!(!l.is_pid_limited(200));
    let pending = l.begin_cycle(&vec![status("SGuardSvc64.exe", 200)], 10);
    assert_eq!(pending, vec![200]);
}

#[test]
fn one_cycle_tracks_both_targets() {
    let mut l = Limiter::new();
    assert!(l.start_monitor());
    assert_eq!(monitor_interval(Some(1000)), 1000);
    let scanned = scan_only(&vec![
        ProcessEntry { pid: 300, name: Some(units("SGuard64.exe")) },
        ProcessEntry { pid: 301, name: Some(units("SGuardSvc64.exe")) },
    ]);
    let pending = l.begin_cycle(&scanned, 1000);
    assert_eq!(pending, vec![300, 301]);
    let results: Vec<ProcessStatus> = pending.iter().map(|&pid| limit_process(pid, None, Ok(()))).collect();
    let events = l.finish_cycle(&results);
    assert!(events.process_updated);
    assert!(events.scan_completed);
    assert!(l.is_pid_limited(300));
    assert!(l.is_pid_limited(301));
    assert_eq!(l.get_last_scan_time(), Some(1000));
    let again = l.begin_cycle(&scanned, 2000);
    assert!(again.is_empty());
    let quiet = l.finish_cycle(&Vec::new());
    assert!(!quiet.process_updated);
    assert!(quiet.scan_completed);
}

#[test]
fn monitor_is_not_reentrant() {
    let mut l = Limiter::new();
    assert!(!l.is_monitor_running());
    assert!(l.start_monitor());
    assert!(!l.start_monitor());
    assert!(l.is_monitor_running());
    assert!(l.stop_monitor());
    assert!(!l.is_monitor_running());
    assert!(l.stop_monitor());
    assert!(l.start_monitor());
}

#[test]
fn default_monitor_interval() {
    assert_eq!(monitor_interval(None), 30000);
    assert_eq!(monitor_interval(Some(250)), 250);
}
