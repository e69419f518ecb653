use pullyt::debug_logs::{read_since, DebugLog, MAX_LOG_LINES};

fn ids(log: &DebugLog, since: u64) -> Vec<u64> {
    read_since(log, since).iter().map(|e| e.id).collect()
}

#[test]
fn numbers_start_at_one_and_grow_by_one() {
    let mut log = DebugLog::new();
    pullyt::debug_logs::write(&mut log, "first");
    pullyt::debug_logs::write(&mut log, "second");
    pullyt::debug_logs::write(&mut log, "third");
    let all = read_since(&log, 0);
    assert_eq!(all.len(), 3);
    assert_eq!(all[0].id, 1);
    assert_eq!(all[0].message, "first");
    assert_eq!(all[1].id, 2);
    assert_eq!(all[1].message, "second");
    assert_eq!(all[2].id, 3);
    assert_eq!(all[2].message, "third");
}

#[test]
fn read_since_returns_only_newer_lines() {
    let mut log = DebugLog::new();
    for i in 0..5 {
        pullyt::debug_logs::write(&mut log, &format!("line {i}"));
    }
    assert_eq!(ids(&log, 3), vec![4, 5]);
    let newer = read_since(&log, 3);
    assert_eq!(newer[0].message, "line 3");
    assert_eq!(newer[1].message, "line 4");
}

#[test]
fn poll_after_write_gets_exactly_the_new_line() {
    let mut log = DebugLog::new();
    pullyt::debug_logs::write(&mut log, "a");
    pullyt::debug_logs::write(&mut log, "b");
    let seen = 2;
    pullyt::debug_logs::write(&mut log, "c");
    let fresh = read_since(&log, seen);
    assert_eq!(fresh.len(), 1);
    assert_eq!(fresh[0].id, 3);
    assert_eq!(fresh[0].message, "c");
}

#[test]
fn poll_when_up_to_date_is_empty() {
    let mut log = DebugLog::new();
    assert!(read_since(&log, 0).is_empty());
    pullyt::debug_logs::write(&mut log, "a");
    assert!(read_since(&log, 1).is_empty());
    assert!(read_since(&log, 100).is_empty());
    assert_eq!(log.last_number(), 1);
}

#[test]
fn log_keeps_only_the_last_lines() {
    let mut log = DebugLog::new();
    let total = MAX_LOG_LINES as u64 + 5;
    for i in 1..=total {
        pullyt::debug_logs::write(&mut log, &format!("m{i}"));
    }
    let all = read_since(&log, 0);
    assert_eq!(all.len(), MAX_LOG_LINES);
    assert_eq!(all[0].id, 6);
    assert_eq!(all[0].message, "m6");
    assert_eq!(all[MAX_LOG_LINES - 1].id, total);
    for w in all.windows(2) {
        assert_eq!(w[0].id + 1, w[1].id);
    }
    assert!(log.is_consistent());
}

#[test]
fn poll_from_before_the_kept_lines_gets_all_kept() {
    let mut log = DebugLog::new();
    for i in 0..(MAX_LOG_LINES + 10) {
        pullyt::debug_logs::write(&mut log, &format!("{i}"));
    }
    assert_eq!(read_since(&log, 3).len(), MAX_LOG_LINES);
    assert_eq!(ids(&log, (MAX_LOG_LINES + 8) as u64), vec![(MAX_LOG_LINES + 9) as u64, (MAX_LOG_LINES + 10) as u64]);
}

#[test]
fn cloned_entry_keeps_number_and_text() {
    let mut log = DebugLog::new();
    pullyt::debug_logs::write(&mut log, "x");
    let e = read_since(&log, 0).remove(0);
    let c = e.clone();
    assert_eq!(c.id, 1);
    assert_eq!(c.message, "x");
}

#[test]
fn log_holds_exactly_the_last_messages() {
    for n in [0usize, 1, 5, MAX_LOG_LINES - 1, MAX_LOG_LINES, MAX_LOG_LINES + 1, 2 * MAX_LOG_LINES + 3] {
        let mut log = DebugLog::new();
        for i in 1..=n {
            pullyt::debug_logs::write(&mut log, &format!("msg {i}"));
        }
        let all = read_since(&log, 0);
        let kept = n.min(MAX_LOG_LINES);
        assert_eq!(all.len(), kept);
        for (k, e) in all.iter().enumerate() {
            let j = n - kept + k + 1;
            assert_eq!(e.id, j as u64);
            assert_eq!(e.message, format!("msg {j}"));
        }
        assert_eq!(log.last_number(), n as u64);
    }
}
