use taskmanager::enums::EProcessesSort;
use taskmanager::model::{ProcessRecord, Snapshot};
use taskmanager::rank::rank;

fn record(
    pid: u64,
    name: &str,
    user_id: Option<u64>,
    cpu: u64,
    mem: u64,
    disk: u64,
) -> ProcessRecord {
    ProcessRecord {
        pid,
        name: String::from(name),
        user_id,
        cpu_usage_raw: cpu,
        memory_bytes: mem,
        disk_read_bytes: disk / 2,
        disk_written_bytes: disk - disk / 2,
    }
}

fn snapshot(processes: Vec<ProcessRecord>) -> Snapshot {
    Snapshot {
        processes,
        logical_core_count: 4,
        global_cpu_usage: 1234,
        used_memory_bytes: 1_048_576,
        total_memory_bytes: 4_194_304,
    }
}

fn sample() -> Snapshot {
    snapshot(vec![
        record(10, "editor", Some(1000), 2500, 3_000_000, 800),
        record(11, "browser", Some(1000), 7500, 9_000_000, 100),
        record(12, "daemon", None, 100, 1_000_000, 5000),
        record(13, "shell", Some(0), 100, 2_000_000, 800),
    ])
}

fn pids(rows: &[ProcessRecord]) -> Vec<u64> {
    rows.iter().map(|r| r.pid).collect()
}

#[test]
fn rank_by_name_ascending() {
    let rows = rank(&sample(), EProcessesSort::Name);
    assert_eq!(pids(&rows), vec![11, 12, 10, 13]);
}

#[test]
fn rank_by_name_prefix_before_extension() {
    let s = snapshot(vec![
        record(1, "abc", None, 0, 0, 0),
        record(2, "ab", None, 0, 0, 0),
        record(3, "b", None, 0, 0, 0),
    ]);
    let rows = rank(&s, EProcessesSort::Name);
    assert_eq!(pids(&rows), vec![2, 1, 3]);
}

#[test]
fn rank_by_user_absent_lowest() {
    let rows = rank(&sample(), EProcessesSort::User);
    // None first, then user 0, then the two with user 1000 in snapshot order
    assert_eq!(pids(&rows), vec![12, 13, 10, 11]);
}

#[test]
fn rank_by_cpu_descending() {
    let rows = rank(&sample(), EProcessesSort::Cpu);
    // ties (pids 12 and 13, both at 100) keep snapshot order
    assert_eq!(pids(&rows), vec![11, 10, 12, 13]);
}

#[test]
fn rank_by_memory_descending() {
    let rows = rank(&sample(), EProcessesSort::Memory);
    assert_eq!(pids(&rows), vec![11, 10, 13, 12]);
}

#[test]
fn rank_by_disk_descending() {
    let rows = rank(&sample(), EProcessesSort::Disk);
    // ties (pids 10 and 13, both at 800 combined) keep snapshot order
    assert_eq!(pids(&rows), vec![12, 10, 13, 11]);
}

#[test]
fn rank_by_network_keeps_snapshot_order() {
    let rows = rank(&sample(), EProcessesSort::Network);
    assert_eq!(pids(&rows), vec![10, 11, 12, 13]);
}

#[test]
fn rank_returns_one_row_per_process() {
    let s = sample();
    for key in [
        EProcessesSort::Name,
        EProcessesSort::User,
        EProcessesSort::Cpu,
        EProcessesSort::Memory,
        EProcessesSort::Disk,
        EProcessesSort::Network,
    ] {
        let rows = rank(&s, key);
        assert_eq!(rows.len(), s.processes.len());
        let mut seen = pids(&rows);
        seen.sort();
        assert_eq!(seen, vec![10, 11, 12, 13]);
    }
}

#[test]
fn rank_is_deterministic_on_unchanged_input() {
    let s = sample();
    let first = rank(&s, EProcessesSort::Cpu);
    let second = rank(&s, EProcessesSort::Cpu);
    assert_eq!(pids(&first), pids(&second));
}

#[test]
fn cpu_then_memory_then_cpu_reproduces_cpu_order() {
    let s = sample();
    let cpu_before = rank(&s, EProcessesSort::Cpu);
    let _memory = rank(&s, EProcessesSort::Memory);
    let cpu_after = rank(&s, EProcessesSort::Cpu);
    assert_eq!(pids(&cpu_before), pids(&cpu_after));
    for (a, b) in cpu_before.iter().zip(cpu_after.iter()) {
        assert_eq!(a.name, b.name);
        assert_eq!(a.cpu_usage_raw, b.cpu_usage_raw);
    }
}

#[test]
fn rank_of_empty_snapshot_is_empty() {
    let s = snapshot(vec![]);
    assert!(rank(&s, EProcessesSort::Cpu).is_empty());
}

#[test]
fn exited_process_has_no_row_and_raises_nothing() {
    // pid 10 is present in one refresh and gone in the next: ranking the
    // newer snapshot neither shows it nor fails.
    let older = sample();
    assert!(pids(&rank(&older, EProcessesSort::Cpu)).contains(&10));
    let newer = snapshot(vec![
        record(11, "browser", Some(1000), 7500, 9_000_000, 100),
        record(12, "daemon", None, 100, 1_000_000, 5000),
    ]);
    let rows = rank(&newer, EProcessesSort::Cpu);
    assert_eq!(rows.len(), 2);
    assert!(!pids(&rows).contains(&10));
}

#[test]
fn rank_does_not_mutate_the_snapshot() {
    let s = sample();
    let before: Vec<u64> = s.processes.iter().map(|r| r.pid).collect();
    let _ = rank(&s, EProcessesSort::Name);
    let after: Vec<u64> = s.processes.iter().map(|r| r.pid).collect();
    assert_eq!(before, after);
}

#[test]
fn equal_records_all_tie() {
    // every comparator ties on fully equal metrics: order is snapshot order
    let s = snapshot(vec![
        record(1, "same", Some(5), 100, 100, 100),
        record(2, "same", Some(5), 100, 100, 100),
        record(3, "same", Some(5), 100, 100, 100),
    ]);
    for key in [
        EProcessesSort::Name,
        EProcessesSort::User,
        EProcessesSort::Cpu,
        EProcessesSort::Memory,
        EProcessesSort::Disk,
        EProcessesSort::Network,
    ] {
        assert_eq!(pids(&rank(&s, key)), vec![1, 2, 3]);
    }
}

#[test]
fn extreme_metrics_stay_orderable() {
    // two records whose combined disk counters would overflow a u64 sum
    let s = snapshot(vec![
        record(1, "a", None, u64::MAX, u64::MAX, 0),
        ProcessRecord {
            pid: 2,
            name: String::from("b"),
            user_id: Some(u64::MAX),
            cpu_usage_raw: u64::MAX - 1,
            memory_bytes: 0,
            disk_read_bytes: u64::MAX,
            disk_written_bytes: u64::MAX,
        },
    ]);
    assert_eq!(pids(&rank(&s, EProcessesSort::Cpu)), vec![1, 2]);
    assert_eq!(pids(&rank(&s, EProcessesSort::Disk)), vec![2, 1]);
}
