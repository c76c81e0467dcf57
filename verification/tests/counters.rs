use linux_stats::{stat, DecodeError, Stat};

static STAT_RAW: &str = "cpu  529384 866 99412 1676634 3901 0 1866 0 0 0\ncpu0 265342 430 49920 838057 1962 0 1048 0 0 0\ncpu1 264042 435 49492 838576 1938 0 817 0 0 0\nintr 9164907 55 9 0 0 0 0 3 0 1\nctxt 19226041\nbtime 1465047533\nprocesses 18056\nprocs_running 2\nprocs_blocked 1\nsoftirq 5057579 2 1779221 5958 139459 109557 0\n";

#[test]
fn stat_empty_is_default() {
    assert_eq!(stat("").unwrap(), Stat::default());
}

#[test]
fn stat_fixture_all_fields() {
    let s = stat(STAT_RAW).unwrap();
    assert_eq!(s.cpu, vec![529384, 866, 99412, 1676634, 3901, 0, 1866, 0, 0, 0]);
    assert_eq!(s.cpus.len(), 2);
    assert_eq!(s.cpus[0], vec![265342, 430, 49920, 838057, 1962, 0, 1048, 0, 0, 0]);
    assert_eq!(s.cpus[1], vec![264042, 435, 49492, 838576, 1938, 0, 817, 0, 0, 0]);
    assert_eq!(s.intr, vec![9164907, 55, 9, 0, 0, 0, 0, 3, 0, 1]);
    assert_eq!(s.ctxt, 19226041);
    assert_eq!(s.btime, 1465047533);
    assert_eq!(s.processes, 18056);
    assert_eq!(s.procs_running, 2);
    assert_eq!(s.procs_blocked, 1);
    assert_eq!(s.softirq, vec![5057579, 2, 1779221, 5958, 139459, 109557, 0]);
}

#[test]
fn stat_per_core_rows_follow_document_order() {
    let s = stat("cpu 1 2\ncpu1 5 6\ncpu0 3 4\n").unwrap();
    assert_eq!(s.cpu, vec![1, 2]);
    assert_eq!(s.cpus, vec![vec![5, 6], vec![3, 4]]);
}

#[test]
fn stat_unknown_lines_are_ignored() {
    let s = stat("cpu 1\nsomething 5 6\nctxt 7\n").unwrap();
    assert_eq!(s.cpu, vec![1]);
    assert_eq!(s.ctxt, 7);
    assert_eq!(s.intr, Vec::<u64>::new());
}

#[test]
fn stat_malformed_counter_is_error() {
    assert_eq!(stat("cpu 12 x3\n"), Err(DecodeError::BadDecimal));
}

#[test]
fn stat_missing_scalar_value_is_error() {
    assert_eq!(stat("cpu 1\nctxt\n"), Err(DecodeError::MissingField));
}

#[test]
fn stat_scalar_overflow_is_error() {
    assert_eq!(stat("cpu 1\nbtime 5000000000\n"), Err(DecodeError::BadDecimal));
}
