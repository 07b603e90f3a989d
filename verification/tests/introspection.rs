use remoteprocess::children::{collect_entries, filter_child_pids, stat_ppid};
use remoteprocess::error::Error;
use remoteprocess::process::Process;
use remoteprocess::status::{nt_status_result, suspend_call_succeeded};
use remoteprocess::suspend::SuspendCount;
use remoteprocess::thread::{active_from_syscall_query, Thread};

#[test]
fn two_children_among_unrelated_processes() {
    let entries: Vec<(i32, i32)> = vec![(101, 100), (102, 100), (300, 1), (301, 300)];
    let r = filter_child_pids(100, &entries);
    assert_eq!(r, vec![(101, 100), (102, 100)]);
}

#[test]
fn grandchildren_are_reachable() {
    let entries: Vec<(i32, i32)> = vec![(101, 100), (200, 101), (201, 200), (300, 1)];
    let r = filter_child_pids(100, &entries);
    assert_eq!(r, vec![(101, 100), (200, 101), (201, 200)]);
}

#[test]
fn parent_cycles_do_not_reach_the_root() {
    let entries: Vec<(i32, i32)> = vec![(400, 401), (401, 400), (101, 100)];
    let r = filter_child_pids(100, &entries);
    assert_eq!(r, vec![(101, 100)]);
}

#[test]
fn no_children_yields_empty() {
    let entries: Vec<(i32, i32)> = vec![(300, 1), (301, 300)];
    let r = filter_child_pids(100, &entries);
    assert_eq!(r, Vec::<(i32, i32)>::new());
}

#[test]
fn empty_enumeration_yields_no_children() {
    let entries: Vec<(i32, i32)> = Vec::new();
    assert_eq!(filter_child_pids(1, &entries), Vec::<(i32, i32)>::new());
}

#[test]
fn failed_info_queries_are_ignored() {
    let raw: Vec<Option<(i32, i32)>> = vec![Some((101, 100)), None, Some((300, 1)), None];
    let r = collect_entries(&raw);
    assert_eq!(r, vec![(101, 100), (300, 1)]);
}

#[test]
fn stat_line_parent_pid_survives_odd_command_names() {
    let line: Vec<u8> = b"123 (a (we)ird 9 name) S 77 123 120 0 -1".to_vec();
    assert_eq!(stat_ppid(&line), Some(77));
}

#[test]
fn stat_line_rejects_malformed_input() {
    let no_paren: Vec<u8> = b"garbage without parenthesis".to_vec();
    assert_eq!(stat_ppid(&no_paren), None);
    let no_digits: Vec<u8> = b"1 (x) S abc".to_vec();
    assert_eq!(stat_ppid(&no_digits), None);
    let too_large: Vec<u8> = b"1 (x) S 99999999999 4".to_vec();
    assert_eq!(stat_ppid(&too_large), None);
}

#[test]
fn child_processes_uses_the_process_pid_as_root() {
    let p = Process::new(1).unwrap();
    assert_eq!(p.pid, 1);
    let entries: Vec<(i32, i32)> = vec![(5, 1), (6, 5), (300, 200)];
    let r = p.child_processes(&entries);
    assert_eq!(r, vec![(5, 1), (6, 5)]);
}

#[test]
fn cwd_always_fails() {
    let p = Process::new(1).unwrap();
    assert_eq!(p.cwd(), Err(Error::Unsupported));
    assert!(!Error::Unsupported.is_os_failure());
    let q = Process::new(2).unwrap();
    assert_eq!(q.cwd(), Err(Error::Unsupported));
}

#[test]
fn os_failure_codes_map_exactly() {
    assert_eq!(remoteprocess::error::error_from_code(Some(5)), Error::Os(5));
    assert_eq!(remoteprocess::error::error_from_code(None), Error::OsUnknown);
    assert!(Error::OsUnknown.is_os_failure());
    assert!(Error::Os(5).is_os_failure());
}

#[test]
fn read_keeps_buffer_length() {
    let p = Process::new(1).unwrap();
    let mut buf: Vec<u8> = vec![0; 16];
    let r = p.read(8, &mut buf);
    assert_eq!(buf.len(), 16);
    if let Err(e) = r {
        assert!(e.is_os_failure());
    }
}

#[test]
fn threads_keep_the_kernel_order() {
    let p = Process::new(1).unwrap();
    let tids: Vec<i32> = vec![10, 20, 30];
    let ts = p.threads(&tids);
    assert_eq!(ts.len(), 3);
    assert_eq!(ts[0].id(), Ok(10));
    assert_eq!(ts[1].id(), Ok(20));
    assert_eq!(ts[2].id(), Ok(30));
}

#[test]
fn thread_reports_its_id() {
    let t = Thread::new(42);
    assert_eq!(t.id(), Ok(42));
}

#[test]
fn liveness_heuristic_inverts_the_query() {
    assert!(!active_from_syscall_query(true));
    assert!(active_from_syscall_query(false));
}

#[test]
fn status_zero_is_success() {
    assert_eq!(nt_status_result(0, 0), Ok(()));
}

#[test]
fn failed_status_surfaces_host_code() {
    assert_eq!(nt_status_result(-1073741790, 5), Err(Error::Os(5)));
}

#[test]
fn suspend_sentinel_is_all_ones() {
    assert!(suspend_call_succeeded(0));
    assert!(suspend_call_succeeded(3));
    assert!(!suspend_call_succeeded(u32::MAX));
}

#[test]
fn lock_round_trip_restores_schedulability() {
    let before = SuspendCount::new();
    assert_eq!(before.count, 0);
    let held = before.suspend();
    assert_eq!(held.count, 1);
    let after = held.resume();
    assert_eq!(after, before);
    assert_eq!(after.count, 0);
}

#[test]
fn nested_locks_release_only_after_both_guards() {
    let free = SuspendCount::new();
    let once = free.suspend();
    let twice = once.suspend();
    assert_eq!(twice.count, 2);
    let after_first_release = twice.resume();
    assert_ne!(after_first_release.count, 0);
    let after_second_release = after_first_release.resume();
    assert_eq!(after_second_release.count, 0);
}

#[test]
fn exe_query_failure_carries_os_code() {
    let buf: Vec<u16> = Vec::new();
    let outcome: Result<u32, Option<i32>> = Err(Some(5));
    assert_eq!(Process::exe_from_query(outcome, &buf), Err(Error::Os(5)));
    let codeless: Result<u32, Option<i32>> = Err(None);
    assert_eq!(Process::exe_from_query(codeless, &buf), Err(Error::OsUnknown));
}

#[test]
fn exe_query_success_decodes_reported_run() {
    let mut buf: Vec<u16> = "C:\\target.exe".encode_utf16().collect();
    let filled = buf.len() as u32;
    buf.push(0);
    buf.push(0);
    let r = Process::exe_from_query(Ok(filled), &buf);
    assert_eq!(r, Ok("C:\\target.exe".to_string()));
}
