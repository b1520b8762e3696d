use portkill::model::KillError;
use portkill::platform::windows::{
    collect_pids, describe_processes, exe_file_bytes, fetch_step, find_processes, kill_pid,
    scan_table, snapshot_names, table_fits, FetchStep, SnapshotEntry, SocketTables, TableKind,
    ERROR_ACCESS_DENIED, ERROR_INSUFFICIENT_BUFFER, NO_ERROR, TCP_STATE_LISTEN,
};
use std::collections::{HashMap, HashSet};
use windows_sys::Win32::Foundation as foundation;
use windows_sys::Win32::NetworkManagement::IpHelper as ip_helper;

/// 8080 is 0x1f90; a row holds its bytes in network order.
const PORT: u16 = 8080;
const FIELD: u32 = 0x0000_901f;
const SELF_PID: u32 = 4321;

fn tcp4(rows: &[(u32, u32, u32)]) -> Vec<u32> {
    let mut table = vec![rows.len() as u32];
    for (state, port, pid) in rows {
        table.extend([*state, 0x0100_007f, *port, 0, 0, *pid]);
    }
    table
}

fn tcp6(rows: &[(u32, u32, u32)]) -> Vec<u32> {
    let mut table = vec![rows.len() as u32];
    for (state, port, pid) in rows {
        table.extend([0, 0, 0, 1, 0, *port, 0, 0, 0, 0, 0, 0, *state, *pid]);
    }
    table
}

fn udp4(rows: &[(u32, u32)]) -> Vec<u32> {
    let mut table = vec![rows.len() as u32];
    for (port, pid) in rows {
        table.extend([0x0100_007f, *port, *pid]);
    }
    table
}

fn udp6(rows: &[(u32, u32)]) -> Vec<u32> {
    let mut table = vec![rows.len() as u32];
    for (port, pid) in rows {
        table.extend([0, 0, 0, 1, 0, *port, *pid]);
    }
    table
}

fn sample() -> SocketTables {
    SocketTables {
        tcp4: Ok(tcp4(&[(TCP_STATE_LISTEN, FIELD, 10), (5, FIELD, 11), (2, 0x5000, 12)])),
        tcp6: Ok(tcp6(&[(TCP_STATE_LISTEN, FIELD, 20), (11, FIELD, 0), (2, FIELD, 4)])),
        udp4: Ok(udp4(&[(FIELD, 30), (0x3500, 31)])),
        udp6: Ok(udp6(&[(FIELD, 40), (FIELD, 4)])),
    }
}

fn chars(text: &[u8]) -> Vec<i8> {
    let mut chars: Vec<i8> = text.iter().map(|byte| *byte as i8).collect();
    chars.resize(260, 0);
    chars
}

fn entry(pid: u32, name: &[u8]) -> SnapshotEntry {
    SnapshotEntry {
        pid,
        exe_file: chars(name),
    }
}

fn message(error: KillError) -> String {
    match error {
        KillError::Other(message) => message,
        KillError::Permission => panic!("expected Other"),
    }
}

#[test]
fn constants_are_those_of_the_system() {
    assert_eq!(TCP_STATE_LISTEN, ip_helper::MIB_TCP_STATE_LISTEN as u32);
    assert_eq!(NO_ERROR, foundation::NO_ERROR);
    assert_eq!(ERROR_INSUFFICIENT_BUFFER, foundation::ERROR_INSUFFICIENT_BUFFER);
    assert_eq!(ERROR_ACCESS_DENIED, foundation::ERROR_ACCESS_DENIED);
}

#[test]
fn rows_have_the_size_of_the_systems_rows() {
    assert_eq!(
        TableKind::Tcp4.row_words() * 4,
        std::mem::size_of::<ip_helper::MIB_TCPROW_OWNER_PID>()
    );
    assert_eq!(
        TableKind::Tcp6.row_words() * 4,
        std::mem::size_of::<ip_helper::MIB_TCP6ROW_OWNER_PID>()
    );
    assert_eq!(
        TableKind::Udp4.row_words() * 4,
        std::mem::size_of::<ip_helper::MIB_UDPROW_OWNER_PID>()
    );
    assert_eq!(
        TableKind::Udp6.row_words() * 4,
        std::mem::size_of::<ip_helper::MIB_UDP6ROW_OWNER_PID>()
    );
}

#[test]
fn fetch_grows_the_buffer_until_the_table_fits() {
    assert_eq!(fetch_step(NO_ERROR, 100), FetchStep::Complete);
    assert_eq!(fetch_step(ERROR_INSUFFICIENT_BUFFER, 0), FetchStep::Grow(1));
    assert_eq!(fetch_step(ERROR_INSUFFICIENT_BUFFER, 28), FetchStep::Grow(8));
    assert_eq!(fetch_step(ERROR_INSUFFICIENT_BUFFER, 29), FetchStep::Grow(9));
    assert_eq!(fetch_step(87, 28), FetchStep::Failed(87));
}

#[test]
fn table_fits_counts_its_rows() {
    assert!(!table_fits(TableKind::Udp4, &vec![]));
    assert!(table_fits(TableKind::Udp4, &vec![0]));
    assert!(table_fits(TableKind::Udp4, &vec![1, 0, 0, 0]));
    assert!(!table_fits(TableKind::Udp4, &vec![2, 0, 0, 0, 0, 0]));
    assert!(!table_fits(TableKind::Tcp6, &vec![u32::MAX, 0]));
}

#[test]
fn scan_keeps_what_was_found_and_skips_the_system() {
    let mut pids = HashSet::from([99]);
    let table = tcp4(&[(2, FIELD, 0), (2, FIELD, 4), (2, FIELD, 7), (2, 0x1f90, 8)]);
    scan_table(TableKind::Tcp4, &table, PORT, true, &mut pids);
    assert_eq!(pids, HashSet::from([99, 7]));
}

#[test]
fn scan_ignores_rows_beyond_the_count_and_the_upper_half_of_the_port() {
    let mut pids = HashSet::new();
    let mut table = udp4(&[(0xabcd_901f, 7), (FIELD, 8)]);
    table[0] = 1;
    scan_table(TableKind::Udp4, &table, PORT, false, &mut pids);
    assert_eq!(pids, HashSet::from([7]));
}

#[test]
fn collect_honours_listen_only() {
    let mut listening = HashSet::new();
    assert!(collect_pids(&sample(), PORT, true, &mut listening).is_ok());
    assert_eq!(listening, HashSet::from([10, 20]));
    let mut all = HashSet::new();
    assert!(collect_pids(&sample(), PORT, false, &mut all).is_ok());
    assert_eq!(all, HashSet::from([10, 11, 20, 30, 40]));
    assert!(listening.is_subset(&all));
}

#[test]
fn collect_reports_the_first_refused_table() {
    let mut tables = sample();
    tables.tcp6 = Err(0x57);
    tables.udp4 = Err(5);
    let mut pids = HashSet::new();
    let error = collect_pids(&tables, PORT, false, &mut pids).unwrap_err();
    assert_eq!(error, "GetExtendedTable failed: 0x57");
    assert_eq!(pids, HashSet::from([10, 11]));
    tables.tcp4 = Err(0xdead_beef);
    let error = collect_pids(&tables, PORT, true, &mut HashSet::new()).unwrap_err();
    assert_eq!(error, "GetExtendedTable failed: 0xdeadbeef");
}

#[test]
fn listen_only_ignores_the_udp_tables() {
    let mut tables = sample();
    tables.udp4 = Err(5);
    tables.udp6 = Ok(vec![]);
    let mut pids = HashSet::new();
    assert!(collect_pids(&tables, PORT, true, &mut pids).is_ok());
    assert_eq!(pids, HashSet::from([10, 20]));
}

#[test]
fn executable_name_ends_at_the_first_zero() {
    assert_eq!(exe_file_bytes(&vec![97, 98, 0, 99]), b"ab".to_vec());
    assert_eq!(exe_file_bytes(&vec![97, -61, -87]), vec![97, 0xc3, 0xa9]);
    assert_eq!(exe_file_bytes(&vec![]), Vec::<u8>::new());
}

#[test]
fn names_are_decoded_with_replacements() {
    let names = snapshot_names(&vec![
        entry(1, b"old.exe"),
        entry(2, "caf\u{e9}.exe".as_bytes()),
        entry(3, b"a\xffb"),
        entry(1, b"new.exe"),
    ]);
    assert_eq!(names.len(), 3);
    assert_eq!(names[&1], "new.exe");
    assert_eq!(names[&2], "caf\u{e9}.exe");
    assert_eq!(names[&3], "a\u{fffd}b");
}

#[test]
fn processes_without_a_name_are_unknown() {
    let names = HashMap::from([(1, String::from("server.exe"))]);
    let mut found = describe_processes(&HashSet::from([1, 2]), &names);
    found.sort_by_key(|process| process.pid);
    assert_eq!(found.len(), 2);
    assert_eq!((found[0].pid, found[0].name.as_str(), found[0].cmd.as_str()),
        (1, "server.exe", "server.exe"));
    assert_eq!((found[1].pid, found[1].name.as_str(), found[1].cmd.as_str()),
        (2, "Unknown", "Unknown"));
}

#[test]
fn processes_are_found_by_port() {
    let entries = vec![entry(10, b"a\xff.exe"), entry(4, b"System"), entry(12, b"other.exe")];
    let mut found = find_processes(&sample(), &entries, PORT, true);
    found.sort_by_key(|process| process.pid);
    let seen: Vec<(u32, &str)> = found
        .iter()
        .map(|process| (process.pid, process.name.as_str()))
        .collect();
    assert_eq!(seen, vec![(10, "a\u{fffd}.exe"), (20, "Unknown")]);
    assert_eq!(find_processes(&sample(), &entries, PORT, false).len(), 5);
    assert!(find_processes(&sample(), &entries, 9, false).is_empty());
}

#[test]
fn a_refused_table_hides_all_processes() {
    let mut tables = sample();
    tables.udp6 = Err(8);
    assert!(find_processes(&tables, &vec![], PORT, false).is_empty());
    assert_eq!(find_processes(&tables, &vec![], PORT, true).len(), 2);
}

#[test]
fn caller_and_system_are_refused() {
    let error = kill_pid(SELF_PID, true, SELF_PID).unwrap_err();
    assert_eq!(message(error), "refusing to kill the calling process");
    for pid in [0, 4] {
        let error = kill_pid(pid, false, SELF_PID).unwrap_err();
        assert_eq!(message(error), "refusing to kill a system process");
    }
    assert_eq!(kill_pid(1, false, SELF_PID).unwrap().pid, 1);
}

#[test]
fn a_process_that_cannot_be_opened_is_gone_denied_or_an_error() {
    let request = kill_pid(77, true, SELF_PID).unwrap();
    let running = vec![entry(77, b"server.exe")];
    assert!(request.open_failed(&vec![entry(78, b"x")], ERROR_ACCESS_DENIED).is_ok());
    assert!(matches!(
        request.open_failed(&running, ERROR_ACCESS_DENIED),
        Err(KillError::Permission)
    ));
    let error = request.open_failed(&running, 0x57).unwrap_err();
    assert_eq!(message(error), "Failed to open process 77: 0x57");
}

#[test]
fn a_process_that_cannot_be_terminated_is_denied_or_an_error() {
    let request = kill_pid(4_294_967_295, true, SELF_PID).unwrap();
    assert!(request.terminated(1, 31).is_ok());
    assert!(matches!(
        request.terminated(0, ERROR_ACCESS_DENIED),
        Err(KillError::Permission)
    ));
    let error = request.terminated(0, 31).unwrap_err();
    assert_eq!(message(error), "Failed to terminate process 4294967295: 0x1f");
}
