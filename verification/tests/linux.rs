use nix::errno::Errno;
use portkill::model::KillError;
use portkill::platform::linux::{
    find_processes, kill_pid, owns_socket, processes_for_inodes, signal_outcome, socket_inodes,
    FdTarget, ProcessEntry, SocketTables, TcpEntry, TcpState, UdpEntry,
};
use portkill::platform::unix::{Signal, EPERM, ESRCH};
use std::collections::HashSet;

const PORT: u16 = 40123;
const SELF_PID: u32 = 4321;

fn tcp(local_port: u16, state: TcpState, inode: u64) -> TcpEntry {
    TcpEntry {
        local_port,
        state,
        inode,
    }
}

fn udp(local_port: u16, inode: u64) -> UdpEntry {
    UdpEntry { local_port, inode }
}

fn tables(tcp: Vec<TcpEntry>, udp: Vec<UdpEntry>) -> SocketTables {
    SocketTables {
        tcp: Some(tcp),
        tcp6: Some(Vec::new()),
        udp: Some(udp),
        udp6: Some(Vec::new()),
    }
}

fn process(pid: i32, fds: Vec<Option<FdTarget>>) -> Option<ProcessEntry> {
    Some(ProcessEntry {
        pid,
        fds: Some(fds),
        name: Some(String::from("server")),
        cmdline: Some(vec![
            String::from("/bin/server"),
            String::from("--port"),
            String::from("80"),
        ]),
    })
}

#[test]
fn socket_inodes_finds_listening_tcp_socket() {
    let tables = tables(
        vec![
            tcp(22, TcpState::Listen, 5),
            tcp(PORT, TcpState::Listen, 777),
        ],
        vec![],
    );
    assert_eq!(
        socket_inodes(&tables, PORT, true).len(),
        1,
        "LISTEN socket must match"
    );
    assert_eq!(socket_inodes(&tables, PORT, false).len(), 1);
}

#[test]
fn socket_inodes_finds_udp_only_when_not_listen_only() {
    let tables = tables(vec![], vec![udp(53, 4), udp(PORT, 888)]);
    assert!(
        socket_inodes(&tables, PORT, true).is_empty(),
        "UDP must be ignored in listen-only mode"
    );
    assert_eq!(
        socket_inodes(&tables, PORT, false).len(),
        1,
        "UDP must match when not listen-only"
    );
}

#[test]
fn socket_inodes_empty_for_fresh_port() {
    let tables = tables(vec![tcp(22, TcpState::Listen, 5)], vec![udp(53, 4)]);
    assert!(socket_inodes(&tables, PORT, true).is_empty());
    assert!(socket_inodes(&tables, PORT, false).is_empty());
}

#[test]
fn processes_for_inodes_maps_inode_to_current_process() {
    let tables = tables(vec![tcp(PORT, TcpState::Listen, 777)], vec![]);
    let inodes = socket_inodes(&tables, PORT, false);
    let list = Some(vec![
        process(1, vec![Some(FdTarget::Other)]),
        process(SELF_PID as i32, vec![Some(FdTarget::Socket(777))]),
    ]);
    let processes = processes_for_inodes(&inodes, &list);
    assert_eq!(processes.len(), 1, "expected one owning process");
    assert_eq!(processes[0].pid, SELF_PID);
    assert!(!processes[0].name.is_empty());
}

#[test]
fn processes_for_inodes_empty_for_empty_inode_set() {
    let list = Some(vec![process(7, vec![Some(FdTarget::Socket(777))])]);
    assert!(processes_for_inodes(&Default::default(), &list).is_empty());
}

#[test]
fn kill_pid_refuses_calling_process() {
    let err = kill_pid(SELF_PID, true, SELF_PID).unwrap_err();
    match err {
        KillError::Other(msg) => assert!(
            msg.to_ascii_lowercase().contains("calling process")
                || msg.to_ascii_lowercase().contains("self"),
            "unexpected message: {msg}"
        ),
        other => panic!("expected Other, got {other:?}"),
    }
}

#[test]
fn kill_pid_missing_process_is_ok() {
    // Larger than any process number that the kernel gives out: kill(2) then
    // returns ESRCH, which counts as the process being gone.
    for force in [false, true] {
        let request = kill_pid(i32::MAX as u32, force, SELF_PID).unwrap();
        let signal = match request.signal {
            Signal::Term => nix::sys::signal::Signal::SIGTERM,
            Signal::Kill => nix::sys::signal::Signal::SIGKILL,
        };
        let reply = nix::sys::signal::kill(nix::unistd::Pid::from_raw(request.pid), signal);
        assert_eq!(reply, Err(Errno::ESRCH));
        assert_eq!(signal_outcome(reply.map_err(|errno| errno as i32)).unwrap(), ());
    }
}

#[test]
fn kill_pid_refuses_init() {
    for pid in [0, 1] {
        match kill_pid(pid, false, SELF_PID).unwrap_err() {
            KillError::Other(msg) => assert_eq!(msg, "refusing to kill init/system process"),
            other => panic!("expected Other, got {other:?}"),
        }
    }
}

#[test]
fn kill_pid_chooses_the_signal() {
    let request = kill_pid(2, false, SELF_PID).unwrap();
    assert_eq!((request.pid, request.signal), (2, Signal::Term));
    let request = kill_pid(2, true, SELF_PID).unwrap();
    assert_eq!((request.pid, request.signal), (2, Signal::Kill));
}

#[test]
fn kill_pid_keeps_the_bits_of_the_number() {
    assert_eq!(kill_pid(0x8000_0000, true, SELF_PID).unwrap().pid, i32::MIN);
    assert_eq!(kill_pid(u32::MAX, true, SELF_PID).unwrap().pid, -1);
}

#[test]
fn signal_outcome_tells_the_errors_apart() {
    assert_eq!(EPERM, Errno::EPERM as i32);
    assert_eq!(ESRCH, Errno::ESRCH as i32);
    assert!(signal_outcome(Ok(())).is_ok());
    assert!(matches!(
        signal_outcome(Err(Errno::EPERM as i32)),
        Err(KillError::Permission)
    ));
    match signal_outcome(Err(Errno::EINVAL as i32)).unwrap_err() {
        KillError::Other(msg) => {
            assert_eq!(msg, Errno::EINVAL.to_string());
            assert_eq!(msg, "EINVAL: Invalid argument");
        }
        other => panic!("expected Other, got {other:?}"),
    }
    match signal_outcome(Err(-7)).unwrap_err() {
        KillError::Other(msg) => assert_eq!(msg, "UnknownErrno: Unknown errno"),
        other => panic!("expected Other, got {other:?}"),
    }
}

#[test]
fn established_sockets_match_only_without_listen_only() {
    let tables = tables(
        vec![
            tcp(PORT, TcpState::Established, 1),
            tcp(PORT, TcpState::Listen, 2),
            tcp(PORT, TcpState::TimeWait, 1),
        ],
        vec![udp(PORT, 3)],
    );
    assert_eq!(socket_inodes(&tables, PORT, true), HashSet::from([2]));
    assert_eq!(socket_inodes(&tables, PORT, false), HashSet::from([1, 2, 3]));
}

#[test]
fn all_four_tables_count_and_unreadable_ones_are_passed_over() {
    let mut tables = SocketTables {
        tcp: Some(vec![tcp(PORT, TcpState::Listen, 1)]),
        tcp6: Some(vec![tcp(PORT, TcpState::Listen, 2)]),
        udp: Some(vec![udp(PORT, 3)]),
        udp6: Some(vec![udp(PORT, 4)]),
    };
    assert_eq!(socket_inodes(&tables, PORT, true), HashSet::from([1, 2]));
    assert_eq!(socket_inodes(&tables, PORT, false), HashSet::from([1, 2, 3, 4]));
    tables.tcp = None;
    tables.udp = None;
    assert_eq!(socket_inodes(&tables, PORT, true), HashSet::from([2]));
    assert_eq!(socket_inodes(&tables, PORT, false), HashSet::from([2, 4]));
}

#[test]
fn a_process_with_several_matching_sockets_is_found_once() {
    let sockets = tables(
        vec![tcp(PORT, TcpState::Listen, 1), tcp(PORT, TcpState::Established, 2)],
        vec![],
    );
    let list = Some(vec![
        process(20, vec![Some(FdTarget::Socket(2)), None, Some(FdTarget::Socket(1))]),
        None,
        process(10, vec![Some(FdTarget::Socket(9))]),
        process(5, vec![None, Some(FdTarget::Other), Some(FdTarget::Socket(1))]),
    ]);
    let found = find_processes(&sockets, &list, PORT, false);
    let pids: Vec<u32> = found.iter().map(|process| process.pid).collect();
    assert_eq!(pids, vec![20, 5]);
    let listeners = find_processes(&sockets, &list, PORT, true);
    let pids: Vec<u32> = listeners.iter().map(|process| process.pid).collect();
    assert_eq!(pids, vec![20, 5]);
    assert_eq!(found[0].name, "server");
    assert_eq!(found[0].cmd, "/bin/server --port 80");
}

#[test]
fn what_cannot_be_read_of_a_process_is_empty() {
    let inodes = HashSet::from([1]);
    let list = Some(vec![
        Some(ProcessEntry {
            pid: 10,
            fds: Some(vec![Some(FdTarget::Socket(1))]),
            name: None,
            cmdline: None,
        }),
        Some(ProcessEntry {
            pid: 11,
            fds: None,
            name: None,
            cmdline: None,
        }),
        Some(ProcessEntry {
            pid: 12,
            fds: Some(vec![Some(FdTarget::Socket(1))]),
            name: Some(String::from("kthread")),
            cmdline: Some(Vec::new()),
        }),
    ]);
    let found = processes_for_inodes(&inodes, &list);
    assert_eq!(found.len(), 2);
    assert_eq!((found[0].pid, found[0].name.as_str(), found[0].cmd.as_str()), (10, "", ""));
    assert_eq!((found[1].pid, found[1].name.as_str(), found[1].cmd.as_str()), (12, "kthread", ""));
    assert!(processes_for_inodes(&inodes, &None).is_empty());
}

#[test]
fn owns_socket_looks_at_socket_descriptors_only() {
    let inodes = HashSet::from([7]);
    assert!(owns_socket(&Some(vec![None, Some(FdTarget::Socket(7))]), &inodes));
    assert!(!owns_socket(&Some(vec![Some(FdTarget::Socket(8)), Some(FdTarget::Other)]), &inodes));
    assert!(!owns_socket(&None, &inodes));
}
