use portkill::platform::macos::{
    fd_capacity, find_processes, holds_port, Descriptor, FdType, ProcessEntry, SocketInfo, TcpState,
};

/// 8080 is 0x1f90; the field holds its bytes in network order, and may hold more
/// in its upper half.
const PORT: u16 = 8080;
const FIELD: i32 = 0x0000_901f;

fn socket(info: SocketInfo) -> Descriptor {
    Descriptor {
        fd_type: FdType::Socket,
        socket: Some(info),
    }
}

fn listener() -> Descriptor {
    socket(SocketInfo::Tcp {
        local_port: FIELD,
        state: TcpState::Listen,
    })
}

fn datagram() -> Descriptor {
    socket(SocketInfo::In { local_port: FIELD })
}

fn process(pid: u32, descriptors: Vec<Descriptor>) -> ProcessEntry {
    ProcessEntry {
        pid,
        descriptors: Some(descriptors),
        name: Some(String::from("server")),
        path: Some(String::from("/bin/server")),
    }
}

fn pids(list: Vec<ProcessEntry>, listen_only: bool) -> Vec<u32> {
    find_processes(&Some(list), PORT, listen_only)
        .iter()
        .map(|process| process.pid)
        .collect()
}

#[test]
fn capacity_has_headroom_or_a_default() {
    assert_eq!(fd_capacity(Some(0)), 32);
    assert_eq!(fd_capacity(Some(100)), 132);
    assert_eq!(fd_capacity(None), 4096);
}

#[test]
fn port_is_read_from_the_low_half_in_network_order() {
    let fields = [FIELD, 0x7123_901f, -28641];
    for local_port in fields {
        let descriptors = Some(vec![socket(SocketInfo::In { local_port })]);
        assert!(holds_port(&descriptors, PORT, false));
    }
    let swapped = Some(vec![socket(SocketInfo::In { local_port: 0x1f90 })]);
    assert!(!holds_port(&swapped, PORT, false));
}

#[test]
fn listen_only_wants_listening_tcp() {
    let established = socket(SocketInfo::Tcp {
        local_port: FIELD,
        state: TcpState::Established,
    });
    for descriptor in [established, datagram()] {
        assert!(holds_port(&Some(vec![descriptor]), PORT, false));
        assert!(!holds_port(&Some(vec![descriptor]), PORT, true));
    }
    assert!(holds_port(&Some(vec![established, listener()]), PORT, true));
}

#[test]
fn other_descriptors_do_not_match() {
    let file = Descriptor {
        fd_type: FdType::VNode,
        socket: Some(SocketInfo::In { local_port: FIELD }),
    };
    let unknown = Descriptor {
        fd_type: FdType::Socket,
        socket: None,
    };
    let local = socket(SocketInfo::Other);
    assert!(!holds_port(&Some(vec![file, unknown, local]), PORT, false));
    assert!(!holds_port(&None, PORT, false));
}

#[test]
fn processes_are_found_once_and_in_order() {
    let list = vec![
        process(30, vec![datagram(), listener()]),
        process(10, vec![]),
        process(30, vec![listener()]),
        process(20, vec![listener()]),
    ];
    assert_eq!(pids(list, false), vec![30, 20]);
}

#[test]
fn listeners_are_also_found_otherwise() {
    let list = || vec![process(1, vec![datagram()]), process(2, vec![listener()])];
    assert_eq!(pids(list(), true), vec![2]);
    assert_eq!(pids(list(), false), vec![1, 2]);
}

#[test]
fn vanished_process_does_not_fail_the_scan() {
    let mut vanished = process(5, vec![listener()]);
    vanished.name = None;
    let list = vec![vanished, process(5, vec![listener()]), process(6, vec![listener()])];
    assert_eq!(pids(list, true), vec![5, 6]);
}

#[test]
fn path_stands_for_the_command_line() {
    let mut pathless = process(2, vec![listener()]);
    pathless.path = None;
    let found = find_processes(&Some(vec![process(1, vec![listener()]), pathless]), PORT, true);
    assert_eq!((found[0].name.as_str(), found[0].cmd.as_str()), ("server", "/bin/server"));
    assert_eq!((found[1].name.as_str(), found[1].cmd.as_str()), ("server", ""));
    assert!(find_processes(&None, PORT, false).is_empty());
}
