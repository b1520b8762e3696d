//! macOS.
use std::collections::HashSet;
use vstd::prelude::*;
use crate::model::{process_views, rows, PortProcess, PortProcessView};
use crate::port::{law_port_of_a_field, low_half, network_port, port_from_network};

pub use crate::platform::unix::{kill_pid, signal_outcome};

verus! {

broadcast use vstd::std_specs::hash::group_hash_axioms;

/// What a file descriptor refers to.
#[derive(Clone, Copy, PartialEq, Eq, Structural, Debug)]
pub enum FdType {
    ATalk,
    VNode,
    Socket,
    PosixSharedMemory,
    PosixSemaphore,
    KQueue,
    Pipe,
    FsEvents,
    NetPolicy,
    Unknown,
}

/// The state of a TCP socket.
#[derive(Clone, Copy, PartialEq, Eq, Structural, Debug)]
pub enum TcpState {
    Closed,
    Listen,
    SynSent,
    SynReceived,
    Established,
    CloseWait,
    FinWait1,
    Closing,
    LastAck,
    FinWait2,
    TimeWait,
    Reserved,
    Unknown,
}

/// What the system says of a socket. The low half of `local_port` holds the port
/// in network order.
#[derive(Clone, Copy, PartialEq, Eq, Structural, Debug)]
pub enum SocketInfo {
    /// An internet socket other than TCP.
    In { local_port: i32 },
    /// A TCP socket.
    Tcp { local_port: i32, state: TcpState },
    /// A socket without a port.
    Other,
}

/// An open file descriptor. `socket` is `None` where the system says nothing of
/// a socket.
#[derive(Clone, Copy, Debug)]
pub struct Descriptor {
    pub fd_type: FdType,
    pub socket: Option<SocketInfo>,
}

/// A running process, with what the system says of it. `descriptors` is `None`
/// for a process of another user, and `name` for one that has ended meanwhile.
pub struct ProcessEntry {
    pub pid: u32,
    pub descriptors: Option<Vec<Descriptor>>,
    pub name: Option<String>,
    pub path: Option<String>,
}

/// How many file descriptors of a process to ask for.
pub open spec fn wanted_capacity(open_files: Option<u32>) -> int {
    match open_files {
        Some(count) => count + 32,
        None => 4096,
    }
}

/// How many file descriptors of a process to ask for: the number that it has
/// open, when that is known, and some more for those it opens meanwhile.
pub fn fd_capacity(open_files: Option<u32>) -> (capacity: usize)
    requires
        open_files matches Some(count) ==> count + 32 <= usize::MAX,
    ensures
        capacity == wanted_capacity(open_files),
        capacity == (match open_files {
            Some(count) => count + 32,
            None => 4096,
        }),
{
    match open_files {
        Some(count) => count as usize + 32,
        None => 4096,
    }
}

/// Whether a field that holds a port in network order in its low half holds `port`.
pub open spec fn field_is_port(field: i32, port: u16) -> bool {
    network_port(low_half(field as int)) == port
}

/// Whether a descriptor is a socket on `port`; with `listen_only`, a listening
/// TCP socket.
pub open spec fn is_on_port(descriptor: Descriptor, port: u16, listen_only: bool) -> bool {
    descriptor.fd_type == FdType::Socket && match descriptor.socket {
        Some(SocketInfo::In { local_port }) => field_is_port(local_port, port) && !listen_only,
        Some(SocketInfo::Tcp { local_port, state }) => field_is_port(local_port, port) && (
        listen_only ==> state == TcpState::Listen),
        Some(SocketInfo::Other) => false,
        None => false,
    }
}

/// Whether a process has a socket on `port`.
pub open spec fn has_port(
    descriptors: Option<Vec<Descriptor>>,
    port: u16,
    listen_only: bool,
) -> bool {
    exists|i: int|
        0 <= i < rows(descriptors).len() && is_on_port(
            #[trigger] rows(descriptors)[i],
            port,
            listen_only,
        )
}

/// Whether a process is reported: it has a socket on `port` and still has a name.
pub open spec fn is_reported(process: ProcessEntry, port: u16, listen_only: bool) -> bool {
    has_port(process.descriptors, port, listen_only) && process.name is Some
}

/// How a process is reported. The path of the executable stands for the command
/// line; it is empty where the system does not give it.
pub open spec fn report(process: ProcessEntry) -> PortProcessView {
    PortProcessView {
        pid: process.pid,
        name: process.name->Some_0@,
        cmd: match process.path {
            Some(path) => path@,
            None => Seq::empty(),
        },
    }
}

/// Whether `pid` is among the processes already found.
pub open spec fn is_found(found: Seq<PortProcessView>, pid: u32) -> bool {
    exists|i: int| 0 <= i < found.len() && #[trigger] found[i].pid == pid
}

/// The reported processes, in the order of `processes`. One that the system
/// lists twice is reported once.
pub open spec fn reported(processes: Seq<ProcessEntry>, port: u16, listen_only: bool) -> Seq<
    PortProcessView,
>
    decreases processes.len(),
{
    if processes.len() == 0 {
        Seq::empty()
    } else {
        let found = reported(processes.drop_last(), port, listen_only);
        let process = processes.last();
        if is_reported(process, port, listen_only) && !is_found(found, process.pid) {
            found.push(report(process))
        } else {
            found
        }
    }
}

/// Whether a descriptor is a socket on `port`; with `listen_only`, a listening
/// TCP socket.
fn descriptor_on_port(descriptor: &Descriptor, port: u16, listen_only: bool) -> (yes: bool)
    ensures
        yes == is_on_port(*descriptor, port, listen_only),
{
    if descriptor.fd_type != FdType::Socket {
        return false;
    }
    let socket = match descriptor.socket {
        Some(socket) => socket,
        None => {
            return false;
        },
    };
    let (field, is_listening): (i32, bool) = match socket {
        SocketInfo::In { local_port } => (local_port, false),
        SocketInfo::Tcp { local_port, state } => (local_port, state == TcpState::Listen),
        SocketInfo::Other => {
            return false;
        },
    };
    assert(field as u16 == field % 0x1_0000) by (bit_vector);
    port_from_network(#[verifier::truncate] (field as u16)) == port && (!listen_only
        || is_listening)
}

/// Whether a process has a socket on `port`; with `listen_only`, a listening TCP
/// socket. None of its descriptors is known when the system denies the list.
pub fn holds_port(descriptors: &Option<Vec<Descriptor>>, port: u16, listen_only: bool) -> (yes:
    bool)
    ensures
        yes == has_port(*descriptors, port, listen_only),
{
    let list = match descriptors {
        Some(list) => list,
        None => {
            return false;
        },
    };
    assert(rows(*descriptors) == list@);
    for i in 0..list.len()
        invariant
            rows(*descriptors) == list@,
            forall|j: int|
                0 <= j < i ==> !is_on_port(#[trigger] rows(*descriptors)[j], port, listen_only),
    {
        if descriptor_on_port(&list[i], port, listen_only) {
            assert(is_on_port(rows(*descriptors)[i as int], port, listen_only));
            return true;
        }
    }
    false
}

/// The processes with a socket on `port`: with `listen_only`, with a listening
/// TCP socket. None when the system does not list its processes.
pub fn find_processes(
    processes: &Option<Vec<ProcessEntry>>,
    port: u16,
    listen_only: bool,
) -> (found: Vec<PortProcess>)
    ensures
        process_views(found@) == reported(rows(*processes), port, listen_only),
{
    let mut found: Vec<PortProcess> = Vec::new();
    let list = match processes {
        Some(list) => list,
        None => {
            return found;
        },
    };
    let mut seen: HashSet<u32> = HashSet::new();
    for i in 0..list.len()
        invariant
            process_views(found@) == reported(list@.take(i as int), port, listen_only),
            forall|pid: u32| #[trigger]
                seen@.contains(pid) <==> is_found(process_views(found@), pid),
    {
        let process = &list[i];
        let ghost before = process_views(found@);
        assert(list@.take(i + 1).drop_last() =~= list@.take(i as int));
        if !seen.contains(&process.pid) && holds_port(&process.descriptors, port, listen_only) {
            if let Some(name) = &process.name {
                let cmd = match &process.path {
                    Some(path) => path.clone(),
                    None => String::new(),
                };
                seen.insert(process.pid);
                found.push(PortProcess { pid: process.pid, name: name.clone(), cmd });
                let ghost after = process_views(found@);
                assert(after =~= before.push(report(*process)));
                assert forall|pid: u32| is_found(after, pid) == (is_found(before, pid) || pid
                    == process.pid) by {
                    if is_found(before, pid) {
                        let j = choose|j: int|
                            0 <= j < before.len() && #[trigger] before[j].pid == pid;
                        assert(after[j].pid == pid);
                    }
                    assert(after[before.len() as int].pid == process.pid);
                    if is_found(after, pid) && pid != process.pid {
                        let j = choose|j: int|
                            0 <= j < after.len() && #[trigger] after[j].pid == pid;
                        assert(before[j].pid == pid);
                    }
                }
            }
        }
    }
    assert(list@.take(list.len() as int) =~= list@);
    found
}

/// No two entries are for the same process, whatever the system lists.
pub proof fn law_one_entry_per_process(processes: Seq<ProcessEntry>, port: u16, listen_only: bool)
    ensures
        forall|i: int, j: int|
            0 <= i < j < reported(processes, port, listen_only).len() ==> reported(
                processes,
                port,
                listen_only,
            )[i].pid != reported(processes, port, listen_only)[j].pid,
    decreases processes.len(),
{
    if processes.len() > 0 {
        law_one_entry_per_process(processes.drop_last(), port, listen_only);
        let before = reported(processes.drop_last(), port, listen_only);
        let after = reported(processes, port, listen_only);
        assert forall|i: int, j: int| 0 <= i < j < after.len() implies after[i].pid
            != after[j].pid by {
            assert(before[i] == after[i]);
            if j < before.len() {
                assert(before[j] == after[j]);
            }
        }
    }
}

/// Whether one of `processes` has the number `pid` and is to be reported.
pub open spec fn to_report(
    processes: Seq<ProcessEntry>,
    port: u16,
    listen_only: bool,
    pid: u32,
) -> bool {
    exists|i: int|
        #![trigger processes[i]]
        0 <= i < processes.len() && processes[i].pid == pid && is_reported(
            processes[i],
            port,
            listen_only,
        )
}

/// Exactly the processes with a socket on the port and a name are found.
pub proof fn law_found_are_exact(
    processes: Seq<ProcessEntry>,
    port: u16,
    listen_only: bool,
    pid: u32,
)
    ensures
        is_found(reported(processes, port, listen_only), pid) <==> to_report(
            processes,
            port,
            listen_only,
            pid,
        ),
    decreases processes.len(),
{
    if processes.len() > 0 {
        let rest = processes.drop_last();
        let last = processes.len() - 1;
        law_found_are_exact(rest, port, listen_only, pid);
        let before = reported(rest, port, listen_only);
        let after = reported(processes, port, listen_only);
        if is_found(before, pid) {
            let i = choose|i: int| 0 <= i < before.len() && #[trigger] before[i].pid == pid;
            assert(after[i].pid == pid);
            let j = choose|j: int|
                #![trigger rest[j]]
                0 <= j < rest.len() && rest[j].pid == pid && is_reported(
                    rest[j],
                    port,
                    listen_only,
                );
            assert(processes[j] == rest[j]);
        }
        if to_report(processes, port, listen_only, pid) {
            let j = choose|j: int|
                #![trigger processes[j]]
                0 <= j < processes.len() && processes[j].pid == pid && is_reported(
                    processes[j],
                    port,
                    listen_only,
                );
            if j < last {
                assert(rest[j] == processes[j]);
            } else if !is_found(before, pid) {
                assert(after[before.len() as int].pid == pid);
            }
        }
        if is_found(after, pid) && !is_found(before, pid) {
            let i = choose|i: int| 0 <= i < after.len() && #[trigger] after[i].pid == pid;
            if i < before.len() {
                assert(before[i].pid == pid);
            }
            assert(processes[last].pid == pid);
        }
    }
}

/// A process found on a port as a listener is found on it in any case.
pub proof fn law_listeners_are_found(processes: Seq<ProcessEntry>, port: u16, pid: u32)
    requires
        is_found(reported(processes, port, true), pid),
    ensures
        is_found(reported(processes, port, false), pid),
{
    law_found_are_exact(processes, port, true, pid);
    law_found_are_exact(processes, port, false, pid);
    let i = choose|i: int|
        #![trigger processes[i]]
        0 <= i < processes.len() && processes[i].pid == pid && is_reported(processes[i], port, true);
    let descriptors = processes[i].descriptors;
    let j = choose|j: int|
        0 <= j < rows(descriptors).len() && is_on_port(#[trigger] rows(descriptors)[j], port, true);
    assert(is_on_port(rows(descriptors)[j], port, false));
    assert(is_reported(processes[i], port, false));
}

/// A process that ends before its name is read does not keep the others from
/// being found: they are reported as if it were not in the list.
pub proof fn law_vanished_process_is_passed_over(
    before: Seq<ProcessEntry>,
    vanished: ProcessEntry,
    after: Seq<ProcessEntry>,
    port: u16,
    listen_only: bool,
)
    requires
        vanished.name is None,
    ensures
        reported(before.push(vanished) + after, port, listen_only) == reported(
            before + after,
            port,
            listen_only,
        ),
    decreases after.len(),
{
    let with = before.push(vanished) + after;
    let without = before + after;
    if after.len() == 0 {
        assert(with.drop_last() =~= before);
        assert(without =~= before);
    } else {
        let rest = after.drop_last();
        law_vanished_process_is_passed_over(before, vanished, rest, port, listen_only);
        assert(with.drop_last() =~= before.push(vanished) + rest);
        assert(without.drop_last() =~= before + rest);
        assert(with.last() == without.last());
    }
}

/// A field holds a port exactly when its lowest byte times 256 plus the byte above
/// it is the port.
#[verifier::spinoff_prover]
#[verifier::rlimit(40)]
pub proof fn law_field_holds_two_bytes(field: i32, port: u16)
    ensures
        field_is_port(field, port) <==> 256 * (field as int % 256) + (field as int / 256) % 256
            == port,
{
    law_port_of_a_field(field as int);
}

/// A field holds one port only.
#[verifier::spinoff_prover]
#[verifier::rlimit(40)]
pub proof fn law_field_holds_one_port(field: i32, port: u16, other: u16)
    requires
        field_is_port(field, port),
        field_is_port(field, other),
    ensures
        port == other,
{
}

/// A descriptor counts exactly when it is a socket whose field holds the port:
/// with `listen_only` a TCP socket that is listening, without it any TCP or other
/// internet socket.
#[verifier::spinoff_prover]
#[verifier::rlimit(40)]
pub proof fn law_descriptor_counts_exactly(descriptor: Descriptor, port: u16, listen_only: bool)
    ensures
        descriptor.fd_type != FdType::Socket ==> !is_on_port(descriptor, port, listen_only),
        descriptor.socket is None ==> !is_on_port(descriptor, port, listen_only),
        descriptor.socket == Some(SocketInfo::Other) ==> !is_on_port(descriptor, port, listen_only),
        descriptor.fd_type == FdType::Socket ==> {
            &&& descriptor.socket matches Some(SocketInfo::In { local_port }) ==> (is_on_port(
                descriptor,
                port,
                listen_only,
            ) <==> !listen_only && 256 * (local_port as int % 256) + (local_port as int / 256) % 256
                == port)
            &&& descriptor.socket matches Some(SocketInfo::Tcp { local_port, state }) ==> (
            is_on_port(descriptor, port, listen_only) <==> (!listen_only || state
                == TcpState::Listen) && 256 * (local_port as int % 256) + (local_port as int / 256)
                % 256 == port)
        },
{
    match descriptor.socket {
        Some(SocketInfo::In { local_port }) => {
            law_field_holds_two_bytes(local_port, port);
        },
        Some(SocketInfo::Tcp { local_port, state }) => {
            law_field_holds_two_bytes(local_port, port);
        },
        Some(SocketInfo::Other) => {},
        None => {},
    }
}

/// A descriptor is on one port only.
#[verifier::spinoff_prover]
#[verifier::rlimit(40)]
pub proof fn law_descriptor_is_on_one_port(
    descriptor: Descriptor,
    port: u16,
    listen_only: bool,
    other: u16,
    other_listen_only: bool,
)
    requires
        is_on_port(descriptor, port, listen_only),
        is_on_port(descriptor, other, other_listen_only),
    ensures
        port == other,
{
}

/// A process has a socket on the port exactly when one of its descriptors is such
/// a socket, wherever among them it stands.
pub proof fn law_any_descriptor_counts(
    descriptors: Option<Vec<Descriptor>>,
    port: u16,
    listen_only: bool,
)
    ensures
        has_port(descriptors, port, listen_only) <==> (descriptors matches Some(list) && exists|
            i: int,
        |
            0 <= i < list@.len() && is_on_port(#[trigger] list@[i], port, listen_only)),
{
    if let Some(list) = descriptors {
        assert(rows(descriptors) == list@);
        if exists|i: int| 0 <= i < list@.len() && is_on_port(#[trigger] list@[i], port, listen_only) {
            let i = choose|i: int|
                0 <= i < list@.len() && is_on_port(#[trigger] list@[i], port, listen_only);
            assert(is_on_port(rows(descriptors)[i], port, listen_only));
        }
        if has_port(descriptors, port, listen_only) {
            let i = choose|i: int|
                0 <= i < rows(descriptors).len() && is_on_port(
                    #[trigger] rows(descriptors)[i],
                    port,
                    listen_only,
                );
            assert(is_on_port(list@[i], port, listen_only));
        }
    }
}

/// One more process adds one report, behind the others, exactly when its name is
/// known, one of its descriptors is a socket on the port, and none of the reports
/// has its number; otherwise it adds nothing. The report has its number, its name
/// and its path, which is empty where it is not known.
pub proof fn law_one_more_process(
    processes: Seq<ProcessEntry>,
    process: ProcessEntry,
    port: u16,
    listen_only: bool,
)
    ensures
        reported(Seq::empty(), port, listen_only) == Seq::<PortProcessView>::empty(),
        ({
            let before = reported(processes, port, listen_only);
            let after = reported(processes.push(process), port, listen_only);
            let on_port = process.descriptors matches Some(list) && exists|i: int|
                0 <= i < list@.len() && is_on_port(#[trigger] list@[i], port, listen_only);
            let known = exists|i: int| 0 <= i < before.len() && #[trigger] before[i].pid == process.pid;
            if process.name is Some && on_port && !known {
                &&& after.len() == before.len() + 1
                &&& after.drop_last() == before
                &&& after.last().pid == process.pid
                &&& after.last().name == process.name->Some_0@
                &&& process.path matches Some(path) ==> after.last().cmd == path@
                &&& process.path is None ==> after.last().cmd.len() == 0
            } else {
                after == before
            }
        }),
{
    law_any_descriptor_counts(process.descriptors, port, listen_only);
    assert(processes.push(process).drop_last() =~= processes);
    let before = reported(processes, port, listen_only);
    assert(before.push(report(process)).drop_last() =~= before);
}

/// A process with a name and a socket on the port is found, wherever in the list
/// the process and among its descriptors the socket stands.
pub proof fn law_socket_leads_to_its_process(
    processes: Seq<ProcessEntry>,
    port: u16,
    listen_only: bool,
    place: int,
    list: Vec<Descriptor>,
    i: int,
)
    requires
        0 <= place < processes.len(),
        processes[place].name is Some,
        processes[place].descriptors == Some(list),
        0 <= i < list@.len(),
        is_on_port(list@[i], port, listen_only),
    ensures
        exists|j: int|
            0 <= j < reported(processes, port, listen_only).len() && (#[trigger] reported(
                processes,
                port,
                listen_only,
            )[j]).pid == processes[place].pid,
{
    assert(is_on_port(rows(processes[place].descriptors)[i], port, listen_only));
    law_found_are_exact(processes, port, listen_only, processes[place].pid);
    assert(is_reported(processes[place], port, listen_only));
    assert(to_report(processes, port, listen_only, processes[place].pid));
}

/// A reported process has a name and a socket on the port, or one with its number
/// does.
pub proof fn law_found_process_has_a_socket(
    processes: Seq<ProcessEntry>,
    port: u16,
    listen_only: bool,
    j: int,
) -> (witness: (int, int))
    requires
        0 <= j < reported(processes, port, listen_only).len(),
    ensures
        0 <= witness.0 < processes.len(),
        processes[witness.0].pid == reported(processes, port, listen_only)[j].pid,
        processes[witness.0].name is Some,
        processes[witness.0].descriptors matches Some(list) && 0 <= witness.1 < list@.len()
            && is_on_port(list@[witness.1], port, listen_only),
{
    let pid = reported(processes, port, listen_only)[j].pid;
    assert(is_found(reported(processes, port, listen_only), pid));
    law_found_are_exact(processes, port, listen_only, pid);
    let place = choose|i: int|
        #![trigger processes[i]]
        0 <= i < processes.len() && processes[i].pid == pid && is_reported(
            processes[i],
            port,
            listen_only,
        );
    law_any_descriptor_counts(processes[place].descriptors, port, listen_only);
    let list = processes[place].descriptors->Some_0;
    let i = choose|i: int|
        0 <= i < list@.len() && is_on_port(#[trigger] list@[i], port, listen_only);
    (place, i)
}

/// There is room for every open descriptor of a process and for the same number
/// more, however many it has open.
pub proof fn law_capacity_has_headroom(count: u32, other: u32)
    ensures
        wanted_capacity(Some(count)) - count == 32,
        wanted_capacity(Some(count)) - wanted_capacity(Some(other)) == count - other,
        wanted_capacity(None) == 4096,
{
}

} // verus!
