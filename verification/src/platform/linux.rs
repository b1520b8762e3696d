//! Linux.
use std::collections::HashSet;
use vstd::prelude::*;
use crate::model::{process_views, rows, PortProcess, PortProcessView};
use crate::platform::unix::law_signal_reaches_listed_process;
use crate::text::{join, joined, string_views};

pub use crate::platform::unix::{kill_pid, signal_outcome};

verus! {

broadcast use vstd::std_specs::hash::group_hash_axioms;

/// The state of a TCP socket.
#[derive(Clone, Copy, PartialEq, Eq, Structural, Debug)]
pub enum TcpState {
    Established,
    SynSent,
    SynRecv,
    FinWait1,
    FinWait2,
    TimeWait,
    Close,
    CloseWait,
    LastAck,
    Listen,
    Closing,
    NewSynRecv,
}

/// A row of a TCP socket table.
#[derive(Clone, Copy, Debug)]
pub struct TcpEntry {
    pub local_port: u16,
    pub state: TcpState,
    pub inode: u64,
}

/// A row of a UDP socket table.
#[derive(Clone, Copy, Debug)]
pub struct UdpEntry {
    pub local_port: u16,
    pub inode: u64,
}

/// The socket tables of the system; one that cannot be read is `None`.
pub struct SocketTables {
    pub tcp: Option<Vec<TcpEntry>>,
    pub tcp6: Option<Vec<TcpEntry>>,
    pub udp: Option<Vec<UdpEntry>>,
    pub udp6: Option<Vec<UdpEntry>>,
}

/// What a file descriptor refers to.
#[derive(Clone, Copy, PartialEq, Eq, Structural, Debug)]
pub enum FdTarget {
    /// The socket with this inode.
    Socket(u64),
    /// Anything else.
    Other,
}

/// A running process, with what the system says of it. What cannot be read is
/// `None`, a single descriptor too.
pub struct ProcessEntry {
    pub pid: i32,
    pub fds: Option<Vec<Option<FdTarget>>>,
    pub name: Option<String>,
    pub cmdline: Option<Vec<String>>,
}

/// Whether a TCP socket is on `port`; with `listen_only`, and listening.
pub open spec fn tcp_matches(entry: TcpEntry, port: u16, listen_only: bool) -> bool {
    entry.local_port == port && (listen_only ==> entry.state == TcpState::Listen)
}

/// The inodes of the TCP sockets on `port` in a table.
pub open spec fn tcp_inodes(entries: Seq<TcpEntry>, port: u16, listen_only: bool) -> Set<u64> {
    Set::new(
        |inode: u64|
            exists|i: int|
                #![trigger entries[i]]
                0 <= i < entries.len() && tcp_matches(entries[i], port, listen_only)
                    && entries[i].inode == inode,
    )
}

/// The inodes of the UDP sockets on `port` in a table.
pub open spec fn udp_inodes(entries: Seq<UdpEntry>, port: u16) -> Set<u64> {
    Set::new(
        |inode: u64|
            exists|i: int|
                #![trigger entries[i]]
                0 <= i < entries.len() && entries[i].local_port == port && entries[i].inode
                    == inode,
    )
}

impl SocketTables {
    /// The inodes of the sockets on `port`: with `listen_only`, of the listening
    /// TCP sockets, else of all TCP and UDP sockets.
    pub open spec fn inodes(self, port: u16, listen_only: bool) -> Set<u64> {
        let tcp = tcp_inodes(rows(self.tcp), port, listen_only) + tcp_inodes(
            rows(self.tcp6),
            port,
            listen_only,
        );
        if listen_only {
            tcp
        } else {
            tcp + udp_inodes(rows(self.udp), port) + udp_inodes(rows(self.udp6), port)
        }
    }
}

/// Adds the inodes of the TCP sockets on `port` to `inodes`.
fn add_tcp_inodes(
    table: &Option<Vec<TcpEntry>>,
    port: u16,
    listen_only: bool,
    inodes: &mut HashSet<u64>,
)
    ensures
        final(inodes)@ == old(inodes)@ + tcp_inodes(rows(*table), port, listen_only),
{
    let ghost before = inodes@;
    if let Some(entries) = table {
        for i in 0..entries.len()
            invariant
                inodes@ == before + tcp_inodes(entries@.take(i as int), port, listen_only),
        {
            let entry = &entries[i];
            let ghost done = entries@.take(i as int);
            let ghost next = entries@.take(i + 1);
            assert forall|inode: u64|
                tcp_inodes(next, port, listen_only).contains(inode) == (tcp_inodes(
                    done,
                    port,
                    listen_only,
                ).contains(inode) || (tcp_matches(*entry, port, listen_only) && entry.inode
                    == inode)) by {
                assert(next[i as int] == *entry);
                assert(forall|j: int| 0 <= j < i ==> #[trigger] done[j] == next[j]);
                assert(forall|j: int| 0 <= j < i ==> #[trigger] next[j] == done[j]);
            }
            if entry.local_port == port && (!listen_only || entry.state == TcpState::Listen) {
                inodes.insert(entry.inode);
            }
            assert(inodes@ =~= before + tcp_inodes(next, port, listen_only));
        }
        assert(entries@.take(entries.len() as int) =~= entries@);
    }
    assert(inodes@ =~= before + tcp_inodes(rows(*table), port, listen_only));
}

/// Adds the inodes of the UDP sockets on `port` to `inodes`.
fn add_udp_inodes(table: &Option<Vec<UdpEntry>>, port: u16, inodes: &mut HashSet<u64>)
    ensures
        final(inodes)@ == old(inodes)@ + udp_inodes(rows(*table), port),
{
    let ghost before = inodes@;
    if let Some(entries) = table {
        for i in 0..entries.len()
            invariant
                inodes@ == before + udp_inodes(entries@.take(i as int), port),
        {
            let entry = &entries[i];
            let ghost done = entries@.take(i as int);
            let ghost next = entries@.take(i + 1);
            assert forall|inode: u64|
                udp_inodes(next, port).contains(inode) == (udp_inodes(done, port).contains(inode)
                    || (entry.local_port == port && entry.inode == inode)) by {
                assert(next[i as int] == *entry);
                assert(forall|j: int| 0 <= j < i ==> #[trigger] done[j] == next[j]);
                assert(forall|j: int| 0 <= j < i ==> #[trigger] next[j] == done[j]);
            }
            if entry.local_port == port {
                inodes.insert(entry.inode);
            }
            assert(inodes@ =~= before + udp_inodes(next, port));
        }
        assert(entries@.take(entries.len() as int) =~= entries@);
    }
    assert(inodes@ =~= before + udp_inodes(rows(*table), port));
}

/// Collects the inodes of the sockets on `port`. With `listen_only`, only TCP
/// sockets that are listening count; otherwise TCP and UDP sockets in any state.
/// A table that cannot be read is passed over.
pub fn socket_inodes(tables: &SocketTables, port: u16, listen_only: bool) -> (inodes: HashSet<u64>)
    ensures
        inodes@ == tables.inodes(port, listen_only),
{
    let mut inodes: HashSet<u64> = HashSet::new();
    add_tcp_inodes(&tables.tcp, port, listen_only, &mut inodes);
    add_tcp_inodes(&tables.tcp6, port, listen_only, &mut inodes);
    if !listen_only {
        add_udp_inodes(&tables.udp, port, &mut inodes);
        add_udp_inodes(&tables.udp6, port, &mut inodes);
    }
    assert(inodes@ =~= tables.inodes(port, listen_only));
    inodes
}

/// Whether a descriptor is one of the sockets in `inodes`.
pub open spec fn is_socket_of(fd: Option<FdTarget>, inodes: Set<u64>) -> bool {
    match fd {
        Some(FdTarget::Socket(inode)) => inodes.contains(inode),
        _ => false,
    }
}

/// Whether a process has one of the sockets in `inodes` open.
pub open spec fn owns(fds: Option<Vec<Option<FdTarget>>>, inodes: Set<u64>) -> bool {
    exists|i: int| 0 <= i < rows(fds).len() && is_socket_of(#[trigger] rows(fds)[i], inodes)
}

/// How a process is reported. A name or a command line that cannot be read is
/// empty; the words of a command line are joined by spaces.
pub open spec fn report(process: ProcessEntry) -> PortProcessView {
    PortProcessView {
        pid: process.pid as u32,
        name: match process.name {
            Some(name) => name@,
            None => Seq::empty(),
        },
        cmd: match process.cmdline {
            Some(words) => joined(string_views(words@), " "@),
            None => Seq::empty(),
        },
    }
}

/// The processes that own one of the sockets in `inodes`, in the order of
/// `processes`, each once however many of the sockets it has open.
pub open spec fn owners(inodes: Set<u64>, processes: Seq<Option<ProcessEntry>>) -> Seq<
    PortProcessView,
>
    decreases processes.len(),
{
    if processes.len() == 0 {
        Seq::empty()
    } else {
        let found = owners(inodes, processes.drop_last());
        match processes.last() {
            Some(process) => if owns(process.fds, inodes) {
                found.push(report(process))
            } else {
                found
            },
            None => found,
        }
    }
}

/// Without a socket there is no owner.
pub proof fn law_no_inodes_no_owners(processes: Seq<Option<ProcessEntry>>)
    ensures
        owners(Set::empty(), processes) == Seq::<PortProcessView>::empty(),
    decreases processes.len(),
{
    if processes.len() > 0 {
        law_no_inodes_no_owners(processes.drop_last());
    }
}

/// Whether a process has one of the sockets in `inodes` open.
pub fn owns_socket(fds: &Option<Vec<Option<FdTarget>>>, inodes: &HashSet<u64>) -> (yes: bool)
    ensures
        yes == owns(*fds, inodes@),
{
    let list = match fds {
        Some(list) => list,
        None => {
            return false;
        },
    };
    assert(rows(*fds) == list@);
    for i in 0..list.len()
        invariant
            rows(*fds) == list@,
            forall|j: int| 0 <= j < i ==> !is_socket_of(#[trigger] rows(*fds)[j], inodes@),
    {
        if let Some(FdTarget::Socket(inode)) = list[i] {
            if inodes.contains(&inode) {
                assert(is_socket_of(rows(*fds)[i as int], inodes@));
                return true;
            }
        }
    }
    false
}

/// Maps socket inodes to the processes that own them. None when the system does
/// not list its processes.
pub fn processes_for_inodes(
    inodes: &HashSet<u64>,
    processes: &Option<Vec<Option<ProcessEntry>>>,
) -> (found: Vec<PortProcess>)
    ensures
        process_views(found@) == owners(inodes@, rows(*processes)),
{
    let mut found: Vec<PortProcess> = Vec::new();
    if inodes.is_empty() {
        proof {
            assert(inodes@ =~= Set::empty());
            law_no_inodes_no_owners(rows(*processes));
        }
        return found;
    }
    let list = match processes {
        Some(list) => list,
        None => {
            return found;
        },
    };
    for i in 0..list.len()
        invariant
            process_views(found@) == owners(inodes@, list@.take(i as int)),
    {
        assert(list@.take(i + 1).drop_last() =~= list@.take(i as int));
        let ghost before = process_views(found@);
        if let Some(process) = &list[i] {
            if owns_socket(&process.fds, inodes) {
                let name = match &process.name {
                    Some(name) => name.clone(),
                    None => String::new(),
                };
                let cmd = match &process.cmdline {
                    Some(words) => join(words, " "),
                    None => String::new(),
                };
                let pid: u32 = #[verifier::truncate] (process.pid as u32);
                found.push(PortProcess { pid, name, cmd });
                assert(process_views(found@) =~= before.push(report(*process)));
            }
        }
    }
    assert(list@.take(list.len() as int) =~= list@);
    found
}

/// The processes with a socket on `port`: with `listen_only`, with a listening
/// TCP socket.
pub fn find_processes(
    tables: &SocketTables,
    processes: &Option<Vec<Option<ProcessEntry>>>,
    port: u16,
    listen_only: bool,
) -> (found: Vec<PortProcess>)
    ensures
        process_views(found@) == owners(tables.inodes(port, listen_only), rows(*processes)),
{
    processes_for_inodes(&socket_inodes(tables, port, listen_only), processes)
}

/// Every listening socket on a port is also a socket on it.
pub proof fn law_listening_inodes_are_inodes(tables: SocketTables, port: u16)
    ensures
        tables.inodes(port, true).subset_of(tables.inodes(port, false)),
{
    assert forall|entries: Seq<TcpEntry>, inode: u64| #[trigger]
        tcp_inodes(entries, port, true).contains(inode) implies tcp_inodes(
        entries,
        port,
        false,
    ).contains(inode) by {
        let i = choose|i: int|
            #![trigger entries[i]]
            0 <= i < entries.len() && tcp_matches(entries[i], port, true) && entries[i].inode
                == inode;
        assert(tcp_matches(entries[i], port, false));
    }
}

/// With `listen_only`, the UDP tables make no difference.
pub proof fn law_listen_only_ignores_udp(tables: SocketTables, others: SocketTables, port: u16)
    requires
        tables.tcp == others.tcp,
        tables.tcp6 == others.tcp6,
    ensures
        tables.inodes(port, true) == others.inodes(port, true),
{
}

/// A port that no socket is on has no inodes.
pub proof fn law_fresh_port_has_no_inodes(tables: SocketTables, port: u16, listen_only: bool)
    requires
        forall|i: int| 0 <= i < rows(tables.tcp).len() ==> rows(tables.tcp)[i].local_port != port,
        forall|i: int| 0 <= i < rows(tables.tcp6).len() ==> rows(tables.tcp6)[i].local_port != port,
        forall|i: int| 0 <= i < rows(tables.udp).len() ==> rows(tables.udp)[i].local_port != port,
        forall|i: int| 0 <= i < rows(tables.udp6).len() ==> rows(tables.udp6)[i].local_port != port,
    ensures
        tables.inodes(port, listen_only) == Set::<u64>::empty(),
{
    assert(tables.inodes(port, listen_only) =~= Set::<u64>::empty());
}

/// Whether one of `processes` owns a socket in `inodes` and is reported as `view`.
pub open spec fn owner_reported(
    inodes: Set<u64>,
    processes: Seq<Option<ProcessEntry>>,
    view: PortProcessView,
) -> bool {
    exists|i: int|
        #![trigger processes[i]]
        0 <= i < processes.len() && match processes[i] {
            Some(process) => owns(process.fds, inodes) && report(process) == view,
            None => false,
        }
}

/// Exactly the owners of the sockets are reported: each of them, and nothing else.
pub proof fn law_owners_are_exact(
    inodes: Set<u64>,
    processes: Seq<Option<ProcessEntry>>,
    view: PortProcessView,
)
    ensures
        owners(inodes, processes).contains(view) <==> owner_reported(inodes, processes, view),
    decreases processes.len(),
{
    if processes.len() > 0 {
        let rest = processes.drop_last();
        let last = processes.len() - 1;
        law_owners_are_exact(inodes, rest, view);
        let found = owners(inodes, rest);
        let all = owners(inodes, processes);
        if owner_reported(inodes, rest, view) {
            let i = choose|i: int|
                #![trigger rest[i]]
                0 <= i < rest.len() && match rest[i] {
                    Some(process) => owns(process.fds, inodes) && report(process) == view,
                    None => false,
                };
            assert(processes[i] == rest[i]);
        }
        if found.contains(view) {
            let i = choose|i: int| 0 <= i < found.len() && found[i] == view;
            assert(all[i] == view);
        }
        if owner_reported(inodes, processes, view) {
            let i = choose|i: int|
                #![trigger processes[i]]
                0 <= i < processes.len() && match processes[i] {
                    Some(process) => owns(process.fds, inodes) && report(process) == view,
                    None => false,
                };
            if i < last {
                assert(rest[i] == processes[i]);
            } else {
                assert(all[found.len() as int] == view);
            }
        }
        if all.contains(view) && !found.contains(view) {
            assert(processes[last] is Some);
        }
    }
}

/// More sockets have no fewer owners.
pub proof fn law_more_inodes_more_owners(
    inodes: Set<u64>,
    others: Set<u64>,
    processes: Seq<Option<ProcessEntry>>,
    view: PortProcessView,
)
    requires
        inodes.subset_of(others),
        owners(inodes, processes).contains(view),
    ensures
        owners(others, processes).contains(view),
{
    law_owners_are_exact(inodes, processes, view);
    law_owners_are_exact(others, processes, view);
    let i = choose|i: int|
        #![trigger processes[i]]
        0 <= i < processes.len() && match processes[i] {
            Some(process) => owns(process.fds, inodes) && report(process) == view,
            None => false,
        };
    let fds = processes[i]->Some_0.fds;
    let j = choose|j: int| 0 <= j < rows(fds).len() && is_socket_of(#[trigger] rows(fds)[j], inodes);
    assert(is_socket_of(rows(fds)[j], others));
    assert(owns(fds, others));
}

/// A process found on a port as a listener is found on it in any case.
pub proof fn law_listeners_are_found(
    tables: SocketTables,
    processes: Seq<Option<ProcessEntry>>,
    port: u16,
    view: PortProcessView,
)
    requires
        owners(tables.inodes(port, true), processes).contains(view),
    ensures
        owners(tables.inodes(port, false), processes).contains(view),
{
    law_listening_inodes_are_inodes(tables, port);
    law_more_inodes_more_owners(
        tables.inodes(port, true),
        tables.inodes(port, false),
        processes,
        view,
    );
}

/// How many processes of a list own a socket in `inodes`.
pub open spec fn owner_count(inodes: Set<u64>, processes: Seq<Option<ProcessEntry>>) -> nat
    decreases processes.len(),
{
    if processes.len() == 0 {
        0
    } else {
        owner_count(inodes, processes.drop_last()) + match processes.last() {
            Some(process) => if owns(process.fds, inodes) {
                1nat
            } else {
                0nat
            },
            None => 0nat,
        }
    }
}

/// There is one entry per process, however many of its descriptors are sockets in
/// `inodes`: where no two processes share a number, no two entries do.
pub proof fn law_one_entry_per_process(inodes: Set<u64>, processes: Seq<Option<ProcessEntry>>)
    requires
        forall|i: int, j: int|
            0 <= i < j < processes.len() && processes[i] is Some && processes[j] is Some
                ==> processes[i]->Some_0.pid != processes[j]->Some_0.pid,
    ensures
        owners(inodes, processes).len() == owner_count(inodes, processes),
        forall|i: int, j: int|
            0 <= i < j < owners(inodes, processes).len() ==> owners(inodes, processes)[i].pid
                != owners(inodes, processes)[j].pid,
    decreases processes.len(),
{
    if processes.len() > 0 {
        let rest = processes.drop_last();
        law_one_entry_per_process(inodes, rest);
        let found = owners(inodes, rest);
        if let Some(process) = processes.last() {
            assert forall|i: int| 0 <= i < found.len() implies found[i].pid != report(
                process,
            ).pid by {
                law_owners_are_exact(inodes, rest, found[i]);
                assert(found.contains(found[i]));
                let j = choose|j: int|
                    #![trigger rest[j]]
                    0 <= j < rest.len() && match rest[j] {
                        Some(other) => owns(other.fds, inodes) && report(other) == found[i],
                        None => false,
                    };
                assert(processes[j] == rest[j]);
                assert(processes[processes.len() - 1] == processes.last());
                law_signal_reaches_listed_process(rest[j]->Some_0.pid);
                law_signal_reaches_listed_process(process.pid);
            }
        }
    }
}

/// Exactly the sockets on the port count: TCP sockets of either table, with
/// `listen_only` only those that are listening, and without it UDP sockets of
/// either table too. Every row counts, wherever in its table it stands.
pub proof fn law_inodes_are_exact(tables: SocketTables, port: u16, listen_only: bool, inode: u64)
    ensures
        tables.inodes(port, listen_only).contains(inode) <==> {
            ||| tables.tcp matches Some(table) && exists|i: int|
                0 <= i < table@.len() && (#[trigger] table@[i]).local_port == port && (!listen_only
                    || table@[i].state == TcpState::Listen) && table@[i].inode == inode
            ||| tables.tcp6 matches Some(table) && exists|i: int|
                0 <= i < table@.len() && (#[trigger] table@[i]).local_port == port && (!listen_only
                    || table@[i].state == TcpState::Listen) && table@[i].inode == inode
            ||| !listen_only && (tables.udp matches Some(table) && exists|i: int|
                0 <= i < table@.len() && (#[trigger] table@[i]).local_port == port
                    && table@[i].inode == inode)
            ||| !listen_only && (tables.udp6 matches Some(table) && exists|i: int|
                0 <= i < table@.len() && (#[trigger] table@[i]).local_port == port
                    && table@[i].inode == inode)
        },
{
    assert(tables.tcp matches Some(table) ==> rows(tables.tcp) == table@);
    assert(tables.tcp6 matches Some(table) ==> rows(tables.tcp6) == table@);
    assert(tables.udp matches Some(table) ==> rows(tables.udp) == table@);
    assert(tables.udp6 matches Some(table) ==> rows(tables.udp6) == table@);
}

/// A process owns a socket wherever in its list of descriptors the socket stands.
pub proof fn law_any_descriptor_counts(
    fds: Vec<Option<FdTarget>>,
    i: int,
    inode: u64,
    inodes: Set<u64>,
)
    requires
        0 <= i < fds@.len(),
        fds@[i] == Some(FdTarget::Socket(inode)),
        inodes.contains(inode),
    ensures
        owns(Some(fds), inodes),
{
    assert(is_socket_of(rows(Some(fds))[i], inodes));
}

/// A process that owns one of the sockets has a descriptor for it.
pub proof fn law_owner_has_a_descriptor(
    fds: Option<Vec<Option<FdTarget>>>,
    inodes: Set<u64>,
) -> (witness: (int, u64))
    requires
        owns(fds, inodes),
    ensures
        fds matches Some(list) && 0 <= witness.0 < list@.len() && list@[witness.0] == Some(
            FdTarget::Socket(witness.1),
        ) && inodes.contains(witness.1),
{
    let i = choose|i: int| 0 <= i < rows(fds).len() && is_socket_of(#[trigger] rows(fds)[i], inodes);
    (i, rows(fds)[i]->Some_0->Socket_0)
}

/// Further descriptors, before or behind those of a process, do not take a socket
/// away from it.
pub proof fn law_further_descriptors_take_nothing_away(
    fds: Vec<Option<FdTarget>>,
    longer: Vec<Option<FdTarget>>,
    before: Seq<Option<FdTarget>>,
    behind: Seq<Option<FdTarget>>,
    inodes: Set<u64>,
)
    requires
        longer@ == before + fds@ + behind,
        owns(Some(fds), inodes),
    ensures
        owns(Some(longer), inodes),
{
    let (i, inode) = law_owner_has_a_descriptor(Some(fds), inodes);
    assert(longer@[before.len() + i] == fds@[i]);
    law_any_descriptor_counts(longer, before.len() + i, inode, inodes);
}

/// Further descriptors that are none of the sockets do not give a process one.
pub proof fn law_other_descriptors_add_nothing(
    fds: Vec<Option<FdTarget>>,
    longer: Vec<Option<FdTarget>>,
    before: Seq<Option<FdTarget>>,
    behind: Seq<Option<FdTarget>>,
    inodes: Set<u64>,
)
    requires
        longer@ == before + fds@ + behind,
        forall|i: int|
            0 <= i < before.len() ==> match #[trigger] before[i] {
                Some(FdTarget::Socket(inode)) => !inodes.contains(inode),
                _ => true,
            },
        forall|i: int|
            0 <= i < behind.len() ==> match #[trigger] behind[i] {
                Some(FdTarget::Socket(inode)) => !inodes.contains(inode),
                _ => true,
            },
        owns(Some(longer), inodes),
    ensures
        owns(Some(fds), inodes),
{
    let (i, inode) = law_owner_has_a_descriptor(Some(longer), inodes);
    let place = i - before.len();
    if i < before.len() {
        assert(before[i] == longer@[i]);
    } else if place >= fds@.len() {
        assert(behind[place - fds@.len()] == longer@[i]);
    }
    assert(fds@[place] == longer@[i]);
    law_any_descriptor_counts(fds, place, inode, inodes);
}

/// A process is reported under the number that the system gave it, its name, and
/// the words of its command line with spaces between them; what cannot be read is
/// empty.
pub proof fn law_report_keeps_every_field(process: ProcessEntry)
    ensures
        process.pid >= 0 ==> report(process).pid == process.pid,
        process.pid < 0 ==> report(process).pid == process.pid + 0x1_0000_0000,
        process.name matches Some(name) ==> report(process).name == name@,
        process.name is None ==> report(process).name.len() == 0,
        process.cmdline matches Some(words) ==> report(process).cmd == joined(
            Seq::new(words@.len(), |i: int| words@[i]@),
            seq![' '],
        ),
        process.cmdline is None ==> report(process).cmd.len() == 0,
{
    reveal_strlit(" ");
    assert(" "@ =~= seq![' ']);
    if let Some(words) = process.cmdline {
        assert(string_views(words@) =~= Seq::new(words@.len(), |i: int| words@[i]@));
    }
    let pid = process.pid;
    assert(pid >= 0 ==> pid as u32 == pid) by (bit_vector);
    assert(pid < 0 ==> pid as u32 == pid + 0x1_0000_0000) by (bit_vector);
}

/// The owners follow the list of processes: what one part of the list gives does
/// not depend on the rest of it.
pub proof fn law_owners_follow_the_list(
    inodes: Set<u64>,
    first: Seq<Option<ProcessEntry>>,
    second: Seq<Option<ProcessEntry>>,
)
    ensures
        owners(inodes, first + second) == owners(inodes, first) + owners(inodes, second),
    decreases second.len(),
{
    let all = first + second;
    if second.len() == 0 {
        assert(all =~= first);
        assert(owners(inodes, all) =~= owners(inodes, first) + owners(inodes, second));
    } else {
        law_owners_follow_the_list(inodes, first, second.drop_last());
        assert(all.drop_last() =~= first + second.drop_last());
        assert(all.last() == second.last());
        assert(owners(inodes, all) =~= owners(inodes, first) + owners(inodes, second));
    }
}

/// A process listed alone is reported exactly when one of its descriptors is one
/// of the sockets; one that cannot be read is not.
pub proof fn law_single_process_is_an_owner(inodes: Set<u64>, process: ProcessEntry)
    ensures
        owners(inodes, Seq::empty()) == Seq::<PortProcessView>::empty(),
        owners(inodes, seq![None::<ProcessEntry>]) == Seq::<PortProcessView>::empty(),
        (process.fds matches Some(fds) && exists|i: int, inode: u64|
            0 <= i < fds@.len() && #[trigger] fds@[i] == Some(FdTarget::Socket(inode))
                && #[trigger] inodes.contains(inode)) ==> owners(inodes, seq![Some(process)])
            == seq![report(process)],
        !(process.fds matches Some(fds) && exists|i: int, inode: u64|
            0 <= i < fds@.len() && #[trigger] fds@[i] == Some(FdTarget::Socket(inode))
                && #[trigger] inodes.contains(inode)) ==> owners(inodes, seq![Some(process)])
            == Seq::<PortProcessView>::empty(),
{
    assert(seq![Some(process)].drop_last() =~= Seq::empty());
    assert(seq![None::<ProcessEntry>].drop_last() =~= Seq::empty());
    if let Some(fds) = process.fds {
        if exists|i: int, inode: u64|
            0 <= i < fds@.len() && #[trigger] fds@[i] == Some(FdTarget::Socket(inode))
                && #[trigger] inodes.contains(inode) {
            let (i, inode) = choose|i: int, inode: u64|
                0 <= i < fds@.len() && #[trigger] fds@[i] == Some(FdTarget::Socket(inode))
                    && #[trigger] inodes.contains(inode);
            law_any_descriptor_counts(fds, i, inode, inodes);
        }
    }
    if owns(process.fds, inodes) {
        let (i, inode) = law_owner_has_a_descriptor(process.fds, inodes);
        assert(process.fds->Some_0@[i] == Some(FdTarget::Socket(inode)) && inodes.contains(inode));
    }
}

/// A process whose descriptor is a TCP socket on the port is found, wherever in
/// the tables the socket, in the list the process and among its descriptors the
/// socket stands.
pub proof fn law_tcp_socket_leads_to_its_process(
    tables: SocketTables,
    processes: Vec<Option<ProcessEntry>>,
    port: u16,
    listen_only: bool,
    table: Vec<TcpEntry>,
    row: int,
    place: int,
    fds: Vec<Option<FdTarget>>,
    fd: int,
)
    requires
        tables.tcp == Some(table) || tables.tcp6 == Some(table),
        0 <= row < table@.len(),
        table@[row].local_port == port,
        listen_only ==> table@[row].state == TcpState::Listen,
        0 <= place < processes@.len(),
        processes@[place] is Some,
        processes@[place]->Some_0.fds == Some(fds),
        0 <= fd < fds@.len(),
        fds@[fd] == Some(FdTarget::Socket(table@[row].inode)),
    ensures
        owners(tables.inodes(port, listen_only), rows(Some(processes))).contains(
            report(processes@[place]->Some_0),
        ),
{
    let inode = table@[row].inode;
    let inodes = tables.inodes(port, listen_only);
    law_inodes_are_exact(tables, port, listen_only, inode);
    law_any_descriptor_counts(fds, fd, inode, inodes);
    law_owners_are_exact(inodes, processes@, report(processes@[place]->Some_0));
}

} // verus!
