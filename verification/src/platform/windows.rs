//! Windows.
use std::collections::{HashMap, HashSet};
use vstd::prelude::*;
use vstd::std_specs::iter::IteratorSpec;
use vstd::utf8::{decode_utf8, valid_utf8};
use crate::model::{process_views, result_view, KillError, KillErrorView, PortProcess, PortProcessView};
use crate::port::{law_port_of_a_field, low_half, network_port, port_from_network};
use crate::text::{append_decimal, append_prefixed_hex, decimal, prefixed_hex};

verus! {

broadcast use vstd::std_specs::hash::group_hash_axioms;

/// The state of a listening socket in a TCP table.
pub const TCP_STATE_LISTEN: u32 = 2;

/// The code with which the system reports success.
pub const NO_ERROR: u32 = 0;

/// The code with which the system asks for a larger buffer.
pub const ERROR_INSUFFICIENT_BUFFER: u32 = 122;

/// The code with which the system denies a right.
pub const ERROR_ACCESS_DENIED: u32 = 5;

/// The kinds of socket table that the system keeps.
#[derive(Clone, Copy, PartialEq, Eq, Structural, Debug)]
pub enum TableKind {
    Tcp4,
    Tcp6,
    Udp4,
    Udp6,
}

impl TableKind {
    /// How many 32-bit words a row of the table has.
    pub open spec fn spec_row_words(self) -> int {
        match self {
            TableKind::Tcp4 => 6,
            TableKind::Tcp6 => 14,
            TableKind::Udp4 => 3,
            TableKind::Udp6 => 7,
        }
    }

    /// Where in a row the local port stands.
    pub open spec fn spec_port_word(self) -> int {
        match self {
            TableKind::Tcp4 => 2,
            TableKind::Tcp6 => 5,
            TableKind::Udp4 => 1,
            TableKind::Udp6 => 5,
        }
    }

    /// Where in a row the state stands, in the tables that have one.
    pub open spec fn spec_state_word(self) -> Option<int> {
        match self {
            TableKind::Tcp4 => Some(0),
            TableKind::Tcp6 => Some(12),
            TableKind::Udp4 => None,
            TableKind::Udp6 => None,
        }
    }

    /// Where in a row the owning process stands: last, in every table.
    pub open spec fn spec_pid_word(self) -> int {
        self.spec_row_words() - 1
    }

    /// How many 32-bit words a row of the table has.
    pub fn row_words(self) -> (words: usize)
        ensures
            words == self.spec_row_words(),
    {
        match self {
            TableKind::Tcp4 => 6,
            TableKind::Tcp6 => 14,
            TableKind::Udp4 => 3,
            TableKind::Udp6 => 7,
        }
    }

    /// Where in a row the local port stands.
    fn port_word(self) -> (word: usize)
        ensures
            word == self.spec_port_word(),
    {
        match self {
            TableKind::Tcp4 => 2,
            TableKind::Tcp6 => 5,
            TableKind::Udp4 => 1,
            TableKind::Udp6 => 5,
        }
    }

    /// Where in a row the state stands, in the tables that have one.
    fn state_word(self) -> (word: Option<usize>)
        ensures
            match word {
                Some(at) => self.spec_state_word() == Some(at as int),
                None => self.spec_state_word() is None,
            },
    {
        match self {
            TableKind::Tcp4 => Some(0),
            TableKind::Tcp6 => Some(12),
            TableKind::Udp4 => None,
            TableKind::Udp6 => None,
        }
    }
}

/// Word `word` of row `row` of a table: the first word of the table counts its
/// rows, and the rows follow.
pub open spec fn row_field(kind: TableKind, table: Seq<u32>, row: int, word: int) -> u32 {
    table[1 + row * kind.spec_row_words() + word]
}

/// Whether `table` is long enough for the rows it counts.
pub open spec fn fits(kind: TableKind, table: Seq<u32>) -> bool {
    &&& table.len() >= 1
    &&& 1 + table[0] * kind.spec_row_words() <= table.len()
}

/// Whether a row is a socket on `port`; with `listen_only`, a TCP socket has to
/// be listening too.
pub open spec fn row_matches(
    kind: TableKind,
    table: Seq<u32>,
    row: int,
    port: u16,
    listen_only: bool,
) -> bool {
    &&& network_port(low_half(row_field(kind, table, row, kind.spec_port_word()) as int)) == port
    &&& match kind.spec_state_word() {
        Some(word) => listen_only ==> row_field(kind, table, row, word) == TCP_STATE_LISTEN,
        None => true,
    }
}

/// Whether `pid` is the idle process or the system process.
pub open spec fn is_system(pid: u32) -> bool {
    pid == 0 || pid == 4
}

/// Whether row `row` names `pid` as the owner of a socket on `port`.
pub open spec fn row_names(
    kind: TableKind,
    table: Seq<u32>,
    row: int,
    port: u16,
    listen_only: bool,
    pid: u32,
) -> bool {
    &&& row_matches(kind, table, row, port, listen_only)
    &&& row_field(kind, table, row, kind.spec_pid_word()) == pid
}

/// The processes, other than those of the system itself, that own a socket on
/// `port` among the first `rows` rows of `table`.
pub open spec fn row_pids(
    kind: TableKind,
    table: Seq<u32>,
    rows: int,
    port: u16,
    listen_only: bool,
) -> Set<u32> {
    Set::new(
        |pid: u32|
            !is_system(pid) && exists|row: int|
                0 <= row < rows && row_names(kind, table, row, port, listen_only, pid),
    )
}

/// The processes, other than those of the system itself, that own a socket on
/// `port` in `table`.
pub open spec fn table_pids(kind: TableKind, table: Seq<u32>, port: u16, listen_only: bool) -> Set<
    u32,
> {
    row_pids(kind, table, table[0] as int, port, listen_only)
}

/// Reads one word of a row.
fn field(kind: TableKind, table: &Vec<u32>, row: usize, word: usize) -> (value: u32)
    requires
        fits(kind, table@),
        row < table@[0],
        word < kind.spec_row_words(),
    ensures
        value == row_field(kind, table@, row as int, word as int),
{
    let words: usize = kind.row_words();
    proof {
        let count = table@[0] as int;
        assert(0 <= row * words && row * words + words <= count * words) by (nonlinear_arith)
            requires
                0 <= row < count,
                words >= 0,
        ;
        assert(1 + count * words <= table.len());
    }
    table[1 + row * words + word]
}

/// Whether `table` is long enough for the rows it counts.
pub fn table_fits(kind: TableKind, table: &Vec<u32>) -> (yes: bool)
    ensures
        yes == fits(kind, table@),
{
    if table.len() == 0 {
        return false;
    }
    let words: usize = kind.row_words();
    let room: usize = (table.len() - 1) / words;
    let count: u32 = table[0];
    proof {
        let c = count as int;
        let w = words as int;
        let n = table.len() - 1;
        assert((c <= n / w) == (c * w <= n)) by (nonlinear_arith)
            requires
                w > 0,
                c >= 0,
                n >= 0,
        ;
    }
    count as usize <= room
}

/// Scans one table for the rows on `port`, and adds their owners to `pids`. The
/// idle process, which owns closing sockets, and the system process, which owns
/// those of the kernel, are left out: neither can nor should be ended.
pub fn scan_table(
    kind: TableKind,
    table: &Vec<u32>,
    port: u16,
    listen_only: bool,
    pids: &mut HashSet<u32>,
)
    requires
        fits(kind, table@),
    ensures
        final(pids)@ == old(pids)@ + table_pids(kind, table@, port, listen_only),
{
    let count: usize = table[0] as usize;
    let ghost before = pids@;
    let mut row: usize = 0;
    while row < count
        invariant
            fits(kind, table@),
            count == table@[0],
            row <= count,
            pids@ == before + row_pids(kind, table@, row as int, port, listen_only),
        decreases count - row,
    {
        let raw: u32 = field(kind, table, row, kind.port_word());
        assert(raw as u16 == raw % 0x1_0000) by (bit_vector);
        let on_port = port_from_network(#[verifier::truncate] (raw as u16)) == port;
        let state_matches = match kind.state_word() {
            Some(word) => !listen_only || field(kind, table, row, word) == TCP_STATE_LISTEN,
            None => true,
        };
        let pid: u32 = field(kind, table, row, kind.row_words() - 1);
        let matches_row = on_port && state_matches;
        assert(matches_row == row_matches(kind, table@, row as int, port, listen_only));
        let ghost scanned = pids@;
        if matches_row && pid != 0 && pid != 4 {
            pids.insert(pid);
        }
        assert(pids@ =~= before + row_pids(kind, table@, row + 1, port, listen_only)) by {
            assert forall|other: u32|
                row_pids(kind, table@, row + 1, port, listen_only).contains(other) == (row_pids(
                    kind,
                    table@,
                    row as int,
                    port,
                    listen_only,
                ).contains(other) || (matches_row && pid == other && !is_system(other))) by {
                if matches_row && pid == other {
                    assert(row_names(kind, table@, row as int, port, listen_only, other));
                }
            }
        }
        row += 1;
    }
}

/// What to do after a call that asked the system for a table.
#[derive(Clone, Copy, PartialEq, Eq, Structural, Debug)]
pub enum FetchStep {
    /// The buffer holds the table.
    Complete,
    /// The buffer has to grow to this many words before the next call.
    Grow(usize),
    /// The table cannot be had; the system's code says why.
    Failed(u32),
}

/// What is done after a call that returned `result` and left `size`: the number
/// of words to grow to, or nothing when the buffer does not have to grow.
pub open spec fn growth(result: u32, size: u32) -> Option<int> {
    if result == ERROR_INSUFFICIENT_BUFFER {
        Some((size + 3) / 4 + 1)
    } else {
        None
    }
}

/// What to do after a call that returned `result` and left `size` as the number
/// of bytes that the table needs. A buffer grows to whole words, and by one more,
/// so that the table has room in it.
pub fn fetch_step(result: u32, size: u32) -> (step: FetchStep)
    ensures
        result == NO_ERROR ==> step == FetchStep::Complete,
        result == ERROR_INSUFFICIENT_BUFFER ==> (step matches FetchStep::Grow(words) && words == (
        size + 3) / 4 + 1 && 4 * words >= size),
        match growth(result, size) {
            Some(count) => step matches FetchStep::Grow(words) && words == count,
            None => !(step is Grow),
        },
        result != NO_ERROR && result != ERROR_INSUFFICIENT_BUFFER ==> step == FetchStep::Failed(
            result,
        ),
{
    if result == NO_ERROR {
        FetchStep::Complete
    } else if result == ERROR_INSUFFICIENT_BUFFER {
        let rest: usize = if size % 4 == 0 {
            0
        } else {
            1
        };
        FetchStep::Grow((size / 4) as usize + rest + 1)
    } else {
        FetchStep::Failed(result)
    }
}

/// The tables as the system handed them over: the words of each, or the code
/// with which the system refused it. Without a need for the UDP tables, what
/// stands in their place is not looked at.
pub struct SocketTables {
    pub tcp4: Result<Vec<u32>, u32>,
    pub tcp6: Result<Vec<u32>, u32>,
    pub udp4: Result<Vec<u32>, u32>,
    pub udp6: Result<Vec<u32>, u32>,
}

impl SocketTables {
    /// The table of a kind.
    pub open spec fn table(self, kind: TableKind) -> Result<Vec<u32>, u32> {
        match kind {
            TableKind::Tcp4 => self.tcp4,
            TableKind::Tcp6 => self.tcp6,
            TableKind::Udp4 => self.udp4,
            TableKind::Udp6 => self.udp6,
        }
    }

    /// The first table that is asked for and was refused. The tables are asked
    /// for in the order of `TableKind`, those of UDP not with `listen_only`.
    pub open spec fn first_refused(self, listen_only: bool) -> Option<TableKind> {
        if self.tcp4 is Err {
            Some(TableKind::Tcp4)
        } else if self.tcp6 is Err {
            Some(TableKind::Tcp6)
        } else if listen_only {
            None
        } else if self.udp4 is Err {
            Some(TableKind::Udp4)
        } else if self.udp6 is Err {
            Some(TableKind::Udp6)
        } else {
            None
        }
    }

    /// Whether the table of a kind is scanned: it is asked for, and neither it
    /// nor one before it was refused.
    pub open spec fn scanned(self, kind: TableKind, listen_only: bool) -> bool {
        match kind {
            TableKind::Tcp4 => self.tcp4 is Ok,
            TableKind::Tcp6 => self.tcp4 is Ok && self.tcp6 is Ok,
            TableKind::Udp4 => !listen_only && self.tcp4 is Ok && self.tcp6 is Ok && self.udp4 is Ok,
            TableKind::Udp6 => !listen_only && self.tcp4 is Ok && self.tcp6 is Ok && self.udp4 is Ok
                && self.udp6 is Ok,
        }
    }

    /// Whether every table that is scanned is long enough for its rows.
    pub open spec fn well_formed(self, listen_only: bool) -> bool {
        forall|kind: TableKind| #[trigger]
            self.scanned(kind, listen_only) ==> fits(kind, self.table(kind)->Ok_0@)
    }

    /// What the table of a kind gives.
    pub open spec fn kind_pids(self, kind: TableKind, port: u16, listen_only: bool) -> Set<u32> {
        if self.scanned(kind, listen_only) {
            table_pids(kind, self.table(kind)->Ok_0@, port, listen_only)
        } else {
            Set::empty()
        }
    }

    /// What all scanned tables give.
    pub open spec fn pids(self, port: u16, listen_only: bool) -> Set<u32> {
        self.kind_pids(TableKind::Tcp4, port, listen_only) + self.kind_pids(
            TableKind::Tcp6,
            port,
            listen_only,
        ) + self.kind_pids(TableKind::Udp4, port, listen_only) + self.kind_pids(
            TableKind::Udp6,
            port,
            listen_only,
        )
    }
}

/// What is said of a table that the system refused with `code`.
pub open spec fn refusal(code: u32) -> Seq<char> {
    "GetExtendedTable failed: "@ + prefixed_hex(code)
}

/// Says that the system refused a table with `code`.
fn refusal_text(code: u32) -> (message: String)
    ensures
        message@ == refusal(code),
{
    let mut message = "GetExtendedTable failed: ".to_owned();
    append_prefixed_hex(&mut message, code);
    message
}

/// Adds the owners of the sockets on `port` to `pids`: of TCP sockets, and of
/// UDP sockets too unless `listen_only` asks for listening sockets. A table that
/// the system refused ends the search with what was found before it.
pub fn collect_pids(
    tables: &SocketTables,
    port: u16,
    listen_only: bool,
    pids: &mut HashSet<u32>,
) -> (result: Result<(), String>)
    requires
        tables.well_formed(listen_only),
    ensures
        final(pids)@ == old(pids)@ + tables.pids(port, listen_only),
        match tables.first_refused(listen_only) {
            None => result is Ok,
            Some(kind) => result matches Err(message) && message@ == refusal(
                tables.table(kind)->Err_0,
            ),
        },
{
    proof {
        assert(tables.scanned(TableKind::Tcp4, listen_only) == tables.tcp4 is Ok);
        assert(tables.scanned(TableKind::Tcp6, listen_only) ==> fits(
            TableKind::Tcp6,
            tables.tcp6->Ok_0@,
        ));
        assert(tables.scanned(TableKind::Udp4, listen_only) ==> fits(
            TableKind::Udp4,
            tables.udp4->Ok_0@,
        ));
        assert(tables.scanned(TableKind::Udp6, listen_only) ==> fits(
            TableKind::Udp6,
            tables.udp6->Ok_0@,
        ));
    }
    match &tables.tcp4 {
        Ok(table) => scan_table(TableKind::Tcp4, table, port, listen_only, pids),
        Err(code) => {
            return Err(refusal_text(*code));
        },
    }
    match &tables.tcp6 {
        Ok(table) => scan_table(TableKind::Tcp6, table, port, listen_only, pids),
        Err(code) => {
            return Err(refusal_text(*code));
        },
    }
    if !listen_only {
        match &tables.udp4 {
            Ok(table) => scan_table(TableKind::Udp4, table, port, listen_only, pids),
            Err(code) => {
                return Err(refusal_text(*code));
            },
        }
        match &tables.udp6 {
            Ok(table) => scan_table(TableKind::Udp6, table, port, listen_only, pids),
            Err(code) => {
                return Err(refusal_text(*code));
            },
        }
    }
    Ok(())
}

/// A process in the system's list of running processes.
pub struct SnapshotEntry {
    pub pid: u32,
    /// The name of the executable: the characters before the first zero.
    pub exe_file: Vec<i8>,
}

/// The text that bytes hold, with each ill-formed stretch of UTF-8 replaced.
pub uninterp spec fn utf8_lossy(bytes: Seq<u8>) -> Seq<char>;

/// Calls `String::from_utf8_lossy`. Its result depends on the bytes alone, and
/// on well-formed UTF-8 it is the text that the bytes encode.
#[verifier::external_body]
fn text_from_utf8_lossy(bytes: &Vec<u8>) -> (text: String)
    ensures
        text@ == utf8_lossy(bytes@),
        valid_utf8(bytes@) ==> text@ == decode_utf8(bytes@),
{
    String::from_utf8_lossy(bytes).into_owned()
}

/// How many characters stand before the first zero.
pub open spec fn name_len(chars: Seq<i8>) -> nat
    decreases chars.len(),
{
    if chars.len() == 0 || chars[0] == 0 {
        0
    } else {
        1 + name_len(chars.drop_first())
    }
}

/// The bytes of the characters before the first zero.
pub open spec fn name_bytes(chars: Seq<i8>) -> Seq<u8> {
    Seq::new(name_len(chars), |i: int| chars[i] as u8)
}

/// The name that the characters before the first zero spell.
pub open spec fn exe_name(chars: Seq<i8>) -> Seq<char> {
    let bytes = name_bytes(chars);
    if valid_utf8(bytes) {
        decode_utf8(bytes)
    } else {
        utf8_lossy(bytes)
    }
}

/// `name_len` is the index of the first zero, or the length.
proof fn lemma_name_len(chars: Seq<i8>, len: nat)
    requires
        len <= chars.len(),
        forall|i: int| 0 <= i < len ==> chars[i] != 0,
        len == chars.len() || chars[len as int] == 0,
    ensures
        name_len(chars) == len,
    decreases len,
{
    if len > 0 {
        lemma_name_len(chars.drop_first(), (len - 1) as nat);
    }
}

/// The bytes of the characters before the first zero.
pub fn exe_file_bytes(chars: &Vec<i8>) -> (bytes: Vec<u8>)
    ensures
        bytes@ == name_bytes(chars@),
{
    let mut bytes: Vec<u8> = Vec::new();
    let mut i: usize = 0;
    while i < chars.len() && chars[i] != 0
        invariant
            i <= chars.len(),
            bytes.len() == i,
            forall|j: int| 0 <= j < i ==> chars[j] != 0 && bytes[j] == chars[j] as u8,
        decreases chars.len() - i,
    {
        bytes.push(#[verifier::truncate] (chars[i] as u8));
        i += 1;
    }
    proof {
        lemma_name_len(chars@, i as nat);
    }
    assert(bytes@ =~= name_bytes(chars@));
    bytes
}

/// Whether a list of running processes holds `pid`.
pub open spec fn is_running(entries: Seq<SnapshotEntry>, pid: u32) -> bool {
    exists|i: int| 0 <= i < entries.len() && #[trigger] entries[i].pid == pid
}

/// The name that a list of running processes gives `pid`: that of the last entry
/// for it.
pub open spec fn running_name(entries: Seq<SnapshotEntry>, pid: u32) -> Seq<char>
    recommends
        is_running(entries, pid),
    decreases entries.len(),
{
    if entries.len() == 0 {
        Seq::empty()
    } else if entries.last().pid == pid {
        exe_name(entries.last().exe_file@)
    } else {
        running_name(entries.drop_last(), pid)
    }
}

/// Whether `names` holds the name of each process in `entries`.
pub open spec fn names_all(names: Map<u32, String>, entries: Seq<SnapshotEntry>) -> bool {
    &&& forall|pid: u32| #[trigger] names.contains_key(pid) <==> is_running(entries, pid)
    &&& forall|pid: u32| #[trigger]
        names.contains_key(pid) ==> names[pid]@ == running_name(entries, pid)
}

/// The names of the running processes, by process.
pub fn snapshot_names(entries: &Vec<SnapshotEntry>) -> (names: HashMap<u32, String>)
    ensures
        names_all(names@, entries@),
{
    let mut names: HashMap<u32, String> = HashMap::new();
    for i in 0..entries.len()
        invariant
            names_all(names@, entries@.take(i as int)),
    {
        let entry = &entries[i];
        let bytes = exe_file_bytes(&entry.exe_file);
        let name = text_from_utf8_lossy(&bytes);
        let ghost before = entries@.take(i as int);
        let ghost after = entries@.take(i + 1);
        proof {
            assert(after.drop_last() =~= before);
            assert(after.last() == *entry);
            assert forall|pid: u32| is_running(after, pid) == (is_running(before, pid) || pid
                == entry.pid) by {
                if is_running(before, pid) {
                    let j = choose|j: int| 0 <= j < before.len() && #[trigger] before[j].pid == pid;
                    assert(after[j].pid == pid);
                }
                if pid == entry.pid {
                    assert(after[i as int].pid == pid);
                }
                if is_running(after, pid) {
                    let j = choose|j: int| 0 <= j < after.len() && #[trigger] after[j].pid == pid;
                    if j < i {
                        assert(before[j].pid == pid);
                    }
                }
            }
        }
        names.insert(entry.pid, name);
    }
    assert(entries@.take(entries.len() as int) =~= entries@);
    names
}

/// The name that a list of running processes gives `pid`, or `Unknown` for a
/// process that is not in the list.
pub open spec fn reported_name(entries: Seq<SnapshotEntry>, pid: u32) -> Seq<char> {
    if is_running(entries, pid) {
        running_name(entries, pid)
    } else {
        "Unknown"@
    }
}

/// The name that `names` gives `pid`, or `Unknown`.
pub open spec fn listed_name(names: Map<u32, String>, pid: u32) -> Seq<char> {
    if names.contains_key(pid) {
        names[pid]@
    } else {
        "Unknown"@
    }
}

/// Whether `found` reports the processes in `pids`, each once, in some order,
/// under the names that `name_of` gives. The name of the executable stands for
/// the command line too.
pub open spec fn reports(
    found: Seq<PortProcessView>,
    pids: Set<u32>,
    name_of: spec_fn(u32) -> Seq<char>,
) -> bool {
    &&& forall|i: int, j: int| 0 <= i < j < found.len() ==> found[i].pid != found[j].pid
    &&& forall|pid: u32|
        pids.contains(pid) <==> exists|i: int| 0 <= i < found.len() && #[trigger] found[i].pid == pid
    &&& forall|i: int|
        0 <= i < found.len() ==> {
            &&& (#[trigger] found[i]).name == name_of(found[i].pid)
            &&& found[i].cmd == found[i].name
        }
}

/// Reports the processes in `pids` under the names in `names`.
pub fn describe_processes(pids: &HashSet<u32>, names: &HashMap<u32, String>) -> (found: Vec<
    PortProcess,
>)
    ensures
        reports(process_views(found@), pids@, |pid: u32| listed_name(names@, pid)),
{
    let mut found: Vec<PortProcess> = Vec::new();
    let ghost order = IteratorSpec::remaining(&pids.iter());
    for pid in iter: pids.iter()
        invariant
            iter.seq() == order,
            found@.len() == iter.index(),
            forall|i: int|
                0 <= i < found@.len() ==> {
                    &&& (#[trigger] found@[i]).pid == *order[i]
                    &&& found@[i].name@ == listed_name(names@, found@[i].pid)
                    &&& found@[i].cmd@ == found@[i].name@
                },
    {
        let name = match names.get(pid) {
            Some(name) => name.clone(),
            None => "Unknown".to_owned(),
        };
        found.push(PortProcess { pid: *pid, cmd: name.clone(), name });
    }
    proof {
        let views = process_views(found@);
        assert(order.unref().to_set() == pids@);
        assert(order.no_duplicates());
        assert forall|pid: u32|
            pids@.contains(pid) == exists|i: int|
                0 <= i < views.len() && #[trigger] views[i].pid == pid by {
            if pids@.contains(pid) {
                assert(order.unref().contains(pid));
                let i = choose|i: int| 0 <= i < order.unref().len() && order.unref()[i] == pid;
                assert(views[i].pid == pid);
            }
            if exists|i: int| 0 <= i < views.len() && #[trigger] views[i].pid == pid {
                let i = choose|i: int| 0 <= i < views.len() && #[trigger] views[i].pid == pid;
                assert(order.unref()[i] == pid);
            }
        }
    }
    found
}

/// The processes with a socket on `port`: with `listen_only`, with a listening
/// TCP socket. None when the system refused one of the tables.
pub fn find_processes(
    tables: &SocketTables,
    entries: &Vec<SnapshotEntry>,
    port: u16,
    listen_only: bool,
) -> (found: Vec<PortProcess>)
    requires
        tables.well_formed(listen_only),
    ensures
        tables.first_refused(listen_only) is Some ==> found@.len() == 0,
        tables.first_refused(listen_only) is None ==> reports(
            process_views(found@),
            tables.pids(port, listen_only),
            |pid: u32| reported_name(entries@, pid),
        ),
{
    let mut pids: HashSet<u32> = HashSet::new();
    if collect_pids(tables, port, listen_only, &mut pids).is_err() {
        return Vec::new();
    }
    assert(pids@ =~= tables.pids(port, listen_only));
    if pids.is_empty() {
        return Vec::new();
    }
    let names = snapshot_names(entries);
    describe_processes(&pids, &names)
}

/// An accepted request to end a process.
#[derive(Clone, Copy, PartialEq, Eq, Structural, Debug)]
pub struct TerminateRequest {
    pub pid: u32,
}

/// What is decided on a request of the process `self_pid` to end `pid`. It may
/// not end itself, nor a process of the system.
pub open spec fn decision(pid: u32, self_pid: u32) -> Result<TerminateRequest, KillErrorView> {
    if pid == self_pid {
        Err(KillErrorView::Other("refusing to kill the calling process"@))
    } else if is_system(pid) {
        Err(KillErrorView::Other("refusing to kill a system process"@))
    } else {
        Ok(TerminateRequest { pid })
    }
}

/// Decides whether the process that calls, `self_pid`, may ask the system to end
/// `pid`. Ending a process is always forced here, whatever `_force` says.
pub fn kill_pid(pid: u32, _force: bool, self_pid: u32) -> (request: Result<
    TerminateRequest,
    KillError,
>)
    ensures
        result_view(request) == decision(pid, self_pid),
{
    if pid == self_pid {
        return Err(KillError::Other("refusing to kill the calling process".to_owned()));
    }
    if pid == 0 || pid == 4 {
        return Err(KillError::Other("refusing to kill a system process".to_owned()));
    }
    Ok(TerminateRequest { pid })
}

/// What is reported when the system answers a call on `pid` with the code
/// `error`; `attempt` says what was tried.
pub open spec fn refused_call(attempt: Seq<char>, pid: u32, error: u32) -> KillErrorView {
    if error == ERROR_ACCESS_DENIED {
        KillErrorView::Permission
    } else {
        KillErrorView::Other(attempt + decimal(pid) + ": "@ + prefixed_hex(error))
    }
}

/// Turns the code `error`, with which the system answered a call on `pid`, into
/// an error.
fn refused_call_error(attempt: &str, pid: u32, error: u32) -> (kill_error: KillError)
    ensures
        kill_error@ == refused_call(attempt@, pid, error),
{
    if error == ERROR_ACCESS_DENIED {
        return KillError::Permission;
    }
    let mut message = attempt.to_owned();
    append_decimal(&mut message, pid);
    message.append(": ");
    append_prefixed_hex(&mut message, error);
    KillError::Other(message)
}

/// What became of a process that could not be opened.
pub open spec fn open_outcome(entries: Seq<SnapshotEntry>, pid: u32, error: u32) -> Result<
    (),
    KillErrorView,
> {
    if is_running(entries, pid) {
        Err(refused_call("Failed to open process "@, pid, error))
    } else {
        Ok(())
    }
}

/// What became of a process that could be opened.
pub open spec fn terminate_outcome(pid: u32, result: i32, error: u32) -> Result<
    (),
    KillErrorView,
> {
    if result == 0 {
        Err(refused_call("Failed to terminate process "@, pid, error))
    } else {
        Ok(())
    }
}

impl TerminateRequest {
    /// The outcome when the process could not be opened. `entries` is the list of
    /// running processes as taken after that, and `error` the system's code: a
    /// process that is no longer running needs no ending.
    pub fn open_failed(&self, entries: &Vec<SnapshotEntry>, error: u32) -> (outcome: Result<
        (),
        KillError,
    >)
        ensures
            result_view(outcome) == open_outcome(entries@, self.pid, error),
            result_view(outcome) == (if is_running(entries@, self.pid) {
                Err(refused_call("Failed to open process "@, self.pid, error))
            } else {
                Ok(())
            }),
    {
        if !snapshot_names(entries).contains_key(&self.pid) {
            return Ok(());
        }
        Err(refused_call_error("Failed to open process ", self.pid, error))
    }

    /// The outcome when the process could be opened and the call that ends it
    /// returned `result`, zero for failure, with the system's code `error`.
    pub fn terminated(&self, result: i32, error: u32) -> (outcome: Result<(), KillError>)
        ensures
            result_view(outcome) == terminate_outcome(self.pid, result, error),
            result_view(outcome) == (if result == 0 {
                Err(refused_call("Failed to terminate process "@, self.pid, error))
            } else {
                Ok(())
            }),
    {
        if result == 0 {
            return Err(refused_call_error("Failed to terminate process ", self.pid, error));
        }
        Ok(())
    }
}

/// No process of the system itself is ever found.
pub proof fn law_system_is_never_found(tables: SocketTables, port: u16, listen_only: bool)
    ensures
        forall|pid: u32|
            is_system(pid) ==> !(#[trigger] tables.pids(port, listen_only).contains(pid)),
{
}

/// Every owner of a listening socket on a port is an owner of a socket on it.
pub proof fn law_listeners_are_found(tables: SocketTables, port: u16)
    ensures
        tables.pids(port, true).subset_of(tables.pids(port, false)),
{
    assert forall|kind: TableKind, table: Seq<u32>, pid: u32| #[trigger]
        table_pids(kind, table, port, true).contains(pid) implies table_pids(
        kind,
        table,
        port,
        false,
    ).contains(pid) by {
        let row = choose|row: int|
            0 <= row < table[0] && row_names(kind, table, row, port, true, pid);
        assert(row_names(kind, table, row, port, false, pid));
    }
}

/// With `listen_only`, the UDP tables make no difference.
pub proof fn law_listen_only_ignores_udp(tables: SocketTables, others: SocketTables, port: u16)
    requires
        tables.tcp4 == others.tcp4,
        tables.tcp6 == others.tcp6,
    ensures
        tables.pids(port, true) == others.pids(port, true),
        tables.first_refused(true) == others.first_refused(true),
{
}

/// An accepted request names the process that it was made for, which is neither
/// the caller nor of the system; and every such process is accepted.
pub proof fn law_accepted_request_names_process(pid: u32, self_pid: u32)
    ensures
        decision(pid, self_pid) matches Ok(request) ==> {
            &&& request.pid == pid
            &&& request.pid != self_pid
            &&& !is_system(request.pid)
        },
        decision(pid, self_pid) is Ok <==> pid != self_pid && !is_system(pid),
{
}

/// Every row counts, wherever in its table it stands: the owner of a row whose
/// port, its low byte first, is the one asked for, and which is listening where
/// that is asked of a TCP socket, is found, unless its number is zero or four.
#[verifier::spinoff_prover]
#[verifier::rlimit(40)]
pub proof fn law_every_row_counts(
    kind: TableKind,
    table: Seq<u32>,
    port: u16,
    listen_only: bool,
    row: int,
    pid: u32,
)
    requires
        0 <= row < table[0],
        ({
            let (words, port_at, state_at, pid_at) = match kind {
                TableKind::Tcp4 => (6int, 2int, Some(0int), 5int),
                TableKind::Tcp6 => (14int, 5int, Some(12int), 13int),
                TableKind::Udp4 => (3int, 1int, None, 2int),
                TableKind::Udp6 => (7int, 5int, None, 6int),
            };
            let start = 1 + row * words;
            let field = table[start + port_at] as int;
            &&& 256 * (field % 256) + (field / 256) % 256 == port
            &&& state_at matches Some(at) ==> (listen_only ==> table[start + at] == 2)
            &&& table[start + pid_at] == pid
            &&& pid != 0 && pid != 4
        }),
    ensures
        table_pids(kind, table, port, listen_only).contains(pid),
{
    law_port_of_a_field(row_field(kind, table, row, kind.spec_port_word()) as int);
    assert(row_names(kind, table, row, port, listen_only, pid));
}

/// A process found in a table owns a row of it that is on the port, and that is
/// listening where that is asked of a TCP socket; its number is neither zero nor
/// four.
#[verifier::spinoff_prover]
#[verifier::rlimit(40)]
pub proof fn law_found_process_owns_a_row(
    kind: TableKind,
    table: Seq<u32>,
    port: u16,
    listen_only: bool,
    pid: u32,
) -> (row: int)
    requires
        table_pids(kind, table, port, listen_only).contains(pid),
    ensures
        0 <= row < table[0],
        ({
            let (words, port_at, state_at, pid_at) = match kind {
                TableKind::Tcp4 => (6int, 2int, Some(0int), 5int),
                TableKind::Tcp6 => (14int, 5int, Some(12int), 13int),
                TableKind::Udp4 => (3int, 1int, None, 2int),
                TableKind::Udp6 => (7int, 5int, None, 6int),
            };
            let start = 1 + row * words;
            let field = table[start + port_at] as int;
            &&& 256 * (field % 256) + (field / 256) % 256 == port
            &&& state_at matches Some(at) ==> (listen_only ==> table[start + at] == 2)
            &&& table[start + pid_at] == pid
            &&& pid != 0 && pid != 4
        }),
{
    let row = choose|row: int|
        0 <= row < table[0] && row_names(kind, table, row, port, listen_only, pid);
    law_port_of_a_field(row_field(kind, table, row, kind.spec_port_word()) as int);
    row
}

/// A row stands for one port only.
#[verifier::spinoff_prover]
#[verifier::rlimit(40)]
pub proof fn law_row_is_on_one_port(
    kind: TableKind,
    table: Seq<u32>,
    row: int,
    port: u16,
    listen_only: bool,
    other: u16,
    other_listen_only: bool,
)
    requires
        row_matches(kind, table, row, port, listen_only),
        row_matches(kind, table, row, other, other_listen_only),
    ensures
        port == other,
{
}

/// A table fits exactly when the word that counts its rows is there, and as many
/// rows of its kind behind it.
pub proof fn law_table_has_room_for_its_rows(kind: TableKind, table: Seq<u32>)
    ensures
        fits(kind, table) <==> table.len() > 0 && table.len() - 1 >= table[0] * (match kind {
            TableKind::Tcp4 => 6int,
            TableKind::Tcp6 => 14int,
            TableKind::Udp4 => 3int,
            TableKind::Udp6 => 7int,
        }),
{
}

/// The search is refused exactly when a table that it needs was: one of TCP, or
/// without `listen_only` one of UDP. It names the first of them.
pub proof fn law_first_refused_is_exact(tables: SocketTables, listen_only: bool)
    ensures
        tables.first_refused(listen_only) is None <==> tables.tcp4 is Ok && tables.tcp6 is Ok && (
        listen_only || (tables.udp4 is Ok && tables.udp6 is Ok)),
        tables.first_refused(listen_only) == Some(TableKind::Tcp4) <==> tables.tcp4 is Err,
        tables.first_refused(listen_only) == Some(TableKind::Tcp6) <==> tables.tcp4 is Ok
            && tables.tcp6 is Err,
        tables.first_refused(listen_only) == Some(TableKind::Udp4) <==> tables.tcp4 is Ok
            && tables.tcp6 is Ok && !listen_only && tables.udp4 is Err,
        tables.table(TableKind::Tcp4) == tables.tcp4,
        tables.table(TableKind::Tcp6) == tables.tcp6,
        tables.table(TableKind::Udp4) == tables.udp4,
        tables.table(TableKind::Udp6) == tables.udp6,
{
}

/// Tables are well formed exactly when each that is looked at has room for its
/// rows.
pub proof fn law_well_formed_is_exact(tables: SocketTables, listen_only: bool)
    ensures
        tables.well_formed(listen_only) <==> {
            &&& tables.tcp4 matches Ok(table) ==> fits(TableKind::Tcp4, table@)
            &&& tables.tcp4 is Ok ==> (tables.tcp6 matches Ok(table) ==> fits(
                TableKind::Tcp6,
                table@,
            ))
            &&& tables.tcp4 is Ok && tables.tcp6 is Ok && !listen_only ==> (
            tables.udp4 matches Ok(table) ==> fits(TableKind::Udp4, table@))
            &&& tables.tcp4 is Ok && tables.tcp6 is Ok && !listen_only && tables.udp4 is Ok ==> (
            tables.udp6 matches Ok(table) ==> fits(TableKind::Udp6, table@))
        },
{
    assert(tables.scanned(TableKind::Tcp4, listen_only) == tables.tcp4 is Ok);
    assert(tables.scanned(TableKind::Tcp6, listen_only) == (tables.tcp4 is Ok && tables.tcp6 is Ok));
    assert(tables.scanned(TableKind::Udp4, listen_only) == (!listen_only && tables.tcp4 is Ok
        && tables.tcp6 is Ok && tables.udp4 is Ok));
    assert(tables.scanned(TableKind::Udp6, listen_only) == (!listen_only && tables.tcp4 is Ok
        && tables.tcp6 is Ok && tables.udp4 is Ok && tables.udp6 is Ok));
}

/// A process is found exactly when one of the tables up to the first refused one
/// names it: both of TCP, and without `listen_only` both of UDP.
pub proof fn law_pids_are_exact(tables: SocketTables, port: u16, listen_only: bool, pid: u32)
    ensures
        tables.pids(port, listen_only).contains(pid) <==> {
            ||| tables.tcp4 matches Ok(table) && table_pids(
                TableKind::Tcp4,
                table@,
                port,
                listen_only,
            ).contains(pid)
            ||| tables.tcp4 is Ok && (tables.tcp6 matches Ok(table) && table_pids(
                TableKind::Tcp6,
                table@,
                port,
                listen_only,
            ).contains(pid))
            ||| !listen_only && tables.tcp4 is Ok && tables.tcp6 is Ok && (
            tables.udp4 matches Ok(table) && table_pids(
                TableKind::Udp4,
                table@,
                port,
                listen_only,
            ).contains(pid))
            ||| !listen_only && tables.tcp4 is Ok && tables.tcp6 is Ok && tables.udp4 is Ok && (
            tables.udp6 matches Ok(table) && table_pids(
                TableKind::Udp6,
                table@,
                port,
                listen_only,
            ).contains(pid))
        },
{
}

/// The words for a refused table end in the code with which it was refused.
pub proof fn law_refusal_names_the_code(code: u32)
    ensures
        refusal(code) == "GetExtendedTable failed: "@ + prefixed_hex(code),
{
}

/// The name of an executable is all characters up to the first zero and no more,
/// each as the byte of the same bits.
pub proof fn law_name_ends_at_the_first_zero(chars: Seq<i8>)
    ensures
        name_bytes(chars).len() <= chars.len(),
        name_bytes(chars).len() < chars.len() ==> chars[name_bytes(chars).len() as int] == 0,
        forall|i: int|
            0 <= i < name_bytes(chars).len() ==> {
                &&& (#[trigger] chars[i]) != 0
                &&& chars[i] > 0 ==> name_bytes(chars)[i] == chars[i]
                &&& chars[i] < 0 ==> name_bytes(chars)[i] == chars[i] + 256
            },
    decreases chars.len(),
{
    if chars.len() > 0 && chars[0] != 0 {
        let rest = chars.drop_first();
        law_name_ends_at_the_first_zero(rest);
        assert forall|i: int| 0 <= i < name_bytes(chars).len() implies {
            &&& (#[trigger] chars[i]) != 0
            &&& chars[i] > 0 ==> name_bytes(chars)[i] == chars[i]
            &&& chars[i] < 0 ==> name_bytes(chars)[i] == chars[i] + 256
        } by {
            if i > 0 {
                assert(chars[i] == rest[i - 1]);
            }
            let c = chars[i];
            assert(c > 0 ==> c as u8 == c) by (bit_vector);
            assert(c < 0 ==> c as u8 == c + 256) by (bit_vector);
        }
    }
}

/// The name of an executable is the text that its bytes encode, where they do.
pub proof fn law_name_is_the_text_of_its_bytes(chars: Seq<i8>)
    ensures
        valid_utf8(name_bytes(chars)) ==> exe_name(chars) == decode_utf8(name_bytes(chars)),
        !valid_utf8(name_bytes(chars)) ==> exe_name(chars) == utf8_lossy(name_bytes(chars)),
{
}

/// A process is running exactly when the list has an entry for it, and its name is
/// that of the last such entry. A process that is not running is `Unknown`.
pub proof fn law_last_entry_names_the_process(entries: Seq<SnapshotEntry>, i: int, pid: u32)
    ensures
        0 <= i < entries.len() ==> is_running(entries, entries[i].pid),
        0 <= i < entries.len() && (forall|j: int|
            i < j < entries.len() ==> (#[trigger] entries[j]).pid != entries[i].pid) ==> {
            &&& running_name(entries, entries[i].pid) == exe_name(entries[i].exe_file@)
            &&& reported_name(entries, entries[i].pid) == exe_name(entries[i].exe_file@)
        },
        (forall|j: int| 0 <= j < entries.len() ==> (#[trigger] entries[j]).pid != pid) ==> {
            &&& !is_running(entries, pid)
            &&& reported_name(entries, pid) == "Unknown"@
        },
    decreases entries.len(),
{
    if 0 <= i < entries.len() - 1 {
        let rest = entries.drop_last();
        law_last_entry_names_the_process(rest, i, pid);
        assert(rest[i] == entries[i]);
        if forall|j: int| i < j < entries.len() ==> (#[trigger] entries[j]).pid != entries[i].pid {
            assert forall|j: int| i < j < rest.len() implies (#[trigger] rest[j]).pid
                != rest[i].pid by {
                assert(rest[j] == entries[j]);
            }
            assert(entries[entries.len() - 1].pid != entries[i].pid);
        }
    }
}

/// The names of the running processes are theirs: there is one for each process in
/// the list and for no other, and it is that of the last entry.
pub proof fn law_names_are_exact(
    names: Map<u32, String>,
    entries: Seq<SnapshotEntry>,
    i: int,
    pid: u32,
)
    requires
        names_all(names, entries),
    ensures
        0 <= i < entries.len() ==> names.contains_key(entries[i].pid),
        0 <= i < entries.len() && (forall|j: int|
            i < j < entries.len() ==> (#[trigger] entries[j]).pid != entries[i].pid)
            ==> names[entries[i].pid]@ == exe_name(entries[i].exe_file@),
        (forall|j: int| 0 <= j < entries.len() ==> (#[trigger] entries[j]).pid != pid)
            ==> !names.contains_key(pid),
{
    law_last_entry_names_the_process(entries, i, pid);
    if 0 <= i < entries.len() {
        assert(is_running(entries, entries[i].pid));
        assert(names.contains_key(entries[i].pid));
    }
}

/// A process goes by the name that is listed for it, and by `Unknown` without one.
pub proof fn law_listed_name_is_exact(names: Map<u32, String>, pid: u32)
    ensures
        names.contains_key(pid) ==> listed_name(names, pid) == names[pid]@,
        !names.contains_key(pid) ==> listed_name(names, pid) == "Unknown"@,
{
}

/// A report has one entry for each process and none for any other, with the
/// process's name for the name and for the command line.
pub proof fn law_report_is_exact(
    found: Seq<PortProcessView>,
    pids: Set<u32>,
    name_of: spec_fn(u32) -> Seq<char>,
    pid: u32,
)
    requires
        reports(found, pids, name_of),
    ensures
        pids.contains(pid) <==> exists|i: int|
            0 <= i < found.len() && (#[trigger] found[i]).pid == pid,
        forall|i: int, j: int|
            0 <= i < found.len() && 0 <= j < found.len() && i != j ==> (#[trigger] found[i]).pid != (
            #[trigger] found[j]).pid,
        forall|i: int|
            0 <= i < found.len() ==> {
                &&& (#[trigger] found[i]).name == name_of(found[i].pid)
                &&& found[i].cmd == name_of(found[i].pid)
            },
{
}

/// A request is refused for the caller and for the numbers zero and four, with the
/// words for each, and accepted for every other number.
pub proof fn law_decision_is_exact(pid: u32, self_pid: u32)
    ensures
        pid == self_pid ==> decision(pid, self_pid) == Err::<TerminateRequest, _>(
            KillErrorView::Other("refusing to kill the calling process"@),
        ),
        pid != self_pid && (pid == 0 || pid == 4) ==> decision(pid, self_pid) == Err::<
            TerminateRequest,
            _,
        >(KillErrorView::Other("refusing to kill a system process"@)),
        pid != self_pid && pid != 0 && pid != 4 ==> (decision(pid, self_pid) matches Ok(request)
            && request.pid == pid),
{
}

/// A call that failed is a denial exactly when the system's code is that of a
/// denied right; otherwise its words name what was tried, the process and the code.
pub proof fn law_failed_call_is_reported_exactly(attempt: Seq<char>, pid: u32, error: u32)
    ensures
        refused_call(attempt, pid, error) == KillErrorView::Permission <==> error == 5,
        error != 5 ==> refused_call(attempt, pid, error) == KillErrorView::Other(
            attempt + decimal(pid) + seq![':', ' '] + prefixed_hex(error),
        ),
{
    reveal_strlit(": ");
    assert(": "@ =~= seq![':', ' ']);
}

/// The buffer grows exactly when the system asks for a larger one. It then holds
/// the bytes announced and at least one word more, and less than two words more.
pub proof fn law_buffer_grows_to_the_announced_size(result: u32, size: u32)
    ensures
        growth(result, size) is Some <==> result == 122,
        growth(result, size) matches Some(words) ==> size + 4 <= 4 * words < size + 8,
{
}

/// Not being able to open a process is a success exactly when the list of running
/// processes has no entry for it; for one that runs it is a denial exactly when
/// the system's code is that of a denied right, and otherwise an error that names
/// the process and the code.
pub proof fn law_gone_process_needs_no_ending(
    entries: Seq<SnapshotEntry>,
    pid: u32,
    error: u32,
)
    ensures
        open_outcome(entries, pid, error) is Ok <==> forall|i: int|
            0 <= i < entries.len() ==> (#[trigger] entries[i]).pid != pid,
        open_outcome(entries, pid, error) matches Err(failure) ==> {
            &&& failure == KillErrorView::Permission <==> error == 5
            &&& error != 5 ==> failure == KillErrorView::Other(
                "Failed to open process "@ + decimal(pid) + seq![':', ' '] + prefixed_hex(error),
            )
        },
{
    law_failed_call_is_reported_exactly("Failed to open process "@, pid, error);
}

/// Ending a process succeeds exactly when the call that does it returns something
/// other than zero; a failure is a denial exactly when the system's code is that
/// of a denied right, and otherwise an error that names the process and the code.
pub proof fn law_zero_is_failure(pid: u32, result: i32, error: u32)
    ensures
        terminate_outcome(pid, result, error) is Ok <==> result != 0,
        terminate_outcome(pid, result, error) matches Err(failure) ==> {
            &&& failure == KillErrorView::Permission <==> error == 5
            &&& error != 5 ==> failure == KillErrorView::Other(
                "Failed to terminate process "@ + decimal(pid) + seq![':', ' '] + prefixed_hex(
                    error,
                ),
            )
        },
{
    law_failed_call_is_reported_exactly("Failed to terminate process "@, pid, error);
}

} // verus!
