//! The types that every part of the library shares.
use vstd::prelude::*;

verus! {

/// Why a process could not be ended.
#[derive(Debug)]
pub enum KillError {
    /// The system denied the caller the right to end the process.
    Permission,
    /// Any other reason, in words.
    Other(String),
}

/// What a `KillError` says.
pub enum KillErrorView {
    Permission,
    Other(Seq<char>),
}

impl View for KillError {
    type V = KillErrorView;

    open spec fn view(&self) -> KillErrorView {
        match self {
            KillError::Permission => KillErrorView::Permission,
            KillError::Other(message) => KillErrorView::Other(message@),
        }
    }
}

/// A result with its error taken by its view.
pub open spec fn result_view<T>(result: Result<T, KillError>) -> Result<T, KillErrorView> {
    match result {
        Ok(value) => Ok(value),
        Err(error) => Err(error@),
    }
}

/// A process that uses a port.
#[derive(Debug)]
pub struct PortProcess {
    pub pid: u32,
    pub name: String,
    pub cmd: String,
}

/// What a `PortProcess` says.
pub struct PortProcessView {
    pub pid: u32,
    pub name: Seq<char>,
    pub cmd: Seq<char>,
}

impl View for PortProcess {
    type V = PortProcessView;

    open spec fn view(&self) -> PortProcessView {
        PortProcessView { pid: self.pid, name: self.name@, cmd: self.cmd@ }
    }
}

/// What a list of processes says.
pub open spec fn process_views(processes: Seq<PortProcess>) -> Seq<PortProcessView> {
    processes.map_values(|process: PortProcess| process@)
}

/// The rows of a table or list; one that cannot be read has none.
pub open spec fn rows<T>(table: Option<Vec<T>>) -> Seq<T> {
    match table {
        Some(entries) => entries@,
        None => Seq::empty(),
    }
}

/// What an error says is what it is: a denial is a denial, and any other reason
/// keeps its words.
pub proof fn law_error_view_keeps_the_reason(error: KillError)
    ensures
        error is Permission <==> error@ == KillErrorView::Permission,
        error matches KillError::Other(message) ==> error@ == KillErrorView::Other(message@),
{
}

/// A result taken by its view is a success for a success, with the same value,
/// and the error's view for an error.
pub proof fn law_result_view_keeps_the_result<T>(result: Result<T, KillError>)
    ensures
        result matches Ok(value) ==> result_view(result) == Ok::<T, KillErrorView>(value),
        result matches Err(error) ==> result_view(result) == Err::<T, KillErrorView>(error@),
{
}

/// What a list of processes says is what each of them says, one for one.
pub proof fn law_process_views_keep_every_field(processes: Seq<PortProcess>)
    ensures
        process_views(processes).len() == processes.len(),
        forall|i: int|
            0 <= i < processes.len() ==> {
                &&& (#[trigger] process_views(processes)[i]).pid == processes[i].pid
                &&& process_views(processes)[i].name == processes[i].name@
                &&& process_views(processes)[i].cmd == processes[i].cmd@
            },
{
}

/// The rows of a table that can be read are all of its entries, in order.
pub proof fn law_rows_are_all_entries<T>(entries: Vec<T>)
    ensures
        rows(Some(entries)) == entries@,
        rows(None::<Vec<T>>).len() == 0,
{
}

} // verus!
