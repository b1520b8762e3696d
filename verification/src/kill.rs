//! Freeing a port: which processes to end, in which order, and what to report.
//!
//! `kill_on_port` starts a run. The caller carries out the action that the run
//! asks for, hands the outcome back, and asks again, until the run is finished.
use vstd::prelude::*;
use crate::model::{process_views, result_view, KillError, KillErrorView, PortProcess, PortProcessView};
use crate::platform::{unix, windows};

verus! {

/// The families of operating systems that differ in which processes are spared.
#[derive(Clone, Copy, PartialEq, Eq, Structural, Debug)]
pub enum OsFamily {
    Unix,
    Windows,
}

/// What a run asks its caller to do.
#[derive(Debug)]
pub enum KillAction {
    /// End the process.
    Kill { pid: u32, force: bool },
    /// Wait for the port to become free.
    WaitForPortFree { port: u16 },
    /// Report the result; there is nothing left to do. `Ok` says whether the port
    /// was seen to become free.
    Finish(Result<bool, KillError>),
}

/// What a `KillAction` says.
pub enum KillActionView {
    Kill { pid: u32, force: bool },
    WaitForPortFree { port: u16 },
    Finish(Result<bool, KillErrorView>),
}

impl View for KillAction {
    type V = KillActionView;

    open spec fn view(&self) -> KillActionView {
        match self {
            KillAction::Kill { pid, force } => KillActionView::Kill { pid: *pid, force: *force },
            KillAction::WaitForPortFree { port } => KillActionView::WaitForPortFree { port: *port },
            KillAction::Finish(result) => KillActionView::Finish(result_view(*result)),
        }
    }
}

/// Whether `pid` is ended: not the calling process, and on Unix neither the init
/// process nor a placeholder of the kernel. The tables of Windows do not name its
/// system processes in the first place.
pub open spec fn is_target(pid: u32, self_pid: u32, os: OsFamily) -> bool {
    pid != self_pid && (os == OsFamily::Unix ==> pid > 1)
}

/// The processes to end, in the order in which they were found.
pub open spec fn targets(processes: Seq<PortProcessView>, self_pid: u32, os: OsFamily) -> Seq<u32>
    decreases processes.len(),
{
    if processes.len() == 0 {
        Seq::empty()
    } else {
        let before = targets(processes.drop_last(), self_pid, os);
        let pid = processes.last().pid;
        if is_target(pid, self_pid, os) {
            before.push(pid)
        } else {
            before
        }
    }
}

/// How far a run has come.
#[verifier::ext_equal]
pub struct KillRunView {
    pub port: u16,
    pub force: bool,
    /// Whether any process was found on the port.
    pub found: bool,
    /// The processes still to end.
    pub pending: Seq<u32>,
    /// Whether a process was ended.
    pub killed_any: bool,
    /// Whether the right to end a process was denied.
    pub denied: bool,
    /// Whether the port became free, once that is known.
    pub port_free: Option<bool>,
}

impl KillRunView {
    /// A run at its start.
    pub open spec fn start(
        port: u16,
        force: bool,
        processes: Seq<PortProcessView>,
        self_pid: u32,
        os: OsFamily,
    ) -> KillRunView {
        KillRunView {
            port,
            force,
            found: processes.len() > 0,
            pending: targets(processes, self_pid, os),
            killed_any: false,
            denied: false,
            port_free: None,
        }
    }

    /// What the run asks for. Without a process on the port nothing can be done.
    /// Once every process has been tried, only denials are a failure; otherwise
    /// the port itself tells whether the run succeeded.
    pub open spec fn action(self) -> KillActionView {
        if !self.found {
            KillActionView::Finish(Ok(false))
        } else if self.pending.len() > 0 {
            KillActionView::Kill { pid: self.pending[0], force: self.force }
        } else if self.denied && !self.killed_any {
            KillActionView::Finish(Err(KillErrorView::Permission))
        } else {
            match self.port_free {
                None => KillActionView::WaitForPortFree { port: self.port },
                Some(free) => KillActionView::Finish(Ok(free)),
            }
        }
    }

    /// The run after the process that it asked to end came to `outcome`.
    pub open spec fn after_kill(self, outcome: Result<(), KillErrorView>) -> KillRunView {
        KillRunView {
            pending: self.pending.drop_first(),
            killed_any: self.killed_any || outcome is Ok,
            denied: self.denied || outcome == Err::<(), _>(KillErrorView::Permission),
            ..self
        }
    }

    /// The run after the wait that it asked for.
    pub open spec fn after_wait(self, free: bool) -> KillRunView {
        KillRunView { port_free: Some(free), ..self }
    }

    /// The run after as many processes as there are `outcomes`.
    pub open spec fn after_kills(self, outcomes: Seq<Result<(), KillErrorView>>) -> KillRunView
        decreases outcomes.len(),
    {
        if outcomes.len() == 0 {
            self
        } else {
            self.after_kills(outcomes.drop_last()).after_kill(outcomes.last())
        }
    }
}

/// A run that frees a port.
pub struct KillRun {
    port: u16,
    force: bool,
    found: bool,
    targets: Vec<u32>,
    tried: usize,
    killed_any: bool,
    denied: bool,
    port_free: Option<bool>,
}

impl View for KillRun {
    type V = KillRunView;

    closed spec fn view(&self) -> KillRunView {
        KillRunView {
            port: self.port,
            force: self.force,
            found: self.found,
            pending: self.targets@.skip(self.tried as int),
            killed_any: self.killed_any,
            denied: self.denied,
            port_free: self.port_free,
        }
    }
}

/// Starts a run that ends the processes found on `port`, by force if `force`
/// says so, and then looks whether the port became free. The process that calls,
/// `self_pid`, is spared.
pub fn kill_on_port(
    port: u16,
    force: bool,
    processes: &Vec<PortProcess>,
    self_pid: u32,
    os: OsFamily,
) -> (run: KillRun)
    ensures
        run@ == KillRunView::start(port, force, process_views(processes@), self_pid, os),
{
    let mut pids: Vec<u32> = Vec::new();
    let ghost views = process_views(processes@);
    for i in 0..processes.len()
        invariant
            views == process_views(processes@),
            pids@ == targets(views.take(i as int), self_pid, os),
    {
        assert(views.take(i + 1).drop_last() =~= views.take(i as int));
        let pid: u32 = processes[i].pid;
        let spared = match os {
            OsFamily::Unix => pid <= 1,
            OsFamily::Windows => false,
        };
        if pid != self_pid && !spared {
            pids.push(pid);
        }
    }
    assert(views.take(processes.len() as int) =~= views);
    assert(pids@.skip(0) =~= pids@);
    KillRun {
        port,
        force,
        found: processes.len() > 0,
        targets: pids,
        tried: 0,
        killed_any: false,
        denied: false,
        port_free: None,
    }
}

impl KillRun {
    #[verifier::type_invariant]
    spec fn well_formed(self) -> bool {
        self.tried <= self.targets@.len()
    }

    /// What the caller has to do next.
    pub fn action(&self) -> (action: KillAction)
        ensures
            action@ == self@.action(),
    {
        proof {
            use_type_invariant(self);
        }
        if !self.found {
            return KillAction::Finish(Ok(false));
        }
        if self.tried < self.targets.len() {
            return KillAction::Kill { pid: self.targets[self.tried], force: self.force };
        }
        if self.denied && !self.killed_any {
            return KillAction::Finish(Err(KillError::Permission));
        }
        match self.port_free {
            None => KillAction::WaitForPortFree { port: self.port },
            Some(free) => KillAction::Finish(Ok(free)),
        }
    }

    /// Takes note of what came of the process that the run asked to end. Whatever
    /// it is, the other processes are tried too.
    pub fn record_kill(&mut self, outcome: Result<(), KillError>)
        requires
            old(self)@.action() is Kill,
        ensures
            final(self)@ == old(self)@.after_kill(result_view(outcome)),
    {
        proof {
            use_type_invariant(&*self);
            assert(self@.pending.len() > 0);
            assert(self.tried < self.targets.len());
        }
        match outcome {
            Ok(()) => {
                self.killed_any = true;
            },
            Err(KillError::Permission) => {
                self.denied = true;
            },
            Err(KillError::Other(_)) => {},
        }
        self.tried = self.tried + 1;
        assert(self.targets@.skip(self.tried as int) =~= self.targets@.skip(
            self.tried - 1,
        ).drop_first());
    }

    /// Takes note of whether the port became free in the wait that the run asked for.
    pub fn record_wait(&mut self, free: bool)
        requires
            old(self)@.action() is WaitForPortFree,
        ensures
            final(self)@ == old(self)@.after_wait(free),
    {
        proof {
            use_type_invariant(&*self);
        }
        self.port_free = Some(free);
    }
}

/// Exactly the processes that were found are ended, except for the calling process
/// and, on Unix, the numbers zero and one.
pub proof fn law_targets_are_exact(
    processes: Seq<PortProcessView>,
    self_pid: u32,
    os: OsFamily,
    pid: u32,
)
    ensures
        targets(processes, self_pid, os).contains(pid) <==> {
            &&& pid != self_pid
            &&& os == OsFamily::Unix ==> pid > 1
            &&& exists|i: int| 0 <= i < processes.len() && #[trigger] processes[i].pid == pid
        },
    decreases processes.len(),
{
    if processes.len() > 0 {
        let rest = processes.drop_last();
        let last = processes.len() - 1;
        law_targets_are_exact(rest, self_pid, os, pid);
        let before = targets(rest, self_pid, os);
        let after = targets(processes, self_pid, os);
        if before.contains(pid) {
            let i = choose|i: int| 0 <= i < before.len() && before[i] == pid;
            assert(after[i] == pid);
            let j = choose|j: int| 0 <= j < rest.len() && #[trigger] rest[j].pid == pid;
            assert(processes[j].pid == pid);
        }
        if is_target(pid, self_pid, os) && processes[last].pid == pid {
            assert(after[before.len() as int] == pid);
        }
        if exists|i: int| 0 <= i < processes.len() && #[trigger] processes[i].pid == pid {
            let i = choose|i: int| 0 <= i < processes.len() && #[trigger] processes[i].pid == pid;
            if i < last {
                assert(rest[i].pid == pid);
            }
        }
        if after.contains(pid) && !before.contains(pid) {
            assert(processes[last].pid == pid);
        }
    }
}

/// The calling process is never ended, nor on Unix the init process or a
/// placeholder of the kernel.
pub proof fn law_caller_is_spared(processes: Seq<PortProcessView>, self_pid: u32, os: OsFamily)
    ensures
        forall|i: int|
            0 <= i < targets(processes, self_pid, os).len() ==> {
                &&& (#[trigger] targets(processes, self_pid, os)[i]) != self_pid
                &&& os == OsFamily::Unix ==> targets(processes, self_pid, os)[i] > 1
            },
{
    let all = targets(processes, self_pid, os);
    assert forall|i: int| 0 <= i < all.len() implies {
        &&& (#[trigger] all[i]) != self_pid
        &&& os == OsFamily::Unix ==> all[i] > 1
    } by {
        assert(all.contains(all[i]));
        law_targets_are_exact(processes, self_pid, os, all[i]);
    }
}

/// On Unix, every process that a run asks to end is one that may be ended.
pub proof fn law_unix_targets_are_accepted(
    processes: Seq<PortProcessView>,
    self_pid: u32,
    force: bool,
    pid: u32,
)
    requires
        targets(processes, self_pid, OsFamily::Unix).contains(pid),
    ensures
        unix::decision(pid, force, self_pid) is Ok,
{
    law_targets_are_exact(processes, self_pid, OsFamily::Unix, pid);
}

/// On Windows, every process that a run asks to end is one that may be ended,
/// when the run was started with the processes found there.
pub proof fn law_windows_targets_are_accepted(
    processes: Seq<PortProcessView>,
    name_of: spec_fn(u32) -> Seq<char>,
    tables: windows::SocketTables,
    port: u16,
    listen_only: bool,
    self_pid: u32,
    pid: u32,
)
    requires
        windows::reports(processes, tables.pids(port, listen_only), name_of),
        targets(processes, self_pid, OsFamily::Windows).contains(pid),
    ensures
        windows::decision(pid, self_pid) is Ok,
{
    law_targets_are_exact(processes, self_pid, OsFamily::Windows, pid);
    windows::law_system_is_never_found(tables, port, listen_only);
    assert(tables.pids(port, listen_only).contains(pid));
}

/// A run after some outcomes, in closed form.
proof fn lemma_after_kills(run: KillRunView, outcomes: Seq<Result<(), KillErrorView>>)
    requires
        outcomes.len() <= run.pending.len(),
    ensures
        run.after_kills(outcomes) == (KillRunView {
            pending: run.pending.skip(outcomes.len() as int),
            killed_any: run.killed_any || exists|i: int|
                0 <= i < outcomes.len() && (#[trigger] outcomes[i]) is Ok,
            denied: run.denied || exists|i: int|
                0 <= i < outcomes.len() && #[trigger] outcomes[i] == Err::<(), _>(
                    KillErrorView::Permission,
                ),
            ..run
        }),
    decreases outcomes.len(),
{
    if outcomes.len() == 0 {
        assert(run.pending.skip(0) =~= run.pending);
    } else {
        let rest = outcomes.drop_last();
        let last = outcomes.len() - 1;
        lemma_after_kills(run, rest);
        assert(run.pending.skip(last).drop_first() =~= run.pending.skip(last + 1));
        assert(forall|i: int| 0 <= i < last ==> #[trigger] outcomes[i] == rest[i]);
        assert(forall|i: int| 0 <= i < last ==> #[trigger] rest[i] == outcomes[i]);
        assert(outcomes[last] == outcomes.last());
    }
}

/// A run asks for each target once and in order, whatever came of the others.
pub proof fn law_every_target_is_tried(
    port: u16,
    force: bool,
    processes: Seq<PortProcessView>,
    self_pid: u32,
    os: OsFamily,
    outcomes: Seq<Result<(), KillErrorView>>,
)
    requires
        outcomes.len() < targets(processes, self_pid, os).len(),
    ensures
        KillRunView::start(port, force, processes, self_pid, os).after_kills(outcomes).action()
            == (KillActionView::Kill {
            pid: targets(processes, self_pid, os)[outcomes.len() as int],
            force,
        }),
{
    lemma_after_kills(KillRunView::start(port, force, processes, self_pid, os), outcomes);
}

/// Whether some process was denied and none was ended.
pub open spec fn only_denied(outcomes: Seq<Result<(), KillErrorView>>) -> bool {
    &&& exists|i: int|
        0 <= i < outcomes.len() && #[trigger] outcomes[i] == Err::<(), _>(
            KillErrorView::Permission,
        )
    &&& forall|i: int| 0 <= i < outcomes.len() ==> (#[trigger] outcomes[i]) is Err
}

/// Once every target has been tried: without a process on the port, the run
/// reports that it freed nothing; where a process was denied and none was ended,
/// it reports the denial; in every other case it waits for the port, and reports
/// what the wait showed.
pub proof fn law_run_reports(
    port: u16,
    force: bool,
    processes: Seq<PortProcessView>,
    self_pid: u32,
    os: OsFamily,
    outcomes: Seq<Result<(), KillErrorView>>,
    free: bool,
)
    requires
        outcomes.len() == targets(processes, self_pid, os).len(),
    ensures
        ({
            let tried = KillRunView::start(port, force, processes, self_pid, os).after_kills(
                outcomes,
            );
            if processes.len() == 0 {
                tried.action() == KillActionView::Finish(Ok(false))
            } else if only_denied(outcomes) {
                tried.action() == KillActionView::Finish(Err(KillErrorView::Permission))
            } else {
                &&& tried.action() == (KillActionView::WaitForPortFree { port })
                &&& tried.after_wait(free).action() == KillActionView::Finish(Ok(free))
            }
        }),
{
    let start = KillRunView::start(port, force, processes, self_pid, os);
    lemma_after_kills(start, outcomes);
    assert(start.after_kills(outcomes).pending.len() == 0);
}

/// A run reports that it freed the port only where the port was seen to be free.
pub proof fn law_success_is_verified(run: KillRunView)
    requires
        run.action() == KillActionView::Finish(Ok(true)),
    ensures
        run.port_free == Some(true),
{
}

/// The processes to end follow the list of those found: what one part of the list
/// gives does not depend on the rest of it.
pub proof fn law_targets_follow_the_list(
    first: Seq<PortProcessView>,
    second: Seq<PortProcessView>,
    self_pid: u32,
    os: OsFamily,
)
    ensures
        targets(first + second, self_pid, os) == targets(first, self_pid, os) + targets(
            second,
            self_pid,
            os,
        ),
    decreases second.len(),
{
    let all = first + second;
    if second.len() == 0 {
        assert(all =~= first);
        assert(targets(all, self_pid, os) =~= targets(first, self_pid, os) + targets(
            second,
            self_pid,
            os,
        ));
    } else {
        law_targets_follow_the_list(first, second.drop_last(), self_pid, os);
        assert(all.drop_last() =~= first + second.drop_last());
        assert(all.last() == second.last());
        assert(targets(all, self_pid, os) =~= targets(first, self_pid, os) + targets(
            second,
            self_pid,
            os,
        ));
    }
}

/// A process found alone is ended exactly when its number differs from the
/// caller's and, on Unix, is neither zero nor one. Nothing else is asked of it.
pub proof fn law_single_process_is_a_target(process: PortProcessView, self_pid: u32, os: OsFamily)
    ensures
        targets(Seq::empty(), self_pid, os) == Seq::<u32>::empty(),
        process.pid == self_pid || (os == OsFamily::Unix && (process.pid == 0 || process.pid == 1))
            ==> targets(seq![process], self_pid, os) == Seq::<u32>::empty(),
        process.pid != self_pid && (os == OsFamily::Windows || process.pid >= 2) ==> targets(
            seq![process],
            self_pid,
            os,
        ) == seq![process.pid],
{
    reveal_with_fuel(targets, 2);
    assert(seq![process].drop_last() =~= Seq::empty());
}

/// A run starts with every process still to be tried and nothing known.
pub proof fn law_run_starts_with_all_targets(
    port: u16,
    force: bool,
    processes: Seq<PortProcessView>,
    self_pid: u32,
    os: OsFamily,
)
    ensures
        ({
            let run = KillRunView::start(port, force, processes, self_pid, os);
            &&& run.port == port
            &&& run.force == force
            &&& run.found <==> processes.len() != 0
            &&& run.pending == targets(processes, self_pid, os)
            &&& !run.killed_any
            &&& !run.denied
            &&& run.port_free is None
        }),
{
}

/// Without a process on the port, a run is over and has freed nothing. Otherwise,
/// while a process is left to try, it asks to end the first of them, with the
/// force that it was started with. When none is left, it reports that only denials
/// came back, or else waits for its own port once and reports what the wait showed.
pub proof fn law_run_asks_for_what_is_left(run: KillRunView)
    ensures
        !run.found ==> run.action() == KillActionView::Finish(Ok(false)),
        run.found && run.pending.len() > 0 ==> run.action() == (KillActionView::Kill {
            pid: run.pending[0],
            force: run.force,
        }),
        run.found && run.pending.len() == 0 && run.denied && !run.killed_any ==> run.action()
            == KillActionView::Finish(Err(KillErrorView::Permission)),
        run.found && run.pending.len() == 0 && (run.killed_any || !run.denied) ==> match run.port_free {
            Some(free) => run.action() == KillActionView::Finish(Ok(free)),
            None => run.action() == (KillActionView::WaitForPortFree { port: run.port }),
        },
{
}

/// An outcome takes one process off the list, and is remembered: a success as a
/// process ended, a denial as a denial, any other error as neither.
pub proof fn law_outcome_is_remembered(run: KillRunView, outcome: Result<(), KillErrorView>)
    ensures
        run.pending.len() > 0 ==> run.after_kill(outcome).pending == run.pending.subrange(
            1,
            run.pending.len() as int,
        ),
        run.after_kill(outcome).killed_any <==> run.killed_any || outcome is Ok,
        run.after_kill(outcome).denied <==> run.denied || (outcome matches Err(error)
            && error is Permission),
        run.after_kill(outcome).port == run.port,
        run.after_kill(outcome).force == run.force,
        run.after_kill(outcome).found == run.found,
        run.after_kill(outcome).port_free == run.port_free,
{
}

/// A wait settles whether the port is free, and changes nothing else.
pub proof fn law_wait_is_remembered(run: KillRunView, free: bool)
    ensures
        run.after_wait(free).port_free == Some(free),
        run.after_wait(free).pending == run.pending,
        run.after_wait(free).killed_any == run.killed_any,
        run.after_wait(free).denied == run.denied,
        run.after_wait(free).port == run.port,
        run.after_wait(free).force == run.force,
        run.after_wait(free).found == run.found,
{
}

/// Outcomes are taken one after the other.
pub proof fn law_outcomes_are_taken_in_turn(
    run: KillRunView,
    outcomes: Seq<Result<(), KillErrorView>>,
    outcome: Result<(), KillErrorView>,
)
    ensures
        run.after_kills(Seq::empty()) == run,
        run.after_kills(outcomes.push(outcome)) == run.after_kills(outcomes).after_kill(outcome),
{
    assert(outcomes.push(outcome).drop_last() =~= outcomes);
}

/// Once every process has been tried, a denial is reported exactly when there was
/// one and no process was ended; otherwise the port is waited for.
pub proof fn law_denial_needs_that_none_was_ended(
    port: u16,
    force: bool,
    processes: Seq<PortProcessView>,
    self_pid: u32,
    os: OsFamily,
    outcomes: Seq<Result<(), KillErrorView>>,
)
    requires
        processes.len() > 0,
        outcomes.len() == targets(processes, self_pid, os).len(),
    ensures
        ({
            let action = KillRunView::start(port, force, processes, self_pid, os).after_kills(
                outcomes,
            ).action();
            let denied = exists|i: int|
                0 <= i < outcomes.len() && #[trigger] outcomes[i] == Err::<(), _>(
                    KillErrorView::Permission,
                );
            let ended = exists|i: int| 0 <= i < outcomes.len() && (#[trigger] outcomes[i]) is Ok;
            if denied && !ended {
                action == KillActionView::Finish(Err(KillErrorView::Permission))
            } else {
                action == (KillActionView::WaitForPortFree { port })
            }
        }),
{
    lemma_after_kills(KillRunView::start(port, force, processes, self_pid, os), outcomes);
}

/// What an action says is what the caller is asked to do, field by field.
pub proof fn law_action_view_keeps_the_action(action: KillAction)
    ensures
        action matches KillAction::Kill { pid, force } ==> action@ == (KillActionView::Kill {
            pid,
            force,
        }),
        action matches KillAction::WaitForPortFree { port } ==> action@
            == (KillActionView::WaitForPortFree { port }),
        action matches KillAction::Finish(Ok(free)) ==> action@ == KillActionView::Finish(Ok(free)),
        action matches KillAction::Finish(Err(error)) ==> action@ == KillActionView::Finish(
            Err(error@),
        ),
{
}

} // verus!
