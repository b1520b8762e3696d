//! What Linux and macOS share: ending a process by a signal.
use vstd::prelude::*;
use crate::model::{result_view, KillError, KillErrorView};

verus! {

/// The error number of a call that the system does not permit.
pub const EPERM: i32 = 1;

/// The error number of a call on a process that does not exist.
pub const ESRCH: i32 = 3;

/// The signals that end a process.
#[derive(Clone, Copy, PartialEq, Eq, Structural, Debug)]
pub enum Signal {
    /// Asks the process to end.
    Term,
    /// Ends the process at once.
    Kill,
}

/// An accepted request to end a process: send `signal` to `pid`.
#[derive(Clone, Copy, PartialEq, Eq, Structural, Debug)]
pub struct SignalRequest {
    pub pid: i32,
    pub signal: Signal,
}

/// Whether `pid` is the init process or a placeholder of the kernel.
pub open spec fn is_system(pid: u32) -> bool {
    pid <= 1
}

/// The process number as the system's calls take it: of the same 32 bits, the
/// first counts as the sign.
pub open spec fn signed_pid(pid: u32) -> int {
    if pid <= i32::MAX {
        pid as int
    } else {
        pid - 0x1_0000_0000
    }
}

/// What is decided on a request of the process `self_pid` to end `pid`. It may
/// not end itself, nor a process of the system.
pub open spec fn decision(pid: u32, force: bool, self_pid: u32) -> Result<
    SignalRequest,
    KillErrorView,
> {
    if pid == self_pid {
        Err(KillErrorView::Other("refusing to kill the calling process"@))
    } else if is_system(pid) {
        Err(KillErrorView::Other("refusing to kill init/system process"@))
    } else {
        Ok(
            SignalRequest {
                pid: signed_pid(pid) as i32,
                signal: if force {
                    Signal::Kill
                } else {
                    Signal::Term
                },
            },
        )
    }
}

/// Decides whether the process that calls, `self_pid`, may end `pid`, and by
/// which signal.
pub fn kill_pid(pid: u32, force: bool, self_pid: u32) -> (request: Result<SignalRequest, KillError>)
    ensures
        result_view(request) == decision(pid, force, self_pid),
{
    if pid == self_pid {
        return Err(KillError::Other("refusing to kill the calling process".to_owned()));
    }
    if pid <= 1 {
        return Err(KillError::Other("refusing to kill init/system process".to_owned()));
    }
    let signal = if force {
        Signal::Kill
    } else {
        Signal::Term
    };
    assert(pid <= 0x7fff_ffff ==> pid as i32 == pid) by (bit_vector);
    assert(pid > 0x7fff_ffff ==> pid as i32 == pid - 0x1_0000_0000) by (bit_vector);
    Ok(SignalRequest { pid: #[verifier::truncate] (pid as i32), signal })
}

/// The text that describes an error number.
pub uninterp spec fn errno_message(code: i32) -> Seq<char>;

/// Calls `Errno::from_raw` of the crate `nix` and writes its result out with
/// `to_string`. On one target, the text depends on the number alone: it is the
/// constant's name, a colon and a fixed description.
#[verifier::external_body]
fn describe_errno(code: i32) -> (text: String)
    ensures
        text@ == errno_message(code),
{
    nix::errno::Errno::from_raw(code).to_string()
}

/// What became of a process when the system answered the signal with `reply`: an
/// error number, or none. A process that no longer exists needs no ending.
pub open spec fn signal_outcome_view(reply: Result<(), i32>) -> Result<(), KillErrorView> {
    match reply {
        Ok(()) => Ok(()),
        Err(code) => if code == ESRCH {
            Ok(())
        } else if code == EPERM {
            Err(KillErrorView::Permission)
        } else {
            Err(KillErrorView::Other(errno_message(code)))
        },
    }
}

/// What became of a process when the system answered the signal with `reply`.
pub fn signal_outcome(reply: Result<(), i32>) -> (outcome: Result<(), KillError>)
    ensures
        result_view(outcome) == signal_outcome_view(reply),
{
    match reply {
        Ok(()) => Ok(()),
        Err(code) => if code == ESRCH {
            Ok(())
        } else if code == EPERM {
            Err(KillError::Permission)
        } else {
            Err(KillError::Other(describe_errno(code)))
        },
    }
}

/// A number that the system gave a process is the number under which a signal
/// reaches it, also after it has been kept without a sign.
pub proof fn law_signal_reaches_listed_process(pid: i32)
    ensures
        signed_pid(pid as u32) == pid,
{
    assert(pid >= 0 ==> pid as u32 == pid) by (bit_vector);
    assert(pid < 0 ==> pid as u32 == pid + 0x1_0000_0000) by (bit_vector);
}

/// An accepted request names the process that it was made for, which is neither
/// the caller nor of the system; and every such process is accepted.
pub proof fn law_accepted_request_names_process(pid: u32, force: bool, self_pid: u32)
    requires
        pid <= i32::MAX,
    ensures
        decision(pid, force, self_pid) matches Ok(request) ==> {
            &&& request.pid == pid
            &&& request.pid != self_pid
            &&& request.pid > 1
        },
        decision(pid, force, self_pid) is Ok <==> pid != self_pid && pid > 1,
{
}

/// The signal of an accepted request depends on `force` alone: the one that ends
/// a process at once with it, the one that asks the process to end without.
pub proof fn law_signal_follows_force(pid: u32, force: bool, self_pid: u32)
    ensures
        decision(pid, force, self_pid) matches Ok(request) ==> {
            &&& request.signal == Signal::Kill <==> force
            &&& request.signal == Signal::Term <==> !force
        },
{
}

/// Force decides neither whether a request is accepted, nor which process it names.
pub proof fn law_force_changes_the_signal_only(pid: u32, self_pid: u32)
    ensures
        match (decision(pid, true, self_pid), decision(pid, false, self_pid)) {
            (Ok(forced), Ok(asked)) => forced.pid == asked.pid,
            (Err(forced), Err(asked)) => forced == asked,
            _ => false,
        },
{
}

/// A request is refused for the caller and for the numbers zero and one, with the
/// words for each, and accepted for every other number, whose bits it keeps.
pub proof fn law_decision_is_exact(pid: u32, force: bool, self_pid: u32)
    ensures
        pid == self_pid ==> decision(pid, force, self_pid) == Err::<SignalRequest, _>(
            KillErrorView::Other("refusing to kill the calling process"@),
        ),
        pid != self_pid && (pid == 0 || pid == 1) ==> decision(pid, force, self_pid) == Err::<
            SignalRequest,
            _,
        >(KillErrorView::Other("refusing to kill init/system process"@)),
        pid != self_pid && pid >= 2 ==> (decision(pid, force, self_pid) matches Ok(request)
            && request.pid == (if pid < 0x8000_0000 {
            pid as int
        } else {
            pid - 0x1_0000_0000
        })),
{
}

/// A signal that the system took, and one for a process that does not exist, are
/// successes; the error number for a denied right is a denial; every other error
/// number is an error with the words for that number.
pub proof fn law_reply_is_interpreted_exactly(reply: Result<(), i32>)
    ensures
        reply is Ok ==> signal_outcome_view(reply) is Ok,
        reply matches Err(code) ==> {
            &&& signal_outcome_view(reply) is Ok <==> code == 3
            &&& signal_outcome_view(reply) == Err::<(), _>(KillErrorView::Permission) <==> code == 1
            &&& code != 1 && code != 3 ==> signal_outcome_view(reply) == Err::<(), _>(
                KillErrorView::Other(errno_message(code)),
            )
        },
{
}

} // verus!
