use portkill::kill::{kill_on_port, KillAction, OsFamily};
use portkill::model::{KillError, PortProcess};

const SELF_PID: u32 = 4321;

fn process(pid: u32) -> PortProcess {
    PortProcess {
        pid,
        name: String::from("server"),
        cmd: String::from("server --port 80"),
    }
}

/// Runs to the end: answers each kill from `outcomes` and the wait with `free`.
/// Returns the processes asked for, how often the port was waited for, and the
/// result.
fn run(
    pids: &[u32],
    os: OsFamily,
    outcomes: Vec<Result<(), KillError>>,
    free: bool,
) -> (Vec<u32>, usize, Result<bool, KillError>) {
    let processes: Vec<PortProcess> = pids.iter().map(|pid| process(*pid)).collect();
    let mut run = kill_on_port(8080, true, &processes, SELF_PID, os);
    let mut outcomes = outcomes.into_iter();
    let mut asked: Vec<u32> = Vec::new();
    let mut waits: usize = 0;
    loop {
        match run.action() {
            KillAction::Kill { pid, force } => {
                assert!(force);
                asked.push(pid);
                run.record_kill(outcomes.next().unwrap());
            }
            KillAction::WaitForPortFree { port } => {
                assert_eq!(port, 8080);
                waits += 1;
                run.record_wait(free);
            }
            KillAction::Finish(result) => {
                assert!(outcomes.next().is_none());
                return (asked, waits, result);
            }
        }
    }
}

fn other() -> Result<(), KillError> {
    Err(KillError::Other(String::from("EINVAL: Invalid argument")))
}

#[test]
fn kill_on_port_free_port_returns_false() {
    // No process owns a fresh port, so there is nothing to end and nothing is
    // waited for.
    let run = kill_on_port(8080, false, &Vec::new(), SELF_PID, OsFamily::Unix);
    match run.action() {
        KillAction::Finish(result) => assert!(!result.unwrap()),
        action => panic!("expected the end of the run, got {action:?}"),
    }
}

#[test]
fn every_target_is_tried_in_order() {
    let (asked, waits, result) = run(
        &[30, 10, 20],
        OsFamily::Unix,
        vec![other(), Ok(()), Err(KillError::Permission)],
        true,
    );
    assert_eq!(asked, vec![30, 10, 20]);
    assert_eq!(waits, 1);
    assert_eq!(result.unwrap(), true);
}

#[test]
fn caller_and_init_are_spared_on_unix() {
    let (asked, waits, result) = run(&[0, 1, SELF_PID, 2], OsFamily::Unix, vec![Ok(())], false);
    assert_eq!(asked, vec![2]);
    assert_eq!(waits, 1);
    assert_eq!(result.unwrap(), false);
}

#[test]
fn only_the_caller_is_spared_on_windows() {
    let (asked, _, _) = run(&[1, SELF_PID, 2], OsFamily::Windows, vec![Ok(()), Ok(())], true);
    assert_eq!(asked, vec![1, 2]);
}

#[test]
fn port_of_the_caller_alone_is_waited_for() {
    let (asked, waits, result) = run(&[SELF_PID], OsFamily::Unix, vec![], false);
    assert!(asked.is_empty());
    assert_eq!(waits, 1);
    assert_eq!(result.unwrap(), false);
}

#[test]
fn denial_without_a_kill_is_reported() {
    let (asked, waits, result) = run(
        &[10, 20],
        OsFamily::Unix,
        vec![other(), Err(KillError::Permission)],
        true,
    );
    assert_eq!(asked, vec![10, 20]);
    assert_eq!(waits, 0);
    assert!(matches!(result, Err(KillError::Permission)));
}

#[test]
fn denial_beside_a_kill_is_not_reported() {
    let (_, waits, result) = run(
        &[10, 20],
        OsFamily::Unix,
        vec![Err(KillError::Permission), Ok(())],
        false,
    );
    assert_eq!(waits, 1);
    assert_eq!(result.unwrap(), false);
}

#[test]
fn other_failures_alone_leave_it_to_the_port() {
    let (_, waits, result) = run(&[10], OsFamily::Unix, vec![other()], true);
    assert_eq!(waits, 1);
    assert_eq!(result.unwrap(), true);
}
