use minecraft_hold_api::batch::{discover_and_freeze, BatchRun, PidResult};
use minecraft_hold_api::lifecycle::{
    classify_os_error, plan_len, plan_step, resume_minecraft, suspend_minecraft, Composite,
    Failure, Primitive, Transition,
};
use minecraft_hold_api::matcher::DirectoryEntry;
use minecraft_hold_api::privilege::{Elevation, PrecursorFailure, PrivilegeGuard};

#[derive(Clone, Copy, Debug, PartialEq)]
struct FakeProcess {
    alive: bool,
    accessible: bool,
    visible: bool,
    suspended: bool,
}

const RUNNING: FakeProcess =
    FakeProcess { alive: true, accessible: true, visible: true, suspended: false };

fn perform(p: Primitive, s: &mut FakeProcess) -> Result<(), Failure> {
    let needs_process = !matches!(p, Primitive::HideWindows | Primitive::ShowWindows);
    if needs_process && !s.alive {
        return Err(Failure::NotFound);
    }
    if needs_process && !s.accessible {
        return Err(Failure::AccessDenied);
    }
    if s.alive {
        match p {
            Primitive::HideWindows => s.visible = false,
            Primitive::ShowWindows => s.visible = true,
            Primitive::Suspend => s.suspended = true,
            Primitive::Resume => s.suspended = false,
            Primitive::TrimWorkingSet => {}
        }
    }
    Ok(())
}

fn run(mut c: Composite, s: &mut FakeProcess) -> (Vec<Primitive>, Result<(), Failure>) {
    let mut seen = Vec::new();
    while let Some(p) = c.next_action() {
        seen.push(p);
        let outcome = perform(p, s);
        c.record(outcome);
    }
    (seen, c.result().unwrap())
}

fn run_batch(mut b: BatchRun, procs: &mut Vec<(u32, FakeProcess)>) -> Vec<PidResult> {
    while let Some((pid, p)) = b.next_action() {
        let s = &mut procs.iter_mut().find(|(q, _)| *q == pid).unwrap().1;
        let outcome = perform(p, s);
        b.record(outcome);
    }
    b.results()
}

fn entry(pid: u32, line: &str) -> DirectoryEntry {
    DirectoryEntry {
        pid: Some(pid),
        name: Some("javaw.exe".to_string()),
        command_line: Some(line.to_string()),
    }
}

#[test]
fn suspend_test() {
    let mut s = RUNNING;
    let (seen, r) = run(suspend_minecraft(42), &mut s);
    assert_eq!(
        seen,
        vec![Primitive::HideWindows, Primitive::TrimWorkingSet, Primitive::Suspend]
    );
    assert_eq!(r, Ok(()));
    assert!(s.suspended && !s.visible);
}

#[test]
fn resume_test() {
    let mut s = FakeProcess { visible: false, suspended: true, ..RUNNING };
    let (seen, r) = run(resume_minecraft(42), &mut s);
    assert_eq!(seen, vec![Primitive::Resume, Primitive::ShowWindows]);
    assert_eq!(r, Ok(()));
    assert_eq!(s, RUNNING);
}

#[test]
fn freeze_then_thaw_restores_state() {
    let mut s = RUNNING;
    assert_eq!(run(suspend_minecraft(1), &mut s).1, Ok(()));
    assert_eq!(run(resume_minecraft(1), &mut s).1, Ok(()));
    assert_eq!(s, RUNNING);
}

#[test]
fn freezing_twice_is_harmless() {
    let mut s = RUNNING;
    assert_eq!(run(suspend_minecraft(1), &mut s).1, Ok(()));
    let once = s;
    assert_eq!(run(suspend_minecraft(1), &mut s).1, Ok(()));
    assert_eq!(s, once);
    assert!(s.suspended && !s.visible);
}

#[test]
fn thawing_a_running_process_is_harmless() {
    let mut s = RUNNING;
    assert_eq!(run(resume_minecraft(1), &mut s).1, Ok(()));
    assert_eq!(s, RUNNING);
}

#[test]
fn failure_stops_the_transition() {
    let mut s = FakeProcess { accessible: false, ..RUNNING };
    let (seen, r) = run(suspend_minecraft(5), &mut s);
    assert_eq!(seen, vec![Primitive::HideWindows, Primitive::TrimWorkingSet]);
    assert_eq!(r, Err(Failure::AccessDenied));
    assert!(!s.suspended);

    let mut c = resume_minecraft(5);
    assert_eq!(c.result(), None);
    c.record(Err(Failure::OsError(1450)));
    assert_eq!(c.next_action(), None);
    assert_eq!(c.result(), Some(Err(Failure::OsError(1450))));
}

#[test]
fn plans_in_order() {
    assert_eq!(plan_len(Transition::Freeze), 3);
    assert_eq!(plan_len(Transition::Thaw), 2);
    assert_eq!(plan_step(Transition::Freeze, 0), Primitive::HideWindows);
    assert_eq!(plan_step(Transition::Freeze, 2), Primitive::Suspend);
    assert_eq!(plan_step(Transition::Thaw, 1), Primitive::ShowWindows);
}

#[test]
fn batch_freeze_with_one_exited_process() {
    let dir = vec![
        entry(10, "java -jar minecraft.jar"),
        entry(20, "java -jar minecraft.jar"),
        entry(30, "java -jar minecraft.jar"),
    ];
    let mut procs = vec![
        (10, RUNNING),
        (20, FakeProcess { alive: false, ..RUNNING }),
        (30, RUNNING),
    ];
    let results = run_batch(discover_and_freeze(&dir), &mut procs);
    assert_eq!(
        results,
        vec![
            PidResult { pid: 10, result: Ok(()) },
            PidResult { pid: 20, result: Err(Failure::NotFound) },
            PidResult { pid: 30, result: Ok(()) },
        ]
    );
    assert_eq!(results.iter().filter(|r| r.result.is_ok()).count(), 2);
    assert!(procs[0].1.suspended && procs[2].1.suspended);
}

#[test]
fn batch_continues_after_access_denied() {
    let pids = vec![1, 2];
    let mut procs = vec![(1, FakeProcess { accessible: false, ..RUNNING }), (2, RUNNING)];
    let results = run_batch(BatchRun::new(&pids, Transition::Thaw), &mut procs);
    assert_eq!(results[0].result, Err(Failure::AccessDenied));
    assert_eq!(results[1].result, Ok(()));
}

#[test]
fn memory_query_without_rights_is_access_denied() {
    assert_eq!(classify_os_error(5), Failure::AccessDenied);
    assert_eq!(classify_os_error(87), Failure::NotFound);
    assert_eq!(classify_os_error(1450), Failure::OsError(1450));
}

#[test]
fn privilege_guard_keeps_first_outcome() {
    let mut g = PrivilegeGuard::new();
    assert!(g.needs_attempt());
    assert_eq!(g.ready(), Err(PrecursorFailure::NotBootstrapped));
    g.record(Err(1300));
    assert_eq!(g.state, Elevation::Refused(1300));
    g.record(Ok(()));
    assert_eq!(g.ready(), Err(PrecursorFailure::ElevationFailed(1300)));

    let mut h = PrivilegeGuard::new();
    h.record(Ok(()));
    assert!(!h.needs_attempt());
    assert_eq!(h.ready(), Ok(()));
}
