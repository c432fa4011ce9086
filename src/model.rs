//! A model of what the lifecycle controller assumes of the operating system,
//! and the laws that the composite transitions obey under it.
//!
//! Window primitives act on whatever top-level windows the process owns and
//! never fail on its account (an exited process owns none). Primitives that
//! open the process fail with `NotFound` once it has exited and with
//! `AccessDenied` where the caller lacks the rights. Suspending a suspended
//! process, or resuming a running one, changes nothing.
use vstd::prelude::*;

use crate::batch::batch_after;
use crate::lifecycle::{plan, Composite, Failure, Primitive, Transition};

verus! {

/// What the system reports of a process, as far as the controller sees it.
pub struct ProcessState {
    pub alive: bool,
    pub accessible: bool,
    pub visible: bool,
    pub suspended: bool,
}

/// The outcome that primitive `p` has on a process in state `s`.
pub open spec fn os_outcome(p: Primitive, s: ProcessState) -> Result<(), Failure> {
    match p {
        Primitive::HideWindows | Primitive::ShowWindows => Ok(()),
        _ => if !s.alive {
            Err(Failure::NotFound)
        } else if !s.accessible {
            Err(Failure::AccessDenied)
        } else {
            Ok(())
        },
    }
}

/// The state of the process after primitive `p` succeeded on it.
pub open spec fn os_effect(p: Primitive, s: ProcessState) -> ProcessState {
    if !s.alive {
        s
    } else {
        match p {
            Primitive::HideWindows => ProcessState { visible: false, ..s },
            Primitive::ShowWindows => ProcessState { visible: true, ..s },
            Primitive::Suspend => ProcessState { suspended: true, ..s },
            Primitive::Resume => ProcessState { suspended: false, ..s },
            Primitive::TrimWorkingSet => s,
        }
    }
}

/// Runs the machine `c` against a process in state `s` for at most `fuel`
/// primitives: each primitive that `next_action` names is performed and its
/// outcome handed to `record`.
pub open spec fn drive(c: Composite, s: ProcessState, fuel: nat) -> (Composite, ProcessState)
    decreases fuel,
{
    if fuel == 0 || c.finished() {
        (c, s)
    } else {
        let (outcome, s2) = os_step(c, s);
        drive(c.after(outcome), s2, (fuel - 1) as nat)
    }
}

/// The outcome that the next primitive of `c` has on a process in state `s`,
/// and the state of the process after it.
pub open spec fn os_step(c: Composite, s: ProcessState) -> (Result<(), Failure>, ProcessState) {
    let p = c.next_spec()->0;
    let outcome = os_outcome(p, s);
    (outcome, if outcome is Ok {
        os_effect(p, s)
    } else {
        s
    })
}

/// The number of primitives that `c` runs against a process in state `s`
/// before it is finished.
pub open spec fn steps(c: Composite, s: ProcessState) -> nat
    decreases plan(c.transition).len() - c.done + (if c.failure is None {
        1int
    } else {
        0
    }),
{
    if c.finished() {
        0
    } else {
        let (outcome, s2) = os_step(c, s);
        1 + steps(c.after(outcome), s2)
    }
}

/// Runs a batch whose transitions are `items`, the one at position `i` acting
/// on a process in state `states[i]`, for at most `fuel` primitives.
pub open spec fn drive_batch(
    items: Seq<Composite>,
    current: int,
    states: Seq<ProcessState>,
    fuel: nat,
) -> (Seq<Composite>, int, Seq<ProcessState>)
    decreases fuel,
{
    if fuel == 0 || !(0 <= current < items.len()) || items[current].finished() {
        (items, current, states)
    } else {
        let (outcome, s2) = os_step(items[current], states[current]);
        let (items2, current2) = batch_after(items, current, outcome);
        drive_batch(items2, current2, states.update(current, s2), (fuel - 1) as nat)
    }
}

/// The machine and the process after a whole transition of `pid`.
pub open spec fn run(pid: u32, t: Transition, s: ProcessState) -> (Composite, ProcessState) {
    drive(Composite::start(pid, t), s, plan(t).len())
}

/// Freezing a running, visible process and then thawing it both succeed and
/// leave the process as it was.
pub proof fn lemma_freeze_then_thaw_restores(pid: u32, s: ProcessState)
    requires
        s.alive,
        s.accessible,
        s.visible,
        !s.suspended,
    ensures
        run(pid, Transition::Freeze, s).0.result_spec() == Some(Ok::<(), Failure>(())),
        run(pid, Transition::Thaw, run(pid, Transition::Freeze, s).1).0.result_spec() == Some(
            Ok::<(), Failure>(()),
        ),
        run(pid, Transition::Thaw, run(pid, Transition::Freeze, s).1).1 == s,
{
    reveal_with_fuel(drive, 4);
}

/// Freezing twice in a row succeeds both times and leaves the process
/// suspended and hidden, as after the first.
pub proof fn lemma_freeze_twice(pid: u32, s: ProcessState)
    requires
        s.alive,
        s.accessible,
    ensures
        run(pid, Transition::Freeze, s).0.result_spec() == Some(Ok::<(), Failure>(())),
        run(pid, Transition::Freeze, run(pid, Transition::Freeze, s).1).0.result_spec() == Some(
            Ok::<(), Failure>(()),
        ),
        run(pid, Transition::Freeze, run(pid, Transition::Freeze, s).1).1 == run(
            pid,
            Transition::Freeze,
            s,
        ).1,
        run(pid, Transition::Freeze, s).1.suspended,
        !run(pid, Transition::Freeze, s).1.visible,
{
    reveal_with_fuel(drive, 4);
}

/// Thawing a process that is not suspended succeeds and leaves it running
/// and visible.
pub proof fn lemma_thaw_running(pid: u32, s: ProcessState)
    requires
        s.alive,
        s.accessible,
        !s.suspended,
    ensures
        run(pid, Transition::Thaw, s).0.result_spec() == Some(Ok::<(), Failure>(())),
        !run(pid, Transition::Thaw, s).1.suspended,
        run(pid, Transition::Thaw, s).1.visible,
{
    reveal_with_fuel(drive, 3);
}

/// A transition of a process that has exited ends in `NotFound`, never in
/// success.
pub proof fn lemma_exited_is_not_found(pid: u32, t: Transition, s: ProcessState)
    requires
        !s.alive,
    ensures
        run(pid, t, s).0.result_spec() == Some(Err::<(), Failure>(Failure::NotFound)),
{
    reveal_with_fuel(drive, 4);
}

proof fn lemma_steps_bound(c: Composite, s: ProcessState)
    requires
        c.wf(),
    ensures
        steps(c, s) <= plan(c.transition).len() - c.done,
        !c.finished() ==> steps(c, s) >= 1,
    decreases plan(c.transition).len() - c.done + (if c.failure is None {
        1int
    } else {
        0
    }),
{
    if !c.finished() {
        let (outcome, s2) = os_step(c, s);
        lemma_steps_bound(c.after(outcome), s2);
    }
}

/// Once finished, running on changes nothing.
proof fn lemma_drive_settles(c: Composite, s: ProcessState, fuel: nat)
    requires
        c.wf(),
        fuel >= steps(c, s),
    ensures
        drive(c, s, fuel) == drive(c, s, steps(c, s)),
        drive(c, s, fuel).0.finished(),
    decreases fuel,
{
    if !c.finished() {
        let (outcome, s2) = os_step(c, s);
        lemma_drive_settles(c.after(outcome), s2, (fuel - 1) as nat);
    }
}

/// The batch runs the transition in progress to its end and then moves on.
proof fn lemma_batch_finishes_current(
    items: Seq<Composite>,
    current: int,
    states: Seq<ProcessState>,
    fuel: nat,
)
    requires
        0 <= current < items.len(),
        items.len() == states.len(),
        items[current].wf(),
        !items[current].finished(),
        fuel >= steps(items[current], states[current]),
    ensures
        drive_batch(items, current, states, fuel) == drive_batch(
            items.update(
                current,
                drive(items[current], states[current], steps(items[current], states[current])).0,
            ),
            current + 1,
            states.update(
                current,
                drive(items[current], states[current], steps(items[current], states[current])).1,
            ),
            (fuel - steps(items[current], states[current])) as nat,
        ),
    decreases steps(items[current], states[current]),
{
    let c = items[current];
    let s = states[current];
    let (outcome, s2) = os_step(c, s);
    let c2 = c.after(outcome);
    let items2 = items.update(current, c2);
    let states2 = states.update(current, s2);
    lemma_steps_bound(c2, s2);
    if c2.finished() {
        assert(drive(c2, s2, 0) == (c2, s2));
    } else {
        assert(items2[current] == c2);
        assert(states2[current] == s2);
        lemma_batch_finishes_current(items2, current, states2, (fuel - 1) as nat);
        assert(items2.update(current, drive(c2, s2, steps(c2, s2)).0) =~= items.update(
            current,
            drive(c2, s2, steps(c2, s2)).0,
        ));
        assert(states2.update(current, drive(c2, s2, steps(c2, s2)).1) =~= states.update(
            current,
            drive(c2, s2, steps(c2, s2)).1,
        ));
    }
}

proof fn lemma_batch_from(
    pids: Seq<u32>,
    t: Transition,
    items: Seq<Composite>,
    current: int,
    states: Seq<ProcessState>,
    fuel: nat,
)
    requires
        0 <= current <= items.len(),
        items.len() == pids.len(),
        states.len() == pids.len(),
        forall|j: int| current <= j < items.len() ==> #[trigger] items[j] == Composite::start(pids[j], t),
        fuel >= plan(t).len() * (items.len() - current),
    ensures
        drive_batch(items, current, states, fuel).1 == items.len(),
        drive_batch(items, current, states, fuel).0.len() == items.len(),
        drive_batch(items, current, states, fuel).2.len() == items.len(),
        forall|j: int|
            0 <= j < current ==> drive_batch(items, current, states, fuel).0[j] == items[j]
                && drive_batch(items, current, states, fuel).2[j] == states[j],
        forall|j: int|
            current <= j < items.len() ==> drive_batch(items, current, states, fuel).0[j] == run(
                pids[j],
                t,
                states[j],
            ).0 && drive_batch(items, current, states, fuel).2[j] == run(pids[j], t, states[j]).1,
    decreases items.len() - current,
{
    if current < items.len() {
        let c = items[current];
        let s = states[current];
        let k = steps(c, s);
        lemma_steps_bound(c, s);
        lemma_drive_settles(c, s, plan(t).len());
        assert(plan(t).len() * (items.len() - current) == plan(t).len() + plan(t).len() * (
        items.len() - current - 1)) by (nonlinear_arith);
        lemma_batch_finishes_current(items, current, states, fuel);
        let items2 = items.update(current, drive(c, s, k).0);
        let states2 = states.update(current, drive(c, s, k).1);
        lemma_batch_from(pids, t, items2, current + 1, states2, (fuel - k) as nat);
        let r = drive_batch(items, current, states, fuel);
        assert(r == drive_batch(items2, current + 1, states2, (fuel - k) as nat));
        assert forall|j: int| 0 <= j < current implies r.0[j] == items[j] && r.2[j] == states[j] by {
            assert(items2[j] == items[j]);
            assert(states2[j] == states[j]);
        }
        assert forall|j: int| current <= j < items.len() implies r.0[j] == run(pids[j], t, states[j]).0
            && r.2[j] == run(pids[j], t, states[j]).1 by {
            if j == current {
                assert(items2[j] == drive(c, s, k).0);
                assert(states2[j] == drive(c, s, k).1);
            } else {
                assert(states2[j] == states[j]);
            }
        }
    }
}

/// Over a batch that starts `t` on each of `pids`, the process at position
/// `i` being in state `states[i]`, running every primitive the batch names
/// finishes every transition, and each ends exactly as it would alone: a
/// failure of one process stops nothing but its own transition.
pub proof fn lemma_batch_isolates_failures(pids: Seq<u32>, t: Transition, states: Seq<ProcessState>)
    requires
        states.len() == pids.len(),
    ensures
        ({
            let items = Seq::new(pids.len(), |i: int| Composite::start(pids[i], t));
            let (items2, current2, states2) = drive_batch(
                items,
                0,
                states,
                plan(t).len() * pids.len(),
            );
            &&& current2 == pids.len()
            &&& items2.len() == pids.len()
            &&& forall|i: int|
                0 <= i < pids.len() ==> (#[trigger] items2[i]).result_spec() == run(
                    pids[i],
                    t,
                    states[i],
                ).0.result_spec() && states2[i] == run(pids[i], t, states[i]).1
        }),
{
    let items = Seq::new(pids.len(), |i: int| Composite::start(pids[i], t));
    lemma_batch_from(pids, t, items, 0, states, plan(t).len() * pids.len());
}

} // verus!
