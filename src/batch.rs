//! Runs one transition over every process that discovery picked, one after
//! another. A failure of one process ends only that process's transition;
//! the batch goes on with the next.
use vstd::prelude::*;

use crate::lifecycle::{Composite, Failure, Primitive, Transition};
use crate::matcher::{find_minecrafts, matched, records, DirectoryEntry, MinecraftInfo, MINECRAFT_MARKER};

verus! {

/// The transitions and the position of a batch after the primitive in
/// progress ended with `outcome`.
pub open spec fn batch_after(items: Seq<Composite>, current: int, outcome: Result<(), Failure>) -> (
    Seq<Composite>,
    int,
) {
    let c = items[current].after(outcome);
    (items.update(current, c), if c.finished() {
        current + 1
    } else {
        current
    })
}

/// The outcome of a transition for one process.
#[derive(Debug, Clone, Copy, PartialEq, Eq)]
pub struct PidResult {
    pub pid: u32,
    pub result: Result<(), Failure>,
}

/// The transitions of a batch, and the position of the one in progress.
#[derive(Debug, Clone)]
pub struct BatchRun {
    pub items: Vec<Composite>,
    pub current: usize,
}

impl BatchRun {
    /// The transitions before `current` are finished; the others are not.
    pub open spec fn wf(&self) -> bool {
        &&& self.current <= self.items@.len()
        &&& forall|i: int| 0 <= i < self.items@.len() ==> (#[trigger] self.items@[i]).wf()
        &&& forall|i: int| 0 <= i < self.current ==> (#[trigger] self.items@[i]).finished()
        &&& forall|i: int|
            self.current <= i < self.items@.len() ==> !(#[trigger] self.items@[i]).finished()
    }

    /// Every transition of the batch is finished.
    pub open spec fn done(&self) -> bool {
        self.current >= self.items@.len()
    }

    /// The process and the primitive to run next.
    pub open spec fn next_spec(&self) -> Option<(u32, Primitive)> {
        if self.done() {
            None
        } else {
            let c = self.items@[self.current as int];
            Some((c.pid, c.next_spec()->0))
        }
    }


    /// Starts `t` on each of `pids`, in order.
    pub fn new(pids: &Vec<u32>, t: Transition) -> (r: BatchRun)
        ensures
            r.wf(),
            r.current == 0,
            r.items@.len() == pids@.len(),
            forall|i: int|
                0 <= i < pids@.len() ==> #[trigger] r.items@[i] == Composite::start(pids@[i], t),
    {
        let mut items: Vec<Composite> = Vec::new();
        let mut i: usize = 0;
        while i < pids.len()
            invariant
                i <= pids@.len(),
                items@.len() == i,
                forall|j: int| 0 <= j < i ==> #[trigger] items@[j] == Composite::start(pids@[j], t),
            decreases pids@.len() - i,
        {
            items.push(Composite::new(pids[i], t));
            i = i + 1;
        }
        BatchRun { items, current: 0 }
    }

    /// The process and the primitive to run next, if any.
    pub fn next_action(&self) -> (r: Option<(u32, Primitive)>)
        requires
            self.wf(),
        ensures
            r == self.next_spec(),
    {
        if self.current >= self.items.len() {
            None
        } else {
            let c = self.items[self.current];
            Some((c.pid, c.next_action().unwrap()))
        }
    }

    /// Takes the outcome of the primitive that `next_action` named. The
    /// transition in progress moves on; once it is finished, the next
    /// process's transition begins.
    pub fn record(&mut self, outcome: Result<(), Failure>)
        requires
            old(self).wf(),
            !old(self).done(),
        ensures
            final(self).wf(),
            (final(self).items@, final(self).current as int) == batch_after(
                old(self).items@,
                old(self).current as int,
                outcome,
            ),
    {
        let mut c = self.items[self.current];
        c.record(outcome);
        self.items.set(self.current, c);
        let n: usize = self.items.len();
        if c.result().is_some() && self.current < n {
            self.current = self.current + 1;
        }
    }

    /// The outcome for each process, in batch order, once every transition
    /// is finished.
    pub fn results(&self) -> (r: Vec<PidResult>)
        requires
            self.wf(),
            self.done(),
        ensures
            r@.len() == self.items@.len(),
            forall|i: int|
                0 <= i < r@.len() ==> (#[trigger] r@[i]).pid == self.items@[i].pid && Some(
                    r@[i].result,
                ) == self.items@[i].result_spec(),
    {
        let mut r: Vec<PidResult> = Vec::new();
        let mut i: usize = 0;
        while i < self.items.len()
            invariant
                self.wf(),
                self.done(),
                i <= self.items@.len(),
                r@.len() == i,
                forall|j: int|
                    0 <= j < i ==> (#[trigger] r@[j]).pid == self.items@[j].pid && Some(r@[j].result)
                        == self.items@[j].result_spec(),
            decreases self.items@.len() - i,
        {
            let c = self.items[i];
            assert(c.finished());
            r.push(PidResult { pid: c.pid, result: c.result().unwrap() });
            i = i + 1;
        }
        r
    }
}

/// The process ids of `infos`, in order.
pub fn pids_of(infos: &Vec<MinecraftInfo>) -> (r: Vec<u32>)
    ensures
        r@.len() == infos@.len(),
        forall|i: int| 0 <= i < r@.len() ==> #[trigger] r@[i] == infos@[i].pid,
{
    let mut r: Vec<u32> = Vec::new();
    let mut i: usize = 0;
    while i < infos.len()
        invariant
            i <= infos@.len(),
            r@.len() == i,
            forall|j: int| 0 <= j < i ==> #[trigger] r@[j] == infos@[j].pid,
        decreases infos@.len() - i,
    {
        r.push(infos[i].pid);
        i = i + 1;
    }
    r
}

/// Discovers the game processes of the directory and starts `t` on each of
/// them, in directory order.
pub fn discover_and_apply(entries: &Vec<DirectoryEntry>, t: Transition) -> (r: BatchRun)
    ensures
        r.wf(),
        r.current == 0,
        r.items@.len() == matched(entries@, MINECRAFT_MARKER@).len(),
        forall|i: int|
            0 <= i < r.items@.len() ==> #[trigger] r.items@[i] == Composite::start(
                matched(entries@, MINECRAFT_MARKER@)[i].0,
                t,
            ),
{
    let found = find_minecrafts(entries);
    let pids = pids_of(&found);
    let r = BatchRun::new(&pids, t);
    assert forall|i: int| 0 <= i < r.items@.len() implies #[trigger] r.items@[i] == Composite::start(
        matched(entries@, MINECRAFT_MARKER@)[i].0,
        t,
    ) by {
        assert(records(found@)[i] == found@[i]@);
    }
    r
}

/// Discovers the game processes and starts freezing each of them.
pub fn discover_and_freeze(entries: &Vec<DirectoryEntry>) -> (r: BatchRun)
    ensures
        r.wf(),
        r.current == 0,
        r.items@.len() == matched(entries@, MINECRAFT_MARKER@).len(),
        forall|i: int|
            0 <= i < r.items@.len() ==> #[trigger] r.items@[i] == Composite::start(
                matched(entries@, MINECRAFT_MARKER@)[i].0,
                Transition::Freeze,
            ),
{
    discover_and_apply(entries, Transition::Freeze)
}

/// Discovers the game processes and starts thawing each of them.
pub fn discover_and_thaw(entries: &Vec<DirectoryEntry>) -> (r: BatchRun)
    ensures
        r.wf(),
        r.current == 0,
        r.items@.len() == matched(entries@, MINECRAFT_MARKER@).len(),
        forall|i: int|
            0 <= i < r.items@.len() ==> #[trigger] r.items@[i] == Composite::start(
                matched(entries@, MINECRAFT_MARKER@)[i].0,
                Transition::Thaw,
            ),
{
    discover_and_apply(entries, Transition::Thaw)
}

} // verus!
