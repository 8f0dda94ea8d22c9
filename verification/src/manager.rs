//! The process table: a fixed number of slots, the stack of the slots that
//! are free, and the place from which the scheduler looks for the next
//! process to run.

use vstd::prelude::*;
use vstd::seq_lib::seq_to_set_is_finite;
use vstd::set_lib::{lemma_int_range, lemma_subset_equality, set_int_range};
use crate::mem::{AddressSpace, Frame};
use crate::proc::{Id, Process, ProcessError, Status, N_PROCS};

verus! {

/// The slot that a scan from `cursor` looks at in its step `k`: the slots
/// come in their order, and after the last comes the first.
pub open spec fn scan_slot(cursor: int, k: int) -> int {
    (cursor + k) % (N_PROCS as int)
}

/// The first runnable slot that a scan from `cursor` finds in its steps
/// from `k` on, if there is one.
pub open spec fn scan_from(slots: Seq<Process>, cursor: int, k: int) -> Option<int>
    decreases N_PROCS - k,
{
    if k >= N_PROCS {
        None
    } else if slots[scan_slot(cursor, k)].status == Status::Runnable {
        Some(scan_slot(cursor, k))
    } else {
        scan_from(slots, cursor, k + 1)
    }
}

/// The slot that the scheduler picks: the first runnable slot at or after
/// `cursor`, or else the first runnable slot before it.
pub open spec fn next_runnable(slots: Seq<Process>, cursor: int) -> Option<int> {
    scan_from(slots, cursor, 0)
}

/// The first slot from `from` on whose process has the identity `id`, if
/// there is one.
pub open spec fn find_from(slots: Seq<Process>, id: Id, from: int) -> Option<int>
    decreases slots.len() - from,
{
    if from >= slots.len() {
        None
    } else if slots[from].id == id {
        Some(from)
    } else {
        find_from(slots, id, from + 1)
    }
}

/// The first slot whose process has the identity `id`, if there is one.
pub open spec fn find(slots: Seq<Process>, id: Id) -> Option<int> {
    find_from(slots, id, 0)
}

/// What `scan_from` finds: a runnable slot that no runnable slot comes
/// before in the scan; nothing, where no slot of the table is runnable.
pub proof fn lemma_scan_from(slots: Seq<Process>, cursor: int, k: int)
    requires
        slots.len() == N_PROCS,
        0 <= cursor < N_PROCS,
        0 <= k <= N_PROCS,
    ensures
        scan_from(slots, cursor, k) matches Some(i) ==> exists|d: int|
            k <= d < N_PROCS && i == #[trigger] scan_slot(cursor, d) && slots[i].status
                == Status::Runnable && forall|e: int|
                k <= e < d ==> slots[#[trigger] scan_slot(cursor, e)].status != Status::Runnable,
        scan_from(slots, cursor, k) is None ==> forall|e: int|
            k <= e < N_PROCS ==> slots[#[trigger] scan_slot(cursor, e)].status != Status::Runnable,
    decreases N_PROCS - k,
{
    if k < N_PROCS {
        if slots[scan_slot(cursor, k)].status == Status::Runnable {
            assert(scan_slot(cursor, k) == scan_slot(cursor, k));
        } else {
            lemma_scan_from(slots, cursor, k + 1);
            if scan_from(slots, cursor, k) is Some {
                let i = scan_from(slots, cursor, k)->0;
                let d = choose|d: int|
                    k + 1 <= d < N_PROCS && i == #[trigger] scan_slot(cursor, d) && slots[i].status
                        == Status::Runnable && forall|e: int|
                        k + 1 <= e < d ==> slots[#[trigger] scan_slot(cursor, e)].status
                            != Status::Runnable;
                assert(k <= d < N_PROCS && i == scan_slot(cursor, d));
            }
        }
    }
}

/// The scheduler finds nothing exactly where no process is runnable, and
/// what it finds is a runnable slot of the table.
pub proof fn lemma_next_runnable(slots: Seq<Process>, cursor: int)
    requires
        slots.len() == N_PROCS,
        0 <= cursor < N_PROCS,
    ensures
        next_runnable(slots, cursor) is None <==> forall|i: int|
            0 <= i < N_PROCS ==> (#[trigger] slots[i]).status != Status::Runnable,
        next_runnable(slots, cursor) matches Some(i) ==> 0 <= i < N_PROCS && slots[i].status
            == Status::Runnable,
{
    lemma_scan_from(slots, cursor, 0);
    if next_runnable(slots, cursor) is None {
        assert forall|i: int| 0 <= i < N_PROCS implies (#[trigger] slots[i]).status
            != Status::Runnable by {
            let e = if i >= cursor {
                i - cursor
            } else {
                i - cursor + N_PROCS
            };
            assert(scan_slot(cursor, e) == i);
        }
    }
}

/// A process that stays runnable is picked in the end: where the slot
/// `wait` is runnable and the scheduler picks another slot, the cursor
/// comes closer to `wait` in the order of the scan.
pub proof fn lemma_sched_comes_closer(slots: Seq<Process>, cursor: int, wait: int)
    requires
        slots.len() == N_PROCS,
        0 <= cursor < N_PROCS,
        0 <= wait < N_PROCS,
        slots[wait].status == Status::Runnable,
    ensures
        next_runnable(slots, cursor) matches Some(i) && (i != wait ==> scan_distance(
            (i + 1) % (N_PROCS as int),
            wait,
        ) < scan_distance(cursor, wait)),
{
    lemma_scan_from(slots, cursor, 0);
    let dw = scan_distance(cursor, wait);
    assert(scan_slot(cursor, dw) == wait);
    if next_runnable(slots, cursor) is Some {
        let i = next_runnable(slots, cursor)->0;
        let d = choose|d: int|
            0 <= d < N_PROCS && i == #[trigger] scan_slot(cursor, d) && slots[i].status
                == Status::Runnable && forall|e: int|
                0 <= e < d ==> slots[#[trigger] scan_slot(cursor, e)].status != Status::Runnable;
        if i != wait {
            assert(d < dw);
        }
    }
}

/// Number of steps that a scan from `cursor` takes to reach `slot`.
pub open spec fn scan_distance(cursor: int, slot: int) -> int {
    if slot >= cursor {
        slot - cursor
    } else {
        slot - cursor + N_PROCS
    }
}

/// What `find_from` finds: the first slot from `from` on with the identity
/// `id`; nothing, where no slot from `from` on has it.
pub proof fn lemma_find_from(slots: Seq<Process>, id: Id, from: int)
    requires
        0 <= from,
    ensures
        find_from(slots, id, from) matches Some(i) ==> from <= i < slots.len() && slots[i].id == id
            && forall|j: int| from <= j < i ==> (#[trigger] slots[j]).id != id,
        find_from(slots, id, from) is None ==> forall|j: int|
            from <= j < slots.len() ==> (#[trigger] slots[j]).id != id,
    decreases slots.len() - from,
{
    if from < slots.len() && slots[from].id != id {
        lemma_find_from(slots, id, from + 1);
    }
}

/// Where the identity of each process is the number of its slot, as in a
/// table that was just built, the process `Id(i)` is found in slot `i`.
pub proof fn lemma_find_by_slot(slots: Seq<Process>, i: int)
    requires
        0 <= i < slots.len() <= u32::MAX,
        forall|j: int| 0 <= j < slots.len() ==> (#[trigger] slots[j]).id == Id(j as u32),
    ensures
        find(slots, Id(i as u32)) == Some(i),
{
    lemma_find_from(slots, Id(i as u32), 0);
    assert(slots[i].id == Id(i as u32));
    if find(slots, Id(i as u32)) is Some {
        let j = find(slots, Id(i as u32))->0;
        assert(slots[j].id == Id(j as u32));
        assert(j as u32 == i as u32);
    }
}

/// The stack of free slots of a table that was just built: every slot, in
/// ascending order.
pub open spec fn all_free() -> Seq<usize> {
    Seq::new(N_PROCS as nat, |i: int| i as usize)
}

/// What is on a stack without duplicates after its top is taken off: what
/// was on it, but the top.
proof fn lemma_drop_last_contains(s: Seq<usize>, x: usize)
    requires
        s.len() > 0,
        s.no_duplicates(),
    ensures
        s.drop_last().contains(x) <==> s.contains(x) && x != s.last(),
{
    if s.drop_last().contains(x) {
        let k = choose|k: int| 0 <= k < s.drop_last().len() && s.drop_last()[k] == x;
        assert(s[k] == x);
    }
    if s.contains(x) && x != s.last() {
        let k = choose|k: int| 0 <= k < s.len() && s[k] == x;
        assert(s.drop_last()[k] == x);
    }
}

/// What is on a stack after `v` is put on it: what was on it, and `v`.
proof fn lemma_push_contains(s: Seq<usize>, v: usize, x: usize)
    ensures
        s.push(v).contains(x) <==> s.contains(x) || x == v,
{
    if s.push(v).contains(x) {
        let k = choose|k: int| 0 <= k < s.push(v).len() && s.push(v)[k] == x;
        if k < s.len() {
            assert(s[k] == x);
        }
    }
    if s.contains(x) {
        let k = choose|k: int| 0 <= k < s.len() && s[k] == x;
        assert(s.push(v)[k] == x);
    }
    if x == v {
        assert(s.push(v)[s.len() as int] == x);
    }
}

/// A stack of `n` slots, each below `n` and none twice, holds every slot
/// below `n`.
proof fn lemma_full_stack_holds_all(s: Seq<usize>, n: nat, x: usize)
    requires
        s.no_duplicates(),
        s.len() == n,
        forall|k: int| 0 <= k < s.len() ==> #[trigger] s[k] < n,
        x < n,
    ensures
        s.contains(x),
{
    let ints = Seq::new(s.len(), |k: int| s[k] as int);
    assert(ints.no_duplicates());
    ints.unique_seq_to_set();
    seq_to_set_is_finite(ints);
    lemma_int_range(0, n as int);
    assert(ints.to_set().subset_of(set_int_range(0, n as int))) by {
        assert forall|v: int| ints.to_set().contains(v) implies set_int_range(
            0,
            n as int,
        ).contains(v) by {
            assert(ints.contains(v));
            let k = choose|k: int| 0 <= k < ints.len() && ints[k] == v;
            assert(s[k] < n);
        }
    }
    lemma_subset_equality(ints.to_set(), set_int_range(0, n as int));
    assert(set_int_range(0, n as int).contains(x as int));
    assert(ints.to_set().contains(x as int));
    assert(ints.contains(x as int));
    let k = choose|k: int| 0 <= k < ints.len() && ints[k] == x as int;
    assert(s[k] == x);
}

/// The process table.
pub struct ProcessManager {
    procs: Vec<Process>,
    id_stack: Vec<usize>,
    stack: usize,
    sched_index: usize,
    in_use: Vec<bool>,
}

impl ProcessManager {
    /// The process slots.
    pub closed spec fn slots(&self) -> Seq<Process> {
        self.procs@
    }

    /// The stack of free slots. The last is the one that `allocate` hands out
    /// next.
    pub closed spec fn free(&self) -> Seq<usize> {
        self.id_stack@.take(self.stack as int)
    }

    /// The slot at which the next scan for a runnable process starts.
    pub closed spec fn cursor(&self) -> int {
        self.sched_index as int
    }

    /// What holds of every table: it has `N_PROCS` slots; the free slots
    /// are slots of the table, none twice on the stack; the cursor is a
    /// slot of the table.
    pub closed spec fn wf(&self) -> bool {
        &&& self.procs@.len() == N_PROCS
        &&& self.id_stack@.len() == N_PROCS
        &&& self.in_use@.len() == N_PROCS
        &&& self.stack <= N_PROCS
        &&& self.sched_index < N_PROCS
        &&& forall|k: int| 0 <= k < self.stack ==> #[trigger] self.free()[k] < N_PROCS
        &&& self.free().no_duplicates()
        &&& forall|i: usize|
            i < N_PROCS ==> (#[trigger] self.in_use@[i as int] <==> !self.free().contains(i))
    }

    /// Whether slot `index` is handed out.
    pub open spec fn is_allocated(&self, index: usize) -> bool {
        index < N_PROCS && !self.free().contains(index)
    }

    /// A slot that is released is the one that is handed out next, with
    /// the process that it held: where `dealloc(index)` has led from
    /// `before` to `self`, `allocate` hands out the slot `index`, and the
    /// stack of free slots is then as it was in `before`.
    pub proof fn lemma_released_slot_is_next(&self, before: &ProcessManager, index: usize)
        requires
            before.is_allocated(index),
            self.free() == before.free().push(index),
            self.slots() == before.slots(),
        ensures
            self.free().len() > 0,
            self.free().last() == index,
            self.slots()[self.free().last() as int] == before.slots()[index as int],
            self.free().drop_last() == before.free(),
    {
        assert(before.free().push(index).drop_last() =~= before.free());
    }

    /// What `wf` says of the table, the stack and the cursor.
    pub proof fn lemma_wf(&self)
        requires
            self.wf(),
        ensures
            self.slots().len() == N_PROCS,
            self.free().len() <= N_PROCS,
            self.free().no_duplicates(),
            forall|k: int| 0 <= k < self.free().len() ==> #[trigger] self.free()[k] < N_PROCS,
            0 <= self.cursor() < N_PROCS,
    {
    }

    /// A table whose slot `i` holds the process `Id(i)`, reset, with an
    /// address space of its own: the root page table in `proc_pages[i]`,
    /// the scratch table in `proc_tmp_pages[i]`. Every slot is free.
    pub fn new(proc_pages: &[Frame; N_PROCS], proc_tmp_pages: &[Frame; N_PROCS]) -> (pm:
        ProcessManager)
        ensures
            pm.wf(),
            pm.slots().len() == N_PROCS,
            forall|i: int|
                0 <= i < N_PROCS ==> {
                    &&& (#[trigger] pm.slots()[i]).is_fresh(
                        Id(i as u32),
                        AddressSpace { dir: proc_pages@[i], tmp: proc_tmp_pages@[i] },
                    )
                    &&& pm.slots()[i].index == i
                    &&& pm.slots()[i].exit_code == 0
                },
            pm.free() == all_free(),
            pm.cursor() == 0,
    {
        let mut procs: Vec<Process> = Vec::new();
        let mut id_stack: Vec<usize> = Vec::new();
        let mut in_use: Vec<bool> = Vec::new();
        let mut i: usize = 0;
        while i < N_PROCS
            invariant
                i <= N_PROCS,
                procs@.len() == i,
                id_stack@.len() == i,
                in_use@.len() == i,
                forall|j: int|
                    0 <= j < i ==> {
                        &&& (#[trigger] procs@[j]).is_fresh(
                            Id(j as u32),
                            AddressSpace { dir: proc_pages@[j], tmp: proc_tmp_pages@[j] },
                        )
                        &&& procs@[j].index == j
                        &&& procs@[j].exit_code == 0
                    },
                forall|j: int| 0 <= j < i ==> #[trigger] id_stack@[j] == j,
                forall|j: int| 0 <= j < i ==> !#[trigger] in_use@[j],
            decreases N_PROCS - i,
        {
            id_stack.push(i);
            in_use.push(false);
            procs.push(
                Process::new(i, Id(i as u32), AddressSpace::new(proc_pages[i], proc_tmp_pages[i])),
            );
            i += 1;
        }
        let pm = ProcessManager { procs, id_stack, stack: N_PROCS, sched_index: 0, in_use };
        assert(pm.free() =~= all_free());
        assert forall|i: usize| i < N_PROCS implies #[trigger] pm.free().contains(i) by {
            assert(pm.free()[i as int] == i);
        }
        pm
    }

    /// Looks for the process with the identity `id`, from the first slot
    /// on.
    pub fn id2proc(&mut self, id: Id) -> (r: Result<&mut Process, ProcessError>)
        requires
            old(self).wf(),
        ensures
            final(self).wf(),
            final(self).free() == old(self).free(),
            final(self).cursor() == old(self).cursor(),
            find(old(self).slots(), id) is None ==> (r matches Err(ProcessError::NoSuchProcess))
                && final(self).slots() == old(self).slots(),
            find(old(self).slots(), id) matches Some(i) ==> (r matches Ok(p) && *p == old(self).slots()[i] && final(self).slots() == old(self).slots().update(i, *final(p))),
    {
        let mut i: usize = 0;
        while i < N_PROCS
            invariant
                i <= N_PROCS,
                self.wf(),
                *self == *old(self),
                find(self.slots(), id) == find_from(self.slots(), id, i as int),
            decreases N_PROCS - i,
        {
            if self.procs[i].id == id {
                return Ok(&mut self.procs[i]);
            }
            i += 1;
        }
        Err(ProcessError::NoSuchProcess)
    }

    /// Hands out the free slot that was released last. The process in it
    /// is as it was left.
    pub fn allocate(&mut self) -> (r: Result<&mut Process, ProcessError>)
        requires
            old(self).wf(),
        ensures
            final(self).wf(),
            final(self).cursor() == old(self).cursor(),
            old(self).free().len() == 0 ==> (r matches Err(ProcessError::OutOfProcesses))
                && final(self).slots() == old(self).slots() && final(self).free() == old(self).free(),
            old(self).free().len() > 0 ==> (r matches Ok(p) && *p == old(self).slots()[old(self).free().last() as int] && final(self).slots() == old(self).slots().update(
                old(self).free().last() as int,
                *final(p),
            )) && final(self).free() == old(self).free().drop_last(),
    {
        if self.stack == 0 {
            Err(ProcessError::OutOfProcesses)
        } else {
            self.stack -= 1;
            let id: usize = self.id_stack[self.stack];
            assert(id == old(self).free().last());
            self.in_use.set(id, true);
            proof {
                assert(self.free() =~= old(self).free().drop_last());
                assert forall|i: usize| i < N_PROCS implies (#[trigger] self.in_use@[i as int]
                    <==> !self.free().contains(i)) by {
                    lemma_drop_last_contains(old(self).free(), i);
                }
            }
            Ok(&mut self.procs[id])
        }
    }

    /// Puts the slot `index` back on the stack of free slots, if it is
    /// handed out.
    pub fn dealloc(&mut self, index: usize) -> (r: Result<(), ProcessError>)
        requires
            old(self).wf(),
        ensures
            final(self).wf(),
            final(self).slots() == old(self).slots(),
            final(self).cursor() == old(self).cursor(),
            old(self).is_allocated(index) ==> r is Ok && final(self).free() == old(self).free().push(index),
            index >= N_PROCS ==> (r matches Err(ProcessError::NoSuchProcess)) && final(self).free()
                == old(self).free(),
            index < N_PROCS && !old(self).is_allocated(index) ==> (r matches Err(
                ProcessError::FreeListOverflow,
            )) && final(self).free() == old(self).free(),
            old(self).free().len() == N_PROCS ==> r is Err,
    {
        if index >= N_PROCS {
            return Err(ProcessError::NoSuchProcess);
        }
        if self.stack == N_PROCS || !self.in_use[index] {
            proof {
                if self.stack == N_PROCS {
                    lemma_full_stack_holds_all(self.free(), N_PROCS as nat, index);
                }
            }
            return Err(ProcessError::FreeListOverflow);
        }
        self.id_stack.set(self.stack, index);
        self.stack += 1;
        self.in_use.set(index, false);
        proof {
            assert(self.free() =~= old(self).free().push(index));
            assert forall|i: usize| i < N_PROCS implies (#[trigger] self.in_use@[i as int]
                <==> !self.free().contains(i)) by {
                lemma_push_contains(old(self).free(), index, i);
            }
        }
        Ok(())
    }

    /// Picks the process to run next: the first runnable one in a scan of
    /// the whole table that starts at the cursor. The cursor then stands
    /// behind the slot that was picked; where no process is runnable, it
    /// stays.
    pub fn sched(&mut self) -> (r: Option<&mut Process>)
        requires
            old(self).wf(),
        ensures
            final(self).wf(),
            final(self).free() == old(self).free(),
            next_runnable(old(self).slots(), old(self).cursor()) is None ==> r is None && final(self).slots() == old(self).slots() && final(self).cursor() == old(self).cursor(),
            next_runnable(old(self).slots(), old(self).cursor()) matches Some(i) ==> (r matches Some(
                p,
            ) && *p == old(self).slots()[i] && final(self).slots() == old(self).slots().update(
                i,
                *final(p),
            )) && final(self).cursor() == (i + 1) % (N_PROCS as int),
    {
        let old_index: usize = self.sched_index;
        let mut k: usize = 0;
        while k < N_PROCS
            invariant
                k <= N_PROCS,
                self.wf(),
                *self == *old(self),
                old_index == self.sched_index,
                next_runnable(self.slots(), self.cursor()) == scan_from(
                    self.slots(),
                    self.cursor(),
                    k as int,
                ),
            decreases N_PROCS - k,
        {
            let i: usize = if old_index + k >= N_PROCS {
                old_index + k - N_PROCS
            } else {
                old_index + k
            };
            assert(i == scan_slot(old_index as int, k as int));
            match self.procs[i].status {
                Status::Runnable => {
                    self.sched_index = (i + 1) % N_PROCS;
                    return Some(&mut self.procs[i]);
                },
                _ => (),
            }
            k += 1;
        }
        None
    }

    /// Number of free slots.
    pub fn free_count(&self) -> (n: usize)
        requires
            self.wf(),
        ensures
            n == self.free().len(),
    {
        self.stack
    }

    /// The slot at which the next scan for a runnable process starts.
    pub fn sched_index(&self) -> (n: usize)
        ensures
            n == self.cursor(),
    {
        self.sched_index
    }
}

} // verus!
