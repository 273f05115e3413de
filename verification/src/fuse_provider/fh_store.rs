//! The open file handles.
use vstd::prelude::*;

use crate::fuse_provider::fh::FileHandle;

verus! {

/// Keep a list of objects that can be added or deleted. We use a vector with objects that are
/// either present or absent, with a so-called Gravestone indicating absence. Gravestones point
/// to each other like a linked list, which lets us reuse slots.
///
/// One more thing to be aware of: There are very many FileHandle types. Here, we refer to the
/// actual object that we use for communication over SFTP. In other places, we use FileHandle to
/// refer to an index into this data structure.
pub struct FhStore<R> {
    inner: Vec<Slot<R>>,
    first_gravestone: Option<u64>,
    /// The slots that hold a gravestone, the one that was freed last at the end.
    free: Ghost<Seq<u64>>,
}

enum Slot<R> {
    Used(FileHandle<R>),
    Gravestone { next: Option<u64> },
}

/// What a store of file handles stands for.
#[verifier::ext_equal]
pub struct FhStoreView<R> {
    /// The handles that are present, by index.
    pub handles: Map<u64, FileHandle<R>>,
    /// The indices that were freed and not used again, the one freed last at the end.
    pub free: Seq<u64>,
    /// How many slots there are, used or not.
    pub slots: nat,
}

impl<R> FhStoreView<R> {
    /// The store without a handle or a slot.
    pub open spec fn empty() -> Self {
        FhStoreView { handles: Map::empty(), free: Seq::empty(), slots: 0 }
    }

    /// The index that the next handle gets: the one that was freed last, or a new one.
    pub open spec fn next_index(self) -> u64 {
        if self.free.len() > 0 {
            self.free.last()
        } else {
            self.slots as u64
        }
    }

    /// The store with `fh` added.
    pub open spec fn pushed(self, fh: FileHandle<R>) -> Self {
        FhStoreView {
            handles: self.handles.insert(self.next_index(), fh),
            free: if self.free.len() > 0 {
                self.free.drop_last()
            } else {
                self.free
            },
            slots: if self.free.len() > 0 {
                self.slots
            } else {
                self.slots + 1
            },
        }
    }

    /// The store without the handle at `idx`.
    pub open spec fn deleted(self, idx: u64) -> Self {
        FhStoreView {
            handles: self.handles.remove(idx),
            free: self.free.push(idx),
            slots: self.slots,
        }
    }

    /// Each slot is either used or free, and none is both.
    pub open spec fn valid(self) -> bool {
        &&& self.free.no_duplicates()
        &&& forall|i: u64| #[trigger] self.handles.contains_key(i) ==> i < self.slots
        &&& forall|i: u64| #[trigger] self.free.contains(i) ==> i < self.slots
        &&& forall|i: u64|
            i < self.slots ==> (#[trigger] self.handles.contains_key(i) <==> !self.free.contains(i))
    }
}

/// The gravestone of the slot at place `j` of the list of free slots.
spec fn gravestone<R>(free: Seq<u64>, j: int) -> Slot<R> {
    Slot::Gravestone {
        next: if j > 0 {
            Some(free[j - 1])
        } else {
            None
        },
    }
}

impl<R> Slot<R> {
    fn take_gravestone(self) -> (r: Option<u64>)
        requires
            self is Gravestone,
        ensures
            r == self->next,
    {
        match self {
            Slot::Gravestone { next } => next,
            _ => vstd::pervasive::unreached(),
        }
    }

    fn take_filehandle(self) -> (r: FileHandle<R>)
        requires
            self is Used,
        ensures
            r == self->0,
    {
        match self {
            Slot::Used(fh) => fh,
            _ => vstd::pervasive::unreached(),
        }
    }

    fn borrow_fh_mut(&mut self) -> (r: &mut FileHandle<R>)
        requires
            *old(self) is Used,
        ensures
            *r == (*old(self))->0,
            *final(self) == Slot::Used(*final(r)),
    {
        match self {
            Slot::Used(fh) => fh,
            _ => vstd::pervasive::unreached(),
        }
    }

    fn borrow_fh(&self) -> (r: &FileHandle<R>)
        requires
            self is Used,
        ensures
            *r == self->0,
    {
        match self {
            Slot::Used(fh) => fh,
            _ => vstd::pervasive::unreached(),
        }
    }
}

impl<R> View for FhStore<R> {
    type V = FhStoreView<R>;

    closed spec fn view(&self) -> FhStoreView<R> {
        FhStoreView {
            handles: Map::new(
                |i: u64| i < self.inner@.len() && self.inner@[i as int] is Used,
                |i: u64| self.inner@[i as int]->0,
            ),
            free: self.free@,
            slots: self.inner@.len(),
        }
    }
}

impl<R> Default for FhStore<R> {
    fn default() -> (r: Self)
        ensures
            r.wf(),
            r@ == FhStoreView::<R>::empty(),
    {
        let r = FhStore { inner: Vec::new(), first_gravestone: None, free: Ghost(Seq::empty()) };
        assert(r@.handles =~= Map::empty());
        r
    }
}

impl<R> FhStore<R> {
    /// The gravestones form one list, from the slot that was freed last to the one freed first,
    /// and every gravestone is on it.
    pub closed spec fn wf(&self) -> bool {
        let free = self.free@;
        &&& self.first_gravestone == if free.len() > 0 {
            Some(free.last())
        } else {
            None
        }
        &&& free.no_duplicates()
        &&& forall|j: int|
            #![trigger self.inner@[free[j] as int]]
            0 <= j < free.len() ==> free[j] < self.inner@.len() && self.inner@[free[j] as int]
                == gravestone::<R>(free, j)
        &&& forall|i: u64|
            i < self.inner@.len() && self.inner@[i as int] is Gravestone
                ==> #[trigger] free.contains(i)
    }

    pub fn new() -> (r: Self)
        ensures
            r.wf(),
            r@ == FhStoreView::<R>::empty(),
    {
        Self::default()
    }

    /// Each slot is either used or free.
    pub proof fn wf_is_valid(&self)
        requires
            self.wf(),
        ensures
            self@.valid(),
            self@.slots <= usize::MAX,
    {
        assert(self.inner.len() == self.inner@.len());
        assert forall|i: u64| #[trigger] self@.free.contains(i) implies i < self@.slots by {
            let j = choose|j: int| 0 <= j < self.free@.len() && self.free@[j] == i;
            assert(self.inner@[self.free@[j] as int] is Gravestone);
        }
        assert forall|i: u64| i < self@.slots implies (#[trigger] self@.handles.contains_key(i)
            <==> !self@.free.contains(i)) by {
            if self.free@.contains(i) {
                let j = choose|j: int| 0 <= j < self.free@.len() && self.free@[j] == i;
                assert(self.inner@[self.free@[j] as int] is Gravestone);
            }
        }
    }

    /// Whether `after` differs from `before` in the handle at `idx` alone.
    spec fn replaced(before: Self, after: Self, idx: u64) -> bool {
        &&& after.first_gravestone == before.first_gravestone
        &&& after.free == before.free
        &&& idx < before.inner@.len()
        &&& after.inner@ == before.inner@.update(idx as int, after.inner@[idx as int])
        &&& after.inner@[idx as int] is Used
    }

    proof fn lemma_used_replaced(before: Self, after: Self, idx: u64)
        requires
            before.wf(),
            before@.handles.contains_key(idx),
            Self::replaced(before, after, idx),
        ensures
            after.wf(),
            after@.handles == before@.handles.insert(idx, after.inner@[idx as int]->0),
    {
        let fh = after.inner@[idx as int]->0;
        let free = before.free@;
        assert forall|j: int| #![trigger after.inner@[free[j] as int]] 0 <= j
            < free.len() implies free[j] < after.inner@.len() && after.inner@[free[j] as int]
            == gravestone::<R>(free, j) by {
            assert(before.inner@[free[j] as int] == gravestone::<R>(free, j));
        }
        assert(after@.handles =~= before@.handles.insert(idx, fh));
    }

    /// Adds a handle and returns its index: that of the slot that was freed last, or of a new
    /// slot where none is free.
    pub fn push(&mut self, fh: FileHandle<R>) -> (r: u64)
        requires
            old(self).wf(),
        ensures
            final(self).wf(),
            !old(self)@.handles.contains_key(r),
            r == old(self)@.next_index(),
            final(self)@ == old(self)@.pushed(fh),
    {
        let ghost before = *self;
        proof {
            self.wf_is_valid();
        }
        if let Some(idx) = self.first_gravestone.take() {
            let ghost free = self.free@;
            assert(self.inner@[free[free.len() - 1] as int] == gravestone::<R>(
                free,
                free.len() - 1,
            ));
            let mut slot = Slot::Used(fh);
            std::mem::swap(&mut self.inner[idx as usize], &mut slot);
            self.first_gravestone = slot.take_gravestone();
            self.free = Ghost(free.drop_last());
            proof {
                assert forall|j: int| #![trigger self.inner@[self.free@[j] as int]] 0 <= j
                    < self.free@.len() implies self.free@[j] < self.inner@.len()
                    && self.inner@[self.free@[j] as int] == gravestone::<R>(self.free@, j) by {
                    assert(before.inner@[free[j] as int] == gravestone::<R>(free, j));
                }
                assert forall|i: u64| i < self.inner@.len() && self.inner@[i as int]
                    is Gravestone implies #[trigger] self.free@.contains(i) by {
                    assert(free.contains(i));
                    let j = choose|j: int| 0 <= j < free.len() && free[j] == i;
                    assert(self.free@[j] == i);
                }
                assert(self@.handles =~= before@.handles.insert(idx, fh));
            }
            idx
        } else {
            self.inner.push(Slot::Used(fh));
            proof {
                let idx = (self.inner@.len() - 1) as u64;
                assert(self@.handles =~= before@.handles.insert(idx, fh));
            }
            (self.inner.len() - 1) as u64
        }
    }

    /// Takes the handle at `idx` out and frees its slot.
    pub fn delete(&mut self, idx: u64) -> (r: FileHandle<R>)
        requires
            old(self).wf(),
            old(self)@.handles.contains_key(idx),
        ensures
            final(self).wf(),
            r == old(self)@.handles[idx],
            final(self)@ == old(self)@.deleted(idx),
    {
        let ghost before = *self;
        proof {
            self.wf_is_valid();
        }
        let mut slot = Slot::Gravestone { next: self.first_gravestone };
        self.first_gravestone = Some(idx);
        std::mem::swap(&mut self.inner[idx as usize], &mut slot);
        self.free = Ghost(self.free@.push(idx));
        proof {
            let free = before.free@;
            assert(!free.contains(idx));
            assert forall|j: int| #![trigger self.inner@[self.free@[j] as int]] 0 <= j
                < self.free@.len() implies self.free@[j] < self.inner@.len()
                && self.inner@[self.free@[j] as int] == gravestone::<R>(self.free@, j) by {
                if j < free.len() {
                    assert(before.inner@[free[j] as int] == gravestone::<R>(free, j));
                }
            }
            assert forall|i: u64| i < self.inner@.len() && self.inner@[i as int]
                is Gravestone implies #[trigger] self.free@.contains(i) by {
                if i == idx {
                    assert(self.free@[free.len() as int] == idx);
                } else {
                    assert(free.contains(i));
                    let j = choose|j: int| 0 <= j < free.len() && free[j] == i;
                    assert(self.free@[j] == i);
                }
            }
            assert(self@.handles =~= before@.handles.remove(idx));
        }
        slot.take_filehandle()
    }

    /// Whether there is a handle at `idx`.
    pub fn contains(&self, idx: u64) -> (r: bool)
        requires
            self.wf(),
        ensures
            r == self@.handles.contains_key(idx),
    {
        idx < self.inner.len() as u64 && match self.inner[idx as usize] {
            Slot::Used(_) => true,
            Slot::Gravestone { .. } => false,
        }
    }

    /// The handle at `idx`.
    pub fn index(&self, idx: u64) -> (r: &FileHandle<R>)
        requires
            self.wf(),
            self@.handles.contains_key(idx),
        ensures
            *r == self@.handles[idx],
    {
        assert(idx < self.inner.len());
        self.inner[idx as usize].borrow_fh()
    }

    /// The handle at `idx`, for changing it.
    pub fn index_mut(&mut self, idx: u64) -> (r: &mut FileHandle<R>)
        requires
            old(self).wf(),
            old(self)@.handles.contains_key(idx),
        ensures
            *r == old(self)@.handles[idx],
            final(self).wf(),
            final(self)@ == (FhStoreView {
                handles: old(self)@.handles.insert(idx, *final(r)),
                ..old(self)@
            }),
    {
        proof {
            self.wf_is_valid();
        }
        let ghost before = *self;
        proof {
            assert forall|after: Self|
                Self::replaced(before, after, idx) implies #[trigger] after.wf() && after@.handles
                == before@.handles.insert(idx, after.inner@[idx as int]->0) by {
                Self::lemma_used_replaced(before, after, idx);
            }
        }
        self.inner[idx as usize].borrow_fh_mut()
    }
}

/// Adding a handle gives it an index that no other handle has, and leaves every other handle
/// where it was; each slot is still either used or free.
pub proof fn push_keeps_others<R>(v: FhStoreView<R>, fh: FileHandle<R>)
    requires
        v.valid(),
        v.free.len() > 0 || v.slots < u64::MAX,
    ensures
        !v.handles.contains_key(v.next_index()),
        v.pushed(fh).handles[v.next_index()] == fh,
        forall|i: u64|
            i != v.next_index() ==> (#[trigger] v.pushed(fh).handles.contains_key(i)
                <==> v.handles.contains_key(i)) && v.pushed(fh).handles[i] == v.handles[i],
        v.pushed(fh).valid(),
{
    let w = v.pushed(fh);
    let next = v.next_index();
    if v.free.len() > 0 {
        assert(v.free.contains(v.free[v.free.len() - 1]));
        assert forall|i: u64| #[trigger] w.free.contains(i) <==> v.free.contains(i) && i
            != next by {
            if w.free.contains(i) {
                let j = choose|j: int| 0 <= j < w.free.len() && w.free[j] == i;
                assert(v.free[j] == i);
            }
            if v.free.contains(i) && i != next {
                let j = choose|j: int| 0 <= j < v.free.len() && v.free[j] == i;
                assert(w.free[j] == i);
            }
        }
    }
}

/// Deleting a handle leaves every other handle where it was; each slot is still either used or
/// free.
pub proof fn delete_keeps_others<R>(v: FhStoreView<R>, idx: u64)
    requires
        v.valid(),
        v.handles.contains_key(idx),
    ensures
        !v.deleted(idx).handles.contains_key(idx),
        forall|i: u64|
            i != idx ==> (#[trigger] v.deleted(idx).handles.contains_key(i)
                <==> v.handles.contains_key(i)) && v.deleted(idx).handles[i] == v.handles[i],
        v.deleted(idx).valid(),
{
    let w = v.deleted(idx);
    assert forall|i: u64| #[trigger] w.free.contains(i) <==> v.free.contains(i) || i == idx by {
        if w.free.contains(i) {
            let j = choose|j: int| 0 <= j < w.free.len() && w.free[j] == i;
            if j < v.free.len() {
                assert(v.free[j] == i);
            }
        }
        if v.free.contains(i) {
            let j = choose|j: int| 0 <= j < v.free.len() && v.free[j] == i;
            assert(w.free[j] == i);
        }
        assert(w.free[v.free.len() as int] == idx);
    }
}

/// What was added is what deleting takes out again, and the handles are then those from before.
pub proof fn delete_undoes_push<R>(v: FhStoreView<R>, fh: FileHandle<R>)
    requires
        v.valid(),
        v.free.len() > 0 || v.slots < u64::MAX,
    ensures
        v.pushed(fh).handles.contains_key(v.next_index()),
        v.pushed(fh).handles[v.next_index()] == fh,
        v.pushed(fh).deleted(v.next_index()).handles == v.handles,
{
    push_keeps_others(v, fh);
    assert(v.pushed(fh).deleted(v.next_index()).handles =~= v.handles);
}

/// The slot of a deleted handle is used for the next one.
pub proof fn slot_is_reused<R>(v: FhStoreView<R>, idx: u64, fh: FileHandle<R>)
    requires
        v.valid(),
        v.handles.contains_key(idx),
    ensures
        v.deleted(idx).next_index() == idx,
        v.deleted(idx).pushed(fh) == (FhStoreView {
            handles: v.handles.insert(idx, fh),
            free: v.free,
            slots: v.slots,
        }),
{
    let w = v.deleted(idx).pushed(fh);
    assert(w.handles =~= v.handles.insert(idx, fh));
    assert(w.free =~= v.free);
}

/// A slot is added only where every slot is used.
pub proof fn grows_only_when_full<R>(v: FhStoreView<R>, fh: FileHandle<R>)
    requires
        v.valid(),
        v.free.len() > 0 || v.slots < u64::MAX,
    ensures
        v.pushed(fh).slots > v.slots <==> forall|i: u64|
            i < v.slots ==> #[trigger] v.handles.contains_key(i),
{
    if v.free.len() > 0 {
        let i = v.free[0];
        assert(v.free.contains(i));
        assert(!v.handles.contains_key(i));
    }
}

/// What can be done to a store.
pub enum FhOp<R> {
    Push(FileHandle<R>),
    Delete(u64),
    /// Change the handle at the index to this one.
    Change(u64, FileHandle<R>),
}

impl<R> FhStoreView<R> {
    /// Whether `op` can be done: a new slot can be counted, a handle that is
    /// deleted or changed is there.
    pub open spec fn allows(self, op: FhOp<R>) -> bool {
        match op {
            FhOp::Push(_) => self.free.len() > 0 || self.slots < u64::MAX,
            FhOp::Delete(idx) => self.handles.contains_key(idx),
            FhOp::Change(idx, _) => self.handles.contains_key(idx),
        }
    }

    /// The store once `op` was done.
    pub open spec fn after(self, op: FhOp<R>) -> Self {
        match op {
            FhOp::Push(fh) => self.pushed(fh),
            FhOp::Delete(idx) => self.deleted(idx),
            FhOp::Change(idx, fh) => FhStoreView { handles: self.handles.insert(idx, fh), ..self },
        }
    }
}

/// Whether `states` are those of a store that begins empty, before and after each of `ops`.
pub open spec fn is_history<R>(states: Seq<FhStoreView<R>>, ops: Seq<FhOp<R>>) -> bool {
    &&& states.len() == ops.len() + 1
    &&& states[0] == FhStoreView::<R>::empty()
    &&& forall|i: int| 0 <= i < ops.len() ==> states[i].allows(#[trigger] ops[i])
    &&& forall|i: int| 0 <= i < ops.len() ==> states[i + 1] == states[i].after(#[trigger] ops[i])
}

/// Whether some push in the history returned the index `idx`.
pub open spec fn returned<R>(states: Seq<FhStoreView<R>>, ops: Seq<FhOp<R>>, idx: u64) -> bool {
    exists|i: int| 0 <= i < ops.len() && #[trigger] ops[i] is Push && states[i].next_index() == idx
}

/// Whether at some time in the history `n` handles were present.
pub open spec fn was_live<R>(states: Seq<FhStoreView<R>>, n: nat) -> bool {
    exists|i: int| 0 <= i < states.len() && (#[trigger] states[i]).handles.dom().len() == n
}

proof fn lemma_history<R>(states: Seq<FhStoreView<R>>, ops: Seq<FhOp<R>>)
    requires
        is_history(states, ops),
    ensures
        states.last().valid(),
        states.last().slots <= u64::MAX,
        states.last().handles.dom().finite(),
        states.last().handles.dom().len() + states.last().free.len() == states.last().slots,
        forall|i: int|
            0 <= i < states.len() ==> (#[trigger] states[i]).handles.dom().len()
                <= states.last().slots,
        was_live(states, states.last().slots),
        forall|idx: u64| #[trigger] returned(states, ops, idx) ==> idx < states.last().slots,
        states.last().slots > 0 ==> returned(states, ops, (states.last().slots - 1) as u64),
    decreases ops.len(),
{
    if ops.len() == 0 {
        assert(states.last() == states[0]);
        assert(states[0].handles.dom() =~= Set::empty());
    } else {
        let n = ops.len() - 1;
        let earlier = states.drop_last();
        let before = ops.drop_last();
        assert forall|i: int| 0 <= i < before.len() implies earlier[i].allows(#[trigger] before[i])
            && earlier[i + 1] == earlier[i].after(before[i]) by {
            assert(before[i] == ops[i]);
        }
        lemma_history(earlier, before);
        let v = states[n];
        let w = states[n + 1];
        assert(v == earlier.last());
        assert(v.allows(ops[n]) && w == v.after(ops[n]));
        match ops[n] {
            FhOp::Push(fh) => {
                if v.free.len() > 0 {
                    assert(v.free.contains(v.free[v.free.len() - 1]));
                }
                push_keeps_others(v, fh);
            },
            FhOp::Delete(idx) => {
                delete_keeps_others(v, idx);
            },
            FhOp::Change(idx, fh) => {
                assert(w.handles.dom() =~= v.handles.dom());
            },
        }
        assert(forall|i: int| 0 <= i < earlier.len() ==> #[trigger] earlier[i] == states[i]);
        assert forall|i: int|
            0 <= i < states.len() implies (#[trigger] states[i]).handles.dom().len()
            <= w.slots by {
            if i <= n {
                assert(earlier[i].handles.dom().len() <= v.slots);
            }
        }
        if w.slots > v.slots {
            assert(states[n + 1].handles.dom().len() == w.slots);
            assert(ops[n] is Push);
            assert(returned(states, ops, (w.slots - 1) as u64));
        } else {
            let i = choose|i: int|
                0 <= i < earlier.len() && (#[trigger] earlier[i]).handles.dom().len() == v.slots;
            assert(states[i].handles.dom().len() == w.slots);
            if w.slots > 0 {
                let top = (v.slots - 1) as u64;
                let j = choose|j: int|
                    0 <= j < before.len() && #[trigger] before[j] is Push
                        && earlier[j].next_index() == top;
                assert(ops[j] is Push && states[j].next_index() == top);
            }
        }
        assert forall|idx: u64| #[trigger] returned(states, ops, idx) implies idx < w.slots by {
            let j = choose|j: int|
                0 <= j < ops.len() && #[trigger] ops[j] is Push && states[j].next_index() == idx;
            if j < n {
                assert(before[j] is Push && earlier[j].next_index() == idx);
                assert(returned(earlier, before, idx));
            }
        }
    }
}

/// No slot is wasted: at any time in its history, a store that begins empty has as many slots as
/// the largest number of handles that were present at one time.
pub proof fn slots_are_peak_use<R>(states: Seq<FhStoreView<R>>, ops: Seq<FhOp<R>>)
    requires
        is_history(states, ops),
    ensures
        was_live(states, states.last().slots),
        forall|n: nat| #[trigger] was_live(states, n) ==> n <= states.last().slots,
{
    lemma_history(states, ops);
}

/// One more than the largest index that was ever returned is the largest number of handles that
/// were present at one time.
pub proof fn largest_index_is_peak_use<R>(
    states: Seq<FhStoreView<R>>,
    ops: Seq<FhOp<R>>,
    largest: u64,
    peak: nat,
)
    requires
        is_history(states, ops),
        returned(states, ops, largest),
        forall|idx: u64| #[trigger] returned(states, ops, idx) ==> idx <= largest,
        was_live(states, peak),
        forall|n: nat| #[trigger] was_live(states, n) ==> n <= peak,
    ensures
        largest + 1 == peak,
{
    lemma_history(states, ops);
}

/// Every state in the history of a store is one in which each slot is either used or free.
pub proof fn history_keeps_valid<R>(states: Seq<FhStoreView<R>>, ops: Seq<FhOp<R>>)
    requires
        is_history(states, ops),
    ensures
        states.last().valid(),
        states.last().handles.dom().len() + states.last().free.len() == states.last().slots,
{
    lemma_history(states, ops);
}

/// A handle gets the index that was freed last, or else the number of handles that are present;
/// it is found there, and nothing else changes.
pub proof fn handle_is_found_at_its_index<R>(v: FhStoreView<R>, fh: FileHandle<R>, i: u64)
    requires
        v.valid(),
        v.free.len() > 0 || v.slots < u64::MAX,
    ensures
        v.free.len() > 0 ==> v.next_index() == v.free[v.free.len() - 1],
        v.free.len() == 0 ==> v.next_index() == v.slots,
        v.free.len() == 0 ==> forall|j: u64| #[trigger] v.handles.contains_key(j) <==> j < v.slots,
        v.pushed(fh).handles == v.handles.insert(v.next_index(), fh),
        v.pushed(fh).free.len() > 0 ==> v.pushed(fh).free == v.free.take(v.free.len() - 1),
        v.deleted(i).handles == v.handles.remove(i),
        v.deleted(i).free == v.free.push(i),
        v.deleted(i).slots == v.slots,
{
}

} // verus!
