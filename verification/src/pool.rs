//! Fixed-capacity object pools with generation-checked handles: the storage
//! discipline shared by every world entity kind (bullets, enemies, items,
//! lasers). The lowest free slot is always taken first, every allocation
//! bumps the slot's generation, and a zeroed handle never names anything.
use vstd::prelude::*;
use crate::checksum::{fnv_fold, lemma_fold_concat, seq_checksum_bytes, Checksum, Fnv1a64};

verus! {

/// Generation-checked reference to a pool slot.
#[derive(Clone, Copy, Debug, PartialEq, Eq, Structural)]
pub struct Handle {
    pub index: u16,
    pub generation: u16,
}

impl Handle {
    /// The handle that names nothing.
    pub open spec fn spec_null() -> Handle {
        Handle { index: 0xFFFF, generation: 0 }
    }

    /// The handle that names nothing.
    pub fn null() -> (r: Handle)
        ensures
            r == Handle::spec_null(),
    {
        Handle { index: 0xFFFF, generation: 0 }
    }
}

/// One pool slot: occupancy, generation and record.
#[derive(Clone, Copy)]
pub struct Slot<T> {
    pub alive: bool,
    pub generation: u16,
    pub item: T,
}

/// A fixed-capacity pool: the lowest free slot is allocated first, and each
/// allocation bumps the slot's generation (skipping 0), so a handle names
/// the slot only while that very allocation lives, and a zeroed handle never
/// names anything.
pub struct Pool<T> {
    slots: Vec<Slot<T>>,
}

/// The next generation after `g` (wrapping, never 0).
pub open spec fn next_generation(g: u16) -> u16 {
    if g == 0xFFFF {
        1
    } else {
        (g + 1) as u16
    }
}

impl<T> Pool<T> {
    /// Indices fit below the null index.
    #[verifier::type_invariant]
    closed spec fn wf(&self) -> bool {
        self.slots@.len() < 0xFFFF
    }
}

impl<T: Copy> Pool<T> {
    /// Capacity.
    pub closed spec fn spec_cap(&self) -> nat {
        self.slots@.len()
    }

    /// Whether slot `i` is occupied.
    pub closed spec fn spec_alive(&self, i: int) -> bool {
        0 <= i < self.slots@.len() && self.slots@[i].alive
    }

    /// Generation of slot `i`.
    pub closed spec fn spec_generation(&self, i: int) -> u16 {
        self.slots@[i].generation
    }

    /// Record stored in slot `i`.
    pub closed spec fn spec_item(&self, i: int) -> T {
        self.slots@[i].item
    }

    /// Every occupied slot carries a non-zero generation (so the zeroed
    /// handle names nothing); every operation keeps this.
    pub open spec fn well_formed(&self) -> bool {
        &&& self.spec_cap() < 0xFFFF
        &&& forall|i: int| #[trigger] self.spec_alive(i) ==> self.spec_generation(i) != 0
    }

    /// Both pools hold the same state, slot by slot.
    pub open spec fn same_state(&self, other: Self) -> bool {
        &&& self.spec_cap() == other.spec_cap()
        &&& forall|j: int| #[trigger] self.spec_alive(j) == other.spec_alive(j)
        &&& forall|j: int| 0 <= j < self.spec_cap() ==> #[trigger] self.spec_generation(j) == other.spec_generation(j)
        &&& forall|j: int| 0 <= j < self.spec_cap() ==> #[trigger] self.spec_item(j) == other.spec_item(j)
    }

    /// `h` names a live slot of this pool.
    pub open spec fn spec_valid(&self, h: Handle) -> bool {
        self.spec_alive(h.index as int) && self.spec_generation(h.index as int) == h.generation
    }

    /// `after` is `before` once `allocate(v)` has returned `r`: the lowest
    /// free slot, with the next generation and `v`; nothing when full.
    pub open spec fn allocated(before: Self, after: Self, v: T, r: Option<Handle>) -> bool {
        &&& after.spec_cap() == before.spec_cap()
        &&& match r {
            Some(h) => {
                &&& h.index < before.spec_cap()
                &&& !before.spec_alive(h.index as int)
                &&& forall|j: int| 0 <= j < h.index ==> #[trigger] before.spec_alive(j)
                &&& h.generation == next_generation(before.spec_generation(h.index as int))
                &&& forall|j: int| #[trigger] after.spec_alive(j) == (before.spec_alive(j) || j == h.index)
                &&& forall|j: int| 0 <= j < before.spec_cap() ==> #[trigger] after.spec_generation(j) == (if j == h.index {
                    h.generation
                } else {
                    before.spec_generation(j)
                })
                &&& forall|j: int| 0 <= j < before.spec_cap() ==> #[trigger] after.spec_item(j) == (if j == h.index {
                    v
                } else {
                    before.spec_item(j)
                })
            },
            None => {
                &&& forall|j: int| 0 <= j < before.spec_cap() ==> #[trigger] before.spec_alive(j)
                &&& forall|j: int| #[trigger] after.spec_alive(j) == before.spec_alive(j)
                &&& forall|j: int| 0 <= j < before.spec_cap() ==> #[trigger] after.spec_generation(j) == before.spec_generation(j)
                &&& forall|j: int| 0 <= j < before.spec_cap() ==> #[trigger] after.spec_item(j) == before.spec_item(j)
            },
        }
    }

    /// `after` is `before` once `free(h)` has returned `r`: `r` says whether
    /// `h` named a live slot, which is then the only one no longer occupied.
    pub open spec fn freed(before: Self, after: Self, h: Handle, r: bool) -> bool {
        &&& after.spec_cap() == before.spec_cap()
        &&& r == before.spec_valid(h)
        &&& forall|j: int| #[trigger] after.spec_alive(j) == (before.spec_alive(j) && !(r && j == h.index))
        &&& forall|j: int| 0 <= j < before.spec_cap() ==> #[trigger] after.spec_generation(j) == before.spec_generation(j)
        &&& forall|j: int| 0 <= j < before.spec_cap() ==> #[trigger] after.spec_item(j) == before.spec_item(j)
    }

    /// An empty pool of `cap` slots filled with `fill`.
    pub fn new(cap: usize, fill: T) -> (r: Self)
        requires
            cap < 0xFFFF,
        ensures
            r.spec_cap() == cap,
            r.well_formed(),
            forall|i: int| !#[trigger] r.spec_alive(i),
            forall|i: int| 0 <= i < cap ==> #[trigger] r.spec_generation(i) == 0,
            forall|i: int| 0 <= i < cap ==> #[trigger] r.spec_item(i) == fill,
    {
        let mut slots: Vec<Slot<T>> = Vec::new();
        let mut i: usize = 0;
        while i < cap
            invariant
                i <= cap,
                slots@.len() == i,
                forall|j: int| 0 <= j < i ==> #[trigger] slots@[j] == (Slot { alive: false, generation: 0, item: fill }),
            decreases cap - i,
        {
            slots.push(Slot { alive: false, generation: 0, item: fill });
            i += 1;
        }
        Pool { slots }
    }

    /// Capacity.
    pub fn cap(&self) -> (r: usize)
        ensures
            r == self.spec_cap(),
            r < 0xFFFF,
    {
        proof {
            use_type_invariant(self);
        }
        self.slots.len()
    }

    /// Whether slot `i` is occupied (false out of range).
    pub fn is_alive(&self, i: usize) -> (r: bool)
        ensures
            r == self.spec_alive(i as int),
    {
        i < self.slots.len() && self.slots[i].alive
    }

    /// Generation of slot `i`.
    pub fn generation(&self, i: usize) -> (r: u16)
        requires
            i < self.spec_cap(),
        ensures
            r == self.spec_generation(i as int),
    {
        self.slots[i].generation
    }

    /// The slot `h` names, if it names a live one.
    pub fn get(&self, h: Handle) -> (r: Option<usize>)
        ensures
            match r {
                Some(i) => i == h.index && self.spec_valid(h),
                None => !self.spec_valid(h),
            },
    {
        let i = h.index as usize;
        if i < self.slots.len() && self.slots[i].alive && self.slots[i].generation == h.generation {
            Some(i)
        } else {
            None
        }
    }

    /// The record in slot `i`.
    pub fn item(&self, i: usize) -> (r: T)
        requires
            i < self.spec_cap(),
        ensures
            r == self.spec_item(i as int),
    {
        self.slots[i].item
    }

    fn replace_slot(&mut self, i: usize, s: Slot<T>)
        requires
            i < old(self).spec_cap(),
        ensures
            final(self).slots@ == old(self).slots@.update(i as int, s),
    {
        proof {
            use_type_invariant(&*self);
        }
        let mut v: Vec<Slot<T>> = Vec::new();
        std::mem::swap(&mut v, &mut self.slots);
        v.set(i, s);
        std::mem::swap(&mut v, &mut self.slots);
    }

    /// Overwrites the record in slot `i` (occupancy and generation unchanged).
    pub fn set_item(&mut self, i: usize, v: T)
        requires
            i < old(self).spec_cap(),
        ensures
            old(self).well_formed() ==> final(self).well_formed(),
            final(self).spec_cap() == old(self).spec_cap(),
            forall|j: int| #[trigger] final(self).spec_alive(j) == old(self).spec_alive(j),
            forall|j: int| 0 <= j < old(self).spec_cap() ==> #[trigger] final(self).spec_generation(j) == old(self).spec_generation(j),
            forall|j: int|
                0 <= j < old(self).spec_cap() ==> #[trigger] final(self).spec_item(j) == (if j == i {
                    v
                } else {
                    old(self).spec_item(j)
                }),
    {
        let s = self.slots[i];
        self.replace_slot(i, Slot { item: v, ..s });
        proof {
            assert forall|j: int| #[trigger] self.spec_alive(j) && old(self).well_formed() implies self.spec_generation(j) != 0 by {
                assert(old(self).spec_alive(j));
            }
        }
    }

    /// Occupies the lowest free slot with `v` and bumps its generation;
    /// `None` (and no change) when full.
    pub fn allocate(&mut self, v: T) -> (r: Option<Handle>)
        ensures
            Self::allocated(*old(self), *final(self), v, r),
            old(self).well_formed() ==> final(self).well_formed(),
    {
        proof {
            use_type_invariant(&*self);
        }
        let n = self.slots.len();
        let mut i: usize = 0;
        while i < n
            invariant
                n == self.slots@.len(),
                n < 0xFFFF,
                i <= n,
                self.slots@ == old(self).slots@,
                forall|j: int| 0 <= j < i ==> #[trigger] old(self).spec_alive(j),
            decreases n - i,
        {
            if !self.slots[i].alive {
                let g = self.slots[i].generation;
                let ng: u16 = if g == 0xFFFF {
                    1
                } else {
                    g + 1
                };
                self.replace_slot(i, Slot { alive: true, generation: ng, item: v });
                proof {
                    assert forall|j: int| #[trigger] self.spec_alive(j) && old(self).well_formed() implies self.spec_generation(j) != 0 by {
                        if j != i {
                            assert(old(self).spec_alive(j));
                        }
                    }
                }
                return Some(Handle { index: i as u16, generation: ng });
            }
            i += 1;
        }
        None
    }

    /// Frees the slot `h` names; false (and no change) when it names none.
    pub fn free(&mut self, h: Handle) -> (r: bool)
        ensures
            Self::freed(*old(self), *final(self), h, r),
            old(self).well_formed() ==> final(self).well_formed(),
    {
        match self.get(h) {
            Some(i) => {
                let s = self.slots[i];
                self.replace_slot(i, Slot { alive: false, ..s });
                true
            },
            None => false,
        }
    }

    /// Occupied slot indices in ascending order.
    pub fn iter_alive(&self) -> (r: Vec<usize>)
        ensures
            forall|k: int| 0 <= k < r@.len() ==> self.spec_alive(#[trigger] r@[k] as int),
            forall|i: int| #[trigger] self.spec_alive(i) ==> r@.contains(i as usize),
            forall|a: int, b: int| 0 <= a < b < r@.len() ==> #[trigger] r@[a] < #[trigger] r@[b],
    {
        let n = self.slots.len();
        let mut r: Vec<usize> = Vec::new();
        let mut i: usize = 0;
        while i < n
            invariant
                n == self.slots@.len(),
                i <= n,
                forall|k: int| 0 <= k < r@.len() ==> self.spec_alive(#[trigger] r@[k] as int) && r@[k] < i,
                forall|j: int| 0 <= j < i && #[trigger] self.spec_alive(j) ==> r@.contains(j as usize),
                forall|a: int, b: int| 0 <= a < b < r@.len() ==> #[trigger] r@[a] < #[trigger] r@[b],
            decreases n - i,
        {
            if self.slots[i].alive {
                let ghost old_r = r@;
                r.push(i);
                proof {
                    assert forall|j: int| 0 <= j < i + 1 && #[trigger] self.spec_alive(j) implies r@.contains(j as usize) by {
                        if j == i {
                            assert(r@[r@.len() - 1] == j as usize);
                        } else {
                            assert(old_r.contains(j as usize));
                            let k = choose|k: int| 0 <= k < old_r.len() && old_r[k] == j as usize;
                            assert(r@[k] == j as usize);
                        }
                    }
                }
            }
            i += 1;
        }
        r
    }

    /// Sets the generation of slot `i` directly (restoring saved state).
    pub fn set_generation(&mut self, i: usize, g: u16)
        requires
            i < old(self).spec_cap(),
        ensures
            old(self).well_formed() && (g != 0 || !old(self).spec_alive(i as int)) ==> final(self).well_formed(),
            final(self).spec_cap() == old(self).spec_cap(),
            forall|j: int| #[trigger] final(self).spec_alive(j) == old(self).spec_alive(j),
            forall|j: int| 0 <= j < old(self).spec_cap() ==> #[trigger] final(self).spec_generation(j) == (if j == i {
                g
            } else {
                old(self).spec_generation(j)
            }),
            forall|j: int| 0 <= j < old(self).spec_cap() ==> #[trigger] final(self).spec_item(j) == old(self).spec_item(j),
    {
        let s = self.slots[i];
        self.replace_slot(i, Slot { generation: g, ..s });
        proof {
            assert forall|j: int| #[trigger] self.spec_alive(j) && old(self).well_formed() && (g != 0 || !old(self).spec_alive(i as int))
                implies self.spec_generation(j) != 0 by {
                assert(old(self).spec_alive(j));
            }
        }
    }
}

impl<T: Checksum> Checksum for Slot<T> {
    open spec fn checksum_bytes(&self) -> Seq<u8> {
        self.alive.checksum_bytes() + self.generation.checksum_bytes() + self.item.checksum_bytes()
    }

    fn hash_into(&self, h: &mut Fnv1a64) {
        let ghost s0 = h@;
        self.alive.hash_into(h);
        self.generation.hash_into(h);
        proof { crate::checksum::lemma_fold_concat(s0, self.alive.checksum_bytes(), self.generation.checksum_bytes()); }
        self.item.hash_into(h);
        proof { crate::checksum::lemma_fold_concat(s0, self.alive.checksum_bytes() + self.generation.checksum_bytes(), self.item.checksum_bytes()); }
    }
}

impl<T: Checksum> Checksum for Pool<T> {
    closed spec fn checksum_bytes(&self) -> Seq<u8> {
        seq_checksum_bytes(self.slots@)
    }

    fn hash_into(&self, h: &mut Fnv1a64) {
        let ghost start = h@;
        let n = self.slots.len();
        let mut i: usize = 0;
        while i < n
            invariant
                i <= n,
                n == self.slots@.len(),
                h@ == fnv_fold(start, seq_checksum_bytes(self.slots@.take(i as int))),
            decreases n - i,
        {
            self.slots[i].hash_into(h);
            proof {
                let t = self.slots@.take(i + 1);
                assert(t.drop_last() =~= self.slots@.take(i as int));
                assert(t.last() == self.slots@[i as int]);
                lemma_fold_concat(start, seq_checksum_bytes(self.slots@.take(i as int)), self.slots@[i as int].checksum_bytes());
            }
            i += 1;
        }
        assert(self.slots@.take(n as int) =~= self.slots@);
    }
}

impl<T: Copy> Pool<T> {
    /// Copies this pool's whole state into `dst` (same capacity).
    pub fn copy_into(&self, dst: &mut Pool<T>)
        requires
            old(dst).spec_cap() == self.spec_cap(),
        ensures
            final(dst).same_state(*self),
            self.well_formed() ==> final(dst).well_formed(),
    {
        proof {
            use_type_invariant(self);
            use_type_invariant(&*dst);
        }
        let n = self.slots.len();
        let mut i: usize = 0;
        while i < n
            invariant
                i <= n,
                n == self.slots@.len(),
                dst.slots@.len() == n,
                n < 0xFFFF,
                forall|j: int| 0 <= j < i ==> #[trigger] dst.slots@[j] == self.slots@[j],
            decreases n - i,
        {
            dst.replace_slot(i, self.slots[i]);
            i += 1;
        }
        assert(dst.slots@ =~= self.slots@);
        proof {
            assert forall|j: int| #[trigger] dst.spec_alive(j) && self.well_formed() implies dst.spec_generation(j) != 0 by {
                assert(self.spec_alive(j));
            }
        }
    }
}


/// A handle from a successful allocation names the slot holding the new
/// record.
pub proof fn law_allocated_handle_names_its_record<T: Copy>(before: Pool<T>, after: Pool<T>, v: T, h: Handle)
    requires
        Pool::allocated(before, after, v, Some(h)),
    ensures
        after.spec_valid(h),
        after.spec_item(h.index as int) == v,
{
    assert(after.spec_alive(h.index as int));
}

/// Allocation fails exactly when every slot is occupied, and a failed
/// allocation changes nothing.
pub proof fn law_allocation_fails_only_when_full<T: Copy>(before: Pool<T>, after: Pool<T>, v: T, r: Option<Handle>)
    requires
        Pool::allocated(before, after, v, r),
    ensures
        r is None <==> forall|j: int| 0 <= j < before.spec_cap() ==> #[trigger] before.spec_alive(j),
        r is None ==> after.same_state(before),
{
    if let Some(h) = r {
        assert(!before.spec_alive(h.index as int));
    }
}

/// After `free(h)` the handle names nothing, whatever `free` returned, and
/// freeing it a second time reports false and changes nothing.
pub proof fn law_freed_handle_is_stale<T: Copy>(p0: Pool<T>, p1: Pool<T>, p2: Pool<T>, h: Handle, r1: bool, r2: bool)
    requires
        Pool::freed(p0, p1, h, r1),
        Pool::freed(p1, p2, h, r2),
    ensures
        !p1.spec_valid(h),
        !r2,
        p2.same_state(p1),
{
    if p1.spec_valid(h) {
        assert(p1.spec_alive(h.index as int));
        assert(p0.spec_alive(h.index as int));
    }
}

/// Once a slot is freed and allocated again, the old handle no longer
/// names it while the new one does; when every lower slot is occupied the
/// new allocation reuses that very slot.
pub proof fn law_reallocation_defeats_stale_handle<T: Copy>(
    p0: Pool<T>,
    p1: Pool<T>,
    p2: Pool<T>,
    h: Handle,
    v: T,
    h2: Handle,
)
    requires
        Pool::freed(p0, p1, h, true),
        Pool::allocated(p1, p2, v, Some(h2)),
    ensures
        !p2.spec_valid(h),
        p2.spec_valid(h2),
        (forall|j: int| 0 <= j < h.index ==> #[trigger] p0.spec_alive(j)) ==> h2.index == h.index,
{
    assert(p0.spec_alive(h.index as int));
    assert(!p1.spec_alive(h.index as int));
    assert(p2.spec_alive(h2.index as int));
    if h2.index != h.index {
        assert(!p2.spec_alive(h.index as int));
    } else {
        assert(p1.spec_generation(h.index as int) == h.generation);
    }
    if forall|j: int| 0 <= j < h.index ==> #[trigger] p0.spec_alive(j) {
        if h2.index < h.index {
            assert(p0.spec_alive(h2.index as int));
            assert(p1.spec_alive(h2.index as int));
        }
        if h2.index > h.index {
            assert(p1.spec_alive(h.index as int));
        }
    }
}

/// In a well-formed pool neither the zeroed handle nor the null handle
/// names anything.
pub proof fn law_zeroed_and_null_handles_name_nothing<T: Copy>(p: Pool<T>)
    requires
        p.well_formed(),
    ensures
        !p.spec_valid(Handle { index: 0, generation: 0 }),
        !p.spec_valid(Handle::spec_null()),
{
    if p.spec_alive(0) {
        assert(p.spec_generation(0) != 0);
    }
}

/// Pools in the same state have the same checksum (so a copy checksums
/// like its source).
pub proof fn law_same_state_same_checksum<T: Copy + Checksum>(a: Pool<T>, b: Pool<T>)
    requires
        a.same_state(b),
    ensures
        a.checksum_bytes() == b.checksum_bytes(),
{
    assert forall|j: int| 0 <= j < a.slots@.len() implies a.slots@[j] == b.slots@[j] by {
        assert(a.spec_alive(j) == b.spec_alive(j));
        assert(a.spec_generation(j) == b.spec_generation(j));
        assert(a.spec_item(j) == b.spec_item(j));
    }
    assert(a.slots@ =~= b.slots@);
}

} // verus!
