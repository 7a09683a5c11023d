//! The task pool: a fixed array of coroutine states whose allocator is the
//! liveness bitmap itself (lowest free slot first, no per-slot generation).
//! Each slot also owns `SHOOTERS_PER_TASK` shooter slots, reset on spawn.
use vstd::prelude::*;
use crate::checksum::{Checksum, Fnv1a64};
use crate::ecl::image::SubId;
use crate::ecl::shooter::{default_shooter, ShooterSlot, SHOOTERS_PER_TASK};

verus! {

pub const TASK_CAP: usize = 256;
pub const EVAL_DEPTH: usize = 32;
pub const CALL_DEPTH: usize = 8;
pub const LOCALS: usize = 64;

/// Owner kind: the stage (always valid).
pub const OWNER_STAGE: u8 = 0;
/// Owner kind: an enemy.
pub const OWNER_ENEMY: u8 = 1;
/// Owner kind: a bullet.
pub const OWNER_BULLET: u8 = 2;

/// The complete, flat state of one script coroutine.
#[derive(Clone, Copy)]
pub struct Task {
    /// The sub the task was started from.
    pub script: SubId,
    /// Absolute word index into the image's code.
    pub pc: u32,
    /// Frames left to sleep; the scheduler skips the task while positive.
    pub wait: u16,
    /// Frame of birth: a task first runs on the frame after.
    pub born_frame: u32,
    pub owner_kind: u8,
    pub owner_index: u16,
    pub owner_gen: u16,
    /// Parent pool index + 1; 0 = none.
    pub parent: u16,
    /// Bound spell slot + 1; 0 = unbound.
    pub spell_bound: u8,
    /// Generation stamp of the bound spell slot when the binding was made.
    pub spell_epoch: u16,
    /// Evaluation stack top (0..=EVAL_DEPTH).
    pub sp: u8,
    /// Call stack top (0..=CALL_DEPTH).
    pub csp: u8,
    pub stack: [i32; EVAL_DEPTH],
    pub calls: [u32; CALL_DEPTH],
    pub locals: [i32; LOCALS],
}

/// A task just spawned from `script` at `pc`: no wait, empty stacks, zeroed
/// locals, unbound.
pub open spec fn fresh_task(script: SubId, pc: u32, owner: (u8, u16, u16), parent: u16, frame: u32) -> Task {
    Task {
        script,
        pc,
        wait: 0,
        born_frame: frame,
        owner_kind: owner.0,
        owner_index: owner.1,
        owner_gen: owner.2,
        parent,
        spell_bound: 0,
        spell_epoch: 0,
        sp: 0,
        csp: 0,
        stack: [0i32; EVAL_DEPTH],
        calls: [0u32; CALL_DEPTH],
        locals: [0i32; LOCALS],
    }
}

impl Default for Task {
    /// The all-zero task (stage-owned, sub 0, pc 0).
    fn default() -> (r: Task)
        ensures
            r == fresh_task(SubId::spec_zero(), 0, (OWNER_STAGE, 0, 0), 0, 0),
    {
        Task {
            script: SubId::default(),
            pc: 0,
            wait: 0,
            born_frame: 0,
            owner_kind: OWNER_STAGE,
            owner_index: 0,
            owner_gen: 0,
            parent: 0,
            spell_bound: 0,
            spell_epoch: 0,
            sp: 0,
            csp: 0,
            stack: [0; EVAL_DEPTH],
            calls: [0; CALL_DEPTH],
            locals: [0; LOCALS],
        }
    }
}

/// The stack pointers of `t` lie inside their stacks.
pub open spec fn task_wf(t: Task) -> bool {
    t.sp as int <= EVAL_DEPTH && t.csp as int <= CALL_DEPTH
}

/// Bit `b` of `x` is set.
pub open spec fn bit_set(x: u64, b: u64) -> bool {
    (x >> b) & 1u64 == 1u64
}

proof fn lemma_or_bit(x: u64, b: u64, c: u64)
    requires
        b < 64,
        c < 64,
    ensures
        bit_set(x | (1u64 << b), c) == (c == b || bit_set(x, c)),
{
    assert(((x | (1u64 << b)) >> c) & 1u64 == 1u64 <==> (c == b || (x >> c) & 1u64 == 1u64))
        by (bit_vector)
        requires
            b < 64,
            c < 64,
    ;
}

proof fn lemma_andnot_bit(x: u64, b: u64, c: u64)
    requires
        b < 64,
        c < 64,
    ensures
        bit_set(x & !(1u64 << b), c) == (c != b && bit_set(x, c)),
{
    assert(((x & !(1u64 << b)) >> c) & 1u64 == 1u64 <==> (c != b && (x >> c) & 1u64 == 1u64))
        by (bit_vector)
        requires
            b < 64,
            c < 64,
    ;
}

proof fn lemma_not_bit(x: u64, c: u64)
    requires
        c < 64,
    ensures
        ((!x) >> c) & 1u64 == 1u64 <==> !bit_set(x, c),
        ((!x) >> c) & 1u64 == 0u64 <==> bit_set(x, c),
{
    assert(((!x) >> c) & 1u64 == 1u64 <==> !((x >> c) & 1u64 == 1u64)) by (bit_vector)
        requires
            c < 64,
    ;
    assert(((!x) >> c) & 1u64 == 0u64 <==> ((x >> c) & 1u64 == 1u64)) by (bit_vector)
        requires
            c < 64,
    ;
}

proof fn lemma_full_word(x: u64, c: u64)
    requires
        c < 64,
        x == 0xFFFF_FFFF_FFFF_FFFFu64,
    ensures
        bit_set(x, c),
{
    assert((x >> c) & 1u64 == 1u64) by (bit_vector)
        requires
            c < 64,
            x == 0xFFFF_FFFF_FFFF_FFFFu64,
    ;
}

/// The task pool: `TASK_CAP` slots, their shooters, and the liveness bitmap.
pub struct TaskPool {
    slots: [Task; TASK_CAP],
    shooters: [[ShooterSlot; SHOOTERS_PER_TASK]; TASK_CAP],
    alive: [u64; 4],
}

impl TaskPool {
    /// Every slot's stack pointers lie inside their stacks.
    #[verifier::type_invariant]
    closed spec fn inv(self) -> bool {
        forall|i: int| 0 <= i < TASK_CAP ==> task_wf(#[trigger] self.slots@[i])
    }

    /// Whether slot `i` holds a live task.
    pub closed spec fn spec_alive(&self, i: int) -> bool {
        0 <= i < TASK_CAP && bit_set(self.alive@[i / 64], (i % 64) as u64)
    }

    /// The task state stored in slot `i` (live or not).
    pub closed spec fn spec_slot(&self, i: int) -> Task {
        self.slots@[i]
    }

    /// The shooters of slot `i`.
    pub closed spec fn spec_shooters(&self, i: int) -> Seq<ShooterSlot> {
        self.shooters@[i]@
    }

    /// An empty pool: no live task, zero slots, default shooters.
    pub fn new() -> (r: Self)
        ensures
            forall|i: int| !#[trigger] r.spec_alive(i),
            forall|i: int|
                0 <= i < TASK_CAP ==> #[trigger] r.spec_slot(i) == fresh_task(
                    SubId::spec_zero(),
                    0,
                    (OWNER_STAGE, 0, 0),
                    0,
                    0,
                ),
            forall|i: int|
                0 <= i < TASK_CAP ==> #[trigger] r.spec_shooters(i) == Seq::new(
                    SHOOTERS_PER_TASK as nat,
                    |k: int| default_shooter(),
                ),
    {
        let slots = [Task::default(); 256];
        let shooters = [default_shooters(); 256];
        assert(slots@.len() == TASK_CAP);
        let r = TaskPool { slots, shooters, alive: [0u64; 4] };
        proof {
            assert forall|i: int| !#[trigger] r.spec_alive(i) by {
                if 0 <= i < TASK_CAP {
                    let w = r.alive@[i / 64];
                    assert(w == 0u64);
                    let c = (i % 64) as u64;
                    assert((0u64 >> c) & 1u64 == 0u64) by (bit_vector);
                }
            }
        }
        r
    }

    /// Whether slot `i` holds a live task (false out of range).
    pub fn is_alive(&self, i: usize) -> (r: bool)
        ensures
            r == self.spec_alive(i as int),
    {
        i < TASK_CAP && (self.alive[i / 64] >> ((i % 64) as u64)) & 1u64 == 1u64
    }
}

impl TaskPool {
    /// `q` is `p` after `spawn(script, pc, owner, parent, frame)` returned
    /// `r`: the lowest free slot now holds the fresh task (shooters reset)
    /// and nothing else changed; `None` only when every slot was live.
    pub open spec fn spawned(p: TaskPool, q: TaskPool, script: SubId, pc: u32, owner: (u8, u16, u16), parent: u16, frame: u32, r: Option<u16>) -> bool {
        match r {
            Some(idx) => {
                &&& idx < TASK_CAP
                &&& !p.spec_alive(idx as int)
                &&& forall|j: int| 0 <= j < idx ==> #[trigger] p.spec_alive(j)
                &&& forall|j: int| #[trigger] q.spec_alive(j) == (p.spec_alive(j) || j == idx)
                &&& q.spec_slot(idx as int) == fresh_task(script, pc, owner, parent, frame)
                &&& q.spec_shooters(idx as int) == Seq::new(SHOOTERS_PER_TASK as nat, |k: int| default_shooter())
                &&& forall|j: int| 0 <= j < TASK_CAP && j != idx ==> #[trigger] q.spec_slot(j) == p.spec_slot(j)
                &&& forall|j: int| 0 <= j < TASK_CAP && j != idx ==> #[trigger] q.spec_shooters(j) == p.spec_shooters(j)
            },
            None => {
                &&& forall|j: int| 0 <= j < TASK_CAP ==> #[trigger] p.spec_alive(j)
                &&& q == p
                &&& forall|j: int| #[trigger] q.spec_alive(j) == p.spec_alive(j)
                &&& forall|j: int| 0 <= j < TASK_CAP ==> #[trigger] q.spec_slot(j) == p.spec_slot(j)
                &&& forall|j: int| 0 <= j < TASK_CAP ==> #[trigger] q.spec_shooters(j) == p.spec_shooters(j)
            },
        }
    }

    /// Allocates the lowest free slot for a task started from `script` at
    /// `pc`, owned by `owner` (kind, index, generation), with parent stamp
    /// `parent` (parent index + 1, 0 = none), born at `frame`. Every field of
    /// the slot is written and its shooters reset. `None` when all slots are
    /// live (nothing changes).
    pub fn spawn(&mut self, script: SubId, pc: u32, owner: (u8, u16, u16), parent: u16, frame: u32) -> (r: Option<u16>)
        ensures
            TaskPool::spawned(*old(self), *final(self), script, pc, owner, parent, frame, r),
    {
        proof {
            use_type_invariant(&*self);
        }
        let mut w: usize = 0;
        while w < 4
            invariant
                w <= 4,
                self == old(self),
                forall|k: int| 0 <= k < TASK_CAP ==> task_wf(#[trigger] self.slots@[k]),
                forall|j: int| 0 <= j < w * 64 ==> #[trigger] self.spec_alive(j),
            decreases 4 - w,
        {
            if self.alive[w] != 0xFFFF_FFFF_FFFF_FFFFu64 {
                let x = self.alive[w];
                let bit = (!x).trailing_zeros();
                proof {
                    vstd::std_specs::bits::axiom_u64_trailing_zeros(!x);
                    assert(!x != 0u64) by (bit_vector)
                        requires
                            x != 0xFFFF_FFFF_FFFF_FFFFu64,
                    ;
                    lemma_not_bit(x, bit as u64);
                    assert forall|c: u64| c < bit implies bit_set(x, c) by {
                        assert(((!x) >> c) & 1u64 == 0u64);
                        lemma_not_bit(x, c);
                    }
                }
                let idx = w * 64 + bit as usize;
                let ghost old_alive = self.alive@;
                self.alive[w] = x | (1u64 << (bit as u64));
                self.slots[idx] = Task {
                    script,
                    pc,
                    wait: 0,
                    born_frame: frame,
                    owner_kind: owner.0,
                    owner_index: owner.1,
                    owner_gen: owner.2,
                    parent,
                    spell_bound: 0,
                    spell_epoch: 0,
                    sp: 0,
                    csp: 0,
                    stack: [0; EVAL_DEPTH],
                    calls: [0; CALL_DEPTH],
                    locals: [0; LOCALS],
                };
                self.shooters[idx] = default_shooters();
                proof {
                    assert forall|j: int| 0 <= j < idx implies #[trigger] old(self).spec_alive(j) by {
                        if j >= w * 64 {
                            assert(j / 64 == w as int);
                            assert(((j % 64) as u64) < bit);
                        }
                    }
                    assert(!old(self).spec_alive(idx as int)) by {
                        assert(idx as int / 64 == w as int);
                        assert((idx as int % 64) as u64 == bit as u64);
                    }
                    assert forall|j: int| #[trigger] self.spec_alive(j) == (old(self).spec_alive(j) || j == idx) by {
                        if 0 <= j < TASK_CAP {
                            if j / 64 == w as int {
                                lemma_or_bit(x, bit as u64, (j % 64) as u64);
                                if (j % 64) as u64 == bit as u64 {
                                    assert(j == idx);
                                }
                            } else {
                                assert(self.alive@[j / 64] == old_alive[j / 64]);
                            }
                        }
                    }
                }
                return Some(idx as u16);
            }
            proof {
                assert forall|j: int| 0 <= j < (w + 1) * 64 implies #[trigger] self.spec_alive(j) by {
                    if j >= w * 64 {
                        assert(j / 64 == w as int);
                        lemma_full_word(self.alive@[w as int], (j % 64) as u64);
                    }
                }
            }
            w += 1;
        }
        None
    }

    /// `q` is `p` after `kill(i)`: slot `i` freed, its live children
    /// detached (parent stamp cleared), nothing else changed.
    pub open spec fn after_kill(p: TaskPool, q: TaskPool, i: int) -> bool {
        &&& forall|j: int| #[trigger] q.spec_alive(j) == (p.spec_alive(j) && j != i)
        &&& forall|j: int|
            0 <= j < TASK_CAP ==> #[trigger] q.spec_slot(j) == (if p.spec_alive(j) && p.spec_slot(j).parent == i + 1 {
                Task { parent: 0, ..p.spec_slot(j) }
            } else {
                p.spec_slot(j)
            })
        &&& forall|j: int| 0 <= j < TASK_CAP ==> #[trigger] q.spec_shooters(j) == p.spec_shooters(j)
    }

    /// Frees slot `i` and detaches its live children (their parent stamp is
    /// cleared), so a later occupant of the slot never inherits orphans.
    pub fn kill(&mut self, i: usize)
        requires
            i < TASK_CAP,
        ensures
            TaskPool::after_kill(*old(self), *final(self), i as int),
            forall|j: int| #[trigger] final(self).spec_alive(j) == (old(self).spec_alive(j) && j != i),
            forall|j: int| 0 <= j < TASK_CAP ==> #[trigger] final(self).spec_slot(j) == (
                if old(self).spec_alive(j) && old(self).spec_slot(j).parent == i + 1 {
                    Task { parent: 0, ..old(self).spec_slot(j) }
                } else {
                    old(self).spec_slot(j)
                }),
            forall|j: int| 0 <= j < TASK_CAP ==> #[trigger] final(self).spec_shooters(j) == old(self).spec_shooters(j),
    {
        proof {
            use_type_invariant(&*self);
        }
        let orphaned = (i + 1) as u16;
        let mut j: usize = 0;
        while j < TASK_CAP
            invariant
                j <= TASK_CAP,
                i < TASK_CAP,
                orphaned == i + 1,
                self.alive@ == old(self).alive@,
                forall|k: int| 0 <= k < TASK_CAP ==> task_wf(#[trigger] self.slots@[k]),
                self.shooters@ == old(self).shooters@,
                forall|k: int| 0 <= k < TASK_CAP ==> #[trigger] self.spec_slot(k) == (
                    if k < j && old(self).spec_alive(k) && old(self).spec_slot(k).parent == i + 1 {
                        Task { parent: 0, ..old(self).spec_slot(k) }
                    } else {
                        old(self).spec_slot(k)
                    }),
            decreases TASK_CAP - j,
        {
            assert(self.spec_alive(j as int) == old(self).spec_alive(j as int));
            assert(self.spec_slot(j as int) == old(self).spec_slot(j as int));
            let ghost before = self.slots@;
            let ghost pre = *self;
            if self.is_alive(j) && self.slots[j].parent == orphaned {
                let mut t = self.slots[j];
                t.parent = 0;
                self.slots[j] = t;
                assert(self.slots@ == before.update(j as int, t));
                assert(t == Task { parent: 0, ..old(self).spec_slot(j as int) });
            } else {
                assert(self.slots@ == before);
            }
            assert forall|k: int| 0 <= k < TASK_CAP implies #[trigger] self.spec_slot(k) == (
                if k < j + 1 && old(self).spec_alive(k) && old(self).spec_slot(k).parent == i + 1 {
                    Task { parent: 0, ..old(self).spec_slot(k) }
                } else {
                    old(self).spec_slot(k)
                }) by {
                if k != j {
                    assert(self.spec_slot(k) == pre.spec_slot(k));
                }
            }
            j += 1;
        }
        let ghost after_loop = *self;
        let w = i / 64;
        let b = (i % 64) as u64;
        let x = self.alive[w];
        self.alive[w] = x & !(1u64 << b);
        proof {
            assert forall|k: int| 0 <= k < TASK_CAP implies #[trigger] self.spec_slot(k) == (
                if old(self).spec_alive(k) && old(self).spec_slot(k).parent == i + 1 {
                    Task { parent: 0, ..old(self).spec_slot(k) }
                } else {
                    old(self).spec_slot(k)
                }) by {
                assert(self.spec_slot(k) == after_loop.spec_slot(k));
            }
            assert forall|j: int| #[trigger] self.spec_alive(j) == (old(self).spec_alive(j) && j != i) by {
                if 0 <= j < TASK_CAP {
                    if j / 64 == w as int {
                        lemma_andnot_bit(x, b, (j % 64) as u64);
                        if (j % 64) as u64 == b {
                            assert(j == i);
                        }
                    }
                }
            }
        }
    }

    /// The task in slot `target - 1` is live and is its own child.
    pub open spec fn self_parented(&self, target: u16) -> bool {
        self.spec_alive(target - 1) && self.spec_slot(target - 1).parent == target
    }

    /// Slot `k` is killed by `kill_children(target)`: a live direct child,
    /// unless it lies above a self-parented slot `target - 1` whose death
    /// detached it first.
    pub open spec fn killed_as_child(&self, target: u16, k: int) -> bool {
        &&& self.spec_alive(k)
        &&& self.spec_slot(k).parent == target
        &&& (k < target || !self.self_parented(target))
    }

    /// Kills, in ascending slot order, every live task whose parent stamp
    /// is `target` (the direct children of the task in slot `target - 1`).
    /// Grandchildren are not touched beyond being detached.
    pub fn kill_children(&mut self, target: u16)
        requires
            1 <= target,
        ensures
            forall|k: int| #[trigger] final(self).spec_alive(k) == (old(self).spec_alive(k)
                && !old(self).killed_as_child(target, k)),
            forall|k: int|
                0 <= k < TASK_CAP ==> (#[trigger] final(self).spec_slot(k) == old(self).spec_slot(k)
                    || final(self).spec_slot(k) == Task { parent: 0, ..old(self).spec_slot(k) }),
            forall|j: int| 0 <= j < TASK_CAP ==> #[trigger] final(self).spec_shooters(j) == old(self).spec_shooters(j),
    {
        let ghost sl = old(self).self_parented(target);
        let mut j: usize = 0;
        while j < TASK_CAP
            invariant
                j <= TASK_CAP,
                1 <= target,
                sl == old(self).self_parented(target),
                forall|k: int| 0 <= k < j ==> #[trigger] self.spec_alive(k) == (old(self).spec_alive(k)
                    && !old(self).killed_as_child(target, k)),
                forall|k: int| j <= k ==> #[trigger] self.spec_alive(k) == old(self).spec_alive(k),
                forall|k: int|
                    j <= k < TASK_CAP && old(self).spec_alive(k) ==> (#[trigger] self.spec_slot(k).parent == target) == (
                    old(self).spec_slot(k).parent == target && !(sl && target - 1 < j)),
                forall|k: int|
                    0 <= k < TASK_CAP ==> (#[trigger] self.spec_slot(k) == old(self).spec_slot(k)
                        || self.spec_slot(k) == Task { parent: 0, ..old(self).spec_slot(k) }),
                forall|k: int| 0 <= k < TASK_CAP ==> #[trigger] self.spec_shooters(k) == old(self).spec_shooters(k),
            decreases TASK_CAP - j,
        {
            let ghost pre = *self;
            if self.is_alive(j) && self.task(j).parent == target {
                self.kill(j);
                proof {
                    assert forall|k: int|
                        0 <= k < TASK_CAP implies (#[trigger] self.spec_slot(k) == old(self).spec_slot(k)
                            || self.spec_slot(k) == Task { parent: 0, ..old(self).spec_slot(k) }) by {
                        assert(pre.spec_slot(k) == old(self).spec_slot(k)
                            || pre.spec_slot(k) == Task { parent: 0, ..old(self).spec_slot(k) });
                    }
                    assert forall|k: int|
                        j + 1 <= k < TASK_CAP && old(self).spec_alive(k) implies (#[trigger] self.spec_slot(k).parent == target) == (
                        old(self).spec_slot(k).parent == target && !(sl && target - 1 < j + 1)) by {
                        assert(pre.spec_alive(k) == old(self).spec_alive(k));
                        if j == target - 1 {
                            assert(old(self).spec_alive(j as int));
                        }
                    }
                }
            }
            j += 1;
        }
    }

    /// Live slot indices in ascending order.
    pub fn iter_alive(&self) -> (r: Vec<usize>)
        ensures
            forall|k: int| 0 <= k < r@.len() ==> self.spec_alive(#[trigger] r@[k] as int) && r@[k] < TASK_CAP,
            forall|i: int| #[trigger] self.spec_alive(i) ==> r@.contains(i as usize),
            forall|a: int, b: int| 0 <= a < b < r@.len() ==> #[trigger] r@[a] < #[trigger] r@[b],
    {
        let mut r: Vec<usize> = Vec::new();
        let mut i: usize = 0;
        while i < TASK_CAP
            invariant
                i <= TASK_CAP,
                forall|k: int| 0 <= k < r@.len() ==> self.spec_alive(#[trigger] r@[k] as int) && r@[k] < i,
                forall|j: int| 0 <= j < i && #[trigger] self.spec_alive(j) ==> r@.contains(j as usize),
                forall|a: int, b: int| 0 <= a < b < r@.len() ==> #[trigger] r@[a] < #[trigger] r@[b],
            decreases TASK_CAP - i,
        {
            if self.is_alive(i) {
                let ghost old_r = r@;
                r.push(i);
                proof {
                    assert(r@[r@.len() - 1] == i);
                    assert forall|j: int| 0 <= j < i + 1 && #[trigger] self.spec_alive(j) implies r@.contains(j as usize) by {
                        if j == i {
                            assert(r@[r@.len() - 1] == j as usize);
                        } else {
                            assert(old_r.contains(j as usize));
                            let k = choose|k: int| 0 <= k < old_r.len() && old_r[k] == j as usize;
                            assert(r@[k] == j as usize);
                        }
                    }
                }
            }
            i += 1;
        }
        proof {
            assert forall|j: int| #[trigger] self.spec_alive(j) implies r@.contains(j as usize) by {}
        }
        r
    }

    /// Copies this pool's whole state into `dst`.
    pub fn copy_into(&self, dst: &mut TaskPool)
        ensures
            *final(dst) == *self,
            forall|j: int| #[trigger] final(dst).spec_alive(j) == self.spec_alive(j),
            forall|j: int| 0 <= j < TASK_CAP ==> #[trigger] final(dst).spec_slot(j) == self.spec_slot(j),
            forall|j: int| 0 <= j < TASK_CAP ==> #[trigger] final(dst).spec_shooters(j) == self.spec_shooters(j),
    {
        proof {
            use_type_invariant(self);
            use_type_invariant(&*dst);
        }
        let mut j: usize = 0;
        while j < TASK_CAP
            invariant
                j <= TASK_CAP,
                forall|k: int| 0 <= k < TASK_CAP ==> task_wf(#[trigger] self.slots@[k]),
                forall|k: int| 0 <= k < TASK_CAP ==> task_wf(#[trigger] dst.slots@[k]),
                forall|k: int| 0 <= k < j ==> #[trigger] dst.slots@[k] == self.slots@[k],
                forall|k: int| 0 <= k < j ==> #[trigger] dst.shooters@[k] == self.shooters@[k],
            decreases TASK_CAP - j,
        {
            dst.slots[j] = self.slots[j];
            dst.shooters[j] = self.shooters[j];
            j += 1;
        }
        dst.alive = self.alive;
        assert(dst.slots =~= self.slots);
        assert(dst.shooters =~= self.shooters);
    }

    /// The task state in slot `i`.
    pub fn task(&self, i: usize) -> (r: &Task)
        requires
            i < TASK_CAP,
        ensures
            *r == self.spec_slot(i as int),
            task_wf(*r),
    {
        proof {
            use_type_invariant(self);
        }
        &self.slots[i]
    }

    /// Overwrites the task state in slot `i` (liveness unchanged).
    pub fn set_task(&mut self, i: usize, t: Task)
        requires
            i < TASK_CAP,
            task_wf(t),
        ensures
            forall|j: int| #[trigger] final(self).spec_alive(j) == old(self).spec_alive(j),
            forall|j: int| 0 <= j < TASK_CAP ==> #[trigger] final(self).spec_slot(j) == (if j == i { t } else { old(self).spec_slot(j) }),
            forall|j: int| 0 <= j < TASK_CAP ==> #[trigger] final(self).spec_shooters(j) == old(self).spec_shooters(j),
    {
        proof {
            use_type_invariant(&*self);
        }
        self.slots[i] = t;
    }

    /// Shooter `k` of slot `i`.
    pub fn shooter(&self, i: usize, k: usize) -> (r: ShooterSlot)
        requires
            i < TASK_CAP,
            k < SHOOTERS_PER_TASK,
        ensures
            r == self.spec_shooters(i as int)[k as int],
    {
        self.shooters[i][k]
    }

    /// Overwrites shooter `k` of slot `i`.
    pub fn set_shooter(&mut self, i: usize, k: usize, s: ShooterSlot)
        requires
            i < TASK_CAP,
            k < SHOOTERS_PER_TASK,
        ensures
            forall|j: int| #[trigger] final(self).spec_alive(j) == old(self).spec_alive(j),
            forall|j: int| 0 <= j < TASK_CAP ==> #[trigger] final(self).spec_slot(j) == old(self).spec_slot(j),
            forall|j: int| 0 <= j < TASK_CAP ==> #[trigger] final(self).spec_shooters(j) == (if j == i { old(self).spec_shooters(j).update(k as int, s) } else { old(self).spec_shooters(j) }),
    {
        proof {
            use_type_invariant(&*self);
        }
        let mut row = self.shooters[i];
        row[k] = s;
        self.shooters[i] = row;
    }

    /// Writes `args` into locals `0..args.len()` of slot `i`.
    pub fn write_args(&mut self, i: usize, args: &[i32])
        requires
            i < TASK_CAP,
            args@.len() <= LOCALS,
        ensures
            forall|j: int| #[trigger] final(self).spec_alive(j) == old(self).spec_alive(j),
            forall|j: int| 0 <= j < TASK_CAP && j != i ==> #[trigger] final(self).spec_slot(j) == old(self).spec_slot(j),
            final(self).spec_slot(i as int) == (Task { locals: final(self).spec_slot(i as int).locals, ..old(self).spec_slot(i as int) }),
            final(self).spec_slot(i as int).locals@ == args@ + old(self).spec_slot(i as int).locals@.subrange(args@.len() as int, LOCALS as int),
            forall|j: int| 0 <= j < TASK_CAP ==> #[trigger] final(self).spec_shooters(j) == old(self).spec_shooters(j),
    {
        proof {
            use_type_invariant(&*self);
        }
        let mut t = self.slots[i];
        let ghost orig = t.locals@;
        let mut k: usize = 0;
        while k < args.len()
            invariant
                k <= args@.len(),
                args@.len() <= LOCALS,
                t.locals@ == args@.subrange(0, k as int) + orig.subrange(k as int, LOCALS as int),
                t == (Task { locals: t.locals, ..old(self).slots@[i as int] }),
                orig == old(self).slots@[i as int].locals@,
            decreases args@.len() - k,
        {
            t.locals[k] = args[k];
            proof {
                assert(t.locals@ =~= args@.subrange(0, k + 1) + orig.subrange(k + 1, LOCALS as int));
            }
            k += 1;
        }
        assert(args@.subrange(0, args@.len() as int) =~= args@);
        self.slots[i] = t;
    }
}

/// A fresh set of default shooters.
pub fn default_shooters() -> (r: [ShooterSlot; SHOOTERS_PER_TASK])
    ensures
        r@ == Seq::new(SHOOTERS_PER_TASK as nat, |k: int| default_shooter()),
{
    let r = [
        ShooterSlot::default(),
        ShooterSlot::default(),
        ShooterSlot::default(),
        ShooterSlot::default(),
    ];
    assert(r@ =~= Seq::new(SHOOTERS_PER_TASK as nat, |k: int| default_shooter()));
    r
}

impl Checksum for Task {
    open spec fn checksum_bytes(&self) -> Seq<u8> {
        self.script.checksum_bytes() + self.pc.checksum_bytes() + self.wait.checksum_bytes() + self.born_frame.checksum_bytes() + self.owner_kind.checksum_bytes() + self.owner_index.checksum_bytes() + self.owner_gen.checksum_bytes() + self.parent.checksum_bytes() + self.spell_bound.checksum_bytes() + self.spell_epoch.checksum_bytes() + self.sp.checksum_bytes() + self.csp.checksum_bytes() + self.stack.checksum_bytes() + self.calls.checksum_bytes() + self.locals.checksum_bytes()
    }

    fn hash_into(&self, h: &mut Fnv1a64) {
        let ghost s0 = h@;
        self.script.hash_into(h);
        self.pc.hash_into(h);
        proof { crate::checksum::lemma_fold_concat(s0, self.script.checksum_bytes(), self.pc.checksum_bytes()); }
        self.wait.hash_into(h);
        proof { crate::checksum::lemma_fold_concat(s0, self.script.checksum_bytes() + self.pc.checksum_bytes(), self.wait.checksum_bytes()); }
        self.born_frame.hash_into(h);
        proof { crate::checksum::lemma_fold_concat(s0, self.script.checksum_bytes() + self.pc.checksum_bytes() + self.wait.checksum_bytes(), self.born_frame.checksum_bytes()); }
        self.owner_kind.hash_into(h);
        proof { crate::checksum::lemma_fold_concat(s0, self.script.checksum_bytes() + self.pc.checksum_bytes() + self.wait.checksum_bytes() + self.born_frame.checksum_bytes(), self.owner_kind.checksum_bytes()); }
        self.owner_index.hash_into(h);
        proof { crate::checksum::lemma_fold_concat(s0, self.script.checksum_bytes() + self.pc.checksum_bytes() + self.wait.checksum_bytes() + self.born_frame.checksum_bytes() + self.owner_kind.checksum_bytes(), self.owner_index.checksum_bytes()); }
        self.owner_gen.hash_into(h);
        proof { crate::checksum::lemma_fold_concat(s0, self.script.checksum_bytes() + self.pc.checksum_bytes() + self.wait.checksum_bytes() + self.born_frame.checksum_bytes() + self.owner_kind.checksum_bytes() + self.owner_index.checksum_bytes(), self.owner_gen.checksum_bytes()); }
        self.parent.hash_into(h);
        proof { crate::checksum::lemma_fold_concat(s0, self.script.checksum_bytes() + self.pc.checksum_bytes() + self.wait.checksum_bytes() + self.born_frame.checksum_bytes() + self.owner_kind.checksum_bytes() + self.owner_index.checksum_bytes() + self.owner_gen.checksum_bytes(), self.parent.checksum_bytes()); }
        self.spell_bound.hash_into(h);
        proof { crate::checksum::lemma_fold_concat(s0, self.script.checksum_bytes() + self.pc.checksum_bytes() + self.wait.checksum_bytes() + self.born_frame.checksum_bytes() + self.owner_kind.checksum_bytes() + self.owner_index.checksum_bytes() + self.owner_gen.checksum_bytes() + self.parent.checksum_bytes(), self.spell_bound.checksum_bytes()); }
        self.spell_epoch.hash_into(h);
        proof { crate::checksum::lemma_fold_concat(s0, self.script.checksum_bytes() + self.pc.checksum_bytes() + self.wait.checksum_bytes() + self.born_frame.checksum_bytes() + self.owner_kind.checksum_bytes() + self.owner_index.checksum_bytes() + self.owner_gen.checksum_bytes() + self.parent.checksum_bytes() + self.spell_bound.checksum_bytes(), self.spell_epoch.checksum_bytes()); }
        self.sp.hash_into(h);
        proof { crate::checksum::lemma_fold_concat(s0, self.script.checksum_bytes() + self.pc.checksum_bytes() + self.wait.checksum_bytes() + self.born_frame.checksum_bytes() + self.owner_kind.checksum_bytes() + self.owner_index.checksum_bytes() + self.owner_gen.checksum_bytes() + self.parent.checksum_bytes() + self.spell_bound.checksum_bytes() + self.spell_epoch.checksum_bytes(), self.sp.checksum_bytes()); }
        self.csp.hash_into(h);
        proof { crate::checksum::lemma_fold_concat(s0, self.script.checksum_bytes() + self.pc.checksum_bytes() + self.wait.checksum_bytes() + self.born_frame.checksum_bytes() + self.owner_kind.checksum_bytes() + self.owner_index.checksum_bytes() + self.owner_gen.checksum_bytes() + self.parent.checksum_bytes() + self.spell_bound.checksum_bytes() + self.spell_epoch.checksum_bytes() + self.sp.checksum_bytes(), self.csp.checksum_bytes()); }
        self.stack.hash_into(h);
        proof { crate::checksum::lemma_fold_concat(s0, self.script.checksum_bytes() + self.pc.checksum_bytes() + self.wait.checksum_bytes() + self.born_frame.checksum_bytes() + self.owner_kind.checksum_bytes() + self.owner_index.checksum_bytes() + self.owner_gen.checksum_bytes() + self.parent.checksum_bytes() + self.spell_bound.checksum_bytes() + self.spell_epoch.checksum_bytes() + self.sp.checksum_bytes() + self.csp.checksum_bytes(), self.stack.checksum_bytes()); }
        self.calls.hash_into(h);
        proof { crate::checksum::lemma_fold_concat(s0, self.script.checksum_bytes() + self.pc.checksum_bytes() + self.wait.checksum_bytes() + self.born_frame.checksum_bytes() + self.owner_kind.checksum_bytes() + self.owner_index.checksum_bytes() + self.owner_gen.checksum_bytes() + self.parent.checksum_bytes() + self.spell_bound.checksum_bytes() + self.spell_epoch.checksum_bytes() + self.sp.checksum_bytes() + self.csp.checksum_bytes() + self.stack.checksum_bytes(), self.calls.checksum_bytes()); }
        self.locals.hash_into(h);
        proof { crate::checksum::lemma_fold_concat(s0, self.script.checksum_bytes() + self.pc.checksum_bytes() + self.wait.checksum_bytes() + self.born_frame.checksum_bytes() + self.owner_kind.checksum_bytes() + self.owner_index.checksum_bytes() + self.owner_gen.checksum_bytes() + self.parent.checksum_bytes() + self.spell_bound.checksum_bytes() + self.spell_epoch.checksum_bytes() + self.sp.checksum_bytes() + self.csp.checksum_bytes() + self.stack.checksum_bytes() + self.calls.checksum_bytes(), self.locals.checksum_bytes()); }
    }
}

impl Checksum for TaskPool {
    closed spec fn checksum_bytes(&self) -> Seq<u8> {
        self.slots.checksum_bytes() + self.shooters.checksum_bytes() + self.alive.checksum_bytes()
    }

    fn hash_into(&self, h: &mut Fnv1a64) {
        let ghost s0 = h@;
        self.slots.hash_into(h);
        self.shooters.hash_into(h);
        proof { crate::checksum::lemma_fold_concat(s0, self.slots.checksum_bytes(), self.shooters.checksum_bytes()); }
        self.alive.hash_into(h);
        proof { crate::checksum::lemma_fold_concat(s0, self.slots.checksum_bytes() + self.shooters.checksum_bytes(), self.alive.checksum_bytes()); }
    }
}


/// `spawn` fails only when every slot is live.
pub proof fn law_spawn_fails_only_when_full(
    p: TaskPool,
    q: TaskPool,
    script: SubId,
    pc: u32,
    owner: (u8, u16, u16),
    parent: u16,
    frame: u32,
    r: Option<u16>,
)
    requires
        TaskPool::spawned(p, q, script, pc, owner, parent, frame, r),
    ensures
        r is None <==> forall|j: int| 0 <= j < TASK_CAP ==> #[trigger] p.spec_alive(j),
{
    if let Some(idx) = r {
        assert(!p.spec_alive(idx as int));
    }
}

/// A slot freed by `kill` and taken again by `spawn` starts with no
/// children: no other live task still carries it as its parent, so
/// `kill_children` from the new occupant cannot reach the old one's tasks.
pub proof fn law_reused_slot_inherits_no_children(
    p0: TaskPool,
    p1: TaskPool,
    p2: TaskPool,
    i: u16,
    script: SubId,
    pc: u32,
    owner: (u8, u16, u16),
    parent: u16,
    frame: u32,
)
    requires
        i < TASK_CAP,
        TaskPool::after_kill(p0, p1, i as int),
        TaskPool::spawned(p1, p2, script, pc, owner, parent, frame, Some(i)),
    ensures
        forall|j: int| #[trigger] p2.spec_alive(j) && j != i ==> p2.spec_slot(j).parent != i + 1,
{
    assert forall|j: int| #[trigger] p2.spec_alive(j) && j != i implies p2.spec_slot(j).parent != i + 1 by {
        assert(p1.spec_alive(j));
        assert(p0.spec_alive(j));
        assert(0 <= j < TASK_CAP);
        assert(p2.spec_slot(j) == p1.spec_slot(j));
    }
}

} // verus!
