//! Starting scripts: the typed argument and owner vocabulary, the error a
//! refused start reports, and the world-level entry points (the singleton
//! main script, named entries with typed arguments, resolved entries with
//! raw arguments, and raw sub numbers).
use vstd::prelude::*;
use vstd::string::StringSliceAdditionalSpecFns;
use crate::ecl::image::{main_bytes, EclImage, MAX_PARAMS, EclValueType, ResolveError, ResolvedEntry, RuntimeSubMeta, SubId, SubKind};
use crate::ecl::task::{fresh_task, TaskPool, LOCALS, OWNER_BULLET, OWNER_ENEMY, OWNER_STAGE, TASK_CAP};
use crate::checksum::{Checksum, Fnv1a64};
use crate::ecl::syscall::refused;
use crate::math::{Angle, Fx};
use crate::pool::Handle;
use crate::world::{Recorder, WorldRead, empty_player, WorldBody, Simulation, MAX_PLAYERS, POOL_KINDS, POOL_TASK, STATUS_OK, STATUS_POOL_FULL};

verus! {

/// A typed script argument.
#[derive(Clone, Copy, Debug, PartialEq, Eq, Structural)]
pub enum EclArg {
    Int(i32),
    Fx(Fx),
    Angle(Angle),
}

impl EclArg {
    /// The declared parameter type this value matches.
    pub open spec fn spec_value_type(self) -> EclValueType {
        match self {
            EclArg::Int(_) => EclValueType::Int,
            EclArg::Fx(_) => EclValueType::Fx,
            EclArg::Angle(_) => EclValueType::Angle,
        }
    }

    /// The raw 32-bit word the value is passed as.
    pub open spec fn spec_raw(self) -> i32 {
        match self {
            EclArg::Int(v) => v,
            EclArg::Fx(v) => v.0,
            EclArg::Angle(v) => v.0 as i32,
        }
    }

    /// The declared parameter type this value matches.
    pub fn value_type(&self) -> (r: EclValueType)
        ensures
            r == self.spec_value_type(),
    {
        match self {
            EclArg::Int(_) => EclValueType::Int,
            EclArg::Fx(_) => EclValueType::Fx,
            EclArg::Angle(_) => EclValueType::Angle,
        }
    }

    /// The raw 32-bit word the value is passed as (Fx and angle bits, or
    /// the integer itself).
    pub fn raw(&self) -> (r: i32)
        ensures
            r == self.spec_raw(),
    {
        match self {
            EclArg::Int(v) => *v,
            EclArg::Fx(v) => v.raw(),
            EclArg::Angle(v) => v.raw() as i32,
        }
    }
}

/// The entity a new task belongs to; the scheduler kills the task once its
/// owner is gone.
#[derive(Clone, Copy, Debug, PartialEq, Eq, Structural)]
pub enum EclOwner {
    /// The stage itself (always valid).
    Stage,
    /// An enemy, checked against the world at spawn time.
    Enemy(Handle),
    /// A bullet, checked against the world at spawn time.
    Bullet(Handle),
}

impl EclOwner {
    /// The `(kind, index, generation)` triple stamped on the task.
    pub open spec fn spec_tuple(self) -> (u8, u16, u16) {
        match self {
            EclOwner::Stage => (OWNER_STAGE, 0u16, 0u16),
            EclOwner::Enemy(h) => (OWNER_ENEMY, h.index, h.generation),
            EclOwner::Bullet(h) => (OWNER_BULLET, h.index, h.generation),
        }
    }

    /// Whether the owner is alive when the world answers `answer` for the
    /// generation of the handle's slot (`None`: unoccupied): the stage
    /// always is; an enemy or bullet when the slot holds that very
    /// generation.
    pub open spec fn alive_given(self, answer: Option<u16>) -> bool {
        match self {
            EclOwner::Stage => true,
            EclOwner::Enemy(h) => answer == Some(h.generation),
            EclOwner::Bullet(h) => answer == Some(h.generation),
        }
    }

    /// Whether the owner is alive given the world's answer for its slot.
    pub fn alive_with(&self, answer: Option<u16>) -> (r: bool)
        ensures
            r == self.alive_given(answer),
    {
        match self {
            EclOwner::Stage => true,
            EclOwner::Enemy(h) | EclOwner::Bullet(h) => match answer {
                Some(g) => g == h.generation,
                None => false,
            },
        }
    }

    /// Whether the owner is alive: the stage always is; an enemy or bullet
    /// when the world holds that very slot generation (`alive_given` of the
    /// world's answer for the handle's slot).
    pub fn validate<P: Simulation>(&self, sim: &mut Recorder<P>) -> (r: bool)
        ensures
            final(sim).calls() == old(sim).calls(),
            old(sim).reads().is_prefix_of(final(sim).reads()),
            *self == EclOwner::Stage ==> r,
            exists|answer: Option<u16>| r == #[trigger] self.alive_given(answer)
                && final(sim).reads() == old(sim).reads() + self.query(answer),
    {
        let answer = match self {
            EclOwner::Stage => None,
            EclOwner::Enemy(h) => sim.enemy_generation(h.index as usize),
            EclOwner::Bullet(h) => sim.bullet_generation(h.index as usize),
        };
        proof {
            assert(sim.reads() =~= old(sim).reads() + self.query(answer));
        }
        self.alive_with(answer)
    }

    /// The question `validate` asks the world, answered `answer`: the
    /// generation of the handle's enemy or bullet slot; nothing for the
    /// stage.
    pub open spec fn query(self, answer: Option<u16>) -> Seq<WorldRead> {
        match self {
            EclOwner::Stage => Seq::empty(),
            EclOwner::Enemy(h) => seq![WorldRead::EnemyGeneration(h.index as usize, answer)],
            EclOwner::Bullet(h) => seq![WorldRead::BulletGeneration(h.index as usize, answer)],
        }
    }

    fn tuple(&self) -> (r: (u8, u16, u16))
        ensures
            r == self.spec_tuple(),
    {
        match self {
            EclOwner::Stage => (OWNER_STAGE, 0, 0),
            EclOwner::Enemy(h) => (OWNER_ENEMY, h.index, h.generation),
            EclOwner::Bullet(h) => (OWNER_BULLET, h.index, h.generation),
        }
    }
}

/// Why a script could not be started.
#[derive(Clone, Copy, Debug, PartialEq, Eq, Structural)]
pub enum TaskStartError {
    /// The image has no root sub.
    NoRoot,
    /// The main script was already started in this world.
    MainAlreadyStarted,
    /// No entry has this name.
    UnknownEntry,
    /// `"main"` was given to a name-based start.
    RootRequiresStartMain,
    /// The entry index is outside its image's entry table.
    InvalidEntryId,
    /// The argument count differs from the declared parameter count.
    WrongArgCount { expected: u8, actual: usize },
    /// An argument's type differs from its parameter's declared type.
    WrongArgType { index: u8, expected: EclValueType, actual: EclValueType },
    /// The owner is no longer alive.
    InvalidOwner,
    /// The task pool is full.
    PoolFull,
}

/// The script layer's share of a world: its body, its task pool, and
/// whether the main script was ever started.
pub struct World {
    pub body: WorldBody,
    pub tasks: TaskPool,
    /// Nonzero once the main script has been started (never reset).
    pub ecl_main_started: u8,
}

/// `q` is `p` with one task spawned in the lowest free slot `idx` from
/// `sub` at `pc`, owned by `owner`, with parent stamp `parent`, born at
/// `frame`, and `args` in its first locals.
pub open spec fn spawned_with(p: TaskPool, q: TaskPool, idx: int, sub: SubId, pc: u32, owner: (u8, u16, u16), parent: u16, frame: u32, args: Seq<i32>) -> bool {
    &&& 0 <= idx < TASK_CAP
    &&& !p.spec_alive(idx)
    &&& forall|j: int| 0 <= j < idx ==> #[trigger] p.spec_alive(j)
    &&& forall|j: int| #[trigger] q.spec_alive(j) == (p.spec_alive(j) || j == idx)
    &&& q.spec_slot(idx) == (crate::ecl::task::Task { locals: q.spec_slot(idx).locals, ..fresh_task(sub, pc, owner, parent, frame) })
    &&& q.spec_slot(idx).locals@ == args + Seq::new((LOCALS - args.len()) as nat, |k: int| 0i32)
    &&& forall|j: int| 0 <= j < TASK_CAP && j != idx ==> #[trigger] q.spec_slot(j) == p.spec_slot(j)
}

/// The raw words of typed arguments.
pub open spec fn raw_words(args: Seq<EclArg>) -> Seq<i32> {
    Seq::new(args.len(), |i: int| args[i].spec_raw())
}

/// Argument `i` has its parameter's declared type.
pub open spec fn arg_fits(args: Seq<EclArg>, ps: Seq<EclValueType>, i: int) -> bool {
    args[i].spec_value_type() == ps[i]
}

/// The outcome of starting `sub` at `pc` for `owner` with `raw` arguments
/// once the arguments are accepted: the owner is checked with the world
/// (the questions asked go from `rd0` to `rd1`), a dead owner is refused,
/// the stage is never dead; otherwise the task is spawned in the lowest free slot with
/// the arguments in its first locals, or a full pool is counted.
pub open spec fn start_outcome(
    w0: World,
    w1: World,
    rd0: Seq<WorldRead>,
    rd1: Seq<WorldRead>,
    r: Result<u16, TaskStartError>,
    sub: SubId,
    pc: u32,
    owner: EclOwner,
    raw: Seq<i32>,
) -> bool {
    &&& w1.ecl_main_started == w0.ecl_main_started
    &&& r == Err::<u16, TaskStartError>(TaskStartError::InvalidOwner) ==> refused(w0.body, w1.body) && w1.tasks == w0.tasks
    &&& owner == EclOwner::Stage ==> r != Err::<u16, TaskStartError>(TaskStartError::InvalidOwner)
    &&& exists|ans: Option<u16>| (r == Err::<u16, TaskStartError>(TaskStartError::InvalidOwner))
        == !#[trigger] owner.alive_given(ans) && rd1 == rd0 + owner.query(ans)
    &&& r != Err::<u16, TaskStartError>(TaskStartError::InvalidOwner) ==> match r {
        Ok(idx) => {
            &&& spawned_with(w0.tasks, w1.tasks, idx as int, sub, pc, owner.spec_tuple(), 0, w0.body.frame, raw)
            &&& w1.body == w0.body
        },
        Err(e) => {
            &&& e == TaskStartError::PoolFull
            &&& pool_full(w0.tasks)
            &&& w1.tasks == w0.tasks
            &&& pool_refused(w0.body, w1.body)
        },
    }
}

/// A start by name of the entry that runs `sub`: a count mismatch is
/// reported first (declared count, given count); then the first argument
/// whose type differs (its index, the declared and the given type); both
/// refused, without asking the world anything. Matching arguments start as
/// `start_outcome` with their raw words.
pub open spec fn named_start(
    w0: World,
    w1: World,
    rd0: Seq<WorldRead>,
    rd1: Seq<WorldRead>,
    r: Result<u16, TaskStartError>,
    image: EclImage,
    sub: SubId,
    args: Seq<EclArg>,
    owner: EclOwner,
) -> bool {
    let ps = image.spec_sub_params(sub@ as int);
    &&& args.len() != ps.len() ==> {
        &&& r == Err::<u16, TaskStartError>(TaskStartError::WrongArgCount { expected: ps.len() as u8, actual: args.len() as usize })
        &&& refused(w0.body, w1.body)
        &&& w1.tasks == w0.tasks
        &&& w1.ecl_main_started == w0.ecl_main_started
        &&& rd1 == rd0
    }
    &&& args.len() == ps.len() && !(forall|i: int| 0 <= i < args.len() ==> #[trigger] arg_fits(args, ps, i)) ==> {
        &&& r matches Err(TaskStartError::WrongArgType { index, expected, actual })
        &&& index < args.len()
        &&& expected == ps[index as int]
        &&& actual == args[index as int].spec_value_type()
        &&& !arg_fits(args, ps, index as int)
        &&& forall|j: int| 0 <= j < index ==> #[trigger] arg_fits(args, ps, j)
        &&& refused(w0.body, w1.body)
        &&& w1.tasks == w0.tasks
        &&& w1.ecl_main_started == w0.ecl_main_started
        &&& rd1 == rd0
    }
    &&& args.len() == ps.len() && (forall|i: int| 0 <= i < args.len() ==> #[trigger] arg_fits(args, ps, i))
        ==> start_outcome(w0, w1, rd0, rd1, r, sub, image.spec_subs()[sub@ as int].code_entry, owner, raw_words(args))
}

/// Every slot of `p` is live.
pub open spec fn pool_full(p: TaskPool) -> bool {
    forall|j: int| 0 <= j < TASK_CAP ==> #[trigger] p.spec_alive(j)
}

/// The body after a refused allocation in the task pool.
pub open spec fn pool_refused(b0: WorldBody, b1: WorldBody) -> bool {
    &&& b1.diag.pool_full@ == b0.diag.pool_full@.update(
        POOL_TASK as int,
        vstd::wrapping::u32_specs::wrapping_add(b0.diag.pool_full@[POOL_TASK as int], 1),
    )
    &&& b1.last_status == STATUS_POOL_FULL
    &&& b1.diag.contract_viol == b0.diag.contract_viol
    &&& b1.diag.task_faults == b0.diag.task_faults
    &&& b1.frame == b0.frame
    &&& b1.players == b0.players
    &&& b1.freeze_left == b0.freeze_left
    &&& b1.spell_last_result == b0.spell_last_result
}

impl Checksum for World {
    open spec fn checksum_bytes(&self) -> Seq<u8> {
        self.body.checksum_bytes() + self.tasks.checksum_bytes() + self.ecl_main_started.checksum_bytes()
    }

    fn hash_into(&self, h: &mut Fnv1a64) {
        let ghost s0 = h@;
        self.body.hash_into(h);
        self.tasks.hash_into(h);
        proof { crate::checksum::lemma_fold_concat(s0, self.body.checksum_bytes(), self.tasks.checksum_bytes()); }
        self.ecl_main_started.hash_into(h);
        proof { crate::checksum::lemma_fold_concat(s0, self.body.checksum_bytes() + self.tasks.checksum_bytes(), self.ecl_main_started.checksum_bytes()); }
    }
}

impl World {
    /// Copies the whole world into `dst`.
    pub fn copy_into(&self, dst: &mut World)
        ensures
            *final(dst) == *self,
            final(dst).body == self.body,
            final(dst).ecl_main_started == self.ecl_main_started,
            forall|j: int| #[trigger] final(dst).tasks.spec_alive(j) == self.tasks.spec_alive(j),
            forall|j: int| 0 <= j < TASK_CAP ==> #[trigger] final(dst).tasks.spec_slot(j) == self.tasks.spec_slot(j),
    {
        dst.body = self.body;
        dst.ecl_main_started = self.ecl_main_started;
        self.tasks.copy_into(&mut dst.tasks);
    }

    /// A world at frame 0 with no task and the main script not started.
    pub fn new() -> (r: World)
        ensures
            r.body.frame == 0,
            r.body.diag.contract_viol == 0,
            r.body.diag.task_faults == 0,
            forall|k: int| 0 <= k < POOL_KINDS ==> #[trigger] r.body.diag.pool_full@[k] == 0,
            r.body.last_status == STATUS_OK,
            forall|k: int| 0 <= k < MAX_PLAYERS ==> #[trigger] r.body.players@[k] == empty_player(),
            forall|k: int| 0 <= k < MAX_PLAYERS ==> #[trigger] r.body.freeze_left@[k] == 0,
            forall|k: int| 0 <= k < 2 ==> #[trigger] r.body.spell_last_result@[k] == 0,
            r.ecl_main_started == 0,
            forall|i: int| !#[trigger] r.tasks.spec_alive(i),
    {
        World { body: WorldBody::new(), tasks: TaskPool::new(), ecl_main_started: 0 }
    }

    /// Spawns a task from `sub` at `pc` with `args` (parent 0, born this
    /// frame); a full pool is counted (`POOL_FULL`).
    fn spawn_with_args(&mut self, sub: SubId, pc: u32, args: &[i32], owner: (u8, u16, u16)) -> (r: Option<u16>)
        requires
            args@.len() <= LOCALS,
        ensures
            final(self).ecl_main_started == old(self).ecl_main_started,
            match r {
                Some(idx) => {
                    &&& spawned_with(old(self).tasks, final(self).tasks, idx as int, sub, pc, owner, 0, old(self).body.frame, args@)
                    &&& final(self).body == old(self).body
                },
                None => {
                    &&& pool_full(old(self).tasks)
                    &&& final(self).tasks == old(self).tasks
                    &&& pool_refused(old(self).body, final(self).body)
                },
            },
    {
        let frame = self.body.frame;
        match self.tasks.spawn(sub, pc, owner, 0, frame) {
            Some(idx) => {
                let ghost mid = self.tasks;
                self.tasks.write_args(idx as usize, args);
                proof {
                    let q = self.tasks;
                    assert(fresh_task(sub, pc, owner, 0, frame).locals@ =~= Seq::new(LOCALS as nat, |k: int| 0i32));
                    assert(q.spec_slot(idx as int).locals@ =~= args@ + Seq::new((LOCALS - args@.len()) as nat, |k: int| 0i32));
                }
                Some(idx)
            },
            None => {
                self.body.count_pool_full(POOL_TASK);
                self.body.last_status = STATUS_POOL_FULL;
                None
            },
        }
    }

    /// Spawns `script` with raw `args` for `owner` (kind, index,
    /// generation): the script must exist, must not be call-only, and must
    /// declare exactly `args.len()` parameters; otherwise the call is
    /// refused. A full pool is counted. The owner is not checked.
    pub fn spawn_sub_internal(&mut self, ecl: &EclImage, script: SubId, args: &[i32], owner: (u8, u16, u16)) -> (r: Option<u16>)
        ensures
            final(self).ecl_main_started == old(self).ecl_main_started,
            ({
                let ok = script@ < ecl.spec_subs().len() && ecl.spec_subs()[script@ as int].kind != SubKind::CallOnly
                    && ecl.spec_subs()[script@ as int].param_count == args@.len();
                &&& !ok ==> r is None && refused(old(self).body, final(self).body) && final(self).tasks == old(self).tasks
                &&& ok ==> match r {
                    Some(idx) => {
                        &&& spawned_with(old(self).tasks, final(self).tasks, idx as int, script,
                            ecl.spec_subs()[script@ as int].code_entry, owner, 0, old(self).body.frame, args@)
                        &&& final(self).body == old(self).body
                    },
                    None => {
                        &&& pool_full(old(self).tasks)
                        &&& final(self).tasks == old(self).tasks
                        &&& pool_refused(old(self).body, final(self).body)
                    },
                }
            }),
    {
        let meta = match ecl.sub_meta(script) {
            Some(m) => *m,
            None => {
                self.body.refuse();
                return None;
            },
        };
        if meta.kind() == SubKind::CallOnly || args.len() != meta.param_count() as usize {
            self.body.refuse();
            return None;
        }
        self.spawn_with_args(script, meta.code_entry(), args, owner)
    }

    /// Spawns `script` by raw sub number (the escape hatch for owner kinds
    /// or sub kinds the entry APIs cannot express); see `spawn_sub_internal`.
    pub fn spawn_sub_id(&mut self, ecl: &EclImage, script: SubId, args: &[i32], owner: (u8, u16, u16)) -> (r: Option<u16>)
        ensures
            final(self).ecl_main_started == old(self).ecl_main_started,
            ({
                let ok = script@ < ecl.spec_subs().len() && ecl.spec_subs()[script@ as int].kind != SubKind::CallOnly
                    && ecl.spec_subs()[script@ as int].param_count == args@.len();
                &&& !ok ==> r is None && refused(old(self).body, final(self).body) && final(self).tasks == old(self).tasks
                &&& ok ==> match r {
                    Some(idx) => {
                        &&& spawned_with(old(self).tasks, final(self).tasks, idx as int, script,
                            ecl.spec_subs()[script@ as int].code_entry, owner, 0, old(self).body.frame, args@)
                        &&& final(self).body == old(self).body
                    },
                    None => {
                        &&& pool_full(old(self).tasks)
                        &&& final(self).tasks == old(self).tasks
                        &&& pool_refused(old(self).body, final(self).body)
                    },
                }
            }),
    {
        self.spawn_sub_internal(ecl, script, args, owner)
    }

    /// Starts the root script, stage-owned with no arguments, at most once
    /// per world: a second call is refused even after the first main task
    /// ended. An image without a root changes nothing; a full pool is
    /// counted and leaves the main script unstarted (so it may be retried).
    pub fn start_main(&mut self, image: &EclImage) -> (r: Result<u16, TaskStartError>)
        ensures
            old(self).ecl_main_started != 0 ==> r == Err::<u16, TaskStartError>(TaskStartError::MainAlreadyStarted)
                && refused(old(self).body, final(self).body) && final(self).tasks == old(self).tasks
                && final(self).ecl_main_started == old(self).ecl_main_started,
            old(self).ecl_main_started == 0 && image.spec_root() is None ==> r == Err::<u16, TaskStartError>(TaskStartError::NoRoot)
                && final(self).body == old(self).body && final(self).tasks == old(self).tasks
                && final(self).ecl_main_started == 0,
            (old(self).ecl_main_started == 0 && image.spec_root() is Some) ==> match r {
                Ok(idx) => {
                    &&& spawned_with(old(self).tasks, final(self).tasks, idx as int, image.spec_root()->0,
                        image.spec_subs()[image.spec_root()->0@ as int].code_entry, (OWNER_STAGE, 0u16, 0u16), 0, old(self).body.frame, seq![])
                    &&& final(self).body == old(self).body
                    &&& final(self).ecl_main_started == 1
                },
                Err(e) => {
                    &&& e == TaskStartError::PoolFull
                    &&& pool_full(old(self).tasks)
                    &&& final(self).tasks == old(self).tasks
                    &&& pool_refused(old(self).body, final(self).body)
                    &&& final(self).ecl_main_started == 0
                },
            },
    {
        if self.ecl_main_started != 0 {
            self.body.refuse();
            return Err(TaskStartError::MainAlreadyStarted);
        }
        let root = match image.root() {
            Some(r) => r,
            None => {
                return Err(TaskStartError::NoRoot);
            },
        };
        let meta = match image.sub_meta(root) {
            Some(m) => *m,
            None => {
                return Err(TaskStartError::NoRoot);
            },
        };
        let no_args: Vec<i32> = Vec::new();
        match self.spawn_with_args(root, meta.code_entry(), no_args.as_slice(), (OWNER_STAGE, 0, 0)) {
            Some(idx) => {
                self.ecl_main_started = 1;
                Ok(idx)
            },
            None => Err(TaskStartError::PoolFull),
        }
    }

    /// The common tail of the entry starts: the owner must be alive and the
    /// argument count must match the declared parameter count (both
    /// refused otherwise); a full pool is counted.
    fn spawn_resolved_sub<P: Simulation>(&mut self, sub: SubId, meta: RuntimeSubMeta, args: &[i32], owner: EclOwner, sim: &mut Recorder<P>) -> (r: Result<u16, TaskStartError>)
        requires
            meta.param_count <= MAX_PARAMS,
        ensures
            final(sim).calls() == old(sim).calls(),
            old(sim).reads().is_prefix_of(final(sim).reads()),
            final(self).ecl_main_started == old(self).ecl_main_started,
            r == Err::<u16, TaskStartError>(TaskStartError::InvalidOwner) ==> refused(old(self).body, final(self).body)
                && final(self).tasks == old(self).tasks,
            r != Err::<u16, TaskStartError>(TaskStartError::InvalidOwner) ==> {
                &&& args@.len() != meta.param_count ==> r == Err::<u16, TaskStartError>(
                    TaskStartError::WrongArgCount { expected: meta.param_count, actual: args@.len() as usize },
                ) && refused(old(self).body, final(self).body) && final(self).tasks == old(self).tasks
                &&& args@.len() == meta.param_count ==> match r {
                    Ok(idx) => {
                        &&& spawned_with(old(self).tasks, final(self).tasks, idx as int, sub, meta.code_entry,
                            owner.spec_tuple(), 0, old(self).body.frame, args@)
                        &&& final(self).body == old(self).body
                    },
                    Err(e) => {
                        &&& e == TaskStartError::PoolFull
                        &&& pool_full(old(self).tasks)
                        &&& final(self).tasks == old(self).tasks
                        &&& pool_refused(old(self).body, final(self).body)
                    },
                }
            },
            owner == EclOwner::Stage ==> r != Err::<u16, TaskStartError>(TaskStartError::InvalidOwner),
            exists|ans: Option<u16>| (r == Err::<u16, TaskStartError>(TaskStartError::InvalidOwner))
                == !#[trigger] owner.alive_given(ans) && final(sim).reads() == old(sim).reads() + owner.query(ans),
    {
        if !owner.validate(sim) {
            self.body.refuse();
            return Err(TaskStartError::InvalidOwner);
        }
        let expected = meta.param_count();
        if args.len() != expected as usize {
            self.body.refuse();
            return Err(TaskStartError::WrongArgCount { expected, actual: args.len() });
        }
        match self.spawn_with_args(sub, meta.code_entry(), args, owner.tuple()) {
            Some(idx) => Ok(idx),
            None => Err(TaskStartError::PoolFull),
        }
    }

    /// Starts a resolved entry with raw arguments: only the owner and the
    /// argument count are checked, not the argument types.
    pub fn spawn_entry<P: Simulation>(&mut self, entry: ResolvedEntry<'_>, args: &[i32], owner: EclOwner, sim: &mut Recorder<P>) -> (r: Result<u16, TaskStartError>)
        ensures
            final(sim).calls() == old(sim).calls(),
            old(sim).reads().is_prefix_of(final(sim).reads()),
            final(self).ecl_main_started == old(self).ecl_main_started,
            ({
                let img = entry.spec_image();
                let sub = img.spec_entry_sub(entry.spec_id()@ as int);
                let meta = img.spec_subs()[sub@ as int];
                &&& r == Err::<u16, TaskStartError>(TaskStartError::InvalidOwner) ==> refused(old(self).body, final(self).body)
                    && final(self).tasks == old(self).tasks
                &&& owner == EclOwner::Stage ==> r != Err::<u16, TaskStartError>(TaskStartError::InvalidOwner)
                &&& r != Err::<u16, TaskStartError>(TaskStartError::InvalidOwner) ==> {
                    &&& args@.len() != meta.param_count ==> r == Err::<u16, TaskStartError>(
                        TaskStartError::WrongArgCount { expected: meta.param_count, actual: args@.len() as usize },
                    ) && refused(old(self).body, final(self).body) && final(self).tasks == old(self).tasks
                    &&& args@.len() == meta.param_count ==> match r {
                        Ok(idx) => {
                            &&& spawned_with(old(self).tasks, final(self).tasks, idx as int, sub, meta.code_entry,
                                owner.spec_tuple(), 0, old(self).body.frame, args@)
                            &&& final(self).body == old(self).body
                        },
                        Err(e) => {
                            &&& e == TaskStartError::PoolFull
                            &&& pool_full(old(self).tasks)
                            &&& final(self).tasks == old(self).tasks
                            &&& pool_refused(old(self).body, final(self).body)
                        },
                    }
                }
            }),
            exists|ans: Option<u16>| (r == Err::<u16, TaskStartError>(TaskStartError::InvalidOwner))
                == !#[trigger] owner.alive_given(ans) && final(sim).reads() == old(sim).reads() + owner.query(ans),
    {
        let sub = entry.sub();
        let meta = *entry.meta();
        self.spawn_resolved_sub(sub, meta, args, owner, sim)
    }

    /// Resolves entry `name` and starts it with typed arguments: `"main"`
    /// and unknown names are refused; then the count and, in order, each
    /// argument's type must match the declaration (the first mismatch is
    /// reported); then as `spawn_entry` with the raw words.
    pub fn spawn_entry_named<P: Simulation>(
        &mut self,
        image: &EclImage,
        name: &str,
        args: &[EclArg],
        owner: EclOwner,
        sim: &mut Recorder<P>,
    ) -> (r: Result<u16, TaskStartError>)
        ensures
            final(sim).calls() == old(sim).calls(),
            old(sim).reads().is_prefix_of(final(sim).reads()),
            final(self).ecl_main_started == old(self).ecl_main_started,
            name.spec_bytes() == main_bytes() ==> r == Err::<u16, TaskStartError>(TaskStartError::RootRequiresStartMain)
                && refused(old(self).body, final(self).body) && final(self).tasks == old(self).tasks,
            name.spec_bytes() != main_bytes() && (forall|k: int| 0 <= k < image.spec_entry_count() ==> #[trigger] image.spec_entry_name(k) != name.spec_bytes())
                ==> r == Err::<u16, TaskStartError>(TaskStartError::UnknownEntry)
                && refused(old(self).body, final(self).body) && final(self).tasks == old(self).tasks,
            r matches Ok(idx) ==> exists|k: int| 0 <= k < image.spec_entry_count() && #[trigger] image.spec_entry_name(k) == name.spec_bytes()
                && image.spec_sub_params(image.spec_entry_sub(k)@ as int).len() == args@.len()
                && (forall|i: int| 0 <= i < args@.len() ==> #[trigger] args@[i].spec_value_type()
                    == image.spec_sub_params(image.spec_entry_sub(k)@ as int)[i]),
            r matches Err(TaskStartError::WrongArgType { index, expected, actual }) ==> index < args@.len()
                && actual != expected,
            forall|k: int| 0 <= k < image.spec_entry_count() && #[trigger] image.spec_entry_name(k) == name.spec_bytes()
                && name.spec_bytes() != main_bytes() ==> named_start(*old(self), *final(self), old(sim).reads(),
                final(sim).reads(), r, *image,
                image.spec_entry_sub(k), args@, owner),
    {
        let entry = match image.resolve_entry(name) {
            Ok(e) => e,
            Err(ResolveError::RootRequiresStartMain) => {
                self.body.refuse();
                return Err(TaskStartError::RootRequiresStartMain);
            },
            Err(ResolveError::UnknownEntry) => {
                self.body.refuse();
                return Err(TaskStartError::UnknownEntry);
            },
        };
        let sub = entry.sub();
        let meta = *entry.meta();
        let params = match image.param_types(sub) {
            Some(p) => p,
            None => {
                self.body.refuse();
                return Err(TaskStartError::UnknownEntry);
            },
        };
        if args.len() != params.len() {
            self.body.refuse();
            return Err(TaskStartError::WrongArgCount { expected: params.len() as u8, actual: args.len() });
        }
        let mut raw: Vec<i32> = Vec::new();
        let mut i: usize = 0;
        while i < args.len()
            invariant
                i <= args@.len(),
                args@.len() == params@.len(),
                params@.len() <= 255,
                raw@.len() == i,
                forall|k: int| 0 <= k < i ==> #[trigger] args@[k].spec_value_type() == params@[k],
                forall|k: int| 0 <= k < i ==> #[trigger] raw@[k] == args@[k].spec_raw(),
                self.ecl_main_started == old(self).ecl_main_started,
                self.tasks == old(self).tasks,
                self.body == old(self).body,
                name.spec_bytes() != main_bytes(),
                entry.spec_image() == image,
                entry.spec_id()@ < image.spec_entry_count(),
                image.spec_entry_name(entry.spec_id()@ as int) == name.spec_bytes(),
                forall|k: int| 0 <= k < image.spec_entry_count() && #[trigger] image.spec_entry_name(k)
                    == name.spec_bytes() ==> k == entry.spec_id()@,
                sub == image.spec_entry_sub(entry.spec_id()@ as int),
                params@ == image.spec_sub_params(sub@ as int),
            decreases args@.len() - i,
        {
            let t = args[i].value_type();
            if t != params[i] {
                self.body.refuse();
                proof {
                    assert(!arg_fits(args@, params@, i as int));
                    assert forall|j: int| 0 <= j < i implies #[trigger] arg_fits(args@, params@, j) by {
                        assert(args@[j].spec_value_type() == params@[j]);
                    }
                }
                return Err(TaskStartError::WrongArgType { index: i as u8, expected: params[i], actual: t });
            }
            raw.push(args[i].raw());
            i += 1;
        }
        proof {
            assert forall|j: int| 0 <= j < args@.len() implies #[trigger] arg_fits(args@, params@, j) by {
                assert(args@[j].spec_value_type() == params@[j]);
            }
            assert(raw@ =~= raw_words(args@));
        }
        self.spawn_resolved_sub(sub, meta, raw.as_slice(), owner, sim)
    }
}

} // verus!
