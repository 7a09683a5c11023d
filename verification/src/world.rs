//! The world as the script layer sees it.
//!
//! `WorldBody` holds the state the script layer reads and writes by itself:
//! the frame number, the diagnostic counters, the status of the last world
//! call, the player ledger, the freeze timers and the last spell results.
//! Everything else (entity pools and their motion, spell cards, lasers,
//! items, fields, globals, the RNG stream, the static tables and the
//! trigonometry they use) belongs to the world simulation, which the script
//! layer reaches only through `Simulation`. Its methods promise
//! nothing: every proof about the script layer holds whatever they answer.
use vstd::prelude::*;
use crate::boss::BossUiSlot;
use crate::checksum::{Checksum, Fnv1a64};
use crate::bullets::{BulletSpawn, XformSlot};
use crate::enemy::{EnemySpawn, ITEM_TYPE_COUNT};
use crate::events::Event;
use crate::math::{Angle, Fx};
use crate::pool::Handle;

verus! {

/// `last_status`: the last world call succeeded.
pub const STATUS_OK: u8 = 0;
/// `last_status`: a call was refused for bad arguments and did nothing.
pub const STATUS_BAD_ARGS: u8 = 1;
/// `last_status`: a pool was full.
pub const STATUS_POOL_FULL: u8 = 2;
/// `last_status`: a handle no longer named a live object.
pub const STATUS_STALE_HANDLE: u8 = 3;

/// `pool_full` counter of the bullet pool.
pub const POOL_BULLET: usize = 0;
/// `pool_full` counter of the enemy pool.
pub const POOL_ENEMY: usize = 1;
/// `pool_full` counter of the item pool.
pub const POOL_ITEM: usize = 2;
/// `pool_full` counter of the field pool.
pub const POOL_FIELD: usize = 3;
/// `pool_full` counter of the laser pool.
pub const POOL_LASER: usize = 4;
/// `pool_full` counter of the task pool.
pub const POOL_TASK: usize = 5;
/// Number of `pool_full` counters.
pub const POOL_KINDS: usize = 6;

/// Number of player slots.
pub const MAX_PLAYERS: usize = 2;
/// Upper clamp of a player's bomb stock.
pub const STOP_STOCK_MAX: u8 = 5;
/// Upper clamp of a player's power.
pub const POWER_MAX: u16 = 400;

/// Deterministic diagnostic counters (all wrap on overflow).
#[derive(Clone, Copy, Debug)]
pub struct Diag {
    /// Calls refused because the caller broke a documented contract.
    pub contract_viol: u32,
    /// Script tasks killed by a fault.
    pub task_faults: u32,
    /// Allocations refused because a pool was full, per pool kind.
    pub pool_full: [u32; POOL_KINDS],
}

/// The ledger of one player slot.
#[derive(Clone, Copy, Debug, PartialEq, Eq, Structural)]
pub struct Player {
    pub x: Fx,
    pub y: Fx,
    pub score: u64,
    pub lives: u8,
    pub bombs: u8,
    pub power: u16,
}

/// The part of the world state the script layer owns directly.
#[derive(Clone, Copy)]
pub struct WorldBody {
    pub frame: u32,
    pub diag: Diag,
    pub last_status: u8,
    pub players: [Player; MAX_PLAYERS],
    /// Frames of enforced stillness left, per player.
    pub freeze_left: [u16; MAX_PLAYERS],
    /// Result of the last spell card settled in each boss slot.
    pub spell_last_result: [u8; 2],
}

/// A player at the origin with nothing in the ledger.
pub open spec fn empty_player() -> Player {
    Player { x: Fx(0), y: Fx(0), score: 0, lives: 0, bombs: 0, power: 0 }
}

impl WorldBody {
    /// A body at frame 0 with all counters and ledgers zero.
    pub fn new() -> (r: WorldBody)
        ensures
            r.frame == 0,
            r.diag.contract_viol == 0,
            r.diag.task_faults == 0,
            forall|k: int| 0 <= k < POOL_KINDS ==> #[trigger] r.diag.pool_full@[k] == 0,
            r.last_status == STATUS_OK,
            forall|k: int| 0 <= k < MAX_PLAYERS ==> #[trigger] r.players@[k] == empty_player(),
            forall|k: int| 0 <= k < MAX_PLAYERS ==> #[trigger] r.freeze_left@[k] == 0,
            forall|k: int| 0 <= k < 2 ==> #[trigger] r.spell_last_result@[k] == 0,
    {
        let p = Player { x: Fx(0), y: Fx(0), score: 0, lives: 0, bombs: 0, power: 0 };
        WorldBody {
            frame: 0,
            diag: Diag { contract_viol: 0, task_faults: 0, pool_full: [0u32; POOL_KINDS] },
            last_status: STATUS_OK,
            players: [p, p],
            freeze_left: [0u16; MAX_PLAYERS],
            spell_last_result: [0u8; 2],
        }
    }

    /// Records a refused call: one more contract violation, status `BAD_ARGS`.
    pub fn refuse(&mut self)
        ensures
            final(self).diag.contract_viol == vstd::wrapping::u32_specs::wrapping_add(
                old(self).diag.contract_viol,
                1,
            ),
            final(self).last_status == STATUS_BAD_ARGS,
            final(self).frame == old(self).frame,
            final(self).diag.task_faults == old(self).diag.task_faults,
            final(self).diag.pool_full == old(self).diag.pool_full,
            final(self).players == old(self).players,
            final(self).freeze_left == old(self).freeze_left,
            final(self).spell_last_result == old(self).spell_last_result,
    {
        self.diag.contract_viol = self.diag.contract_viol.wrapping_add(1);
        self.last_status = STATUS_BAD_ARGS;
    }

    /// Counts one refused allocation in pool `kind`.
    pub fn count_pool_full(&mut self, kind: usize)
        requires
            kind < POOL_KINDS,
        ensures
            final(self).diag.pool_full@ == old(self).diag.pool_full@.update(
                kind as int,
                vstd::wrapping::u32_specs::wrapping_add(old(self).diag.pool_full@[kind as int], 1),
            ),
            final(self).diag.contract_viol == old(self).diag.contract_viol,
            final(self).diag.task_faults == old(self).diag.task_faults,
            final(self).last_status == old(self).last_status,
            final(self).frame == old(self).frame,
            final(self).players == old(self).players,
            final(self).freeze_left == old(self).freeze_left,
            final(self).spell_last_result == old(self).spell_last_result,
    {
        self.diag.pool_full[kind] = self.diag.pool_full[kind].wrapping_add(1);
    }
}

impl Checksum for Diag {
    open spec fn checksum_bytes(&self) -> Seq<u8> {
        self.contract_viol.checksum_bytes() + self.task_faults.checksum_bytes() + self.pool_full.checksum_bytes()
    }

    fn hash_into(&self, h: &mut Fnv1a64) {
        let ghost s0 = h@;
        self.contract_viol.hash_into(h);
        self.task_faults.hash_into(h);
        proof { crate::checksum::lemma_fold_concat(s0, self.contract_viol.checksum_bytes(), self.task_faults.checksum_bytes()); }
        self.pool_full.hash_into(h);
        proof { crate::checksum::lemma_fold_concat(s0, self.contract_viol.checksum_bytes() + self.task_faults.checksum_bytes(), self.pool_full.checksum_bytes()); }
    }
}

impl Checksum for Player {
    open spec fn checksum_bytes(&self) -> Seq<u8> {
        self.x.checksum_bytes() + self.y.checksum_bytes() + self.score.checksum_bytes() + self.lives.checksum_bytes() + self.bombs.checksum_bytes() + self.power.checksum_bytes()
    }

    fn hash_into(&self, h: &mut Fnv1a64) {
        let ghost s0 = h@;
        self.x.hash_into(h);
        self.y.hash_into(h);
        proof { crate::checksum::lemma_fold_concat(s0, self.x.checksum_bytes(), self.y.checksum_bytes()); }
        self.score.hash_into(h);
        proof { crate::checksum::lemma_fold_concat(s0, self.x.checksum_bytes() + self.y.checksum_bytes(), self.score.checksum_bytes()); }
        self.lives.hash_into(h);
        proof { crate::checksum::lemma_fold_concat(s0, self.x.checksum_bytes() + self.y.checksum_bytes() + self.score.checksum_bytes(), self.lives.checksum_bytes()); }
        self.bombs.hash_into(h);
        proof { crate::checksum::lemma_fold_concat(s0, self.x.checksum_bytes() + self.y.checksum_bytes() + self.score.checksum_bytes() + self.lives.checksum_bytes(), self.bombs.checksum_bytes()); }
        self.power.hash_into(h);
        proof { crate::checksum::lemma_fold_concat(s0, self.x.checksum_bytes() + self.y.checksum_bytes() + self.score.checksum_bytes() + self.lives.checksum_bytes() + self.bombs.checksum_bytes(), self.power.checksum_bytes()); }
    }
}

impl Checksum for WorldBody {
    open spec fn checksum_bytes(&self) -> Seq<u8> {
        self.frame.checksum_bytes() + self.diag.checksum_bytes() + self.last_status.checksum_bytes() + self.players.checksum_bytes() + self.freeze_left.checksum_bytes() + self.spell_last_result.checksum_bytes()
    }

    fn hash_into(&self, h: &mut Fnv1a64) {
        let ghost s0 = h@;
        self.frame.hash_into(h);
        self.diag.hash_into(h);
        proof { crate::checksum::lemma_fold_concat(s0, self.frame.checksum_bytes(), self.diag.checksum_bytes()); }
        self.last_status.hash_into(h);
        proof { crate::checksum::lemma_fold_concat(s0, self.frame.checksum_bytes() + self.diag.checksum_bytes(), self.last_status.checksum_bytes()); }
        self.players.hash_into(h);
        proof { crate::checksum::lemma_fold_concat(s0, self.frame.checksum_bytes() + self.diag.checksum_bytes() + self.last_status.checksum_bytes(), self.players.checksum_bytes()); }
        self.freeze_left.hash_into(h);
        proof { crate::checksum::lemma_fold_concat(s0, self.frame.checksum_bytes() + self.diag.checksum_bytes() + self.last_status.checksum_bytes() + self.players.checksum_bytes(), self.freeze_left.checksum_bytes()); }
        self.spell_last_result.hash_into(h);
        proof { crate::checksum::lemma_fold_concat(s0, self.frame.checksum_bytes() + self.diag.checksum_bytes() + self.last_status.checksum_bytes() + self.players.checksum_bytes() + self.freeze_left.checksum_bytes(), self.spell_last_result.checksum_bytes()); }
    }
}

/// A static appearance-table cell: whether it holds a sprite, and which.
#[derive(Clone, Copy, Debug, PartialEq, Eq, Structural)]
pub struct Appearance {
    pub valid: bool,
    pub sprite: u16,
    pub radius: Fx,
}

/// The static tables the world is built with: the appearance cells
/// bullets are drawn from and the drop tables enemies carry.
pub struct WorldTables {
    pub appearances: Vec<Appearance>,
    pub drop_tables: Vec<[u8; ITEM_TYPE_COUNT]>,
}

/// The motion-relevant view of a live enemy.
#[derive(Clone, Copy, Debug, PartialEq, Eq, Structural)]
pub struct EnemyView {
    pub x: Fx,
    pub y: Fx,
    pub vx: Fx,
    pub vy: Fx,
    pub speed: Fx,
    pub angle: Angle,
    pub hp: i32,
    pub hp_max: i32,
}

/// The motion-relevant view of a live bullet (polar form made current).
#[derive(Clone, Copy, Debug, PartialEq, Eq, Structural)]
pub struct BulletView {
    pub x: Fx,
    pub y: Fx,
    pub vx: Fx,
    pub vy: Fx,
    pub speed: Fx,
    pub angle: Angle,
}

/// The identity of a spell slot as the scheduler sees it.
#[derive(Clone, Copy, Debug, PartialEq, Eq, Structural)]
pub struct SpellView {
    pub active: bool,
    /// Generation stamp, changed every time the slot is reused.
    pub epoch: u16,
    pub boss: Handle,
}

/// The geometry of a live laser.
#[derive(Clone, Copy, Debug, PartialEq, Eq, Structural)]
pub struct LaserView {
    pub ox: Fx,
    pub oy: Fx,
    pub angle: Angle,
    pub start: Fx,
    pub end: Fx,
}

/// A write a script makes to the bullet that owns it.
#[derive(Clone, Copy, Debug, PartialEq, Eq, Structural)]
pub enum BulletOp {
    SetSpeed(Fx),
    SetAngle(Angle),
    Turn(Angle),
    SetVel(Fx, Fx),
    SetAngVel(i16),
    SetAccel(Fx),
    SetGravity(Fx, Fx),
    StopFx,
    AimAtPlayer(Angle),
}

/// A write a script makes to the enemy that owns it.
#[derive(Clone, Copy, Debug, PartialEq, Eq, Structural)]
pub enum EnemyOp {
    /// Eased move to `(x, y)` over `dur` frames.
    MoveTo { x: Fx, y: Fx, dur: u16, easing: u8 },
    /// Eased change of the polar velocity.
    VelPolar { angle: Angle, speed: Fx, dur: u16, easing: u8 },
    /// Eased change of the Cartesian velocity.
    VelCart { vx: Fx, vy: Fx, dur: u16, easing: u8 },
    /// Eased change of the heading only.
    Angle { angle: Angle, dur: u16, easing: u8 },
    /// Eased change of the speed only.
    Speed { speed: Fx, dur: u16, easing: u8 },
    SetAnmState(u16),
    SetInvuln(u16),
    SetHitbox(Fx),
    SetHurtbox(Fx),
    /// Sets (`true`) or clears the flag bits in the mask.
    SetFlags(u8, bool),
    ClearDrops,
    /// Adds `n` more drops of item type `t` (saturating).
    AddDrop(u8, u8),
    SpillDrops,
    Die,
}

/// The creation record of a laser.
#[derive(Clone, Copy, Debug, PartialEq, Eq, Structural)]
pub struct LaserSpawn {
    pub ox: Fx,
    pub oy: Fx,
    pub angle: Angle,
    pub len: Fx,
    pub width: Fx,
    pub sprite: u16,
    pub warn: u16,
    pub active: u16,
    pub fade: u16,
}

/// A write a script makes to a live laser (a write through a stale laser
/// number is counted by the script layer and never reaches the world). An
/// anchor to the null handle detaches the laser.
#[derive(Clone, Copy, Debug, PartialEq, Eq, Structural)]
pub enum LaserOp {
    Speed(Fx, Fx),
    Start(Fx),
    Omega(i16),
    Rotate(Angle),
    Aim(Angle),
    Anchor(Handle, Fx, Fx),
    Origin(Fx, Fx),
    Cancel,
}

/// A bullet-clearing field a script creates.
#[derive(Clone, Copy, Debug, PartialEq, Eq, Structural)]
pub enum FieldSpec {
    /// A circle at `(x, y)` of radius `r`; `stars` turns cleared bullets into items.
    At { x: Fx, y: Fx, r: Fx, stars: bool },
    /// The whole screen.
    Fullscreen,
}

/// A presentation anchor a script sets.
#[derive(Clone, Copy, Debug, PartialEq, Eq, Structural)]
pub enum AnchorKind {
    Bgm,
    Bg,
    BgPhase,
}

/// The world simulation behind the script layer. Nothing is promised of
/// any answer; a sim that misbehaves can only make scripts observe odd
/// values, never break the script layer's own guarantees.
pub trait Simulation {
    /// Sine of a binary angle.
    fn sin(&self, a: Angle) -> Fx;
    /// Cosine of a binary angle.
    fn cos(&self, a: Angle) -> Fx;
    /// Direction of the vector `(x, y)`.
    fn atan2(&self, y: Fx, x: Fx) -> Angle;
    /// The vector of length `r` in direction `a`.
    fn polar_to_vec(&self, r: Fx, a: Angle) -> (Fx, Fx);
    /// Uniform draw in `0..n` from the world stream (`n > 0`).
    fn rand_range(&mut self, n: u32) -> u32;

    /// Generation of enemy slot `index` if it is occupied.
    fn enemy_generation(&self, index: usize) -> Option<u16>;
    /// Motion state of enemy slot `index`.
    fn enemy_view(&self, index: usize) -> EnemyView;
    /// The task recorded as enemy `index`'s main task (task index + 1, 0 = none).
    fn enemy_main_task(&self, index: usize) -> u32;
    /// Records enemy `index`'s main task.
    fn set_enemy_main_task(&mut self, index: usize, v: u32);
    /// Marks enemy `index` dying (reclaimed at the end of the frame).
    fn mark_enemy_dying(&mut self, index: usize);
    /// Generation of bullet slot `index` if it is occupied.
    fn bullet_generation(&self, index: usize) -> Option<u16>;
    /// Motion state of bullet slot `index`.
    fn bullet_view(&mut self, index: usize) -> BulletView;
    /// Generation of laser slot `index` if it is occupied.
    fn laser_generation(&self, index: usize) -> Option<u16>;
    /// Geometry of laser slot `index`.
    fn laser_view(&self, index: usize) -> LaserView;
    /// Spell slot `slot`.
    fn spell(&self, slot: usize) -> SpellView;
    /// Frames left on the spell card bound to enemy `h`, -1 if none.
    fn spell_frames_left_of(&self, h: Handle) -> i32;
    /// The live enemy nearest to `(x, y)`.
    fn nearest_enemy(&self, x: Fx, y: Fx) -> Option<Handle>;
    /// The player a shot from `(x, y)` aims at.
    fn aim_target(&self, x: Fx, y: Fx) -> usize;
    /// Global variable `slot`.
    fn get_var(&self, slot: u16) -> i32;

    /// Creates one bullet (with a transform program when `xform` is not
    /// empty); the null handle when refused.
    fn create_bullet(&mut self, init: BulletSpawn, xform: &[XformSlot]) -> Handle;
    /// Creates a grid of bullets; returns how many were created.
    fn create_bullets_batch(
        &mut self,
        init: BulletSpawn,
        n_angle: u16,
        angle0: Angle,
        angle_step: i16,
        n_speed: u16,
        speed0: Fx,
        speed_step: Fx,
    ) -> u32;
    /// Creates an enemy; the null handle when refused.
    fn create_enemy(&mut self, init: EnemySpawn) -> Handle;
    /// Drops an item; its slot index, or `None` when refused.
    fn drop_item(&mut self, x: Fx, y: Fx, item_type: u8) -> Option<u16>;
    /// Applies a write to bullet `h`.
    fn bullet_op(&mut self, h: Handle, op: BulletOp);
    /// Applies a write to enemy `h`.
    fn enemy_op(&mut self, h: Handle, op: EnemyOp);
    /// Kills every enemy but `except` (and the exempt ones).
    fn kill_all_enemies(&mut self, except: Option<Handle>, die: bool);
    /// Creates a clearing field; false when the field pool is full.
    fn create_field(&mut self, f: FieldSpec) -> bool;
    /// Sets a presentation anchor.
    fn set_anchor(&mut self, kind: AnchorKind, v: u16);
    /// Pulses signal channel `ch`.
    fn pulse_signal(&mut self, ch: usize);
    /// Pushes a request to the host.
    fn emit_req(&mut self, id: u16, args: [i32; 6]);
    /// Records a world event.
    fn push_event(&mut self, e: Event);
    /// Writes boss bulletin slot `slot`.
    fn boss_set(&mut self, slot: u8, ui: BossUiSlot);
    /// Declares a spell card in slot `slot`; whether it began.
    fn spell_begin(
        &mut self,
        slot: usize,
        boss: Handle,
        spell_id: u16,
        time_limit: u16,
        bonus0: u32,
        flags: u8,
        threshold: i32,
    ) -> bool;
    /// Ends the spell card bound to enemy `h`, if any.
    fn spell_end_by_owner(&mut self, h: Handle);
    /// Writes global variable `slot`.
    fn set_var(&mut self, slot: u16, v: i32);
    /// Creates a laser; the null handle when refused.
    fn create_laser(&mut self, init: LaserSpawn) -> Handle;
    /// Applies a write to laser `h`.
    fn laser_op(&mut self, h: Handle, op: LaserOp);
}


/// A call that changes the world, with the world's answer where it gives
/// one, as the script layer made it.
pub enum WorldCall {
    RandRange(u32, u32),
    SetEnemyMainTask(usize, u32),
    MarkEnemyDying(usize),
    BulletView(usize, BulletView),
    CreateBullet(BulletSpawn, Seq<XformSlot>, Handle),
    CreateBulletsBatch(BulletSpawn, u16, Angle, i16, u16, Fx, Fx, u32),
    CreateEnemy(EnemySpawn, Handle),
    DropItem(Fx, Fx, u8, Option<u16>),
    WriteBullet(Handle, BulletOp),
    WriteEnemy(Handle, EnemyOp),
    KillAllEnemies(Option<Handle>, bool),
    CreateField(FieldSpec, bool),
    SetAnchor(AnchorKind, u16),
    PulseSignal(usize),
    EmitReq(u16, [i32; 6]),
    PushEvent(Event),
    BossSet(u8, BossUiSlot),
    SpellBegin(usize, Handle, u16, u16, u32, u8, i32, bool),
    SpellEndByOwner(Handle),
    SetVar(u16, i32),
    CreateLaser(LaserSpawn, Handle),
    WriteLaser(Handle, LaserOp),
}

/// A question the script layer asked the world, with the world's answer.
pub enum WorldRead {
    Sin(Angle, Fx),
    Cos(Angle, Fx),
    Atan2(Fx, Fx, Angle),
    PolarToVec(Fx, Angle, (Fx, Fx)),
    EnemyGeneration(usize, Option<u16>),
    EnemyView(usize, EnemyView),
    EnemyMainTask(usize, u32),
    BulletGeneration(usize, Option<u16>),
    LaserGeneration(usize, Option<u16>),
    LaserView(usize, LaserView),
    Spell(usize, SpellView),
    SpellFramesLeftOf(Handle, i32),
    NearestEnemy(Fx, Fx, Option<Handle>),
    AimTarget(Fx, Fx, usize),
    GetVar(u16, i32),
}

/// The world as the script layer talks to it: every call that changes the
/// world goes through here and is recorded, with the world's answer, in
/// `calls()`, and every question asked of it, with its answer, in
/// `reads()`. The answers themselves are the world's.
pub struct Recorder<P> {
    pub inner: P,
    calls: Ghost<Seq<WorldCall>>,
    reads: Ghost<Seq<WorldRead>>,
}

impl<P: Simulation> Recorder<P> {
    /// The world-changing calls made through this recorder, in order.
    pub closed spec fn calls(&self) -> Seq<WorldCall> {
        self.calls@
    }

    /// The questions asked of the world through this recorder, with their
    /// answers, in order.
    pub closed spec fn reads(&self) -> Seq<WorldRead> {
        self.reads@
    }

    /// A recorder over `inner` with no call made yet.
    pub fn new(inner: P) -> (r: Self)
        ensures
            r.calls() == Seq::<WorldCall>::empty(),
            r.reads() == Seq::<WorldRead>::empty(),
    {
        Recorder { inner, calls: Ghost(Seq::empty()), reads: Ghost(Seq::empty()) }
    }

    /// Asks the world (`Simulation::sin`) and records the question with its
    /// answer.
    pub fn sin(&mut self, a: Angle) -> (r: Fx)
        ensures
            final(self).calls() == old(self).calls(),
            final(self).reads() == old(self).reads().push(WorldRead::Sin(a, r)),
    {
        let r = self.inner.sin(a);
        self.reads = Ghost(self.reads@.push(WorldRead::Sin(a, r)));
        r
    }

    /// Asks the world (`Simulation::cos`) and records the question with its
    /// answer.
    pub fn cos(&mut self, a: Angle) -> (r: Fx)
        ensures
            final(self).calls() == old(self).calls(),
            final(self).reads() == old(self).reads().push(WorldRead::Cos(a, r)),
    {
        let r = self.inner.cos(a);
        self.reads = Ghost(self.reads@.push(WorldRead::Cos(a, r)));
        r
    }

    /// Asks the world (`Simulation::atan2`) and records the question with its
    /// answer.
    pub fn atan2(&mut self, y: Fx, x: Fx) -> (r: Angle)
        ensures
            final(self).calls() == old(self).calls(),
            final(self).reads() == old(self).reads().push(WorldRead::Atan2(y, x, r)),
    {
        let r = self.inner.atan2(y, x);
        self.reads = Ghost(self.reads@.push(WorldRead::Atan2(y, x, r)));
        r
    }

    /// Asks the world (`Simulation::polar_to_vec`) and records the question with its
    /// answer.
    pub fn polar_to_vec(&mut self, r0: Fx, a: Angle) -> (r: (Fx, Fx))
        ensures
            final(self).calls() == old(self).calls(),
            final(self).reads() == old(self).reads().push(WorldRead::PolarToVec(r0, a, r)),
    {
        let r = self.inner.polar_to_vec(r0, a);
        self.reads = Ghost(self.reads@.push(WorldRead::PolarToVec(r0, a, r)));
        r
    }

    /// Asks the world (`Simulation::enemy_generation`) and records the question with its
    /// answer.
    pub fn enemy_generation(&mut self, index: usize) -> (r: Option<u16>)
        ensures
            final(self).calls() == old(self).calls(),
            final(self).reads() == old(self).reads().push(WorldRead::EnemyGeneration(index, r)),
    {
        let r = self.inner.enemy_generation(index);
        self.reads = Ghost(self.reads@.push(WorldRead::EnemyGeneration(index, r)));
        r
    }

    /// Asks the world (`Simulation::enemy_view`) and records the question with its
    /// answer.
    pub fn enemy_view(&mut self, index: usize) -> (r: EnemyView)
        ensures
            final(self).calls() == old(self).calls(),
            final(self).reads() == old(self).reads().push(WorldRead::EnemyView(index, r)),
    {
        let r = self.inner.enemy_view(index);
        self.reads = Ghost(self.reads@.push(WorldRead::EnemyView(index, r)));
        r
    }

    /// Asks the world (`Simulation::enemy_main_task`) and records the question with its
    /// answer.
    pub fn enemy_main_task(&mut self, index: usize) -> (r: u32)
        ensures
            final(self).calls() == old(self).calls(),
            final(self).reads() == old(self).reads().push(WorldRead::EnemyMainTask(index, r)),
    {
        let r = self.inner.enemy_main_task(index);
        self.reads = Ghost(self.reads@.push(WorldRead::EnemyMainTask(index, r)));
        r
    }

    /// Asks the world (`Simulation::bullet_generation`) and records the question with its
    /// answer.
    pub fn bullet_generation(&mut self, index: usize) -> (r: Option<u16>)
        ensures
            final(self).calls() == old(self).calls(),
            final(self).reads() == old(self).reads().push(WorldRead::BulletGeneration(index, r)),
    {
        let r = self.inner.bullet_generation(index);
        self.reads = Ghost(self.reads@.push(WorldRead::BulletGeneration(index, r)));
        r
    }

    /// Asks the world (`Simulation::laser_generation`) and records the question with its
    /// answer.
    pub fn laser_generation(&mut self, index: usize) -> (r: Option<u16>)
        ensures
            final(self).calls() == old(self).calls(),
            final(self).reads() == old(self).reads().push(WorldRead::LaserGeneration(index, r)),
    {
        let r = self.inner.laser_generation(index);
        self.reads = Ghost(self.reads@.push(WorldRead::LaserGeneration(index, r)));
        r
    }

    /// Asks the world (`Simulation::laser_view`) and records the question with its
    /// answer.
    pub fn laser_view(&mut self, index: usize) -> (r: LaserView)
        ensures
            final(self).calls() == old(self).calls(),
            final(self).reads() == old(self).reads().push(WorldRead::LaserView(index, r)),
    {
        let r = self.inner.laser_view(index);
        self.reads = Ghost(self.reads@.push(WorldRead::LaserView(index, r)));
        r
    }

    /// Asks the world (`Simulation::spell`) and records the question with its
    /// answer.
    pub fn spell(&mut self, slot: usize) -> (r: SpellView)
        ensures
            final(self).calls() == old(self).calls(),
            final(self).reads() == old(self).reads().push(WorldRead::Spell(slot, r)),
    {
        let r = self.inner.spell(slot);
        self.reads = Ghost(self.reads@.push(WorldRead::Spell(slot, r)));
        r
    }

    /// Asks the world (`Simulation::spell_frames_left_of`) and records the question with its
    /// answer.
    pub fn spell_frames_left_of(&mut self, h: Handle) -> (r: i32)
        ensures
            final(self).calls() == old(self).calls(),
            final(self).reads() == old(self).reads().push(WorldRead::SpellFramesLeftOf(h, r)),
    {
        let r = self.inner.spell_frames_left_of(h);
        self.reads = Ghost(self.reads@.push(WorldRead::SpellFramesLeftOf(h, r)));
        r
    }

    /// Asks the world (`Simulation::nearest_enemy`) and records the question with its
    /// answer.
    pub fn nearest_enemy(&mut self, x: Fx, y: Fx) -> (r: Option<Handle>)
        ensures
            final(self).calls() == old(self).calls(),
            final(self).reads() == old(self).reads().push(WorldRead::NearestEnemy(x, y, r)),
    {
        let r = self.inner.nearest_enemy(x, y);
        self.reads = Ghost(self.reads@.push(WorldRead::NearestEnemy(x, y, r)));
        r
    }

    /// Asks the world (`Simulation::aim_target`) and records the question with its
    /// answer.
    pub fn aim_target(&mut self, x: Fx, y: Fx) -> (r: usize)
        ensures
            final(self).calls() == old(self).calls(),
            final(self).reads() == old(self).reads().push(WorldRead::AimTarget(x, y, r)),
    {
        let r = self.inner.aim_target(x, y);
        self.reads = Ghost(self.reads@.push(WorldRead::AimTarget(x, y, r)));
        r
    }

    /// Asks the world (`Simulation::get_var`) and records the question with its
    /// answer.
    pub fn get_var(&mut self, slot: u16) -> (r: i32)
        ensures
            final(self).calls() == old(self).calls(),
            final(self).reads() == old(self).reads().push(WorldRead::GetVar(slot, r)),
    {
        let r = self.inner.get_var(slot);
        self.reads = Ghost(self.reads@.push(WorldRead::GetVar(slot, r)));
        r
    }

    /// Makes the call `Simulation::rand_range` and records it with its answer.
    pub fn rand_range(&mut self, n: u32) -> (r: u32)
        ensures
            final(self).reads() == old(self).reads(),
            final(self).calls() == old(self).calls().push(WorldCall::RandRange(n, r)),
    {
        let r = self.inner.rand_range(n);
        self.calls = Ghost(self.calls@.push(WorldCall::RandRange(n, r)));
        r
    }

    /// Makes the call `Simulation::set_enemy_main_task` and records it.
    pub fn set_enemy_main_task(&mut self, index: usize, v: u32)
        ensures
            final(self).reads() == old(self).reads(),
            final(self).calls() == old(self).calls().push(WorldCall::SetEnemyMainTask(index, v)),
    {
        self.inner.set_enemy_main_task(index, v);
        self.calls = Ghost(self.calls@.push(WorldCall::SetEnemyMainTask(index, v)));
    }

    /// Makes the call `Simulation::mark_enemy_dying` and records it.
    pub fn mark_enemy_dying(&mut self, index: usize)
        ensures
            final(self).reads() == old(self).reads(),
            final(self).calls() == old(self).calls().push(WorldCall::MarkEnemyDying(index)),
    {
        self.inner.mark_enemy_dying(index);
        self.calls = Ghost(self.calls@.push(WorldCall::MarkEnemyDying(index)));
    }

    /// Makes the call `Simulation::bullet_view` and records it with its answer.
    pub fn bullet_view(&mut self, index: usize) -> (r: BulletView)
        ensures
            final(self).reads() == old(self).reads(),
            final(self).calls() == old(self).calls().push(WorldCall::BulletView(index, r)),
    {
        let r = self.inner.bullet_view(index);
        self.calls = Ghost(self.calls@.push(WorldCall::BulletView(index, r)));
        r
    }

    /// Makes the call `Simulation::create_bullet` and records it with its answer.
    pub fn create_bullet(&mut self, init: BulletSpawn, xform: &[XformSlot]) -> (r: Handle)
        ensures
            final(self).reads() == old(self).reads(),
            final(self).calls() == old(self).calls().push(WorldCall::CreateBullet(init, xform@, r)),
    {
        let r = self.inner.create_bullet(init, xform);
        self.calls = Ghost(self.calls@.push(WorldCall::CreateBullet(init, xform@, r)));
        r
    }

    /// Makes the call `Simulation::create_bullets_batch` and records it with its answer.
    pub fn create_bullets_batch(&mut self, init: BulletSpawn, n_angle: u16, angle0: Angle, angle_step: i16, n_speed: u16, speed0: Fx, speed_step: Fx) -> (r: u32)
        ensures
            final(self).reads() == old(self).reads(),
            final(self).calls() == old(self).calls().push(WorldCall::CreateBulletsBatch(init, n_angle, angle0, angle_step, n_speed, speed0, speed_step, r)),
    {
        let r = self.inner.create_bullets_batch(init, n_angle, angle0, angle_step, n_speed, speed0, speed_step);
        self.calls = Ghost(self.calls@.push(WorldCall::CreateBulletsBatch(init, n_angle, angle0, angle_step, n_speed, speed0, speed_step, r)));
        r
    }

    /// Makes the call `Simulation::create_enemy` and records it with its answer.
    pub fn create_enemy(&mut self, init: EnemySpawn) -> (r: Handle)
        ensures
            final(self).reads() == old(self).reads(),
            final(self).calls() == old(self).calls().push(WorldCall::CreateEnemy(init, r)),
    {
        let r = self.inner.create_enemy(init);
        self.calls = Ghost(self.calls@.push(WorldCall::CreateEnemy(init, r)));
        r
    }

    /// Makes the call `Simulation::drop_item` and records it with its answer.
    pub fn drop_item(&mut self, x: Fx, y: Fx, item_type: u8) -> (r: Option<u16>)
        ensures
            final(self).reads() == old(self).reads(),
            final(self).calls() == old(self).calls().push(WorldCall::DropItem(x, y, item_type, r)),
    {
        let r = self.inner.drop_item(x, y, item_type);
        self.calls = Ghost(self.calls@.push(WorldCall::DropItem(x, y, item_type, r)));
        r
    }

    /// Makes the call `Simulation::bullet_op` and records it.
    pub fn bullet_op(&mut self, h: Handle, op: BulletOp)
        ensures
            final(self).reads() == old(self).reads(),
            final(self).calls() == old(self).calls().push(WorldCall::WriteBullet(h, op)),
    {
        self.inner.bullet_op(h, op);
        self.calls = Ghost(self.calls@.push(WorldCall::WriteBullet(h, op)));
    }

    /// Makes the call `Simulation::enemy_op` and records it.
    pub fn enemy_op(&mut self, h: Handle, op: EnemyOp)
        ensures
            final(self).reads() == old(self).reads(),
            final(self).calls() == old(self).calls().push(WorldCall::WriteEnemy(h, op)),
    {
        self.inner.enemy_op(h, op);
        self.calls = Ghost(self.calls@.push(WorldCall::WriteEnemy(h, op)));
    }

    /// Makes the call `Simulation::kill_all_enemies` and records it.
    pub fn kill_all_enemies(&mut self, except: Option<Handle>, die: bool)
        ensures
            final(self).reads() == old(self).reads(),
            final(self).calls() == old(self).calls().push(WorldCall::KillAllEnemies(except, die)),
    {
        self.inner.kill_all_enemies(except, die);
        self.calls = Ghost(self.calls@.push(WorldCall::KillAllEnemies(except, die)));
    }

    /// Makes the call `Simulation::create_field` and records it with its answer.
    pub fn create_field(&mut self, f: FieldSpec) -> (r: bool)
        ensures
            final(self).reads() == old(self).reads(),
            final(self).calls() == old(self).calls().push(WorldCall::CreateField(f, r)),
    {
        let r = self.inner.create_field(f);
        self.calls = Ghost(self.calls@.push(WorldCall::CreateField(f, r)));
        r
    }

    /// Makes the call `Simulation::set_anchor` and records it.
    pub fn set_anchor(&mut self, kind: AnchorKind, v: u16)
        ensures
            final(self).reads() == old(self).reads(),
            final(self).calls() == old(self).calls().push(WorldCall::SetAnchor(kind, v)),
    {
        self.inner.set_anchor(kind, v);
        self.calls = Ghost(self.calls@.push(WorldCall::SetAnchor(kind, v)));
    }

    /// Makes the call `Simulation::pulse_signal` and records it.
    pub fn pulse_signal(&mut self, ch: usize)
        ensures
            final(self).reads() == old(self).reads(),
            final(self).calls() == old(self).calls().push(WorldCall::PulseSignal(ch)),
    {
        self.inner.pulse_signal(ch);
        self.calls = Ghost(self.calls@.push(WorldCall::PulseSignal(ch)));
    }

    /// Makes the call `Simulation::emit_req` and records it.
    pub fn emit_req(&mut self, id: u16, args: [i32; 6])
        ensures
            final(self).reads() == old(self).reads(),
            final(self).calls() == old(self).calls().push(WorldCall::EmitReq(id, args)),
    {
        self.inner.emit_req(id, args);
        self.calls = Ghost(self.calls@.push(WorldCall::EmitReq(id, args)));
    }

    /// Makes the call `Simulation::push_event` and records it.
    pub fn push_event(&mut self, e: Event)
        ensures
            final(self).reads() == old(self).reads(),
            final(self).calls() == old(self).calls().push(WorldCall::PushEvent(e)),
    {
        self.inner.push_event(e);
        self.calls = Ghost(self.calls@.push(WorldCall::PushEvent(e)));
    }

    /// Makes the call `Simulation::boss_set` and records it.
    pub fn boss_set(&mut self, slot: u8, ui: BossUiSlot)
        ensures
            final(self).reads() == old(self).reads(),
            final(self).calls() == old(self).calls().push(WorldCall::BossSet(slot, ui)),
    {
        self.inner.boss_set(slot, ui);
        self.calls = Ghost(self.calls@.push(WorldCall::BossSet(slot, ui)));
    }

    /// Makes the call `Simulation::spell_begin` and records it with its answer.
    pub fn spell_begin(&mut self, slot: usize, boss: Handle, spell_id: u16, time_limit: u16, bonus0: u32, flags: u8, threshold: i32) -> (r: bool)
        ensures
            final(self).reads() == old(self).reads(),
            final(self).calls() == old(self).calls().push(WorldCall::SpellBegin(slot, boss, spell_id, time_limit, bonus0, flags, threshold, r)),
    {
        let r = self.inner.spell_begin(slot, boss, spell_id, time_limit, bonus0, flags, threshold);
        self.calls = Ghost(self.calls@.push(WorldCall::SpellBegin(slot, boss, spell_id, time_limit, bonus0, flags, threshold, r)));
        r
    }

    /// Makes the call `Simulation::spell_end_by_owner` and records it.
    pub fn spell_end_by_owner(&mut self, h: Handle)
        ensures
            final(self).reads() == old(self).reads(),
            final(self).calls() == old(self).calls().push(WorldCall::SpellEndByOwner(h)),
    {
        self.inner.spell_end_by_owner(h);
        self.calls = Ghost(self.calls@.push(WorldCall::SpellEndByOwner(h)));
    }

    /// Makes the call `Simulation::set_var` and records it.
    pub fn set_var(&mut self, slot: u16, v: i32)
        ensures
            final(self).reads() == old(self).reads(),
            final(self).calls() == old(self).calls().push(WorldCall::SetVar(slot, v)),
    {
        self.inner.set_var(slot, v);
        self.calls = Ghost(self.calls@.push(WorldCall::SetVar(slot, v)));
    }

    /// Makes the call `Simulation::create_laser` and records it with its answer.
    pub fn create_laser(&mut self, init: LaserSpawn) -> (r: Handle)
        ensures
            final(self).reads() == old(self).reads(),
            final(self).calls() == old(self).calls().push(WorldCall::CreateLaser(init, r)),
    {
        let r = self.inner.create_laser(init);
        self.calls = Ghost(self.calls@.push(WorldCall::CreateLaser(init, r)));
        r
    }

    /// Makes the call `Simulation::laser_op` and records it.
    pub fn laser_op(&mut self, h: Handle, op: LaserOp)
        ensures
            final(self).reads() == old(self).reads(),
            final(self).calls() == old(self).calls().push(WorldCall::WriteLaser(h, op)),
    {
        self.inner.laser_op(h, op);
        self.calls = Ghost(self.calls@.push(WorldCall::WriteLaser(h, op)));
    }
}

} // verus!
