//! The syscall table (frozen numbers: the hundreds digit is the family)
//! and the binding layer behind `OP_SYS`.
//!
//! Arguments are pushed in declaration order, so a handler pops them in
//! reverse. Read calls push one result, creation calls push a handle (or
//! -1), write calls push nothing. An unknown number or a stack underflow is
//! a fault; an argument out of its documented range is refused without a
//! fault (one more `contract_viol`, `last_status = BAD_ARGS`, no effect).
use vstd::prelude::*;
use crate::ecl::image::{EclImage, RuntimeSubMeta, SubId, SubKind};
use crate::bullets::{BulletSpawn, XformSlot, BULLET_CAP, XFORM_MAX};
use crate::boss::MAX_BOSSES;
use crate::ecl::shooter::{default_shooter, ShooterSlot, SHOOTERS_PER_TASK, SH_ABS_OFFSET, SH_AIMED, SH_NO_TASK, SH_RING};
use crate::ecl::task::{task_wf, Task, TaskPool, EVAL_DEPTH, LOCALS, TASK_CAP};
use crate::ecl::vm::{same_identity, FAULT_BAD_OP, FAULT_STACK};
use crate::ecl::task::{OWNER_BULLET, OWNER_ENEMY};
use crate::enemy::{EnemySpawn, ITEM_TYPE_COUNT, KILL_DIE, KILL_SILENT, pack_handle, spec_pack_handle, unpack_handle, ENEMY_CAP};
use crate::math::{bam, bam_of, fx_dist, fx_length, Angle, Fx};
use crate::pool::Handle;
use crate::boss::BossUiSlot;
use crate::consts::{GLOBALS_SYS_SEGMENT, REQ_FX_AT, REQ_FX_ATTACHED};
use crate::events::{Event, EVT_STAGE_CLEARED};
use crate::world::{BulletView, Diag, EnemyView, LaserView, Recorder, SpellView, WorldCall, WorldRead, POOL_TASK, POOL_BULLET, POOL_ENEMY, POOL_FIELD, POOL_LASER, Appearance, WorldTables, AnchorKind, BulletOp, EnemyOp, FieldSpec, LaserOp, LaserSpawn, STATUS_STALE_HANDLE, Player, WorldBody, Simulation, MAX_PLAYERS, POWER_MAX, STATUS_BAD_ARGS, STOP_STOCK_MAX};

verus! {

// Engine variables (0xx): read the frame, the players and the owner.
pub const SYS_FRAME: u16 = 0;
pub const SYS_PLAYER_X: u16 = 10;
pub const SYS_PLAYER_Y: u16 = 11;
pub const SYS_SELF_X: u16 = 20;
pub const SYS_SELF_Y: u16 = 21;
pub const SYS_SELF_VX: u16 = 22;
pub const SYS_SELF_VY: u16 = 23;
pub const SYS_SELF_SPEED: u16 = 24;
pub const SYS_SELF_ANGLE: u16 = 25;
pub const SYS_SELF_ENEMY: u16 = 26;
pub const SYS_SELF_HP: u16 = 30;
pub const SYS_SELF_HP_MAX: u16 = 31;
pub const SYS_SELF_AGE: u16 = 32;

// Queries and pure math (1xx).
pub const SYS_ENEMY_HP: u16 = 100;
pub const SYS_ENEMY_X: u16 = 101;
pub const SYS_ENEMY_Y: u16 = 102;
pub const SYS_ENEMY_ALIVE: u16 = 103;
pub const SYS_NEAREST_ENEMY: u16 = 110;
pub const SYS_AIM_PLAYER_ANGLE: u16 = 120;
pub const SYS_SPELL_TIMER: u16 = 130;
pub const SYS_SPELL_RESULT: u16 = 131;
pub const SYS_ATAN2: u16 = 140;
pub const SYS_DIST: u16 = 141;
pub const SYS_RAND_RANGE: u16 = 150;

// Creation (2xx).
pub const SYS_CREATE_BULLET: u16 = 200;
pub const SYS_CREATE_BULLETS_BATCH: u16 = 201;
pub const SYS_SPAWN_ENEMY: u16 = 210;
pub const SYS_DROP_ITEM: u16 = 220;

// Writes to the owning bullet (3xx).
pub const SYS_SET_BULLET_SPEED: u16 = 300;
pub const SYS_SET_BULLET_ANGLE: u16 = 301;
pub const SYS_TURN_BULLET: u16 = 302;
pub const SYS_SET_BULLET_VEL: u16 = 310;
pub const SYS_SET_BULLET_ANG_VEL: u16 = 311;
pub const SYS_SET_BULLET_ACCEL: u16 = 312;
pub const SYS_SET_BULLET_GRAVITY: u16 = 313;
pub const SYS_STOP_BULLET_FX: u16 = 320;
pub const SYS_AIM_BULLET_AT_PLAYER: u16 = 330;

// Enemy motion and collision (4xx).
pub const SYS_MOVE_ENEMY_TO: u16 = 400;
pub const SYS_MOVE_VEL: u16 = 410;
pub const SYS_MOVE_VEL_XY: u16 = 411;
pub const SYS_MOVE_ANGLE: u16 = 420;
pub const SYS_MOVE_SPEED: u16 = 421;
pub const SYS_SET_ANM_STATE: u16 = 430;
pub const SYS_SET_INVULN: u16 = 440;
pub const SYS_SET_HITBOX: u16 = 441;
pub const SYS_SET_HURTBOX: u16 = 442;
pub const SYS_SET_ENEMY_FLAG: u16 = 443;

// Stage ledger, drops and presentation anchors (5xx).
pub const SYS_ADD_SCORE: u16 = 500;
pub const SYS_ADD_LIVES: u16 = 510;
pub const SYS_ADD_BOMBS: u16 = 511;
pub const SYS_ADD_POWER: u16 = 512;
pub const SYS_DROP_CLEAR: u16 = 520;
pub const SYS_DROP_ADD: u16 = 521;
pub const SYS_DROP_ITEMS: u16 = 522;
pub const SYS_DIE: u16 = 530;
pub const SYS_KILL_ALL_ENEMIES: u16 = 531;
pub const SYS_CLEAR_BULLETS: u16 = 540;
pub const SYS_CLEAR_BULLETS_AT: u16 = 541;
pub const SYS_BGM: u16 = 550;
pub const SYS_BG: u16 = 551;
pub const SYS_BG_PHASE: u16 = 552;
pub const SYS_TIME_STOP_PLAYER: u16 = 560;

// Shooter slots (6xx).
pub const SYS_SH_RESET: u16 = 600;
pub const SYS_SH_SPRITE: u16 = 610;
pub const SYS_SH_OFFSET: u16 = 620;
pub const SYS_SH_OFFSET_ABS: u16 = 621;
pub const SYS_SH_OFFSET_RAD: u16 = 622;
pub const SYS_SH_DIST: u16 = 623;
pub const SYS_SH_ANGLE: u16 = 630;
pub const SYS_SH_SPEED: u16 = 631;
pub const SYS_SH_COUNT: u16 = 632;
pub const SYS_SH_AIM: u16 = 640;
pub const SYS_SH_RING: u16 = 641;
pub const SYS_SH_XFORM: u16 = 650;
pub const SYS_SH_TASK: u16 = 651;
pub const SYS_SH_REQ: u16 = 652;
pub const SYS_SH_FIRE: u16 = 660;

// Control, events, spell cards and globals (7xx).
pub const SYS_GET_VAR: u16 = 700;
pub const SYS_SET_VAR: u16 = 701;
pub const SYS_PULSE_SIGNAL: u16 = 710;
pub const SYS_EMIT_REQ: u16 = 720;
pub const SYS_FX_AT: u16 = 721;
pub const SYS_FX_ON: u16 = 722;
pub const SYS_STAGE_CLEAR: u16 = 723;
pub const SYS_BOSS_SET: u16 = 730;
pub const SYS_SPELL_BEGIN: u16 = 740;
pub const SYS_SPELL_END: u16 = 741;

// Lasers (8xx).
pub const SYS_LASER_CREATE: u16 = 800;
pub const SYS_LASER_SPEED: u16 = 801;
pub const SYS_LASER_START: u16 = 802;
pub const SYS_LASER_OMEGA: u16 = 803;
pub const SYS_LASER_ROTATE: u16 = 804;
pub const SYS_LASER_AIM: u16 = 805;
pub const SYS_LASER_ANCHOR: u16 = 806;
pub const SYS_LASER_ORIGIN: u16 = 807;
pub const SYS_LASER_CANCEL: u16 = 808;
pub const SYS_LASER_ALIVE: u16 = 809;
pub const SYS_LASER_X: u16 = 810;
pub const SYS_LASER_Y: u16 = 811;
pub const SYS_LASER_ANGLE: u16 = 812;
pub const SYS_LASER_NEAR: u16 = 813;
pub const SYS_LASER_FAR: u16 = 814;

/// The syscall numbers `dispatch` serves.
pub open spec fn spec_syscall_implemented(no: u16) -> bool {
    no == SYS_FRAME || no == SYS_PLAYER_X || no == SYS_PLAYER_Y || no == SYS_SELF_X ||
        no == SYS_SELF_Y || no == SYS_SELF_VX || no == SYS_SELF_VY || no == SYS_SELF_SPEED ||
        no == SYS_SELF_ANGLE || no == SYS_SELF_ENEMY || no == SYS_SELF_HP ||
        no == SYS_SELF_HP_MAX || no == SYS_SELF_AGE || no == SYS_ENEMY_HP ||
        no == SYS_ENEMY_X || no == SYS_ENEMY_Y || no == SYS_ENEMY_ALIVE ||
        no == SYS_NEAREST_ENEMY || no == SYS_AIM_PLAYER_ANGLE || no == SYS_SPELL_TIMER ||
        no == SYS_SPELL_RESULT || no == SYS_ATAN2 || no == SYS_DIST || no == SYS_RAND_RANGE ||
        no == SYS_CREATE_BULLET || no == SYS_CREATE_BULLETS_BATCH || no == SYS_SPAWN_ENEMY ||
        no == SYS_DROP_ITEM || no == SYS_SET_BULLET_SPEED || no == SYS_SET_BULLET_ANGLE ||
        no == SYS_TURN_BULLET || no == SYS_SET_BULLET_VEL || no == SYS_SET_BULLET_ANG_VEL ||
        no == SYS_SET_BULLET_ACCEL || no == SYS_SET_BULLET_GRAVITY ||
        no == SYS_STOP_BULLET_FX || no == SYS_AIM_BULLET_AT_PLAYER || no == SYS_MOVE_ENEMY_TO ||
        no == SYS_MOVE_VEL || no == SYS_MOVE_VEL_XY || no == SYS_MOVE_ANGLE ||
        no == SYS_MOVE_SPEED || no == SYS_SET_ANM_STATE || no == SYS_SET_INVULN ||
        no == SYS_SET_HITBOX || no == SYS_SET_HURTBOX || no == SYS_SET_ENEMY_FLAG ||
        no == SYS_ADD_SCORE || no == SYS_ADD_LIVES || no == SYS_ADD_BOMBS ||
        no == SYS_ADD_POWER || no == SYS_DROP_CLEAR || no == SYS_DROP_ADD ||
        no == SYS_DROP_ITEMS || no == SYS_DIE || no == SYS_KILL_ALL_ENEMIES ||
        no == SYS_CLEAR_BULLETS || no == SYS_CLEAR_BULLETS_AT || no == SYS_BGM ||
        no == SYS_BG || no == SYS_BG_PHASE || no == SYS_TIME_STOP_PLAYER ||
        no == SYS_SH_RESET || no == SYS_SH_SPRITE || no == SYS_SH_OFFSET ||
        no == SYS_SH_OFFSET_ABS || no == SYS_SH_OFFSET_RAD || no == SYS_SH_DIST ||
        no == SYS_SH_ANGLE || no == SYS_SH_SPEED || no == SYS_SH_COUNT || no == SYS_SH_AIM ||
        no == SYS_SH_RING || no == SYS_SH_XFORM || no == SYS_SH_TASK || no == SYS_SH_REQ ||
        no == SYS_SH_FIRE || no == SYS_GET_VAR || no == SYS_SET_VAR || no == SYS_PULSE_SIGNAL ||
        no == SYS_EMIT_REQ || no == SYS_FX_AT || no == SYS_FX_ON || no == SYS_STAGE_CLEAR ||
        no == SYS_BOSS_SET || no == SYS_SPELL_BEGIN || no == SYS_SPELL_END ||
        no == SYS_LASER_CREATE || no == SYS_LASER_SPEED || no == SYS_LASER_START ||
        no == SYS_LASER_OMEGA || no == SYS_LASER_ROTATE || no == SYS_LASER_AIM ||
        no == SYS_LASER_ANCHOR || no == SYS_LASER_ORIGIN || no == SYS_LASER_CANCEL ||
        no == SYS_LASER_ALIVE || no == SYS_LASER_X || no == SYS_LASER_Y ||
        no == SYS_LASER_ANGLE || no == SYS_LASER_NEAR || no == SYS_LASER_FAR
}

/// Whether `no` is a syscall number `dispatch` serves (table lookup: the
/// numbering has gaps).
pub fn syscall_implemented(no: u16) -> (r: bool)
    ensures
        r == spec_syscall_implemented(no),
{
    no == SYS_FRAME || no == SYS_PLAYER_X || no == SYS_PLAYER_Y || no == SYS_SELF_X ||
        no == SYS_SELF_Y || no == SYS_SELF_VX || no == SYS_SELF_VY || no == SYS_SELF_SPEED ||
        no == SYS_SELF_ANGLE || no == SYS_SELF_ENEMY || no == SYS_SELF_HP ||
        no == SYS_SELF_HP_MAX || no == SYS_SELF_AGE || no == SYS_ENEMY_HP ||
        no == SYS_ENEMY_X || no == SYS_ENEMY_Y || no == SYS_ENEMY_ALIVE ||
        no == SYS_NEAREST_ENEMY || no == SYS_AIM_PLAYER_ANGLE || no == SYS_SPELL_TIMER ||
        no == SYS_SPELL_RESULT || no == SYS_ATAN2 || no == SYS_DIST || no == SYS_RAND_RANGE ||
        no == SYS_CREATE_BULLET || no == SYS_CREATE_BULLETS_BATCH || no == SYS_SPAWN_ENEMY ||
        no == SYS_DROP_ITEM || no == SYS_SET_BULLET_SPEED || no == SYS_SET_BULLET_ANGLE ||
        no == SYS_TURN_BULLET || no == SYS_SET_BULLET_VEL || no == SYS_SET_BULLET_ANG_VEL ||
        no == SYS_SET_BULLET_ACCEL || no == SYS_SET_BULLET_GRAVITY ||
        no == SYS_STOP_BULLET_FX || no == SYS_AIM_BULLET_AT_PLAYER || no == SYS_MOVE_ENEMY_TO ||
        no == SYS_MOVE_VEL || no == SYS_MOVE_VEL_XY || no == SYS_MOVE_ANGLE ||
        no == SYS_MOVE_SPEED || no == SYS_SET_ANM_STATE || no == SYS_SET_INVULN ||
        no == SYS_SET_HITBOX || no == SYS_SET_HURTBOX || no == SYS_SET_ENEMY_FLAG ||
        no == SYS_ADD_SCORE || no == SYS_ADD_LIVES || no == SYS_ADD_BOMBS ||
        no == SYS_ADD_POWER || no == SYS_DROP_CLEAR || no == SYS_DROP_ADD ||
        no == SYS_DROP_ITEMS || no == SYS_DIE || no == SYS_KILL_ALL_ENEMIES ||
        no == SYS_CLEAR_BULLETS || no == SYS_CLEAR_BULLETS_AT || no == SYS_BGM ||
        no == SYS_BG || no == SYS_BG_PHASE || no == SYS_TIME_STOP_PLAYER ||
        no == SYS_SH_RESET || no == SYS_SH_SPRITE || no == SYS_SH_OFFSET ||
        no == SYS_SH_OFFSET_ABS || no == SYS_SH_OFFSET_RAD || no == SYS_SH_DIST ||
        no == SYS_SH_ANGLE || no == SYS_SH_SPEED || no == SYS_SH_COUNT || no == SYS_SH_AIM ||
        no == SYS_SH_RING || no == SYS_SH_XFORM || no == SYS_SH_TASK || no == SYS_SH_REQ ||
        no == SYS_SH_FIRE || no == SYS_GET_VAR || no == SYS_SET_VAR || no == SYS_PULSE_SIGNAL ||
        no == SYS_EMIT_REQ || no == SYS_FX_AT || no == SYS_FX_ON || no == SYS_STAGE_CLEAR ||
        no == SYS_BOSS_SET || no == SYS_SPELL_BEGIN || no == SYS_SPELL_END ||
        no == SYS_LASER_CREATE || no == SYS_LASER_SPEED || no == SYS_LASER_START ||
        no == SYS_LASER_OMEGA || no == SYS_LASER_ROTATE || no == SYS_LASER_AIM ||
        no == SYS_LASER_ANCHOR || no == SYS_LASER_ORIGIN || no == SYS_LASER_CANCEL ||
        no == SYS_LASER_ALIVE || no == SYS_LASER_X || no == SYS_LASER_Y ||
        no == SYS_LASER_ANGLE || no == SYS_LASER_NEAR || no == SYS_LASER_FAR
}

/// A syscall fails only with a stack fault or a misuse fault.
pub open spec fn handler_fault(r: Result<(), u8>) -> bool {
    r matches Err(c) ==> c == FAULT_BAD_OP || c == FAULT_STACK
}

/// A shooter whose firing faults whatever the world answers: a transform
/// program longer than `XFORM_MAX` or reaching past the locals, or an
/// attached script that is not an async sub without parameters.
pub open spec fn shooter_misconfigured(sh: ShooterSlot, subs: Seq<RuntimeSubMeta>) -> bool {
    ||| sh.xform_cnt != 0 && sh.xform_cnt as int > XFORM_MAX
    ||| sh.xform_cnt != 0 && sh.xform_off as int + sh.xform_cnt as int * 3 > LOCALS
    ||| sh.task_script != SH_NO_TASK && !spawnable(subs, sh.task_script as i32, 0)
}

/// `spawn_enemy(x, y, hp, drop_table, score, sprite, script, args.., argc)`
/// with enough values on the stack: a script that is not an async sub
/// declaring `argc` parameters (or arguments without a script) is a misuse
/// fault; otherwise the call succeeds, popping its `argc + 8` values and
/// pushing one (the new enemy's number, or -1 when the world refused it).
pub open spec fn spawn_enemy_outcome(t0: Task, t1: Task, r: Result<(), u8>, subs: Seq<RuntimeSubMeta>) -> bool {
    let argc = argn(t0, 1, 0) as int;
    let base = t0.sp - 1 - (argc + 7);
    let script = t0.stack@[base + 6];
    if script >= 0 && !spawnable(subs, script, argc) || script < 0 && argc > 0 {
        r == Err::<(), u8>(FAULT_BAD_OP)
    } else {
        &&& r is Ok
        &&& t1.sp == base + 1
        &&& t1 == (Task { sp: t1.sp, stack: t1.stack, ..t0 })
        &&& forall|j: int| 0 <= j < EVAL_DEPTH && j != base ==> #[trigger] t1.stack@[j] == t0.stack@[j]
    }
}

/// Cell `id` of the appearance table, if the table has it.
pub open spec fn appearance_cell(tables: WorldTables, id: int) -> Option<Appearance> {
    if 0 <= id < tables.appearances@.len() {
        Some(tables.appearances@[id])
    } else {
        None
    }
}

/// Cell `id` of the appearance table, if the table has it.
pub fn table_cell(tables: &WorldTables, id: u32) -> (r: Option<Appearance>)
    ensures
        r == appearance_cell(*tables, id as int),
{
    if (id as usize) < tables.appearances.len() {
        Some(tables.appearances[id as usize])
    } else {
        None
    }
}

/// The drops of drop table `table` and whether the table exists (an
/// unknown table carries no drops).
pub open spec fn drop_row_spec(tables: WorldTables, table: int) -> ([u8; ITEM_TYPE_COUNT], bool) {
    if 0 <= table < tables.drop_tables@.len() {
        (tables.drop_tables@[table], true)
    } else {
        ([0u8; ITEM_TYPE_COUNT], false)
    }
}

/// The drops of drop table `table` and whether the table exists.
pub fn drop_row(tables: &WorldTables, table: u16) -> (r: ([u8; ITEM_TYPE_COUNT], bool))
    ensures
        r == drop_row_spec(*tables, table as int),
{
    if (table as usize) < tables.drop_tables.len() {
        (tables.drop_tables[table as usize], true)
    } else {
        ([0u8; ITEM_TYPE_COUNT], false)
    }
}

/// A bullet created for `create_bullet(appearance, x, y, speed, angle,
/// xform_off, xform_cnt, script)` from `t0` with all checks passed: the
/// eight arguments are popped and the new bullet's index pushed, or -1 with
/// the full bullet pool counted; a bullet that was created and given a
/// script gets a task owned by it (lowest free slot, parent `self_index + 1`,
/// born at `frame`), or the full task pool counted. Which slot the world
/// hands out is the world's answer `h`; the velocity `v` is the world's
/// answer to the one question asked (`rd0` to `rd1`): the speed in the
/// bullet's direction.
pub open spec fn create_bullet_after(
    t0: Task,
    t1: Task,
    p: TaskPool,
    q: TaskPool,
    b0: WorldBody,
    b1: WorldBody,
    c0: Seq<WorldCall>,
    c1: Seq<WorldCall>,
    rd0: Seq<WorldRead>,
    rd1: Seq<WorldRead>,
    cell: Appearance,
    subs: Seq<RuntimeSubMeta>,
    self_index: u16,
    frame: u32,
) -> bool {
    let base = t0.sp - 8;
    let script = argn(t0, 8, 7);
    exists|v: (Fx, Fx), h: Handle| {
        &&& c1 == c0.push(#[trigger] bullet_call(t0, cell, v, b0.frame, h))
        &&& rd1 == rd0.push(WorldRead::PolarToVec(Fx(argn(t0, 8, 3)), Angle(bam_of(argn(t0, 8, 4) as int)), v))
        &&& created_push(t0, t1, base, h, bullet_number(h))
        &&& h == Handle::spec_null() ==> full_counted(b0, b1, POOL_BULLET as int) && q == p
        &&& h != Handle::spec_null() && script < 0 ==> q == p && b1 == b0
        &&& h != Handle::spec_null() && script >= 0 ==> attached(p, q, b0, b1, subs, script,
            (OWNER_BULLET, h.index, h.generation), (self_index + 1) as u16, frame)
    }
}

/// The creation call `create_bullet` hands the world for the arguments on
/// `t0`, appearance cell `cell`, velocity `v` and frame `frame`, answered
/// with `h`: the record of `bullet_record_spec` and the transform program
/// stored in the task's locals.
pub open spec fn bullet_call(t0: Task, cell: Appearance, v: (Fx, Fx), frame: u32, h: Handle) -> WorldCall {
    WorldCall::CreateBullet(
        bullet_record_spec(argn(t0, 8, 1), argn(t0, 8, 2), argn(t0, 8, 3), argn(t0, 8, 4), cell, v, frame),
        xforms_of(t0, argn(t0, 8, 5) as int, argn(t0, 8, 6) as int),
        h,
    )
}

/// The `cnt` transform slots stored in `t`'s locals from `off` on.
pub open spec fn xforms_of(t: Task, off: int, cnt: int) -> Seq<XformSlot> {
    Seq::new(if cnt > 0 { cnt as nat } else { 0 }, |k: int| xform_at(t, off + k * 3))
}

/// The number a script gets for bullet `h`: its index, -1 when refused.
pub open spec fn bullet_number(h: Handle) -> i32 {
    if h == Handle::spec_null() { -1i32 } else { h.index as i32 }
}

/// `t1` is `t0` with its top values popped down to `base` and `v` pushed.
pub open spec fn created_push(t0: Task, t1: Task, base: int, h: Handle, v: i32) -> bool {
    &&& t1.sp == base + 1
    &&& t1.stack@ == t0.stack@.update(base, v)
    &&& t1 == (Task { sp: t1.sp, stack: t1.stack, ..t0 })
}

/// A task attached to a freshly created entity: script `script` (an async
/// sub without parameters) spawned in the lowest free slot for `owner`, or
/// the full task pool counted.
pub open spec fn attached(
    p: TaskPool,
    q: TaskPool,
    b0: WorldBody,
    b1: WorldBody,
    subs: Seq<RuntimeSubMeta>,
    script: i32,
    owner: (u8, u16, u16),
    parent: u16,
    frame: u32,
) -> bool {
    exists|sub: SubId, res: Option<u16>| {
        &&& sub@ == script
        &&& #[trigger] TaskPool::spawned(p, q, sub, subs[script as int].code_entry, owner, parent, frame, res)
        &&& res is None ==> full_counted(b0, b1, POOL_TASK as int)
        &&& res is Some ==> b1 == b0
    }
}

/// The bullet record for `create_bullet` arguments `x`, `y`, `speed`,
/// `angle` (raw), appearance cell `cell` and the velocity `v` the world's
/// trigonometry gives for that speed and angle, born at `frame`.
pub open spec fn bullet_record_spec(x: i32, y: i32, speed: i32, angle: i32, cell: Appearance, v: (Fx, Fx), frame: u32) -> BulletSpawn {
    BulletSpawn {
        x: Fx(x),
        y: Fx(y),
        vx: v.0,
        vy: v.1,
        speed: Fx(speed),
        angle: Angle(bam_of(angle as int)),
        sprite: cell.sprite,
        radius: cell.radius,
        born_frame: frame,
    }
}

/// Builds the bullet record `bullet_record_spec` describes.
pub fn bullet_record(x: i32, y: i32, speed: i32, angle: i32, cell: Appearance, v: (Fx, Fx), frame: u32) -> (r: BulletSpawn)
    ensures
        r == bullet_record_spec(x, y, speed, angle, cell, v, frame),
{
    BulletSpawn {
        x: Fx(x),
        y: Fx(y),
        vx: v.0,
        vy: v.1,
        speed: Fx(speed),
        angle: bam(angle),
        sprite: cell.sprite,
        radius: cell.radius,
        born_frame: frame,
    }
}

/// The number a script gets for enemy `h`: its packed number, -1 when
/// refused.
pub open spec fn enemy_number(h: Handle) -> i32 {
    if h == Handle::spec_null() { -1i32 } else { spec_pack_handle(h) }
}

/// The enemy record for `spawn_enemy` arguments `x`, `y`, `hp`, `score`,
/// `sprite` and the drops of its drop table, born at `frame`, with the
/// standard spawn radius and hurtbox.
pub open spec fn enemy_record_spec(x: i32, y: i32, hp: i32, score: i32, sprite: i32, drops: [u8; ITEM_TYPE_COUNT], frame: u32) -> EnemySpawn {
    EnemySpawn {
        x: Fx(x),
        y: Fx(y),
        hp,
        hp_max: hp,
        radius: Fx(SPAWN_RADIUS),
        hurtbox: Fx(SPAWN_HURTBOX),
        sprite: sprite as u16,
        score: score as u16,
        drop_count: drops,
        anm_state_frame: frame,
    }
}

/// Builds the enemy record `enemy_record_spec` describes.
pub fn enemy_record(x: i32, y: i32, hp: i32, score: i32, sprite: i32, drops: [u8; ITEM_TYPE_COUNT], frame: u32) -> (r: EnemySpawn)
    ensures
        r == enemy_record_spec(x, y, hp, score, sprite, drops, frame),
{
    EnemySpawn {
        x: Fx(x),
        y: Fx(y),
        hp,
        hp_max: hp,
        radius: Fx(SPAWN_RADIUS),
        hurtbox: Fx(SPAWN_HURTBOX),
        sprite: sprite as u16,
        score: score as u16,
        drop_count: drops,
        anm_state_frame: frame,
    }
}

/// `q` is `p` with `args` written into the first locals of slot `idx`
/// (the rest of that slot's locals kept).
pub open spec fn with_args(p: TaskPool, q: TaskPool, idx: int, args: Seq<i32>) -> bool {
    &&& forall|j: int| #[trigger] q.spec_alive(j) == p.spec_alive(j)
    &&& forall|j: int| 0 <= j < TASK_CAP && j != idx ==> #[trigger] q.spec_slot(j) == p.spec_slot(j)
    &&& q.spec_slot(idx) == (Task { locals: q.spec_slot(idx).locals, ..p.spec_slot(idx) })
    &&& q.spec_slot(idx).locals@ == args + p.spec_slot(idx).locals@.subrange(args.len() as int, LOCALS as int)
}

/// After the world answered `h` for a `spawn_enemy` from `t0`: the
/// arguments popped and the enemy's number pushed (-1 with the full enemy
/// pool counted); an enemy created with a script gets its main task (owned
/// by the enemy, parent `self_index + 1`, the extra arguments in its first
/// locals), or the full task pool counted.
pub open spec fn enemy_created(
    t0: Task,
    t1: Task,
    p: TaskPool,
    q: TaskPool,
    b0: WorldBody,
    b1: WorldBody,
    c0: Seq<WorldCall>,
    c1: Seq<WorldCall>,
    subs: Seq<RuntimeSubMeta>,
    self_index: u16,
    frame: u32,
    h: Handle,
) -> bool {
    let argc = argn(t0, 1, 0) as int;
    let base = t0.sp - 1 - (argc + 7);
    let script = t0.stack@[base + 6];
    let args = t0.stack@.subrange(base + 7, base + 7 + argc);
    &&& created_push(t0, t1, base, h, enemy_number(h))
    &&& h == Handle::spec_null() ==> full_counted(b0, b1, POOL_ENEMY as int) && q == p && c1 == c0
    &&& h != Handle::spec_null() && script < 0 ==> q == p && b1 == b0 && c1 == c0
    &&& h != Handle::spec_null() && script >= 0 ==> exists|sub: SubId, res: Option<u16>, mid: TaskPool| {
        &&& sub@ == script
        &&& #[trigger] TaskPool::spawned(p, mid, sub, subs[script as int].code_entry, (OWNER_ENEMY, h.index, h.generation),
            (self_index + 1) as u16, frame, res)
        &&& res is None ==> full_counted(b0, b1, POOL_TASK as int) && q == mid && c1 == c0
        &&& res matches Some(idx) ==> b1 == b0 && with_args(mid, q, idx as int, args)
            && c1 == c0.push(WorldCall::SetEnemyMainTask(h.index as usize, (idx + 1) as u32))
    }
}

/// The creation call `spawn_enemy` hands the world for the arguments on
/// `t0`, born at `frame`, answered with `h`: the record of
/// `enemy_record_spec` with the drops of the named drop table.
pub open spec fn enemy_call(t0: Task, tables: WorldTables, frame: u32, h: Handle) -> WorldCall {
    let argc = argn(t0, 1, 0) as int;
    let base = t0.sp - 1 - (argc + 7);
    let s = t0.stack@;
    WorldCall::CreateEnemy(
        enemy_record_spec(s[base], s[base + 1], s[base + 2], s[base + 4], s[base + 5],
            drop_row_spec(tables, s[base + 3] as u16 as int).0, frame),
        h,
    )
}

/// A successful `spawn_enemy` from `t0`: a drop table the world does not
/// have is refused (and the enemy carries no drops); then the world's
/// answer `h` decides the rest as `enemy_created` says.
pub open spec fn spawn_enemy_after(
    t0: Task,
    t1: Task,
    p: TaskPool,
    q: TaskPool,
    b0: WorldBody,
    b1: WorldBody,
    c0: Seq<WorldCall>,
    c1: Seq<WorldCall>,
    subs: Seq<RuntimeSubMeta>,
    tables: WorldTables,
    self_index: u16,
    frame: u32,
) -> bool {
    let argc = argn(t0, 1, 0) as int;
    let base = t0.sp - 1 - (argc + 7);
    let table = t0.stack@[base + 3];
    exists|bm: WorldBody, h: Handle| {
        &&& drop_row_spec(tables, table as u16 as int).1 ==> bm == b0
        &&& !drop_row_spec(tables, table as u16 as int).1 ==> refused(b0, bm)
        &&& #[trigger] enemy_created(t0, t1, p, q, bm, b1, c0.push(enemy_call(t0, tables, b0.frame, h)), c1, subs,
            self_index, frame, h)
    }
}

/// The number a script gets for laser `h`: its packed number, -1 when
/// refused.
pub open spec fn laser_number(h: Handle) -> i32 {
    if h == Handle::spec_null() { -1i32 } else { spec_pack_handle(h) }
}

/// The laser record for `laser_create(color, ox, oy, angle, len, width,
/// warn, active, fade)`: the colour is the sprite, the angle its low 16
/// bits, the three phase lengths clamped into `u16`.
pub open spec fn laser_record_spec(color: i32, ox: i32, oy: i32, angle: i32, len: i32, width: i32, warn: i32, active: i32, fade: i32) -> LaserSpawn {
    LaserSpawn {
        ox: Fx(ox),
        oy: Fx(oy),
        angle: Angle(bam_of(angle as int)),
        len: Fx(len),
        width: Fx(width),
        sprite: color as u16,
        warn: clamp_int(warn as int, 0, u16::MAX as int) as u16,
        active: clamp_int(active as int, 0, u16::MAX as int) as u16,
        fade: clamp_int(fade as int, 0, u16::MAX as int) as u16,
    }
}

/// Builds the laser record `laser_record_spec` describes.
pub fn laser_record(color: i32, ox: i32, oy: i32, angle: i32, len: i32, width: i32, warn: i32, active: i32, fade: i32) -> (r: LaserSpawn)
    ensures
        r == laser_record_spec(color, ox, oy, angle, len, width, warn, active, fade),
{
    let mut unused = false;
    LaserSpawn {
        ox: Fx(ox),
        oy: Fx(oy),
        angle: bam(angle),
        len: Fx(len),
        width: Fx(width),
        sprite: color as u16,
        warn: clamp_u16_count(warn, &mut unused),
        active: clamp_u16_count(active, &mut unused),
        fade: clamp_u16_count(fade, &mut unused),
    }
}

/// A `spell_begin` from `t0` that passed its own checks: refused when the
/// boss already holds an active card or the world declines the card;
/// otherwise a pattern script (if any, for a slot in range) starts as a
/// task owned by the boss, parent `self_index + 1`, bound to the slot
/// (`slot + 1`) and the slot's epoch, or the full task pool is counted.
/// Whether the boss is busy comes from the world's views of the spell
/// slots, asked in slot order until one shows the boss holding an active
/// card (`spell_scan`); whether the card began is the world's answer; the
/// epoch is read from the slot once the pattern task exists. The questions
/// asked go from `rd0` to `rd1`.
pub open spec fn spell_begin_after(
    t0: Task,
    p: TaskPool,
    q: TaskPool,
    b0: WorldBody,
    b1: WorldBody,
    c0: Seq<WorldCall>,
    c1: Seq<WorldCall>,
    rd0: Seq<WorldRead>,
    rd1: Seq<WorldRead>,
    subs: Seq<RuntimeSubMeta>,
    self_index: u16,
    frame: u32,
) -> bool {
    let slot = argn(t0, 7, 0);
    let pattern = argn(t0, 7, 2);
    let owner = (OWNER_ENEMY, t0.owner_index, t0.owner_gen);
    let boss = Handle { index: t0.owner_index, generation: t0.owner_gen };
    exists|busy: bool, began: bool, epoch: u16, views: Seq<SpellView>|
        #![trigger spell_answers(busy, began, epoch), spell_scan(views, boss, busy)]
    {
        &&& spell_scan(views, boss, busy)
        &&& spell_answers(busy, began, epoch) ==> refused(b0, b1) && q == p && rd1 == rd0 + scan_reads(views)
        &&& busy ==> c1 == c0
        &&& !busy ==> c1 == c0.push(spell_call(t0, began))
        &&& !busy && began && (pattern < 0 || !((slot as usize) < MAX_BOSSES)) ==> b1 == b0 && q == p
            && rd1 == rd0 + scan_reads(views)
        &&& !busy && began && pattern >= 0 && (slot as usize) < MAX_BOSSES ==> exists|sub: SubId, res: Option<u16>, mid: TaskPool| {
            &&& sub@ == pattern
            &&& #[trigger] TaskPool::spawned(p, mid, sub, subs[pattern as int].code_entry, owner, (self_index + 1) as u16,
                frame, res)
            &&& res is None ==> full_counted(b0, b1, POOL_TASK as int) && q == mid && rd1 == rd0 + scan_reads(views)
            &&& res matches Some(idx) ==> b1 == b0 && bound_to_spell(mid, q, idx as int, ((slot as usize) + 1) as u8, epoch)
                && exists|v: SpellView| v.epoch == epoch && rd1 == #[trigger] (rd0 + scan_reads(views)).push(
                WorldRead::Spell(slot as usize, v))
        }
    }
}

/// The boss `boss` holds an active card in spell slot view `v`.
pub open spec fn holds_card(v: SpellView, boss: Handle) -> bool {
    v.active && v.boss == boss
}

/// The questions of a scan of the spell slots from slot 0, answered
/// `views`.
pub open spec fn scan_reads(views: Seq<SpellView>) -> Seq<WorldRead> {
    Seq::new(views.len(), |k: int| WorldRead::Spell(k as usize, views[k]))
}

/// `views` is what a scan of the spell slots for `boss` saw, slot by slot
/// from slot 0: it stops at the first slot where the boss holds an active
/// card (`busy`), or has seen every slot without one.
pub open spec fn spell_scan(views: Seq<SpellView>, boss: Handle, busy: bool) -> bool {
    &&& 1 <= views.len() <= MAX_BOSSES
    &&& forall|k: int| 0 <= k < views.len() - 1 ==> !holds_card(#[trigger] views[k], boss)
    &&& busy == holds_card(views.last(), boss)
    &&& !busy ==> views.len() == MAX_BOSSES
}

/// Whether the card was refused by the world: the boss already holds an
/// active card (`busy`), or the world declined it (`!began`); `epoch` is
/// the stamp of the slot it began in otherwise.
pub open spec fn spell_answers(busy: bool, began: bool, epoch: u16) -> bool {
    busy || !began
}

/// The call `spell_begin` hands the world for the arguments on `t0`
/// (slot, the owning boss, spell id, time limit, bonus, flags, threshold),
/// answered with `began`.
pub open spec fn spell_call(t0: Task, began: bool) -> WorldCall {
    WorldCall::SpellBegin(
        argn(t0, 7, 0) as usize,
        Handle { index: t0.owner_index, generation: t0.owner_gen },
        argn(t0, 7, 1) as u16,
        argn(t0, 7, 3) as u16,
        argn(t0, 7, 4) as u32,
        argn(t0, 7, 5) as u8,
        argn(t0, 7, 6),
        began,
    )
}

/// `q` is `p` with slot `idx` bound to spell slot `bound - 1` at `epoch`.
pub open spec fn bound_to_spell(p: TaskPool, q: TaskPool, idx: int, bound: u8, epoch: u16) -> bool {
    &&& forall|j: int| #[trigger] q.spec_alive(j) == p.spec_alive(j)
    &&& forall|j: int| 0 <= j < TASK_CAP && j != idx ==> #[trigger] q.spec_slot(j) == p.spec_slot(j)
    &&& q.spec_slot(idx) == (Task { spell_bound: bound, spell_epoch: epoch, ..p.spec_slot(idx) })
}

/// `b1` differs from `b0` at most in the full-pool counters.
pub open spec fn only_pool_counts(b0: WorldBody, b1: WorldBody) -> bool {
    &&& b1.frame == b0.frame
    &&& b1.diag.contract_viol == b0.diag.contract_viol
    &&& b1.diag.task_faults == b0.diag.task_faults
    &&& b1.last_status == b0.last_status
    &&& b1.players == b0.players
    &&& b1.freeze_left == b0.freeze_left
    &&& b1.spell_last_result == b0.spell_last_result
}

/// The record of one bullet a shooter fires from origin `(ox, oy)`: placed
/// at the offset `d` along its direction `angle`, moving with velocity `v`
/// at `speed`, drawn from appearance cell `cell`, born at `frame`.
pub open spec fn fired_record_spec(ox: Fx, oy: Fx, d: (Fx, Fx), v: (Fx, Fx), speed: Fx, angle: Angle, cell: Appearance, frame: u32) -> BulletSpawn {
    BulletSpawn {
        x: Fx(vstd::wrapping::i32_specs::wrapping_add(ox.0, d.0.0)),
        y: Fx(vstd::wrapping::i32_specs::wrapping_add(oy.0, d.1.0)),
        vx: v.0,
        vy: v.1,
        speed,
        angle,
        sprite: cell.sprite,
        radius: cell.radius,
        born_frame: frame,
    }
}

/// Builds the record `fired_record_spec` describes.
pub fn fired_record(ox: Fx, oy: Fx, d: (Fx, Fx), v: (Fx, Fx), speed: Fx, angle: Angle, cell: Appearance, frame: u32) -> (r: BulletSpawn)
    ensures
        r == fired_record_spec(ox, oy, d, v, speed, angle, cell, frame),
{
    BulletSpawn {
        x: Fx(ox.0.wrapping_add(d.0.0)),
        y: Fx(oy.0.wrapping_add(d.1.0)),
        vx: v.0,
        vy: v.1,
        speed,
        angle,
        sprite: cell.sprite,
        radius: cell.radius,
        born_frame: frame,
    }
}

/// The write bullet syscall `no` hands the world for arguments `a` (and
/// `b` for the two-argument ones): speeds and vectors as Q16.16, angles as
/// their low 16 bits, the angular velocity as its low 16 bits.
pub open spec fn bullet_op_spec(no: u16, a: i32, b: i32) -> BulletOp {
    if no == SYS_STOP_BULLET_FX {
        BulletOp::StopFx
    } else if no == SYS_SET_BULLET_VEL {
        BulletOp::SetVel(Fx(a), Fx(b))
    } else if no == SYS_SET_BULLET_GRAVITY {
        BulletOp::SetGravity(Fx(a), Fx(b))
    } else if no == SYS_SET_BULLET_SPEED {
        BulletOp::SetSpeed(Fx(a))
    } else if no == SYS_SET_BULLET_ANGLE {
        BulletOp::SetAngle(Angle(bam_of(a as int)))
    } else if no == SYS_TURN_BULLET {
        BulletOp::Turn(Angle(bam_of(a as int)))
    } else if no == SYS_SET_BULLET_ANG_VEL {
        BulletOp::SetAngVel(a as i16)
    } else if no == SYS_SET_BULLET_ACCEL {
        BulletOp::SetAccel(Fx(a))
    } else {
        BulletOp::AimAtPlayer(Angle(bam_of(a as int)))
    }
}

/// Builds the write `bullet_op_spec` describes.
pub fn bullet_op_of(no: u16, a: i32, b: i32) -> (r: BulletOp)
    ensures
        r == bullet_op_spec(no, a, b),
{
    if no == SYS_STOP_BULLET_FX {
        BulletOp::StopFx
    } else if no == SYS_SET_BULLET_VEL {
        BulletOp::SetVel(Fx(a), Fx(b))
    } else if no == SYS_SET_BULLET_GRAVITY {
        BulletOp::SetGravity(Fx(a), Fx(b))
    } else if no == SYS_SET_BULLET_SPEED {
        BulletOp::SetSpeed(Fx(a))
    } else if no == SYS_SET_BULLET_ANGLE {
        BulletOp::SetAngle(bam(a))
    } else if no == SYS_TURN_BULLET {
        BulletOp::Turn(bam(a))
    } else if no == SYS_SET_BULLET_ANG_VEL {
        BulletOp::SetAngVel(a as i16)
    } else if no == SYS_SET_BULLET_ACCEL {
        BulletOp::SetAccel(Fx(a))
    } else {
        BulletOp::AimAtPlayer(bam(a))
    }
}

/// The speed of the `j`-th bullet along a shooter's speed axis: the first
/// speed, then one speed step more for each (wrapping).
pub open spec fn speed_at(sh: ShooterSlot, j: nat) -> Fx
    decreases j,
{
    if j == 0 {
        sh.speed0
    } else {
        Fx(vstd::wrapping::i32_specs::wrapping_add(speed_at(sh, (j - 1) as nat).0, sh.speed_step.0))
    }
}

/// `w` is the creation call for grid bullet `(i, j)` of shooter `sh`:
/// direction `fire_angle_raw` from base direction `base`, speed
/// `speed_at(sh, j)`, drawn from `cell`, born at `frame`, with transform
/// program `xf`.
pub open spec fn shot_ok(w: WorldCall, sh: ShooterSlot, cell: Appearance, xf: Seq<XformSlot>, base: int, i: int, j: int, frame: u32) -> bool {
    &&& w is CreateBullet
    &&& w->CreateBullet_1 == xf
    &&& w->CreateBullet_0.angle == Angle(bam_of(fire_angle_raw(base, i, j, sh.n_angle as int,
        (sh.angle_step.0 as i16) as int, sh.flags & SH_RING != 0)))
    &&& w->CreateBullet_0.speed == speed_at(sh, j as nat)
    &&& w->CreateBullet_0.sprite == cell.sprite
    &&& w->CreateBullet_0.radius == cell.radius
    &&& w->CreateBullet_0.born_frame == frame
}

/// Grid bullet `(i, j)` of the recorded shots is `shot_ok`.
pub open spec fn shot_ok_at(shots: Seq<WorldCall>, sh: ShooterSlot, cell: Appearance, xf: Seq<XformSlot>, base: int, i: int, j: int, frame: u32) -> bool {
    shot_ok(shots[i * sh.n_speed as int + j], sh, cell, xf, base, i, j, frame)
}

/// The bullet handle the world answered to creation call `w`.
pub open spec fn shot_answer(w: WorldCall) -> Handle {
    w->CreateBullet_2
}

/// How many of the recorded shots the world accepted: all of them, or all
/// but the last when the last was refused.
pub open spec fn shots_created(shots: Seq<WorldCall>) -> int {
    if shots.len() > 0 && shot_answer(shots.last()) == Handle::spec_null() { shots.len() - 1 } else { shots.len() as int }
}

/// The creation calls of a firing: the grid in row-major order (direction
/// `i` outer, speed `j` inner), each `shot_ok`, every one accepted but
/// possibly the last; a refused one ends the firing early.
pub open spec fn shots_ok(shots: Seq<WorldCall>, sh: ShooterSlot, cell: Appearance, xf: Seq<XformSlot>, base: int, frame: u32) -> bool {
    let n = sh.n_speed as int;
    let total = sh.n_angle as int * n;
    &&& shots.len() <= total
    &&& forall|i: int, j: int| 0 <= i && 0 <= j < n && i * n + j < shots.len()
        ==> #[trigger] shot_ok_at(shots, sh, cell, xf, base, i, j, frame)
    &&& forall|k: int| 0 <= k < shots.len() - 1 ==> #[trigger] shot_answer(shots[k]) != Handle::spec_null()
    &&& shots.len() < total ==> shots.len() >= 1 && shot_answer(shots.last()) == Handle::spec_null()
}

/// Grid bullet `k` of `shots` sits at the firing origin `(ox, oy)` moved by
/// the world's answer to the question `geo[2k]` (the shooter's distance in
/// the bullet's direction) and moves with the answer to `geo[2k + 1]` (its
/// speed in that direction).
pub open spec fn shot_geometry(shots: Seq<WorldCall>, geo: Seq<WorldRead>, k: int, sh: ShooterSlot, ox: Fx, oy: Fx) -> bool {
    let rec = shots[k]->CreateBullet_0;
    &&& geo[2 * k] matches WorldRead::PolarToVec(rad, a, d) && rad == sh.dist && a == rec.angle
        && rec.x == Fx(vstd::wrapping::i32_specs::wrapping_add(ox.0, d.0.0))
        && rec.y == Fx(vstd::wrapping::i32_specs::wrapping_add(oy.0, d.1.0))
    &&& geo[2 * k + 1] matches WorldRead::PolarToVec(sp, a, v) && sp == rec.speed && a == rec.angle
        && rec.vx == v.0 && rec.vy == v.1
}

/// The questions `aim` ask the world for the player targeted from `(ox,
/// oy)` and the angle to it: which player (player 0 when the answer names
/// no player slot), then the angle of the offset to that player's position
/// in `b0`, answered `a`.
pub open spec fn aim_answer(b0: WorldBody, ox: Fx, oy: Fx, aim: Seq<WorldRead>, a: Angle) -> bool {
    &&& aim.len() == 2
    &&& aim[0] matches WorldRead::AimTarget(x, y, tg) && x == ox && y == oy && ({
        let pi: int = if tg < MAX_PLAYERS { tg as int } else { 0 };
        aim[1] == WorldRead::Atan2(
            Fx(vstd::wrapping::i32_specs::wrapping_sub(b0.players@[pi].y.0, oy.0)),
            Fx(vstd::wrapping::i32_specs::wrapping_sub(b0.players@[pi].x.0, ox.0)), a)
    })
}

/// `aim_player_angle()` from task `t` with body `b0`: the owner's position
/// found as `own_position` says, then the targeted player and the angle to
/// it (`aim_answer`), whose 16-bit value is `val`.
pub open spec fn aim_player_with(
    t: Task,
    b0: WorldBody,
    rd0: Seq<WorldRead>,
    rd1: Seq<WorldRead>,
    c0: Seq<WorldCall>,
    c1: Seq<WorldCall>,
    val: i32,
    own: Seq<WorldRead>,
    pre: Seq<WorldCall>,
    b: (Fx, Fx),
    aim: Seq<WorldRead>,
    a: Angle,
) -> bool {
    &&& rd1 == rd0 + own + aim
    &&& c1 == c0 + pre
    &&& own_position(t, own, pre, b)
    &&& aim_answer(b0, b.0, b.1, aim, a)
    &&& val == a.0 as i32
}

/// The base direction of a firing from `(ox, oy)`: the shooter's first
/// direction, or, for an aimed shooter, that plus the world's angle from
/// the origin to the targeted player (player 0 when the world names no
/// player slot), asked with the questions `aim`.
pub open spec fn fire_aim(sh: ShooterSlot, b0: WorldBody, ox: Fx, oy: Fx, aim: Seq<WorldRead>, base: int) -> bool {
    if sh.flags & SH_AIMED != 0 {
        &&& aim.len() == 2
        &&& aim[1] matches WorldRead::Atan2(_, _, a) && aim_answer(b0, ox, oy, aim, a) && base == a.0 + sh.angle0.0
    } else {
        aim.len() == 0 && base == sh.angle0.0
    }
}

/// The questions a firing of `sh` by task `t` asks (from `rd0` to `rd1`),
/// and what it does with the answers: the owner's position (unless the
/// offset is absolute), the polar offset `p`, whence the origin `(ox, oy)`
/// is the position plus the offset plus `p`; the aim (`fire_aim`); then
/// two questions per bullet handed to the world (`shot_geometry`).
pub open spec fn fire_reads(
    rd0: Seq<WorldRead>,
    rd1: Seq<WorldRead>,
    t: Task,
    sh: ShooterSlot,
    b0: WorldBody,
    pre: Seq<WorldCall>,
    shots: Seq<WorldCall>,
    ox: Fx,
    oy: Fx,
    base: int,
) -> bool {
    exists|own: Seq<WorldRead>, b: (Fx, Fx), p: (Fx, Fx), aim: Seq<WorldRead>, geo: Seq<WorldRead>|
        #[trigger] fire_reads_with(rd0, rd1, t, sh, b0, pre, shots, ox, oy, base, own, b, p, aim, geo)
}

/// `fire_reads` with the owner's questions `own` and position `b`, the
/// polar offset `p`, the aim questions `aim` and the per-bullet questions
/// `geo` named.
pub open spec fn fire_reads_with(
    rd0: Seq<WorldRead>,
    rd1: Seq<WorldRead>,
    t: Task,
    sh: ShooterSlot,
    b0: WorldBody,
    pre: Seq<WorldCall>,
    shots: Seq<WorldCall>,
    ox: Fx,
    oy: Fx,
    base: int,
    own: Seq<WorldRead>,
    b: (Fx, Fx),
    p: (Fx, Fx),
    aim: Seq<WorldRead>,
    geo: Seq<WorldRead>,
) -> bool {
    &&& rd1 == rd0 + own + seq![WorldRead::PolarToVec(sh.polar_r, sh.polar_ang, p)] + aim + geo
    &&& sh.flags & SH_ABS_OFFSET != 0 ==> own.len() == 0 && pre.len() == 0 && b == (Fx(0), Fx(0))
    &&& sh.flags & SH_ABS_OFFSET == 0 ==> own_position(t, own, pre, b)
    &&& ox == Fx(vstd::wrapping::i32_specs::wrapping_add(vstd::wrapping::i32_specs::wrapping_add(b.0.0, sh.off_x.0), p.0.0))
    &&& oy == Fx(vstd::wrapping::i32_specs::wrapping_add(vstd::wrapping::i32_specs::wrapping_add(b.1.0, sh.off_y.0), p.1.0))
    &&& fire_aim(sh, b0, ox, oy, aim, base)
    &&& geo.len() == 2 * shots.len()
    &&& forall|k: int| 0 <= k < shots.len() ==> #[trigger] shot_geometry(shots, geo, k, sh, ox, oy)
}

/// The world calls of a firing of shooter `sh` (after its checks): at most
/// one read of the owner's position (`pre`), the creation calls `shots`
/// from origin `(ox, oy)` around base direction `base` (the shooter's own
/// first direction unless it aims), then the firing request carrying the
/// origin, the appearance and the number created, if the shooter has one.
pub open spec fn fire_log(
    c0: Seq<WorldCall>,
    c1: Seq<WorldCall>,
    pre: Seq<WorldCall>,
    shots: Seq<WorldCall>,
    sh: ShooterSlot,
    cell: Appearance,
    xf: Seq<XformSlot>,
    ox: Fx,
    oy: Fx,
    base: int,
    frame: u32,
) -> bool {
    &&& pre.len() <= 1
    &&& 0 <= base <= 131070
    &&& sh.flags & SH_AIMED == 0 ==> base == sh.angle0.0
    &&& shots_ok(shots, sh, cell, xf, base, frame)
    &&& sh.on_fire_req == 0 ==> c1 == c0 + pre + shots
    &&& sh.on_fire_req != 0 ==> c1 == (c0 + pre + shots).push(WorldCall::EmitReq(sh.on_fire_req,
        [ox.0, oy.0, sh.appearance as i32, shots_created(shots) as i32, 0, 0]))
}

/// The owner stamp of a task attached to the bullet accepted in creation
/// call `w`.
pub open spec fn bullet_owner(w: WorldCall) -> (u8, u16, u16) {
    (OWNER_BULLET, shot_answer(w).index, shot_answer(w).generation)
}

/// `pools` runs from the task pool before a firing to the pool after it,
/// one step per accepted bullet of `shots`, in order: each step starts the
/// shooter's script `sub` at `pc` as a task owned by that bullet (parent
/// stamp `parent`, born at `frame`), or finds the pool full.
pub open spec fn attached_chain(
    pools: Seq<TaskPool>,
    results: Seq<Option<u16>>,
    shots: Seq<WorldCall>,
    n: int,
    sub: SubId,
    pc: u32,
    parent: u16,
    frame: u32,
) -> bool {
    &&& pools.len() == n + 1
    &&& results.len() == n
    &&& n <= shots.len()
    &&& forall|k: int| #![trigger results[k]] 0 <= k < n
        ==> TaskPool::spawned(pools[k], pools[k + 1], sub, pc, bullet_owner(shots[k]), parent, frame, results[k])
}

/// Grid positions are unique: `(i, j)` with `0 <= j < n` is determined by
/// `i * n + j`.
pub proof fn lemma_grid_unique(i: int, j: int, i2: int, j2: int, n: int)
    requires
        0 <= i,
        0 <= i2,
        0 <= j < n,
        0 <= j2 < n,
        i * n + j == i2 * n + j2,
    ensures
        i == i2 && j == j2,
{
    if i < i2 {
        assert(i * n + n <= i2 * n) by (nonlinear_arith)
            requires
                i < i2,
                0 <= n,
        ;
    } else if i2 < i {
        assert(i2 * n + n <= i * n) by (nonlinear_arith)
            requires
                i2 < i,
                0 <= n,
        ;
    }
}

/// The body after one refused call.
pub open spec fn refused(b0: WorldBody, b1: WorldBody) -> bool {
    &&& b1.diag.contract_viol == vstd::wrapping::u32_specs::wrapping_add(b0.diag.contract_viol, 1)
    &&& b1.last_status == STATUS_BAD_ARGS
    &&& b1.frame == b0.frame
    &&& b1.diag.task_faults == b0.diag.task_faults
    &&& b1.diag.pool_full == b0.diag.pool_full
    &&& b1.players == b0.players
    &&& b1.freeze_left == b0.freeze_left
    &&& b1.spell_last_result == b0.spell_last_result
}

/// The body after the world refused a creation because pool `kind` was full.
pub open spec fn full_counted(b0: WorldBody, b1: WorldBody, kind: int) -> bool {
    &&& b1.diag.pool_full@ == b0.diag.pool_full@.update(
        kind,
        vstd::wrapping::u32_specs::wrapping_add(b0.diag.pool_full@[kind], 1),
    )
    &&& b1.diag.contract_viol == b0.diag.contract_viol
    &&& b1.last_status == b0.last_status
    &&& b1.frame == b0.frame
    &&& b1.diag.task_faults == b0.diag.task_faults
    &&& b1.players == b0.players
    &&& b1.freeze_left == b0.freeze_left
    &&& b1.spell_last_result == b0.spell_last_result
}

/// Declared argument `j` of a call taking `n` arguments (pushed in order,
/// so argument `n - 1` is on top).
pub open spec fn argn(t: Task, n: int, j: int) -> i32 {
    t.stack@[t.sp - n + j]
}

/// The stack effect of a call that takes `n` arguments and pushes `push`
/// (if any): too few values is a stack fault with the stack emptied (the
/// pops happen one by one); a push onto a full stack is a stack fault.
pub open spec fn stack_effect(t0: Task, t1: Task, r: Result<(), u8>, n: int, push: Option<i32>) -> bool {
    if t0.sp < n {
        r == Err::<(), u8>(FAULT_STACK) && t1 == (Task { sp: 0, ..t0 })
    } else if push is Some && t0.sp - n >= EVAL_DEPTH {
        r == Err::<(), u8>(FAULT_STACK) && t1 == t0
    } else {
        &&& r == Ok::<(), u8>(())
        &&& match push {
            None => t1 == (Task { sp: (t0.sp - n) as u8, ..t0 }),
            Some(v) => {
                &&& t1.sp == t0.sp - n + 1
                &&& t1.stack@ == t0.stack@.update(t0.sp - n, v)
                &&& t1 == (Task { sp: t1.sp, stack: t1.stack, ..t0 })
            },
        }
    }
}

/// Pops `n` values at once; `Ok(base)` is the index of the first popped
/// value (declared argument 0), whose values stay readable in the array.
pub fn pop_args(task: &mut Task, n: usize) -> (r: Result<usize, u8>)
    requires
        task_wf(*old(task)),
        n <= EVAL_DEPTH,
    ensures
        task_wf(*final(task)),
        same_identity(*old(task), *final(task)),
        old(task).sp < n ==> r == Err::<usize, u8>(FAULT_STACK) && *final(task) == (Task { sp: 0, ..*old(task) }),
        old(task).sp >= n ==> r == Ok::<usize, u8>((old(task).sp - n) as usize)
            && *final(task) == (Task { sp: (old(task).sp - n) as u8, ..*old(task) }),
{
    if (task.sp as usize) < n {
        task.sp = 0;
        return Err(FAULT_STACK);
    }
    task.sp = (task.sp as usize - n) as u8;
    Ok(task.sp as usize)
}

/// Pops the top of the evaluation stack; underflow is a stack fault.
pub fn pop(task: &mut Task) -> (r: Result<i32, u8>)
    requires
        task_wf(*old(task)),
    ensures
        task_wf(*final(task)),
        same_identity(*old(task), *final(task)),
        old(task).sp == 0 ==> r == Err::<i32, u8>(FAULT_STACK) && *final(task) == *old(task),
        old(task).sp > 0 ==> r == Ok::<i32, u8>(old(task).stack@[old(task).sp - 1])
            && *final(task) == (Task { sp: (old(task).sp - 1) as u8, ..*old(task) }),
{
    if task.sp == 0 {
        return Err(FAULT_STACK);
    }
    task.sp = task.sp - 1;
    Ok(task.stack[task.sp as usize])
}

/// Pushes `v` on the evaluation stack; overflow is a stack fault.
pub fn push(task: &mut Task, v: i32) -> (r: Result<(), u8>)
    requires
        task_wf(*old(task)),
    ensures
        handler_fault(r),
        task_wf(*final(task)),
        same_identity(*old(task), *final(task)),
        old(task).sp as int >= EVAL_DEPTH ==> r == Err::<(), u8>(FAULT_STACK) && *final(task) == *old(task),
        (old(task).sp as int) < EVAL_DEPTH ==> r == Ok::<(), u8>(()) && final(task).sp == old(task).sp + 1
            && final(task).stack@ == old(task).stack@.update(old(task).sp as int, v)
            && *final(task) == (Task { sp: final(task).sp, stack: final(task).stack, ..*old(task) }),
{
    if task.sp as usize >= EVAL_DEPTH {
        return Err(FAULT_STACK);
    }
    task.stack[task.sp as usize] = v;
    task.sp = task.sp + 1;
    Ok(())
}

/// `v` clamped into `[lo, hi]`.
pub open spec fn clamp_int(v: int, lo: int, hi: int) -> int {
    if v < lo {
        lo
    } else if v > hi {
        hi
    } else {
        v
    }
}

/// The body with only player 0's ledger changed to `p`.
pub open spec fn with_player0(b0: WorldBody, b1: WorldBody, p: Player) -> bool {
    &&& b1.players@[0] == p
    &&& b1.players@[1] == b0.players@[1]
    &&& b1.frame == b0.frame
    &&& b1.diag == b0.diag
    &&& b1.last_status == b0.last_status
    &&& b1.freeze_left == b0.freeze_left
    &&& b1.spell_last_result == b0.spell_last_result
}

/// The body unchanged but for player 0's ledger.
fn set_player0(body: &mut WorldBody, p: Player)
    ensures
        with_player0(*old(body), *final(body), p),
{
    body.players[0] = p;
}

/// `add_score(d)`: adds `d` to player 0's score, saturating at both ends.
pub fn sys_add_score(task: &mut Task, body: &mut WorldBody) -> (r: Result<(), u8>)
    requires
        task_wf(*old(task)),
    ensures
        handler_fault(r),
        task_wf(*final(task)),
        stack_effect(*old(task), *final(task), r, 1, None),
        r is Err ==> *final(body) == *old(body),
        r is Ok ==> with_player0(*old(body), *final(body), Player {
            score: clamp_int(old(body).players@[0].score + argn(*old(task), 1, 0), 0, u64::MAX as int) as u64,
            ..old(body).players@[0]
        }),
{
    let base = match pop_args(task, 1) {
        Ok(b) => b,
        Err(e) => { return Err(e); },
    };
    let d = task.stack[base];
    let mut p = body.players[0];
    if d >= 0 {
        p.score = p.score.saturating_add(d as u64);
    } else {
        let m: u64 = (0i64 - d as i64) as u64;
        p.score = p.score.saturating_sub(m);
    }
    set_player0(body, p);
    Ok(())
}

/// `add_lives(d)`: player 0's lives plus `d`, clamped into `[0, 255]`.
pub fn sys_add_lives(task: &mut Task, body: &mut WorldBody) -> (r: Result<(), u8>)
    requires
        task_wf(*old(task)),
    ensures
        handler_fault(r),
        task_wf(*final(task)),
        stack_effect(*old(task), *final(task), r, 1, None),
        r is Err ==> *final(body) == *old(body),
        r is Ok ==> with_player0(*old(body), *final(body), Player {
            lives: clamp_int(old(body).players@[0].lives + argn(*old(task), 1, 0), 0, 255) as u8,
            ..old(body).players@[0]
        }),
{
    let base = match pop_args(task, 1) {
        Ok(b) => b,
        Err(e) => { return Err(e); },
    };
    let d = task.stack[base] as i64;
    let mut p = body.players[0];
    let v: i64 = p.lives as i64 + d;
    p.lives = if v < 0 { 0 } else if v > 255 { 255 } else { v as u8 };
    set_player0(body, p);
    Ok(())
}

/// `add_bombs(d)`: player 0's bomb stock plus `d`, clamped into
/// `[0, STOP_STOCK_MAX]`.
pub fn sys_add_bombs(task: &mut Task, body: &mut WorldBody) -> (r: Result<(), u8>)
    requires
        task_wf(*old(task)),
    ensures
        handler_fault(r),
        task_wf(*final(task)),
        stack_effect(*old(task), *final(task), r, 1, None),
        r is Err ==> *final(body) == *old(body),
        r is Ok ==> with_player0(*old(body), *final(body), Player {
            bombs: clamp_int(old(body).players@[0].bombs + argn(*old(task), 1, 0), 0, STOP_STOCK_MAX as int) as u8,
            ..old(body).players@[0]
        }),
{
    let base = match pop_args(task, 1) {
        Ok(b) => b,
        Err(e) => { return Err(e); },
    };
    let d = task.stack[base] as i64;
    let mut p = body.players[0];
    let v: i64 = p.bombs as i64 + d;
    p.bombs = if v < 0 { 0 } else if v > STOP_STOCK_MAX as i64 { STOP_STOCK_MAX } else { v as u8 };
    set_player0(body, p);
    Ok(())
}

/// `add_power(d)`: player 0's power plus `d`, clamped into `[0, POWER_MAX]`.
pub fn sys_add_power(task: &mut Task, body: &mut WorldBody) -> (r: Result<(), u8>)
    requires
        task_wf(*old(task)),
    ensures
        handler_fault(r),
        task_wf(*final(task)),
        stack_effect(*old(task), *final(task), r, 1, None),
        r is Err ==> *final(body) == *old(body),
        r is Ok ==> with_player0(*old(body), *final(body), Player {
            power: clamp_int(old(body).players@[0].power + argn(*old(task), 1, 0), 0, POWER_MAX as int) as u16,
            ..old(body).players@[0]
        }),
{
    let base = match pop_args(task, 1) {
        Ok(b) => b,
        Err(e) => { return Err(e); },
    };
    let d = task.stack[base] as i64;
    let mut p = body.players[0];
    let v: i64 = p.power as i64 + d;
    p.power = if v < 0 { 0 } else if v > POWER_MAX as i64 { POWER_MAX } else { v as u16 };
    set_player0(body, p);
    Ok(())
}

/// `time_stop_player(frames)`: player 1's freeze timer becomes `frames`;
/// a value outside `u16` is refused.
pub fn sys_time_stop_player(task: &mut Task, body: &mut WorldBody) -> (r: Result<(), u8>)
    requires
        task_wf(*old(task)),
    ensures
        handler_fault(r),
        task_wf(*final(task)),
        stack_effect(*old(task), *final(task), r, 1, None),
        r is Err ==> *final(body) == *old(body),
        r is Ok ==> {
            let n = argn(*old(task), 1, 0);
            if 0 <= n <= u16::MAX {
                &&& final(body).freeze_left@ == old(body).freeze_left@.update(1, n as u16)
                &&& final(body).diag == old(body).diag
                &&& final(body).last_status == old(body).last_status
                &&& final(body).players == old(body).players
                &&& final(body).frame == old(body).frame
                &&& final(body).spell_last_result == old(body).spell_last_result
            } else {
                refused(*old(body), *final(body))
            }
        },
{
    let base = match pop_args(task, 1) {
        Ok(b) => b,
        Err(e) => { return Err(e); },
    };
    let n = task.stack[base];
    if n < 0 || n > 0xFFFF {
        body.refuse();
        return Ok(());
    }
    body.freeze_left[1] = n as u16;
    Ok(())
}

/// `spell_result(slot)`: the last settled result of boss slot `slot`; a
/// slot outside `0..2` is refused and reads 0.
pub fn sys_spell_result(task: &mut Task, body: &mut WorldBody) -> (r: Result<(), u8>)
    requires
        task_wf(*old(task)),
    ensures
        handler_fault(r),
        task_wf(*final(task)),
        ({
            let s = argn(*old(task), 1, 0);
            &&& stack_effect(*old(task), *final(task), r, 1, Some(
                if 0 <= s < 2 { old(body).spell_last_result@[s as int] as i32 } else { 0i32 },
            ))
            &&& r is Err ==> *final(body) == *old(body)
            &&& r is Ok ==> (if 0 <= s < 2 { *final(body) == *old(body) } else { refused(*old(body), *final(body)) })
        }),
{
    let base = match pop_args(task, 1) {
        Ok(b) => b,
        Err(e) => { return Err(e); },
    };
    let s = task.stack[base];
    let v: i32 = if 0 <= s && s < 2 {
        body.spell_last_result[s as usize] as i32
    } else {
        body.refuse();
        0
    };
    push(task, v)
}

/// The position of the task's owner: enemy or bullet per the world, the
/// origin for the stage.
fn self_pos<P: Simulation>(task: &Task, sim: &mut Recorder<P>) -> (r: (Fx, Fx))
    ensures
        old(sim).calls().is_prefix_of(final(sim).calls()),
        old(sim).reads().is_prefix_of(final(sim).reads()),
        task.owner_kind != OWNER_ENEMY && task.owner_kind != OWNER_BULLET ==> r == (Fx(0), Fx(0)),
        old(sim).calls().len() <= final(sim).calls().len() <= old(sim).calls().len() + 1,
        final(sim).calls().subrange(0, old(sim).calls().len() as int) == old(sim).calls(),
        own_position(*task, final(sim).reads().subrange(old(sim).reads().len() as int, final(sim).reads().len() as int),
            final(sim).calls().subrange(old(sim).calls().len() as int, final(sim).calls().len() as int), r),
{
    if task.owner_kind == OWNER_ENEMY {
        let v = sim.enemy_view(task.owner_index as usize);
        proof {
            assert(sim.reads().subrange(old(sim).reads().len() as int, sim.reads().len() as int)
                =~= seq![WorldRead::EnemyView(task.owner_index as usize, v)]);
            assert(sim.calls().subrange(old(sim).calls().len() as int, sim.calls().len() as int) =~= Seq::<WorldCall>::empty());
        }
        (v.x, v.y)
    } else if task.owner_kind == OWNER_BULLET {
        let v = sim.bullet_view(task.owner_index as usize);
        proof {
            assert(sim.calls().subrange(old(sim).calls().len() as int, sim.calls().len() as int)
                =~= seq![WorldCall::BulletView(task.owner_index as usize, v)]);
            assert(sim.reads().subrange(old(sim).reads().len() as int, sim.reads().len() as int) =~= Seq::<WorldRead>::empty());
        }
        (v.x, v.y)
    } else {
        proof {
            assert(sim.calls().subrange(old(sim).calls().len() as int, sim.calls().len() as int) =~= Seq::<WorldCall>::empty());
            assert(sim.reads().subrange(old(sim).reads().len() as int, sim.reads().len() as int) =~= Seq::<WorldRead>::empty());
        }
        (Fx(0), Fx(0))
    }
}

/// The position `b` of `t`'s owner, found with the questions `own` and the
/// calls `pre`: an enemy's from the world's view of it, a bullet's from the
/// view the world hands back (which brings it up to date), the origin for
/// any other owner.
pub open spec fn own_position(t: Task, own: Seq<WorldRead>, pre: Seq<WorldCall>, b: (Fx, Fx)) -> bool {
    if t.owner_kind == OWNER_ENEMY {
        pre.len() == 0 && exists|v: EnemyView| own == seq![WorldRead::EnemyView(t.owner_index as usize, v)] && b == (v.x, v.y)
    } else if t.owner_kind == OWNER_BULLET {
        own.len() == 0 && exists|v: BulletView| pre == seq![WorldCall::BulletView(t.owner_index as usize, v)] && b == (v.x, v.y)
    } else {
        own.len() == 0 && pre.len() == 0 && b == (Fx(0), Fx(0))
    }
}

/// The slot a packed number names when the world answers `answer` for the
/// slot's generation (`None`: unoccupied): the number is non-negative, its
/// index is below `cap`, the slot is occupied and its generation's low 15
/// bits are the packed ones.
pub open spec fn packed_names(packed: i32, cap: int, answer: Option<u16>) -> Option<usize> {
    if packed < 0 || crate::enemy::packed_index(packed) >= cap {
        None
    } else {
        match answer {
            Some(g) => if g as int % 32768 == crate::enemy::packed_generation(packed) {
                Some(crate::enemy::packed_index(packed) as usize)
            } else {
                None
            },
            None => None,
        }
    }
}

/// The slot `packed` names, given the world's answer for that slot's
/// generation.
pub fn packed_slot(packed: i32, cap: usize, answer: Option<u16>) -> (r: Option<usize>)
    ensures
        r == packed_names(packed, cap as int, answer),
{
    if packed < 0 {
        return None;
    }
    let (idx, g) = unpack_handle(packed);
    if idx >= cap {
        return None;
    }
    match answer {
        Some(gen) => {
            assert(gen & 0x7FFFu16 == gen % 32768) by (bit_vector);
            if gen & 0x7FFF == g {
                Some(idx)
            } else {
                None
            }
        },
        None => None,
    }
}

/// The enemy slot a packed enemy number names: non-negative, in range,
/// occupied, and carrying the slot's current generation (low 15 bits). The
/// world is asked only for an in-range slot; the result is `packed_names`
/// of its answer.
pub fn resolve_enemy_handle<P: Simulation>(packed: i32, sim: &mut Recorder<P>) -> (r: Option<usize>)
    ensures
        final(sim).calls() == old(sim).calls(),
        old(sim).reads().is_prefix_of(final(sim).reads()),
        packed < 0 ==> r is None,
        packed >= 0 && crate::enemy::packed_index(packed) >= ENEMY_CAP ==> r is None,
        r matches Some(i) ==> i < ENEMY_CAP && i as int == crate::enemy::packed_index(packed),
        exists|answer: Option<u16>| r == #[trigger] packed_names(packed, ENEMY_CAP as int, answer)
            && final(sim).reads() == old(sim).reads() + enemy_slot_query(packed, answer),
{
    if packed < 0 || packed % 65536 >= ENEMY_CAP as i32 {
        proof {
            assert(packed_names(packed, ENEMY_CAP as int, None) is None);
            assert(sim.reads() =~= old(sim).reads() + enemy_slot_query(packed, None));
        }
        return None;
    }
    let idx = (packed % 65536) as usize;
    let answer = sim.enemy_generation(idx);
    proof {
        assert(sim.reads() =~= old(sim).reads() + enemy_slot_query(packed, answer));
    }
    packed_slot(packed, ENEMY_CAP, answer)
}

/// The question asked to resolve a packed enemy number, answered `answer`:
/// the generation of the enemy slot it names, when that slot is in range;
/// nothing otherwise.
pub open spec fn enemy_slot_query(packed: i32, answer: Option<u16>) -> Seq<WorldRead> {
    if packed < 0 || crate::enemy::packed_index(packed) >= ENEMY_CAP {
        Seq::empty()
    } else {
        seq![WorldRead::EnemyGeneration(crate::enemy::packed_index(packed) as usize, answer)]
    }
}

/// The question asked to resolve a packed laser number, answered `answer`:
/// the generation of the laser slot it names, for a non-negative number.
pub open spec fn laser_slot_query(packed: i32, answer: Option<u16>) -> Seq<WorldRead> {
    if packed < 0 {
        Seq::empty()
    } else {
        seq![WorldRead::LaserGeneration(crate::enemy::packed_index(packed) as usize, answer)]
    }
}

/// The laser handle a packed laser number names when the world answers
/// `answer` for that slot's generation: the slot `packed_names` gives (any
/// index a packed number can hold), with the full generation.
pub open spec fn packed_laser(packed: i32, answer: Option<u16>) -> Option<Handle> {
    match packed_names(packed, 65536, answer) {
        Some(i) => Some(Handle { index: i as u16, generation: answer->Some_0 }),
        None => None,
    }
}

/// The laser a packed laser number names, with its full generation; the
/// result is `packed_laser` of the world's answer for the packed index.
pub fn resolve_laser_handle<P: Simulation>(packed: i32, sim: &mut Recorder<P>) -> (r: Option<Handle>)
    ensures
        final(sim).calls() == old(sim).calls(),
        old(sim).reads().is_prefix_of(final(sim).reads()),
        packed < 0 ==> r is None,
        r matches Some(h) ==> h.index as int == crate::enemy::packed_index(packed)
            && h.generation as int % 32768 == crate::enemy::packed_generation(packed),
        exists|answer: Option<u16>| r == #[trigger] packed_laser(packed, answer)
            && final(sim).reads() == old(sim).reads() + laser_slot_query(packed, answer),
{
    if packed < 0 {
        proof {
            assert(packed_laser(packed, None) is None);
            assert(sim.reads() =~= old(sim).reads() + laser_slot_query(packed, None));
        }
        return None;
    }
    let (idx, _) = unpack_handle(packed);
    let answer = sim.laser_generation(idx);
    let r = match packed_slot(packed, 65536, answer) {
        Some(i) => {
            let gen = answer.unwrap();
            Some(Handle { index: i as u16, generation: gen })
        },
        None => None,
    };
    proof {
        assert(r == packed_laser(packed, answer));
        assert(sim.reads() =~= old(sim).reads() + laser_slot_query(packed, answer));
    }
    r
}

/// The packed number of a laser handle; -1 for the null handle.
pub fn pack_laser_handle(h: Handle) -> (r: i32)
    ensures
        h == Handle::spec_null() ==> r == -1,
        h != Handle::spec_null() ==> r == spec_pack_handle(h),
{
    if h.index == 0xFFFF && h.generation == 0 {
        -1
    } else {
        pack_handle(h)
    }
}

/// The owner as an enemy handle; misuse (owner not an enemy) faults.
fn self_enemy(task: &Task) -> (r: Result<Handle, u8>)
    ensures
        task.owner_kind != OWNER_ENEMY ==> r == Err::<Handle, u8>(FAULT_BAD_OP),
        task.owner_kind == OWNER_ENEMY ==> r == Ok::<Handle, u8>(
            Handle { index: task.owner_index, generation: task.owner_gen },
        ),
{
    if task.owner_kind != OWNER_ENEMY {
        return Err(FAULT_BAD_OP);
    }
    Ok(Handle { index: task.owner_index, generation: task.owner_gen })
}

/// The owner as a bullet handle; misuse (owner not a bullet) faults.
fn self_bullet(task: &Task) -> (r: Result<Handle, u8>)
    ensures
        task.owner_kind != OWNER_BULLET ==> r == Err::<Handle, u8>(FAULT_BAD_OP),
        task.owner_kind == OWNER_BULLET ==> r == Ok::<Handle, u8>(
            Handle { index: task.owner_index, generation: task.owner_gen },
        ),
{
    if task.owner_kind != OWNER_BULLET {
        return Err(FAULT_BAD_OP);
    }
    Ok(Handle { index: task.owner_index, generation: task.owner_gen })
}

/// The engine variables (`$frame`, `$player_x/y`, `$self_*`): no argument,
/// one value pushed. Frame, players and task age come from the script
/// layer's own state; an enemy number is packed (-1 for a non-enemy
/// owner); the owner's position, velocity and health come from the world,
/// zero for the stage (health also for bullets).
pub fn sys_engine_var<P: Simulation>(no: u16, task: &mut Task, body: &WorldBody, sim: &mut Recorder<P>, frame: u32) -> (r: Result<(), u8>)
    requires
        task_wf(*old(task)),
        no == SYS_FRAME || no == SYS_PLAYER_X || no == SYS_PLAYER_Y || no == SYS_SELF_ENEMY
            || no == SYS_SELF_X || no == SYS_SELF_Y || no == SYS_SELF_VX || no == SYS_SELF_VY
            || no == SYS_SELF_SPEED || no == SYS_SELF_ANGLE || no == SYS_SELF_HP
            || no == SYS_SELF_HP_MAX || no == SYS_SELF_AGE,
    ensures
        old(sim).calls().is_prefix_of(final(sim).calls()),
        old(sim).reads().is_prefix_of(final(sim).reads()),
        handler_fault(r),
        task_wf(*final(task)),
        stack_effect(*old(task), *final(task), r, 0, Some(final(task).stack@[old(task).sp as int])),
        no == SYS_FRAME ==> stack_effect(*old(task), *final(task), r, 0, Some(frame as i32)),
        no == SYS_PLAYER_X ==> stack_effect(*old(task), *final(task), r, 0, Some(body.players@[0].x.0)),
        no == SYS_PLAYER_Y ==> stack_effect(*old(task), *final(task), r, 0, Some(body.players@[0].y.0)),
        no == SYS_SELF_AGE ==> stack_effect(*old(task), *final(task), r, 0, Some(
            vstd::wrapping::u32_specs::wrapping_sub(frame, old(task).born_frame) as i32,
        )),
        no == SYS_SELF_ENEMY ==> stack_effect(*old(task), *final(task), r, 0, Some(
            if old(task).owner_kind == OWNER_ENEMY {
                spec_pack_handle(Handle { index: old(task).owner_index, generation: old(task).owner_gen })
            } else {
                -1i32
            },
        )),
        (no == SYS_SELF_HP || no == SYS_SELF_HP_MAX) && old(task).owner_kind != OWNER_ENEMY
            ==> stack_effect(*old(task), *final(task), r, 0, Some(0i32)),
        self_read(no) ==> exists|val: i32| #[trigger] self_read_done(no, *old(task), old(sim).reads(), final(sim).reads(),
            old(sim).calls(), final(sim).calls(), val) && stack_effect(*old(task), *final(task), r, 0, Some(val)),
{
    let v: i32 = if no == SYS_FRAME {
        frame as i32
    } else if no == SYS_PLAYER_X {
        body.players[0].x.0
    } else if no == SYS_PLAYER_Y {
        body.players[0].y.0
    } else if no == SYS_SELF_AGE {
        frame.wrapping_sub(task.born_frame) as i32
    } else if no == SYS_SELF_ENEMY {
        if task.owner_kind == OWNER_ENEMY {
            pack_handle(Handle { index: task.owner_index, generation: task.owner_gen })
        } else {
            -1
        }
    } else if task.owner_kind == OWNER_ENEMY {
        let e = sim.enemy_view(task.owner_index as usize);
        proof {
            assert(self_read_done(no, *old(task), old(sim).reads(), sim.reads(), old(sim).calls(), sim.calls(),
                self_field_enemy(no, e)));
        }
        enemy_field(no, &e)
    } else if task.owner_kind == OWNER_BULLET && no != SYS_SELF_HP && no != SYS_SELF_HP_MAX {
        let b = sim.bullet_view(task.owner_index as usize);
        proof {
            assert(self_read_done(no, *old(task), old(sim).reads(), sim.reads(), old(sim).calls(), sim.calls(),
                self_field_bullet(no, b)));
        }
        bullet_field(no, &b)
    } else {
        proof {
            assert(self_read(no) ==> self_read_done(no, *old(task), old(sim).reads(), sim.reads(), old(sim).calls(),
                sim.calls(), 0i32));
        }
        0
    };
    push(task, v)
}

/// The reads of a task's own owner (`self_x` .. `self_hp_max`).
pub open spec fn self_read(no: u16) -> bool {
    no == SYS_SELF_X || no == SYS_SELF_Y || no == SYS_SELF_VX || no == SYS_SELF_VY || no == SYS_SELF_SPEED
        || no == SYS_SELF_ANGLE || no == SYS_SELF_HP || no == SYS_SELF_HP_MAX
}

/// The field owner read `no` takes from the world's view `v` of an enemy.
pub open spec fn self_field_enemy(no: u16, v: EnemyView) -> i32 {
    if no == SYS_SELF_X {
        v.x.0
    } else if no == SYS_SELF_Y {
        v.y.0
    } else if no == SYS_SELF_VX {
        v.vx.0
    } else if no == SYS_SELF_VY {
        v.vy.0
    } else if no == SYS_SELF_SPEED {
        v.speed.0
    } else if no == SYS_SELF_ANGLE {
        v.angle.0 as i32
    } else if no == SYS_SELF_HP {
        v.hp
    } else {
        v.hp_max
    }
}

/// The field owner read `no` takes from the world's view `v` of a bullet
/// (no health: only position and motion).
pub open spec fn self_field_bullet(no: u16, v: BulletView) -> i32 {
    if no == SYS_SELF_X {
        v.x.0
    } else if no == SYS_SELF_Y {
        v.y.0
    } else if no == SYS_SELF_VX {
        v.vx.0
    } else if no == SYS_SELF_VY {
        v.vy.0
    } else if no == SYS_SELF_SPEED {
        v.speed.0
    } else {
        v.angle.0 as i32
    }
}

fn enemy_field(no: u16, v: &EnemyView) -> (r: i32)
    ensures
        r == self_field_enemy(no, *v),
{
    if no == SYS_SELF_X {
        v.x.0
    } else if no == SYS_SELF_Y {
        v.y.0
    } else if no == SYS_SELF_VX {
        v.vx.0
    } else if no == SYS_SELF_VY {
        v.vy.0
    } else if no == SYS_SELF_SPEED {
        v.speed.0
    } else if no == SYS_SELF_ANGLE {
        v.angle.0 as i32
    } else if no == SYS_SELF_HP {
        v.hp
    } else {
        v.hp_max
    }
}

fn bullet_field(no: u16, v: &BulletView) -> (r: i32)
    ensures
        r == self_field_bullet(no, *v),
{
    if no == SYS_SELF_X {
        v.x.0
    } else if no == SYS_SELF_Y {
        v.y.0
    } else if no == SYS_SELF_VX {
        v.vx.0
    } else if no == SYS_SELF_VY {
        v.vy.0
    } else if no == SYS_SELF_SPEED {
        v.speed.0
    } else {
        v.angle.0 as i32
    }
}

/// Owner read `no` from task `t` asks the questions from `rd0` to `rd1`,
/// makes the calls from `c0` to `c1` and yields `val`: an enemy owner's
/// field from the world's view of it; a bullet owner's position or motion
/// from the view the world hands back (which brings the bullet up to
/// date), 0 for its health; 0 for any other owner, asking nothing.
pub open spec fn self_read_done(no: u16, t: Task, rd0: Seq<WorldRead>, rd1: Seq<WorldRead>, c0: Seq<WorldCall>, c1: Seq<WorldCall>, val: i32) -> bool {
    if t.owner_kind == OWNER_ENEMY {
        exists|v: EnemyView| rd1 == rd0.push(WorldRead::EnemyView(t.owner_index as usize, v)) && c1 == c0
            && val == #[trigger] self_field_enemy(no, v)
    } else if t.owner_kind == OWNER_BULLET && no != SYS_SELF_HP && no != SYS_SELF_HP_MAX {
        exists|v: BulletView| c1 == c0.push(WorldCall::BulletView(t.owner_index as usize, v)) && rd1 == rd0
            && val == #[trigger] self_field_bullet(no, v)
    } else {
        rd1 == rd0 && c1 == c0 && val == 0
    }
}

/// The enemy-number reads: `enemy_hp`, `enemy_x`, `enemy_y`,
/// `enemy_alive`. A number that does not resolve (negative, out of range,
/// free slot, stale generation) reads -1 for hp and 0 otherwise.
pub fn sys_enemy_read<P: Simulation>(no: u16, task: &mut Task, sim: &mut Recorder<P>) -> (r: Result<(), u8>)
    requires
        task_wf(*old(task)),
        no == SYS_ENEMY_HP || no == SYS_ENEMY_X || no == SYS_ENEMY_Y || no == SYS_ENEMY_ALIVE,
    ensures
        final(sim).calls() == old(sim).calls(),
        old(sim).reads().is_prefix_of(final(sim).reads()),
        handler_fault(r),
        task_wf(*final(task)),
        stack_effect(*old(task), *final(task), r, 1, Some(final(task).stack@[old(task).sp - 1])),
        argn(*old(task), 1, 0) < 0 ==> stack_effect(*old(task), *final(task), r, 1, Some(
            if no == SYS_ENEMY_HP { -1i32 } else { 0i32 },
        )),
        old(task).sp >= 1 ==> exists|ans: Option<u16>, e: EnemyView| #[trigger] enemy_read_done(no, old(sim).reads(),
            final(sim).reads(), argn(*old(task), 1, 0), ans, e, final(task).stack@[old(task).sp - 1]),
{
    let base = match pop_args(task, 1) {
        Ok(b) => b,
        Err(e) => { return Err(e); },
    };
    let packed = task.stack[base];
    let resolved = resolve_enemy_handle(packed, sim);
    let ghost ans = choose|a: Option<u16>| resolved == packed_names(packed, ENEMY_CAP as int, a)
        && sim.reads() == old(sim).reads() + enemy_slot_query(packed, a);
    let ghost mut view = EnemyView { x: Fx(0), y: Fx(0), vx: Fx(0), vy: Fx(0), speed: Fx(0), angle: Angle(0), hp: 0, hp_max: 0 };
    let v: i32 = match resolved {
        Some(idx) => {
            if no == SYS_ENEMY_ALIVE {
                1
            } else {
                let e = sim.enemy_view(idx);
                proof {
                    view = e;
                }
                if no == SYS_ENEMY_HP {
                    e.hp
                } else if no == SYS_ENEMY_X {
                    e.x.0
                } else {
                    e.y.0
                }
            }
        },
        None => if no == SYS_ENEMY_HP { -1 } else { 0 },
    };
    proof {
        assert(packed == argn(*old(task), 1, 0));
        assert(enemy_read_done(no, old(sim).reads(), sim.reads(), packed, ans, view, v));
    }
    push(task, v)
}

/// An enemy read `no` of packed enemy number `packed` asks the questions
/// from `rd0` to `rd1` and pushes `pushed`: the slot's generation (answered
/// `ans`); for a number that names no live enemy, -1 for the health read
/// and 0 otherwise; for a live one, 1 for the liveness read, else the
/// enemy's health or position from the world's view `e` of it.
pub open spec fn enemy_read_done(no: u16, rd0: Seq<WorldRead>, rd1: Seq<WorldRead>, packed: i32, ans: Option<u16>, e: EnemyView, pushed: i32) -> bool {
    let rdq = rd0 + enemy_slot_query(packed, ans);
    match packed_names(packed, ENEMY_CAP as int, ans) {
        None => rd1 == rdq && pushed == (if no == SYS_ENEMY_HP { -1i32 } else { 0i32 }),
        Some(i) => if no == SYS_ENEMY_ALIVE {
            rd1 == rdq && pushed == 1
        } else {
            &&& rd1 == rdq.push(WorldRead::EnemyView(i as usize, e))
            &&& pushed == (if no == SYS_ENEMY_HP { e.hp } else if no == SYS_ENEMY_X { e.x.0 } else { e.y.0 })
        },
    }
}

/// `rand_range(n)`: a draw in `0..n` from the world stream; `n <= 0` reads
/// 0 and leaves the stream untouched.
pub fn sys_rand_range<P: Simulation>(task: &mut Task, sim: &mut Recorder<P>) -> (r: Result<(), u8>)
    requires
        task_wf(*old(task)),
    ensures
        old(sim).calls().is_prefix_of(final(sim).calls()),
        old(sim).reads().is_prefix_of(final(sim).reads()),
        handler_fault(r),
        task_wf(*final(task)),
        stack_effect(*old(task), *final(task), r, 1, Some(final(task).stack@[old(task).sp - 1])),
        argn(*old(task), 1, 0) <= 0 ==> stack_effect(*old(task), *final(task), r, 1, Some(0i32))
            && final(sim).calls() == old(sim).calls(),
        r is Err ==> final(sim).calls() == old(sim).calls(),
        old(task).sp >= 1 && argn(*old(task), 1, 0) > 0 ==> stack_effect(*old(task), *final(task), r, 1, Some(
            final(task).stack@[old(task).sp - 1],
        )) && exists|d: u32| final(sim).calls() == #[trigger] old(sim).calls().push(WorldCall::RandRange(
            argn(*old(task), 1, 0) as u32, d)) && (r is Ok ==> final(task).stack@[old(task).sp - 1] == d as i32),
{
    let base = match pop_args(task, 1) {
        Ok(b) => b,
        Err(e) => { return Err(e); },
    };
    let n = task.stack[base];
    let v: i32 = if n <= 0 { 0 } else { sim.rand_range(n as u32) as i32 };
    push(task, v)
}

/// `get_var(slot)`: global `slot` (the argument's low 16 bits).
pub fn sys_get_var<P: Simulation>(task: &mut Task, sim: &mut Recorder<P>) -> (r: Result<(), u8>)
    requires
        task_wf(*old(task)),
    ensures
        final(sim).calls() == old(sim).calls(),
        old(sim).reads().is_prefix_of(final(sim).reads()),
        handler_fault(r),
        task_wf(*final(task)),
        stack_effect(*old(task), *final(task), r, 1, Some(final(task).stack@[old(task).sp - 1])),
        old(task).sp < 1 ==> final(sim).reads() == old(sim).reads(),
        old(task).sp >= 1 ==> final(sim).reads() == old(sim).reads().push(WorldRead::GetVar(
            argn(*old(task), 1, 0) as u16, final(task).stack@[old(task).sp - 1])),
{
    let base = match pop_args(task, 1) {
        Ok(b) => b,
        Err(e) => { return Err(e); },
    };
    let slot = task.stack[base] as u16;
    let v = sim.get_var(slot);
    push(task, v)
}

/// `set_var(slot, v)`: a slot in the system segment (below
/// `GLOBALS_SYS_SEGMENT`, after truncation to 16 bits) is refused and the
/// world is not asked; otherwise the world writes it.
pub fn sys_set_var<P: Simulation>(task: &mut Task, body: &mut WorldBody, sim: &mut Recorder<P>) -> (r: Result<(), u8>)
    requires
        task_wf(*old(task)),
    ensures
        old(sim).calls().is_prefix_of(final(sim).calls()),
        old(sim).reads().is_prefix_of(final(sim).reads()),
        handler_fault(r),
        task_wf(*final(task)),
        stack_effect(*old(task), *final(task), r, 2, None),
        r is Err ==> *final(body) == *old(body) && final(sim).calls() == old(sim).calls(),
        r is Ok && (argn(*old(task), 2, 0) as u16) < GLOBALS_SYS_SEGMENT ==> refused(*old(body), *final(body))
            && final(sim).calls() == old(sim).calls(),
        r is Ok && (argn(*old(task), 2, 0) as u16) >= GLOBALS_SYS_SEGMENT ==> *final(body) == *old(body)
            && final(sim).calls() == old(sim).calls().push(WorldCall::SetVar(argn(*old(task), 2, 0) as u16,
            argn(*old(task), 2, 1))),
{
    let base = match pop_args(task, 2) {
        Ok(b) => b,
        Err(e) => { return Err(e); },
    };
    let slot = task.stack[base] as u16;
    let val = task.stack[base + 1];
    if slot < GLOBALS_SYS_SEGMENT {
        body.refuse();
    } else {
        sim.set_var(slot, val);
    }
    Ok(())
}

/// The queries that ask the world: `nearest_enemy(x, y)` (packed number or
/// -1), `aim_player_angle()` (from the owner to the targeted player),
/// `spell_timer()` (frames left on the owner's card; -1 for a non-enemy
/// owner), `atan2(y, x)`; and `dist(dx, dy)`, which the VM computes itself
/// (`fx_length`).
pub fn sys_query<P: Simulation>(no: u16, task: &mut Task, body: &WorldBody, sim: &mut Recorder<P>) -> (r: Result<(), u8>)
    requires
        task_wf(*old(task)),
        no == SYS_NEAREST_ENEMY || no == SYS_AIM_PLAYER_ANGLE || no == SYS_SPELL_TIMER
            || no == SYS_ATAN2 || no == SYS_DIST,
    ensures
        old(sim).calls().is_prefix_of(final(sim).calls()),
        old(sim).reads().is_prefix_of(final(sim).reads()),
        handler_fault(r),
        task_wf(*final(task)),
        ({
            let n: int = if no == SYS_NEAREST_ENEMY || no == SYS_ATAN2 || no == SYS_DIST { 2 } else { 0 };
            stack_effect(*old(task), *final(task), r, n, Some(final(task).stack@[old(task).sp - n]))
        }),
        no == SYS_SPELL_TIMER && old(task).owner_kind != OWNER_ENEMY
            ==> stack_effect(*old(task), *final(task), r, 0, Some(-1i32)),
        no == SYS_DIST && r is Ok ==> fx_length(argn(*old(task), 2, 0), argn(*old(task), 2, 1), final(task).stack@[old(task).sp - 2]),
        no == SYS_DIST ==> final(sim).calls() == old(sim).calls(),
        no == SYS_ATAN2 ==> final(sim).calls() == old(sim).calls(),
        no == SYS_ATAN2 && old(task).sp >= 2 ==> exists|a: Angle| final(sim).reads()
            == #[trigger] old(sim).reads().push(WorldRead::Atan2(Fx(argn(*old(task), 2, 0)), Fx(argn(*old(task), 2, 1)), a))
            && final(task).stack@[old(task).sp - 2] == a.0 as i32,
        no == SYS_NEAREST_ENEMY ==> final(sim).calls() == old(sim).calls(),
        no == SYS_NEAREST_ENEMY && old(task).sp >= 2 ==> exists|ans: Option<Handle>| final(sim).reads()
            == #[trigger] old(sim).reads().push(WorldRead::NearestEnemy(Fx(argn(*old(task), 2, 0)), Fx(argn(*old(task), 2, 1)), ans))
            && final(task).stack@[old(task).sp - 2] == (match ans { Some(h) => spec_pack_handle(h), None => -1i32 }),
        no == SYS_SPELL_TIMER && old(task).owner_kind == OWNER_ENEMY ==> final(sim).calls() == old(sim).calls()
            && exists|left: i32| final(sim).reads() == #[trigger] old(sim).reads().push(WorldRead::SpellFramesLeftOf(
            Handle { index: old(task).owner_index, generation: old(task).owner_gen }, left))
            && stack_effect(*old(task), *final(task), r, 0, Some(left)),
        no == SYS_AIM_PLAYER_ANGLE ==> exists|val: i32, own: Seq<WorldRead>, pre: Seq<WorldCall>, b: (Fx, Fx), aim: Seq<WorldRead>, a: Angle|
            #[trigger] aim_player_with(*old(task), *body, old(sim).reads(), final(sim).reads(), old(sim).calls(),
            final(sim).calls(), val, own, pre, b, aim, a) && stack_effect(*old(task), *final(task), r, 0, Some(val)),
{
    if no == SYS_NEAREST_ENEMY {
        let base = match pop_args(task, 2) {
            Ok(b) => b,
            Err(e) => { return Err(e); },
        };
        let x = task.stack[base];
        let y = task.stack[base + 1];
        let ans = sim.nearest_enemy(Fx(x), Fx(y));
        let v = match ans {
            Some(h) => pack_handle(h),
            None => -1,
        };
        let r = push(task, v);
        proof {
            assert(x == argn(*old(task), 2, 0) && y == argn(*old(task), 2, 1));
            assert(sim.reads() == old(sim).reads().push(WorldRead::NearestEnemy(Fx(x), Fx(y), ans)));
        }
        r
    } else if no == SYS_ATAN2 {
        let base = match pop_args(task, 2) {
            Ok(b) => b,
            Err(e) => { return Err(e); },
        };
        let y = task.stack[base];
        let x = task.stack[base + 1];
        let a = sim.atan2(Fx(y), Fx(x));
        let r = push(task, a.0 as i32);
        proof {
            assert(y == argn(*old(task), 2, 0) && x == argn(*old(task), 2, 1));
            assert(sim.reads() == old(sim).reads().push(WorldRead::Atan2(Fx(y), Fx(x), a)));
        }
        r
    } else if no == SYS_DIST {
        let base = match pop_args(task, 2) {
            Ok(b) => b,
            Err(e) => { return Err(e); },
        };
        let dx = task.stack[base];
        let dy = task.stack[base + 1];
        push(task, fx_dist(dx, dy))
    } else if no == SYS_SPELL_TIMER {
        if task.owner_kind != OWNER_ENEMY {
            return push(task, -1);
        }
        let h = Handle { index: task.owner_index, generation: task.owner_gen };
        let left = sim.spell_frames_left_of(h);
        push(task, left)
    } else {
        let ghost rd0 = sim.reads();
        let ghost c0 = sim.calls();
        let (sx, sy) = self_pos(task, sim);
        let ghost own = sim.reads().subrange(rd0.len() as int, sim.reads().len() as int);
        let ghost pre = sim.calls().subrange(c0.len() as int, sim.calls().len() as int);
        let t = sim.aim_target(sx, sy);
        let p = if t < MAX_PLAYERS { t } else { 0 };
        let dy = Fx(body.players[p].y.0.wrapping_sub(sy.0));
        let dx = Fx(body.players[p].x.0.wrapping_sub(sx.0));
        let a = sim.atan2(dy, dx);
        proof {
            let aim = seq![WorldRead::AimTarget(sx, sy, t), WorldRead::Atan2(dy, dx, a)];
            assert(sim.reads() =~= rd0 + own + aim);
            assert(sim.calls() =~= c0 + pre);
            assert(aim_answer(*body, sx, sy, aim, a));
            assert(aim_player_with(*old(task), *body, old(sim).reads(), sim.reads(), old(sim).calls(), sim.calls(),
                a.0 as i32, own, pre, (sx, sy), aim, a));
        }
        push(task, a.0 as i32)
    }
}

/// The writes to the owning bullet (3xx). A task not owned by a bullet
/// faults before popping anything; otherwise the arguments are popped and
/// the write goes to the world for the owner's handle.
pub fn sys_bullet_op<P: Simulation>(no: u16, task: &mut Task, sim: &mut Recorder<P>) -> (r: Result<(), u8>)
    requires
        task_wf(*old(task)),
        no == SYS_SET_BULLET_SPEED || no == SYS_SET_BULLET_ANGLE || no == SYS_TURN_BULLET
            || no == SYS_SET_BULLET_VEL || no == SYS_SET_BULLET_ANG_VEL || no == SYS_SET_BULLET_ACCEL
            || no == SYS_SET_BULLET_GRAVITY || no == SYS_STOP_BULLET_FX || no == SYS_AIM_BULLET_AT_PLAYER,
    ensures
        old(sim).calls().is_prefix_of(final(sim).calls()),
        old(sim).reads().is_prefix_of(final(sim).reads()),
        handler_fault(r),
        task_wf(*final(task)),
        old(task).owner_kind != OWNER_BULLET ==> r == Err::<(), u8>(FAULT_BAD_OP)
            && *final(task) == *old(task) && final(sim).calls() == old(sim).calls(),
        old(task).owner_kind == OWNER_BULLET ==> stack_effect(*old(task), *final(task), r, (
            if no == SYS_STOP_BULLET_FX { 0int } else if no == SYS_SET_BULLET_VEL || no == SYS_SET_BULLET_GRAVITY { 2int } else { 1int }
        ), None),
        r is Err ==> final(sim).calls() == old(sim).calls(),
        r is Ok ==> ({
            let t = *old(task);
            let n: int = if no == SYS_STOP_BULLET_FX { 0int } else if no == SYS_SET_BULLET_VEL || no == SYS_SET_BULLET_GRAVITY { 2int } else { 1int };
            let a = if n >= 1 { argn(t, n, 0) } else { 0i32 };
            let b = if n == 2 { argn(t, n, 1) } else { 0i32 };
            final(sim).calls() == old(sim).calls().push(WorldCall::WriteBullet(
                Handle { index: t.owner_index, generation: t.owner_gen }, bullet_op_spec(no, a, b)))
        }),
{
    let h = match self_bullet(task) {
        Ok(h) => h,
        Err(e) => { return Err(e); },
    };
    if no == SYS_STOP_BULLET_FX {
        sim.bullet_op(h, bullet_op_of(no, 0, 0));
        return Ok(());
    }
    if no == SYS_SET_BULLET_VEL || no == SYS_SET_BULLET_GRAVITY {
        let base = match pop_args(task, 2) {
            Ok(b) => b,
            Err(e) => { return Err(e); },
        };
        sim.bullet_op(h, bullet_op_of(no, task.stack[base], task.stack[base + 1]));
        return Ok(());
    }
    let base = match pop_args(task, 1) {
        Ok(b) => b,
        Err(e) => { return Err(e); },
    };
    sim.bullet_op(h, bullet_op_of(no, task.stack[base], 0));
    Ok(())
}

/// `dur` and `easing` narrowed to `u16` and `u8`; either out of range is
/// refused (and the whole call does nothing).
pub fn narrow_dur_easing(body: &mut WorldBody, dur: i32, easing: i32) -> (r: Option<(u16, u8)>)
    ensures
        (0 <= dur <= u16::MAX && 0 <= easing <= u8::MAX) ==> r == Some((dur as u16, easing as u8))
            && *final(body) == *old(body),
        !(0 <= dur <= u16::MAX && 0 <= easing <= u8::MAX) ==> r is None && refused(*old(body), *final(body)),
{
    if 0 <= dur && dur <= 0xFFFF && 0 <= easing && easing <= 0xFF {
        Some((dur as u16, easing as u8))
    } else {
        body.refuse();
        None
    }
}

/// Bits of `EnemyOp::SetFlags` a script may set: no-body and kill-all exemption.
pub const SETTABLE_ENEMY_FLAGS: i32 = 6;

/// The writes to the owning enemy (4xx motion and collision, 52x drops,
/// `die`). A task not owned by an enemy faults before popping anything.
/// `dur`/`easing` outside `u16`/`u8`, an invulnerability outside `u16`, a
/// flag mask that is empty or has a bit other than no-body and kill-all
/// exemption, or a drop item type outside the item types are refused; a
/// drop count is clamped to `0..=255`, and a negative radius is written as 0
/// and counted as refused.
pub fn sys_enemy_op<P: Simulation>(no: u16, task: &mut Task, body: &mut WorldBody, sim: &mut Recorder<P>) -> (r: Result<(), u8>)
    requires
        task_wf(*old(task)),
        no == SYS_MOVE_ENEMY_TO || no == SYS_MOVE_VEL || no == SYS_MOVE_VEL_XY || no == SYS_MOVE_ANGLE
            || no == SYS_MOVE_SPEED || no == SYS_SET_ANM_STATE || no == SYS_SET_INVULN || no == SYS_SET_HITBOX
            || no == SYS_SET_HURTBOX || no == SYS_SET_ENEMY_FLAG || no == SYS_DROP_CLEAR || no == SYS_DROP_ADD
            || no == SYS_DROP_ITEMS || no == SYS_DIE,
    ensures
        old(sim).calls().is_prefix_of(final(sim).calls()),
        old(sim).reads().is_prefix_of(final(sim).reads()),
        handler_fault(r),
        task_wf(*final(task)),
        final(body).frame == old(body).frame,
        old(task).owner_kind != OWNER_ENEMY ==> r == Err::<(), u8>(FAULT_BAD_OP)
            && *final(task) == *old(task) && final(sim).calls() == old(sim).calls() && *final(body) == *old(body),
        old(task).owner_kind == OWNER_ENEMY ==> stack_effect(*old(task), *final(task), r, enemy_op_arity(no), None),
        r is Err ==> final(sim).calls() == old(sim).calls() && *final(body) == *old(body),
        r is Ok && enemy_op_refuses(no, *old(task)) ==> refused(*old(body), *final(body)) && final(sim).calls() == old(sim).calls(),
        r is Ok && enemy_op_clamps(no, *old(task)) ==> refused(*old(body), *final(body)),
        r is Ok && !enemy_op_refuses(no, *old(task)) && !enemy_op_clamps(no, *old(task)) ==> *final(body) == *old(body),
        r is Ok && !enemy_op_refuses(no, *old(task)) ==> final(sim).calls() == old(sim).calls().push(WorldCall::WriteEnemy(
            Handle { index: old(task).owner_index, generation: old(task).owner_gen }, enemy_op_spec(no, *old(task)))),
{
    let h = match self_enemy(task) {
        Ok(h) => h,
        Err(e) => { return Err(e); },
    };
    if no == SYS_DROP_CLEAR || no == SYS_DROP_ITEMS || no == SYS_DIE {
        let op = if no == SYS_DROP_CLEAR {
            EnemyOp::ClearDrops
        } else if no == SYS_DROP_ITEMS {
            EnemyOp::SpillDrops
        } else {
            EnemyOp::Die
        };
        sim.enemy_op(h, op);
        return Ok(());
    }
    let n = enemy_op_args(no);
    let base = match pop_args(task, n) {
        Ok(b) => b,
        Err(e) => { return Err(e); },
    };
    if no == SYS_MOVE_ENEMY_TO || no == SYS_MOVE_VEL || no == SYS_MOVE_VEL_XY {
        let dur = task.stack[base];
        let a = task.stack[base + 1];
        let b = task.stack[base + 2];
        let easing = task.stack[base + 3];
        if let Some((d, e)) = narrow_dur_easing(body, dur, easing) {
            let op = if no == SYS_MOVE_ENEMY_TO {
                EnemyOp::MoveTo { x: Fx(a), y: Fx(b), dur: d, easing: e }
            } else if no == SYS_MOVE_VEL {
                EnemyOp::VelPolar { angle: Angle(a as u16), speed: Fx(b), dur: d, easing: e }
            } else {
                EnemyOp::VelCart { vx: Fx(a), vy: Fx(b), dur: d, easing: e }
            };
            sim.enemy_op(h, op);
        }
    } else if no == SYS_MOVE_ANGLE || no == SYS_MOVE_SPEED {
        let dur = task.stack[base];
        let a = task.stack[base + 1];
        let easing = task.stack[base + 2];
        if let Some((d, e)) = narrow_dur_easing(body, dur, easing) {
            let op = if no == SYS_MOVE_ANGLE {
                EnemyOp::Angle { angle: Angle(a as u16), dur: d, easing: e }
            } else {
                EnemyOp::Speed { speed: Fx(a), dur: d, easing: e }
            };
            sim.enemy_op(h, op);
        }
    } else if no == SYS_SET_ENEMY_FLAG || no == SYS_DROP_ADD {
        let a = task.stack[base];
        let b = task.stack[base + 1];
        if no == SYS_DROP_ADD {
            if a < 0 || a as usize >= ITEM_TYPE_COUNT {
                body.refuse();
            } else {
                sim.enemy_op(h, EnemyOp::AddDrop(a as u8, clamp_u8(b)));
            }
        } else if a == 0 || a & !SETTABLE_ENEMY_FLAGS != 0 {
            body.refuse();
        } else {
            sim.enemy_op(h, EnemyOp::SetFlags(a as u8, b != 0));
        }
    } else {
        let v = task.stack[base];
        if no == SYS_SET_ANM_STATE {
            sim.enemy_op(h, EnemyOp::SetAnmState(v as u16));
        } else if no == SYS_SET_INVULN {
            if 0 <= v && v <= 0xFFFF {
                sim.enemy_op(h, EnemyOp::SetInvuln(v as u16));
            } else {
                body.refuse();
            }
        } else {
            let r = if v < 0 {
                body.refuse();
                0
            } else {
                v
            };
            if no == SYS_SET_HITBOX {
                sim.enemy_op(h, EnemyOp::SetHitbox(Fx(r)));
            } else {
                sim.enemy_op(h, EnemyOp::SetHurtbox(Fx(r)));
            }
        }
    }
    Ok(())
}

/// Whether an owning-enemy write with these arguments is refused.
pub open spec fn enemy_op_refuses(no: u16, t: Task) -> bool {
    let n = enemy_op_arity(no);
    if no == SYS_MOVE_ENEMY_TO || no == SYS_MOVE_VEL || no == SYS_MOVE_VEL_XY || no == SYS_MOVE_ANGLE || no == SYS_MOVE_SPEED {
        !(in_u16(argn(t, n, 0)) && 0 <= argn(t, n, n - 1) <= u8::MAX)
    } else if no == SYS_SET_ENEMY_FLAG {
        argn(t, n, 0) == 0 || argn(t, n, 0) & !SETTABLE_ENEMY_FLAGS != 0
    } else if no == SYS_DROP_ADD {
        argn(t, n, 0) < 0 || argn(t, n, 0) >= ITEM_TYPE_COUNT
    } else if no == SYS_SET_INVULN {
        !in_u16(argn(t, n, 0))
    } else {
        false
    }
}

/// The write an owning-enemy syscall `no` hands the world for the task
/// state `t` it was called in, when it is not refused: `dur` and `easing`
/// narrowed, angles taken modulo 65536, a drop count clamped to `0..=255`,
/// a negative radius written as 0.
pub open spec fn enemy_op_spec(no: u16, t: Task) -> EnemyOp {
    let n = enemy_op_arity(no);
    if no == SYS_DROP_CLEAR {
        EnemyOp::ClearDrops
    } else if no == SYS_DROP_ITEMS {
        EnemyOp::SpillDrops
    } else if no == SYS_DIE {
        EnemyOp::Die
    } else if no == SYS_MOVE_ENEMY_TO {
        EnemyOp::MoveTo { x: Fx(argn(t, n, 1)), y: Fx(argn(t, n, 2)), dur: argn(t, n, 0) as u16, easing: argn(t, n, 3) as u8 }
    } else if no == SYS_MOVE_VEL {
        EnemyOp::VelPolar {
            angle: Angle(argn(t, n, 1) as u16),
            speed: Fx(argn(t, n, 2)),
            dur: argn(t, n, 0) as u16,
            easing: argn(t, n, 3) as u8,
        }
    } else if no == SYS_MOVE_VEL_XY {
        EnemyOp::VelCart { vx: Fx(argn(t, n, 1)), vy: Fx(argn(t, n, 2)), dur: argn(t, n, 0) as u16, easing: argn(t, n, 3) as u8 }
    } else if no == SYS_MOVE_ANGLE {
        EnemyOp::Angle { angle: Angle(argn(t, n, 1) as u16), dur: argn(t, n, 0) as u16, easing: argn(t, n, 2) as u8 }
    } else if no == SYS_MOVE_SPEED {
        EnemyOp::Speed { speed: Fx(argn(t, n, 1)), dur: argn(t, n, 0) as u16, easing: argn(t, n, 2) as u8 }
    } else if no == SYS_SET_ENEMY_FLAG {
        EnemyOp::SetFlags(argn(t, n, 0) as u8, argn(t, n, 1) != 0)
    } else if no == SYS_DROP_ADD {
        EnemyOp::AddDrop(argn(t, n, 0) as u8, clamp_int(argn(t, n, 1) as int, 0, 255) as u8)
    } else if no == SYS_SET_ANM_STATE {
        EnemyOp::SetAnmState(argn(t, n, 0) as u16)
    } else if no == SYS_SET_INVULN {
        EnemyOp::SetInvuln(argn(t, n, 0) as u16)
    } else if no == SYS_SET_HITBOX {
        EnemyOp::SetHitbox(Fx(if argn(t, n, 0) < 0 { 0i32 } else { argn(t, n, 0) }))
    } else {
        EnemyOp::SetHurtbox(Fx(if argn(t, n, 0) < 0 { 0i32 } else { argn(t, n, 0) }))
    }
}

/// Whether an owning-enemy write has an argument clamped (a negative
/// radius, written as 0 and counted as refused).
pub open spec fn enemy_op_clamps(no: u16, t: Task) -> bool {
    (no == SYS_SET_HITBOX || no == SYS_SET_HURTBOX) && argn(t, 1, 0) < 0
}

/// Arguments taken by an owning-enemy write.
pub open spec fn enemy_op_arity(no: u16) -> int {
    if no == SYS_MOVE_ENEMY_TO || no == SYS_MOVE_VEL || no == SYS_MOVE_VEL_XY {
        4
    } else if no == SYS_MOVE_ANGLE || no == SYS_MOVE_SPEED {
        3
    } else if no == SYS_SET_ENEMY_FLAG || no == SYS_DROP_ADD {
        2
    } else if no == SYS_DROP_CLEAR || no == SYS_DROP_ITEMS || no == SYS_DIE {
        0
    } else {
        1
    }
}

fn enemy_op_args(no: u16) -> (r: usize)
    ensures
        r == enemy_op_arity(no),
{
    if no == SYS_MOVE_ENEMY_TO || no == SYS_MOVE_VEL || no == SYS_MOVE_VEL_XY {
        4
    } else if no == SYS_MOVE_ANGLE || no == SYS_MOVE_SPEED {
        3
    } else if no == SYS_SET_ENEMY_FLAG || no == SYS_DROP_ADD {
        2
    } else if no == SYS_DROP_CLEAR || no == SYS_DROP_ITEMS || no == SYS_DIE {
        0
    } else {
        1
    }
}

/// `v` fits in a `u16`.
pub open spec fn in_u16(v: i32) -> bool {
    0 <= v <= u16::MAX
}

/// The stage-level world calls: `drop_item(x, y, type)` (slot or -1),
/// `kill_all_enemies(mode)` (mode must be silent or die, sparing the
/// calling enemy), the two bullet clears, the three presentation anchors
/// (value must fit `u16`), `pulse_signal(ch)`, `emit_req(id, a0..a5)` (id
/// must fit `u16`), `fx_at(x, y, kind, param)` and `stage_clear(stage)`.
/// A refused call does not reach the world.
pub fn sys_stage_call<P: Simulation>(no: u16, task: &mut Task, body: &mut WorldBody, sim: &mut Recorder<P>) -> (r: Result<(), u8>)
    requires
        task_wf(*old(task)),
        no == SYS_DROP_ITEM || no == SYS_KILL_ALL_ENEMIES || no == SYS_CLEAR_BULLETS
            || no == SYS_CLEAR_BULLETS_AT || no == SYS_BGM || no == SYS_BG || no == SYS_BG_PHASE
            || no == SYS_PULSE_SIGNAL || no == SYS_EMIT_REQ || no == SYS_FX_AT || no == SYS_STAGE_CLEAR,
    ensures
        old(sim).calls().is_prefix_of(final(sim).calls()),
        old(sim).reads().is_prefix_of(final(sim).reads()),
        handler_fault(r),
        task_wf(*final(task)),
        final(body).frame == old(body).frame,
        no == SYS_DROP_ITEM ==> stack_effect(*old(task), *final(task), r, 3, Some(final(task).stack@[old(task).sp - 3])),
        no != SYS_DROP_ITEM ==> stack_effect(*old(task), *final(task), r, stage_call_arity(no), None),
        r is Err ==> final(sim).calls() == old(sim).calls() && *final(body) == *old(body),
        r is Ok && stage_call_refuses(no, *old(task)) ==> refused(*old(body), *final(body)) && final(sim).calls() == old(sim).calls(),
        r is Ok && !stage_call_refuses(no, *old(task)) && no != SYS_CLEAR_BULLETS && no != SYS_CLEAR_BULLETS_AT
            ==> *final(body) == *old(body),
        no == SYS_CLEAR_BULLETS || no == SYS_CLEAR_BULLETS_AT ==> *final(body) == *old(body)
            || full_counted(*old(body), *final(body), POOL_FIELD as int),
        r is Ok && !stage_call_refuses(no, *old(task)) ==> exists|c: WorldCall| final(sim).calls()
            == old(sim).calls().push(c) && #[trigger] stage_call_made(no, *old(task), c),
        r is Ok && no == SYS_DROP_ITEM ==> (final(sim).calls().last() matches WorldCall::DropItem(_, _, _, ans)
            && final(task).stack@[old(task).sp - 3] == (match ans { Some(i) => i as i32, None => -1i32 })),
        r is Ok && (no == SYS_CLEAR_BULLETS || no == SYS_CLEAR_BULLETS_AT) ==> (final(sim).calls().last()
            matches WorldCall::CreateField(_, ok) && (ok ==> *final(body) == *old(body))
            && (!ok ==> full_counted(*old(body), *final(body), POOL_FIELD as int))),
{
    let n = stage_call_args(no);
    let base = match pop_args(task, n) {
        Ok(b) => b,
        Err(e) => { return Err(e); },
    };
    if no == SYS_DROP_ITEM {
        let x = task.stack[base];
        let y = task.stack[base + 1];
        let ty = task.stack[base + 2];
        let ans = sim.drop_item(Fx(x), Fx(y), ty as u8);
        let v = match ans {
            Some(i) => i as i32,
            None => -1,
        };
        proof {
            assert(stage_call_made(no, *old(task), WorldCall::DropItem(Fx(x), Fx(y), ty as u8, ans)));
        }
        return push(task, v);
    }
    let ghost t0 = *old(task);
    let ghost c0 = sim.calls();
    if no == SYS_KILL_ALL_ENEMIES {
        let mode = task.stack[base];
        if mode != KILL_SILENT as i32 && mode != KILL_DIE as i32 {
            body.refuse();
            return Ok(());
        }
        let except = if task.owner_kind == OWNER_ENEMY {
            Some(Handle { index: task.owner_index, generation: task.owner_gen })
        } else {
            None
        };
        sim.kill_all_enemies(except, mode == KILL_DIE as i32);
        proof {
            assert(stage_call_made(no, t0, WorldCall::KillAllEnemies(except, mode == KILL_DIE as i32)));
        }
    } else if no == SYS_CLEAR_BULLETS || no == SYS_CLEAR_BULLETS_AT {
        let f = if no == SYS_CLEAR_BULLETS {
            FieldSpec::Fullscreen
        } else {
            FieldSpec::At { x: Fx(task.stack[base]), y: Fx(task.stack[base + 1]), r: Fx(task.stack[base + 2]), stars: task.stack[base + 3] != 0 }
        };
        let ok = sim.create_field(f);
        proof {
            assert(stage_call_made(no, t0, WorldCall::CreateField(f, ok)));
        }
        if !ok {
            body.count_pool_full(POOL_FIELD);
        }
    } else if no == SYS_BGM || no == SYS_BG || no == SYS_BG_PHASE {
        let v = task.stack[base];
        if v < 0 || v > 0xFFFF {
            body.refuse();
            return Ok(());
        }
        let kind = if no == SYS_BGM {
            AnchorKind::Bgm
        } else if no == SYS_BG {
            AnchorKind::Bg
        } else {
            AnchorKind::BgPhase
        };
        sim.set_anchor(kind, v as u16);
        proof {
            assert(stage_call_made(no, t0, WorldCall::SetAnchor(kind, v as u16)));
        }
    } else if no == SYS_PULSE_SIGNAL {
        let ch = task.stack[base];
        sim.pulse_signal(ch as usize);
        proof {
            assert(stage_call_made(no, t0, WorldCall::PulseSignal(ch as usize)));
        }
    } else if no == SYS_EMIT_REQ {
        let id = task.stack[base];
        if id < 0 || id > 0xFFFF {
            body.refuse();
            return Ok(());
        }
        let args = [
            task.stack[base + 1],
            task.stack[base + 2],
            task.stack[base + 3],
            task.stack[base + 4],
            task.stack[base + 5],
            task.stack[base + 6],
        ];
        sim.emit_req(id as u16, args);
        proof {
            assert(args@ =~= seq![argn(t0, 7, 1), argn(t0, 7, 2), argn(t0, 7, 3), argn(t0, 7, 4), argn(t0, 7, 5), argn(t0, 7, 6)]);
            assert(stage_call_made(no, t0, WorldCall::EmitReq(id as u16, args)));
        }
    } else if no == SYS_FX_AT {
        let args = [task.stack[base], task.stack[base + 1], task.stack[base + 2], task.stack[base + 3], 0, 0];
        sim.emit_req(REQ_FX_AT, args);
        proof {
            assert(args@ =~= seq![argn(t0, 4, 0), argn(t0, 4, 1), argn(t0, 4, 2), argn(t0, 4, 3), 0i32, 0i32]);
            assert(stage_call_made(no, t0, WorldCall::EmitReq(REQ_FX_AT, args)));
        }
    } else {
        let stage = task.stack[base];
        let e = Event {
            kind: EVT_STAGE_CLEARED,
            a_index: 0,
            a_gen: 0,
            x: Fx(0),
            y: Fx(0),
            data: [stage, 0],
        };
        sim.push_event(e);
        proof {
            assert(e.data@ =~= seq![argn(t0, 1, 0), 0i32]);
            assert(stage_call_made(no, t0, WorldCall::PushEvent(e)));
        }
    }
    Ok(())
}

/// `c` is the world call a stage-level syscall `no` makes when called in
/// task state `t` and not refused: the arguments as popped, an anchor or
/// request id narrowed to `u16`, a kill-all sparing the calling enemy, an
/// `fx_at` request with two zero words, a stage-cleared event; the world's
/// answer (dropped item slot, field created) is left open here.
pub open spec fn stage_call_made(no: u16, t: Task, c: WorldCall) -> bool {
    let n = stage_call_arity(no);
    if no == SYS_KILL_ALL_ENEMIES {
        c == WorldCall::KillAllEnemies(
            if t.owner_kind == OWNER_ENEMY { Some(Handle { index: t.owner_index, generation: t.owner_gen }) } else { None },
            argn(t, n, 0) == KILL_DIE as i32,
        )
    } else if no == SYS_BGM {
        c == WorldCall::SetAnchor(AnchorKind::Bgm, argn(t, n, 0) as u16)
    } else if no == SYS_BG {
        c == WorldCall::SetAnchor(AnchorKind::Bg, argn(t, n, 0) as u16)
    } else if no == SYS_BG_PHASE {
        c == WorldCall::SetAnchor(AnchorKind::BgPhase, argn(t, n, 0) as u16)
    } else if no == SYS_PULSE_SIGNAL {
        c == WorldCall::PulseSignal(argn(t, n, 0) as usize)
    } else if no == SYS_EMIT_REQ {
        c matches WorldCall::EmitReq(id, a) && id == argn(t, n, 0) as u16
            && a@ == seq![argn(t, n, 1), argn(t, n, 2), argn(t, n, 3), argn(t, n, 4), argn(t, n, 5), argn(t, n, 6)]
    } else if no == SYS_FX_AT {
        c matches WorldCall::EmitReq(id, a) && id == REQ_FX_AT
            && a@ == seq![argn(t, n, 0), argn(t, n, 1), argn(t, n, 2), argn(t, n, 3), 0i32, 0i32]
    } else if no == SYS_STAGE_CLEAR {
        c matches WorldCall::PushEvent(e) && e.kind == EVT_STAGE_CLEARED && e.a_index == 0 && e.a_gen == 0
            && e.x == Fx(0) && e.y == Fx(0) && e.data@ == seq![argn(t, n, 0), 0i32]
    } else if no == SYS_DROP_ITEM {
        c matches WorldCall::DropItem(x, y, ty, _) && x == Fx(argn(t, n, 0)) && y == Fx(argn(t, n, 1))
            && ty == argn(t, n, 2) as u8
    } else if no == SYS_CLEAR_BULLETS {
        c matches WorldCall::CreateField(f, _) && f == FieldSpec::Fullscreen
    } else {
        c matches WorldCall::CreateField(f, _) && f == (FieldSpec::At {
            x: Fx(argn(t, n, 0)),
            y: Fx(argn(t, n, 1)),
            r: Fx(argn(t, n, 2)),
            stars: argn(t, n, 3) != 0,
        })
    }
}

/// Arguments taken by a stage-level world call.
pub open spec fn stage_call_arity(no: u16) -> int {
    if no == SYS_DROP_ITEM {
        3
    } else if no == SYS_CLEAR_BULLETS {
        0
    } else if no == SYS_CLEAR_BULLETS_AT || no == SYS_FX_AT {
        4
    } else if no == SYS_EMIT_REQ {
        7
    } else {
        1
    }
}

/// Whether a stage-level call with these arguments is refused.
pub open spec fn stage_call_refuses(no: u16, t: Task) -> bool {
    let n = stage_call_arity(no);
    ||| no == SYS_KILL_ALL_ENEMIES && argn(t, n, 0) != KILL_SILENT as i32 && argn(t, n, 0) != KILL_DIE as i32
    ||| (no == SYS_BGM || no == SYS_BG || no == SYS_BG_PHASE || no == SYS_EMIT_REQ) && !in_u16(argn(t, n, 0))
}

fn stage_call_args(no: u16) -> (r: usize)
    ensures
        r == stage_call_arity(no),
{
    if no == SYS_DROP_ITEM {
        3
    } else if no == SYS_CLEAR_BULLETS {
        0
    } else if no == SYS_CLEAR_BULLETS_AT || no == SYS_FX_AT {
        4
    } else if no == SYS_EMIT_REQ {
        7
    } else {
        1
    }
}

/// The owner-enemy presentation and bulletin calls: `fx_on(kind, param)`
/// (a request carrying the owner's raw index and generation; misuse by a
/// non-enemy faults), `boss_set(slot, hp_ratio, spell_id, timer, phases,
/// active)` (the enemy field is the owner, or the null handle for a
/// non-enemy owner) and `spell_end()` (misuse faults).
pub fn sys_owner_call<P: Simulation>(no: u16, task: &mut Task, sim: &mut Recorder<P>) -> (r: Result<(), u8>)
    requires
        task_wf(*old(task)),
        no == SYS_FX_ON || no == SYS_BOSS_SET || no == SYS_SPELL_END,
    ensures
        old(sim).calls().is_prefix_of(final(sim).calls()),
        old(sim).reads().is_prefix_of(final(sim).reads()),
        handler_fault(r),
        task_wf(*final(task)),
        no != SYS_BOSS_SET && old(task).owner_kind != OWNER_ENEMY ==> r == Err::<(), u8>(FAULT_BAD_OP)
            && *final(task) == *old(task) && final(sim).calls() == old(sim).calls(),
        no == SYS_BOSS_SET ==> stack_effect(*old(task), *final(task), r, 6, None),
        no == SYS_FX_ON && old(task).owner_kind == OWNER_ENEMY ==> stack_effect(*old(task), *final(task), r, 2, None),
        no == SYS_SPELL_END && old(task).owner_kind == OWNER_ENEMY ==> stack_effect(*old(task), *final(task), r, 0, None),
        r is Err ==> final(sim).calls() == old(sim).calls(),
        r is Ok ==> exists|c: WorldCall| final(sim).calls() == old(sim).calls().push(c)
            && #[trigger] owner_call_made(no, *old(task), c),
{
    if no == SYS_BOSS_SET {
        let base = match pop_args(task, 6) {
            Ok(b) => b,
            Err(e) => { return Err(e); },
        };
        let enemy = if task.owner_kind == OWNER_ENEMY {
            Handle { index: task.owner_index, generation: task.owner_gen }
        } else {
            Handle::null()
        };
        let ui = BossUiSlot {
            enemy,
            hp_ratio: Fx(task.stack[base + 1]),
            spell_id: task.stack[base + 2] as u16,
            timer_frames: task.stack[base + 3] as u16,
            phase_left: task.stack[base + 4] as u8,
            active: task.stack[base + 5] as u8,
        };
        sim.boss_set(task.stack[base] as u8, ui);
        proof {
            assert(owner_call_made(no, *old(task), WorldCall::BossSet(task.stack[base as int] as u8, ui)));
        }
        return Ok(());
    }
    let h = match self_enemy(task) {
        Ok(h) => h,
        Err(e) => { return Err(e); },
    };
    if no == SYS_SPELL_END {
        sim.spell_end_by_owner(h);
        proof {
            assert(owner_call_made(no, *old(task), WorldCall::SpellEndByOwner(h)));
        }
        return Ok(());
    }
    let base = match pop_args(task, 2) {
        Ok(b) => b,
        Err(e) => { return Err(e); },
    };
    let args = [h.index as i32, h.generation as i32, task.stack[base], task.stack[base + 1], 0, 0];
    sim.emit_req(REQ_FX_ATTACHED, args);
    proof {
        let t0 = *old(task);
        assert(args@ =~= seq![t0.owner_index as i32, t0.owner_gen as i32, argn(t0, 2, 0), argn(t0, 2, 1), 0i32, 0i32]);
        assert(owner_call_made(no, t0, WorldCall::EmitReq(REQ_FX_ATTACHED, args)));
    }
    Ok(())
}

/// `c` is the world call an owner call `no` makes when it succeeds in task
/// state `t`: the boss bulletin with its fields narrowed (the owner as its
/// enemy, the null handle for a non-enemy owner), the end of the owner's
/// spell card, or an attached-effect request carrying the owner's index and
/// generation, the two arguments and two zero words.
pub open spec fn owner_call_made(no: u16, t: Task, c: WorldCall) -> bool {
    let owner = Handle { index: t.owner_index, generation: t.owner_gen };
    if no == SYS_BOSS_SET {
        c == WorldCall::BossSet(argn(t, 6, 0) as u8, BossUiSlot {
            enemy: if t.owner_kind == OWNER_ENEMY { owner } else { Handle::spec_null() },
            hp_ratio: Fx(argn(t, 6, 1)),
            spell_id: argn(t, 6, 2) as u16,
            timer_frames: argn(t, 6, 3) as u16,
            phase_left: argn(t, 6, 4) as u8,
            active: argn(t, 6, 5) as u8,
        })
    } else if no == SYS_SPELL_END {
        c == WorldCall::SpellEndByOwner(owner)
    } else {
        c matches WorldCall::EmitReq(id, a) && id == REQ_FX_ATTACHED
            && a@ == seq![t.owner_index as i32, t.owner_gen as i32, argn(t, 2, 0), argn(t, 2, 1), 0i32, 0i32]
    }
}

/// The live enemy a packed number names, with its full generation.
fn resolve_enemy_full<P: Simulation>(packed: i32, sim: &mut Recorder<P>) -> (r: Option<Handle>)
    ensures
        final(sim).calls() == old(sim).calls(),
        old(sim).reads().is_prefix_of(final(sim).reads()),
        packed < 0 ==> r is None,
        packed >= 0 && crate::enemy::packed_index(packed) >= ENEMY_CAP ==> r is None,
        r matches Some(h) ==> h.index < ENEMY_CAP && h.index as int == crate::enemy::packed_index(packed),
        enemy_full_read(old(sim).reads(), final(sim).reads(), packed, r),
{
    let ghost rd0 = sim.reads();
    let first = resolve_enemy_handle(packed, sim);
    let ghost a1 = choose|a: Option<u16>| first == packed_names(packed, ENEMY_CAP as int, a)
        && sim.reads() == rd0 + enemy_slot_query(packed, a);
    match first {
        Some(idx) => {
            let a2 = sim.enemy_generation(idx);
            let r = match a2 {
                Some(g) => Some(Handle { index: idx as u16, generation: g }),
                None => None,
            };
            proof {
                assert(enemy_full_read_with(rd0, sim.reads(), packed, r, a1, a2));
            }
            r
        },
        None => {
            proof {
                assert(enemy_full_read_with(rd0, sim.reads(), packed, None, a1, None));
            }
            None
        },
    }
}

/// `enemy_full_read` with the world's two answers named: `a1` for the
/// slot's generation when the number is resolved, `a2` for the generation
/// read again to complete the handle.
pub open spec fn enemy_full_read_with(rd0: Seq<WorldRead>, rd1: Seq<WorldRead>, packed: i32, r: Option<Handle>, a1: Option<u16>, a2: Option<u16>) -> bool {
    match packed_names(packed, ENEMY_CAP as int, a1) {
        Some(i) => {
            &&& rd1 == (rd0 + enemy_slot_query(packed, a1)).push(WorldRead::EnemyGeneration(i as usize, a2))
            &&& r == match a2 {
                Some(g) => Some(Handle { index: i as u16, generation: g }),
                None => None::<Handle>,
            }
        },
        None => rd1 == rd0 + enemy_slot_query(packed, a1) && r is None,
    }
}

/// The live enemy handle `r` a packed enemy number gives when the world is
/// asked the questions from `rd0` to `rd1`: the slot the number names
/// (`packed_names`), with the generation the world then reports for it.
pub open spec fn enemy_full_read(rd0: Seq<WorldRead>, rd1: Seq<WorldRead>, packed: i32, r: Option<Handle>) -> bool {
    exists|a1: Option<u16>, a2: Option<u16>| #[trigger] enemy_full_read_with(rd0, rd1, packed, r, a1, a2)
}

/// A `u16` count argument: in range as is, otherwise clamped and flagged.
pub fn clamp_u16_count(v: i32, bad: &mut bool) -> (r: u16)
    ensures
        r == clamp_int(v as int, 0, u16::MAX as int),
        *final(bad) == (*old(bad) || !in_u16(v)),
{
    if 0 <= v && v <= 0xFFFF {
        v as u16
    } else {
        *bad = true;
        if v < 0 { 0 } else { 0xFFFF }
    }
}

/// The laser calls (8xx). `laser(color, x, y, angle, len, width, warn,
/// active, fade)` faults on a colour outside `0..=15` (after popping) and
/// clamps the three timings into `u16`, counting one contract violation if
/// any was out of range; it pushes the packed handle (-1 when the pool was
/// full, which is counted). A write through a laser number that does not
/// resolve, or `lz_anchor` to an enemy number that does not resolve (other
/// than -1, which detaches), is counted with `STALE_HANDLE` and does not
/// reach the world. `lz_alive` pushes 0/1 and the geometry reads push 0
/// for a stale laser, uncounted.
pub fn sys_laser<P: Simulation>(no: u16, task: &mut Task, body: &mut WorldBody, sim: &mut Recorder<P>) -> (r: Result<(), u8>)
    requires
        task_wf(*old(task)),
        SYS_LASER_CREATE <= no <= SYS_LASER_FAR,
    ensures
        old(sim).calls().is_prefix_of(final(sim).calls()),
        old(sim).reads().is_prefix_of(final(sim).reads()),
        handler_fault(r),
        task_wf(*final(task)),
        same_identity(*old(task), *final(task)),
        final(body).frame == old(body).frame,
        no == SYS_LASER_CREATE && old(task).sp >= 9 && !(0 <= argn(*old(task), 9, 0) <= 15)
            ==> r == Err::<(), u8>(FAULT_BAD_OP) && final(sim).calls() == old(sim).calls(),
        r is Err && old(task).sp < laser_arity(no) ==> final(sim).calls() == old(sim).calls() && *final(body) == *old(body),
        no == SYS_LASER_CREATE && old(task).sp >= 9 && 0 <= argn(*old(task), 9, 0) <= 15 ==> {
            let t = *old(task);
            let bad = !in_u16(argn(t, 9, 6)) || !in_u16(argn(t, 9, 7)) || !in_u16(argn(t, 9, 8));
            &&& stack_effect(t, *final(task), r, 9, Some(final(task).stack@[t.sp - 9]))
            &&& r is Ok
            &&& final(body).diag.contract_viol == vstd::wrapping::u32_specs::wrapping_add(
                old(body).diag.contract_viol, if bad { 1u32 } else { 0u32 })
            &&& final(body).last_status == old(body).last_status
            &&& final(body).diag.task_faults == old(body).diag.task_faults
            &&& final(body).players == old(body).players
            &&& final(body).freeze_left == old(body).freeze_left
            &&& final(body).spell_last_result == old(body).spell_last_result
            &&& exists|h: Handle| {
                &&& #[trigger] laser_number(h) == final(task).stack@[t.sp - 9]
                &&& final(sim).calls() == old(sim).calls().push(WorldCall::CreateLaser(laser_record_spec(argn(t, 9, 0),
                    argn(t, 9, 1), argn(t, 9, 2), argn(t, 9, 3), argn(t, 9, 4), argn(t, 9, 5), argn(t, 9, 6),
                    argn(t, 9, 7), argn(t, 9, 8)), h))
                &&& h == Handle::spec_null() ==> final(body).diag.pool_full@ == old(body).diag.pool_full@.update(
                    POOL_LASER as int, vstd::wrapping::u32_specs::wrapping_add(old(body).diag.pool_full@[POOL_LASER as int], 1))
                &&& h != Handle::spec_null() ==> final(body).diag.pool_full == old(body).diag.pool_full
            }
        },
        laser_write(no) && old(task).sp >= laser_arity(no) ==> r is Ok
            && stack_effect(*old(task), *final(task), r, laser_arity(no), None)
            && exists|ans: Option<u16>| final(sim).reads() == old(sim).reads()
            + #[trigger] laser_slot_query(argn(*old(task), laser_arity(no), 0), ans)
            && match packed_laser(argn(*old(task), laser_arity(no), 0), ans) {
                Some(h) => final(sim).calls() == old(sim).calls().push(WorldCall::WriteLaser(h, laser_op_spec(no, *old(task))))
                    && *final(body) == *old(body),
                None => final(sim).calls() == old(sim).calls() && stale_counted(*old(body), *final(body)),
            },
        no == SYS_LASER_ALIVE && old(task).sp >= 1 ==> final(sim).calls() == old(sim).calls()
            && *final(body) == *old(body) && exists|ans: Option<u16>| final(sim).reads() == old(sim).reads()
            + #[trigger] laser_slot_query(argn(*old(task), 1, 0), ans)
            && stack_effect(*old(task), *final(task), r, 1, Some(if packed_laser(argn(*old(task), 1, 0), ans) is Some { 1i32 } else { 0i32 })),
        no == SYS_LASER_ANCHOR && old(task).sp >= 4 ==> r is Ok && stack_effect(*old(task), *final(task), r, 4, None)
            && exists|ans: Option<u16>| #[trigger] anchor_done(*old(task), *old(body), *final(body), old(sim).calls(),
            final(sim).calls(), old(sim).reads(), final(sim).reads(), ans),
        SYS_LASER_X <= no <= SYS_LASER_FAR && old(task).sp >= 1 ==> final(sim).calls() == old(sim).calls()
            && *final(body) == *old(body) && exists|ans: Option<u16>, g: LaserView| #[trigger] laser_geometry_read(
            old(sim).reads(), final(sim).reads(), argn(*old(task), 1, 0), ans, g)
            && stack_effect(*old(task), *final(task), r, 1, Some(match packed_laser(argn(*old(task), 1, 0), ans) {
                Some(_) => laser_field(no, g),
                None => 0i32,
            })),
{
    let n = laser_args(no);
    let base = match pop_args(task, n) {
        Ok(b) => b,
        Err(e) => { return Err(e); },
    };
    if no == SYS_LASER_CREATE {
        let color = task.stack[base];
        if color < 0 || color > 15 {
            return Err(FAULT_BAD_OP);
        }
        let mut bad = false;
        let _warn = clamp_u16_count(task.stack[base + 6], &mut bad);
        let _active = clamp_u16_count(task.stack[base + 7], &mut bad);
        let _fade = clamp_u16_count(task.stack[base + 8], &mut bad);
        if bad {
            body.diag.contract_viol = body.diag.contract_viol.wrapping_add(1);
        }
        let init = laser_record(task.stack[base], task.stack[base + 1], task.stack[base + 2], task.stack[base + 3],
            task.stack[base + 4], task.stack[base + 5], task.stack[base + 6], task.stack[base + 7], task.stack[base + 8]);
        let h = sim.create_laser(init);
        if h.index == 0xFFFF && h.generation == 0 {
            body.count_pool_full(POOL_LASER);
        }
        let rr = push(task, pack_laser_handle(h));
        proof {
            assert(laser_number(h) == task.stack@[old(task).sp - 9]);
        }
        return rr;
    }
    let lz = task.stack[base];
    let ghost reads0 = sim.reads();
    let resolved = resolve_laser_handle(lz, sim);
    let ghost ans = choose|a: Option<u16>| resolved == packed_laser(lz, a)
        && sim.reads() == reads0 + laser_slot_query(lz, a);
    proof {
        assert(lz == argn(*old(task), laser_arity(no), 0));
        assert(reads0 == old(sim).reads());
        assert(resolved == packed_laser(argn(*old(task), laser_arity(no), 0), ans));
        assert(sim.reads() == old(sim).reads() + laser_slot_query(argn(*old(task), laser_arity(no), 0), ans));
    }
    if no == SYS_LASER_ALIVE {
        return push(task, if resolved.is_some() { 1 } else { 0 });
    }
    if no >= SYS_LASER_X {
        let ghost rd_res = sim.reads();
        let v: i32 = match resolved {
            None => {
                proof {
                    let g0 = LaserView { ox: Fx(0), oy: Fx(0), angle: Angle(0), start: Fx(0), end: Fx(0) };
                    assert(laser_geometry_read(old(sim).reads(), sim.reads(), lz, ans, g0));
                }
                0
            },
            Some(h) => {
                let g = sim.laser_view(h.index as usize);
                proof {
                    assert(laser_geometry_read(old(sim).reads(), sim.reads(), lz, ans, g));
                }
                if no == SYS_LASER_X {
                    g.ox.0
                } else if no == SYS_LASER_Y {
                    g.oy.0
                } else if no == SYS_LASER_ANGLE {
                    g.angle.0 as i32
                } else if no == SYS_LASER_NEAR {
                    g.start.0
                } else {
                    g.end.0
                }
            },
        };
        return push(task, v);
    }
    let h = match resolved {
        Some(h) => h,
        None => {
            body.diag.contract_viol = body.diag.contract_viol.wrapping_add(1);
            body.last_status = STATUS_STALE_HANDLE;
            proof {
                assert(stale_counted(*old(body), *body));
                if no == SYS_LASER_ANCHOR {
                    assert(anchor_done(*old(task), *old(body), *body, old(sim).calls(), sim.calls(), old(sim).reads(),
                        sim.reads(), ans));
                }
            }
            return Ok(());
        },
    };
    if no == SYS_LASER_ANCHOR {
        let enemy = task.stack[base + 1];
        let ghost rd_mid = sim.reads();
        let e = if enemy == -1 {
            Handle::null()
        } else {
            let found = resolve_enemy_full(enemy, sim);
            match found {
                Some(e) => e,
                None => {
                    body.diag.contract_viol = body.diag.contract_viol.wrapping_add(1);
                    body.last_status = STATUS_STALE_HANDLE;
                    proof {
                        assert(stale_counted(*old(body), *body));
                        assert(enemy_full_read(rd_mid, sim.reads(), enemy, found));
                        assert(anchor_done(*old(task), *old(body), *body, old(sim).calls(), sim.calls(), old(sim).reads(),
                            sim.reads(), ans));
                    }
                    return Ok(());
                },
            }
        };
        let ghost rd_e = sim.reads();
        sim.laser_op(h, LaserOp::Anchor(e, Fx(task.stack[base + 2]), Fx(task.stack[base + 3])));
        proof {
            if enemy != -1 {
                assert(enemy_full_read(rd_mid, rd_e, enemy, Some(e)));
            }
            assert(anchor_done(*old(task), *old(body), *body, old(sim).calls(), sim.calls(), old(sim).reads(),
                sim.reads(), ans));
        }
        return Ok(());
    }
    let op = if no == SYS_LASER_SPEED {
        LaserOp::Speed(Fx(task.stack[base + 1]), Fx(task.stack[base + 2]))
    } else if no == SYS_LASER_START {
        LaserOp::Start(Fx(task.stack[base + 1]))
    } else if no == SYS_LASER_OMEGA {
        LaserOp::Omega(bam(task.stack[base + 1]).0 as i16)
    } else if no == SYS_LASER_ROTATE {
        LaserOp::Rotate(bam(task.stack[base + 1]))
    } else if no == SYS_LASER_AIM {
        LaserOp::Aim(bam(task.stack[base + 1]))
    } else if no == SYS_LASER_ORIGIN {
        LaserOp::Origin(Fx(task.stack[base + 1]), Fx(task.stack[base + 2]))
    } else {
        LaserOp::Cancel
    };
    proof {
        assert(op == laser_op_spec(no, *old(task)));
    }
    sim.laser_op(h, op);
    Ok(())
}

/// Arguments taken by a laser call.
/// `lz_anchor(laser, enemy, dx, dy)` called in task state `t`, with the
/// world answering `ans` for the laser number's slot: a stale laser number
/// is counted (`stale_counted`) and nothing is written; enemy -1 detaches
/// (the null handle); another enemy number is resolved (`enemy_full_read`)
/// and counted as stale when it names no live enemy; otherwise the anchor
/// with the offset is written to the laser.
pub open spec fn anchor_done(
    t: Task,
    b0: WorldBody,
    b1: WorldBody,
    c0: Seq<WorldCall>,
    c1: Seq<WorldCall>,
    rd0: Seq<WorldRead>,
    rd1: Seq<WorldRead>,
    ans: Option<u16>,
) -> bool {
    let rd_mid = rd0 + laser_slot_query(argn(t, 4, 0), ans);
    let enemy = argn(t, 4, 1);
    match packed_laser(argn(t, 4, 0), ans) {
        None => rd1 == rd_mid && c1 == c0 && stale_counted(b0, b1),
        Some(h) => if enemy == -1 {
            &&& rd1 == rd_mid
            &&& c1 == c0.push(WorldCall::WriteLaser(h, LaserOp::Anchor(Handle::spec_null(), Fx(argn(t, 4, 2)), Fx(argn(t, 4, 3)))))
            &&& b1 == b0
        } else {
            exists|e: Option<Handle>| #[trigger] enemy_full_read(rd_mid, rd1, enemy, e) && match e {
                None => c1 == c0 && stale_counted(b0, b1),
                Some(eh) => c1 == c0.push(WorldCall::WriteLaser(h, LaserOp::Anchor(eh, Fx(argn(t, 4, 2)), Fx(argn(t, 4, 3)))))
                    && b1 == b0,
            }
        },
    }
}

/// The questions a laser geometry read asks (from `rd0` to `rd1`) for
/// laser number `packed`: the generation of its slot, answered `ans`, and,
/// when the number still names that laser, the laser's geometry, answered
/// `g`.
pub open spec fn laser_geometry_read(rd0: Seq<WorldRead>, rd1: Seq<WorldRead>, packed: i32, ans: Option<u16>, g: LaserView) -> bool {
    match packed_laser(packed, ans) {
        Some(h) => rd1 == (rd0 + laser_slot_query(packed, ans)).push(WorldRead::LaserView(h.index as usize, g)),
        None => rd1 == rd0 + laser_slot_query(packed, ans),
    }
}

/// The field of laser geometry `g` that geometry read `no` pushes: origin
/// x or y, direction (as its 16-bit value), near or far end.
pub open spec fn laser_field(no: u16, g: LaserView) -> i32 {
    if no == SYS_LASER_X {
        g.ox.0
    } else if no == SYS_LASER_Y {
        g.oy.0
    } else if no == SYS_LASER_ANGLE {
        g.angle.0 as i32
    } else if no == SYS_LASER_NEAR {
        g.start.0
    } else {
        g.end.0
    }
}

/// The laser syscalls that write through a laser number, other than
/// `lz_anchor`.
pub open spec fn laser_write(no: u16) -> bool {
    no == SYS_LASER_SPEED || no == SYS_LASER_START || no == SYS_LASER_OMEGA || no == SYS_LASER_ROTATE
        || no == SYS_LASER_AIM || no == SYS_LASER_ORIGIN || no == SYS_LASER_CANCEL
}

/// The write a laser syscall `no` called in task state `t` hands the world:
/// lengths and coordinates as given, angles modulo 65536 (an angular speed
/// read as signed).
pub open spec fn laser_op_spec(no: u16, t: Task) -> LaserOp {
    let n = laser_arity(no);
    if no == SYS_LASER_SPEED {
        LaserOp::Speed(Fx(argn(t, n, 1)), Fx(argn(t, n, 2)))
    } else if no == SYS_LASER_START {
        LaserOp::Start(Fx(argn(t, n, 1)))
    } else if no == SYS_LASER_OMEGA {
        LaserOp::Omega(bam_of(argn(t, n, 1) as int) as i16)
    } else if no == SYS_LASER_ROTATE {
        LaserOp::Rotate(Angle(bam_of(argn(t, n, 1) as int)))
    } else if no == SYS_LASER_AIM {
        LaserOp::Aim(Angle(bam_of(argn(t, n, 1) as int)))
    } else if no == SYS_LASER_ORIGIN {
        LaserOp::Origin(Fx(argn(t, n, 1)), Fx(argn(t, n, 2)))
    } else {
        LaserOp::Cancel
    }
}

/// The body after a call through a handle that no longer names anything:
/// one more contract violation and `STALE_HANDLE`, nothing else.
pub open spec fn stale_counted(b0: WorldBody, b1: WorldBody) -> bool {
    b1 == (WorldBody {
        last_status: STATUS_STALE_HANDLE,
        diag: Diag { contract_viol: vstd::wrapping::u32_specs::wrapping_add(b0.diag.contract_viol, 1), ..b0.diag },
        ..b0
    })
}

pub open spec fn laser_arity(no: u16) -> int {
    if no == SYS_LASER_CREATE {
        9
    } else if no == SYS_LASER_SPEED || no == SYS_LASER_ORIGIN {
        3
    } else if no == SYS_LASER_ANCHOR {
        4
    } else if no == SYS_LASER_START || no == SYS_LASER_OMEGA || no == SYS_LASER_ROTATE || no == SYS_LASER_AIM {
        2
    } else {
        1
    }
}

fn laser_args(no: u16) -> (r: usize)
    ensures
        r == laser_arity(no),
{
    if no == SYS_LASER_CREATE {
        9
    } else if no == SYS_LASER_SPEED || no == SYS_LASER_ORIGIN {
        3
    } else if no == SYS_LASER_ANCHOR {
        4
    } else if no == SYS_LASER_START || no == SYS_LASER_OMEGA || no == SYS_LASER_ROTATE || no == SYS_LASER_AIM {
        2
    } else {
        1
    }
}

/// Arguments (after the shooter id) taken by a shooter configuration call.
pub open spec fn shooter_arity(no: u16) -> int {
    if no == SYS_SH_RESET {
        0
    } else if no == SYS_SH_SPRITE || no == SYS_SH_DIST || no == SYS_SH_AIM || no == SYS_SH_RING
        || no == SYS_SH_TASK || no == SYS_SH_REQ {
        1
    } else {
        2
    }
}

/// The shooter after configuration call `no` with arguments `a`, `b`
/// (those after the id, in declaration order). Narrowings saturate, except
/// the appearance and the task number, where anything out of range becomes
/// 65535 (never a valid appearance; "no task" for the task).
pub open spec fn configure_shooter(no: u16, s: ShooterSlot, a: i32, b: i32) -> ShooterSlot {
    if no == SYS_SH_RESET {
        default_shooter()
    } else if no == SYS_SH_SPRITE {
        ShooterSlot { appearance: if in_u16(a) { a as u16 } else { 0xFFFFu16 }, ..s }
    } else if no == SYS_SH_OFFSET {
        ShooterSlot { off_x: Fx(a), off_y: Fx(b), flags: s.flags & !SH_ABS_OFFSET, ..s }
    } else if no == SYS_SH_OFFSET_ABS {
        ShooterSlot { off_x: Fx(a), off_y: Fx(b), flags: s.flags | SH_ABS_OFFSET, ..s }
    } else if no == SYS_SH_OFFSET_RAD {
        ShooterSlot { polar_ang: Angle(bam_of(a as int)), polar_r: Fx(b), ..s }
    } else if no == SYS_SH_DIST {
        ShooterSlot { dist: Fx(a), ..s }
    } else if no == SYS_SH_ANGLE {
        ShooterSlot { angle0: Angle(bam_of(a as int)), angle_step: Angle(bam_of(b as int)), ..s }
    } else if no == SYS_SH_SPEED {
        ShooterSlot { speed0: Fx(a), speed_step: Fx(b), ..s }
    } else if no == SYS_SH_COUNT {
        ShooterSlot { n_angle: clamp_int(a as int, 0, 255) as u8, n_speed: clamp_int(b as int, 0, 255) as u8, ..s }
    } else if no == SYS_SH_AIM {
        ShooterSlot { flags: if a != 0 { s.flags | SH_AIMED } else { s.flags & !SH_AIMED }, ..s }
    } else if no == SYS_SH_RING {
        ShooterSlot { flags: if a != 0 { s.flags | SH_RING } else { s.flags & !SH_RING }, ..s }
    } else if no == SYS_SH_XFORM {
        ShooterSlot { xform_off: clamp_int(a as int, 0, 65535) as u16, xform_cnt: clamp_int(b as int, 0, 255) as u8, ..s }
    } else if no == SYS_SH_TASK {
        ShooterSlot { task_script: if in_u16(a) { a as u16 } else { SH_NO_TASK }, ..s }
    } else {
        ShooterSlot { on_fire_req: clamp_int(a as int, 0, 65535) as u16, ..s }
    }
}

fn clamp_u8(v: i32) -> (r: u8)
    ensures
        r == clamp_int(v as int, 0, 255),
{
    if v < 0 { 0 } else if v > 255 { 255 } else { v as u8 }
}

fn clamp_u16(v: i32) -> (r: u16)
    ensures
        r == clamp_int(v as int, 0, 65535),
{
    if v < 0 { 0 } else if v > 0xFFFF { 0xFFFF } else { v as u16 }
}

fn configure_shooter_exec(no: u16, s: ShooterSlot, a: i32, b: i32) -> (r: ShooterSlot)
    requires
        SYS_SH_RESET <= no <= SYS_SH_REQ,
    ensures
        r == configure_shooter(no, s, a, b),
{
    if no == SYS_SH_RESET {
        ShooterSlot::default()
    } else if no == SYS_SH_SPRITE {
        ShooterSlot { appearance: if 0 <= a && a <= 0xFFFF { a as u16 } else { 0xFFFF }, ..s }
    } else if no == SYS_SH_OFFSET {
        ShooterSlot { off_x: Fx(a), off_y: Fx(b), flags: s.flags & !SH_ABS_OFFSET, ..s }
    } else if no == SYS_SH_OFFSET_ABS {
        ShooterSlot { off_x: Fx(a), off_y: Fx(b), flags: s.flags | SH_ABS_OFFSET, ..s }
    } else if no == SYS_SH_OFFSET_RAD {
        ShooterSlot { polar_ang: bam(a), polar_r: Fx(b), ..s }
    } else if no == SYS_SH_DIST {
        ShooterSlot { dist: Fx(a), ..s }
    } else if no == SYS_SH_ANGLE {
        ShooterSlot { angle0: bam(a), angle_step: bam(b), ..s }
    } else if no == SYS_SH_SPEED {
        ShooterSlot { speed0: Fx(a), speed_step: Fx(b), ..s }
    } else if no == SYS_SH_COUNT {
        ShooterSlot { n_angle: clamp_u8(a), n_speed: clamp_u8(b), ..s }
    } else if no == SYS_SH_AIM {
        ShooterSlot { flags: if a != 0 { s.flags | SH_AIMED } else { s.flags & !SH_AIMED }, ..s }
    } else if no == SYS_SH_RING {
        ShooterSlot { flags: if a != 0 { s.flags | SH_RING } else { s.flags & !SH_RING }, ..s }
    } else if no == SYS_SH_XFORM {
        ShooterSlot { xform_off: clamp_u16(a), xform_cnt: clamp_u8(b), ..s }
    } else if no == SYS_SH_TASK {
        ShooterSlot { task_script: if 0 <= a && a <= 0xFFFF { a as u16 } else { SH_NO_TASK }, ..s }
    } else {
        ShooterSlot { on_fire_req: clamp_u16(a), ..s }
    }
}

fn shooter_args(no: u16) -> (r: usize)
    ensures
        r == shooter_arity(no),
{
    if no == SYS_SH_RESET {
        0
    } else if no == SYS_SH_SPRITE || no == SYS_SH_DIST || no == SYS_SH_AIM || no == SYS_SH_RING
        || no == SYS_SH_TASK || no == SYS_SH_REQ {
        1
    } else {
        2
    }
}

/// The shooter configuration calls (600-652): `(id, args...)`. All
/// arguments are popped first; an id outside `0..SHOOTERS_PER_TASK` is
/// refused; otherwise shooter `id` of the calling task's slot becomes
/// `configure_shooter(no, ..)`. Nothing is checked against the tables here:
/// that happens when the shooter fires.
pub fn sys_shooter_config(no: u16, task: &mut Task, tasks: &mut TaskPool, body: &mut WorldBody, self_index: u16) -> (r: Result<(), u8>)
    requires
        task_wf(*old(task)),
        SYS_SH_RESET <= no <= SYS_SH_REQ,
        self_index < TASK_CAP,
    ensures
        handler_fault(r),
        task_wf(*final(task)),
        stack_effect(*old(task), *final(task), r, shooter_arity(no) + 1, None),
        r is Err ==> *final(body) == *old(body) && *final(tasks) == *old(tasks),
        r is Ok ==> ({
            let n = shooter_arity(no) + 1;
            let id = argn(*old(task), n, 0);
            let a = if n > 1 { argn(*old(task), n, 1) } else { 0i32 };
            let b = if n > 2 { argn(*old(task), n, 2) } else { 0i32 };
            if 0 <= id < SHOOTERS_PER_TASK {
                &&& *final(body) == *old(body)
                &&& forall|j: int| #[trigger] final(tasks).spec_alive(j) == old(tasks).spec_alive(j)
                &&& forall|j: int| 0 <= j < TASK_CAP ==> #[trigger] final(tasks).spec_slot(j) == old(tasks).spec_slot(j)
                &&& forall|j: int| 0 <= j < TASK_CAP ==> #[trigger] final(tasks).spec_shooters(j) == (if j == self_index {
                    old(tasks).spec_shooters(j).update(id as int, configure_shooter(no, old(tasks).spec_shooters(j)[id as int], a, b))
                } else {
                    old(tasks).spec_shooters(j)
                })
            } else {
                &&& refused(*old(body), *final(body))
                &&& *final(tasks) == *old(tasks)
            }
        }),
{
    let n = shooter_args(no) + 1;
    let base = match pop_args(task, n) {
        Ok(b) => b,
        Err(e) => { return Err(e); },
    };
    let id = task.stack[base];
    let a = if n > 1 { task.stack[base + 1] } else { 0 };
    let b = if n > 2 { task.stack[base + 2] } else { 0 };
    if id < 0 || id as usize >= SHOOTERS_PER_TASK {
        body.refuse();
        return Ok(());
    }
    let cur = tasks.shooter(self_index as usize, id as usize);
    let next = configure_shooter_exec(no, cur, a, b);
    tasks.set_shooter(self_index as usize, id as usize, next);
    Ok(())
}

/// Script number `raw` names an async sub declaring exactly `argc`
/// parameters (the only subs a creation call may attach as a task).
pub open spec fn spawnable(subs: Seq<RuntimeSubMeta>, raw: i32, argc: int) -> bool {
    &&& 0 <= raw < subs.len()
    &&& subs[raw as int].kind == SubKind::Async
    &&& subs[raw as int].param_count == argc
}

/// The sub and entry address of script number `raw` if it is spawnable
/// with `argc` arguments.
pub fn async_sub(ecl: &EclImage, raw: i32, argc: usize) -> (r: Option<(SubId, u32)>)
    ensures
        r is Some <==> spawnable(ecl.spec_subs(), raw, argc as int),
        r matches Some(p) ==> p.0@ == raw && p.1 == ecl.spec_subs()[raw as int].code_entry,
{
    if raw < 0 || raw as usize >= ecl.sub_count() {
        return None;
    }
    let sub = match ecl.sub_id(raw as u16) {
        Some(s) => s,
        None => { return None; },
    };
    let meta = match ecl.sub_meta(sub) {
        Some(m) => *m,
        None => { return None; },
    };
    if meta.kind() != SubKind::Async {
        return None;
    }
    match ecl.param_types(sub) {
        Some(p) => {
            if p.len() != argc {
                return None;
            }
        },
        None => { return None; },
    }
    Some((sub, meta.code_entry()))
}

/// Spawns the task attached to a freshly created entity; a full pool is
/// counted, not a fault.
fn spawn_attached(
    tasks: &mut TaskPool,
    body: &mut WorldBody,
    sub: SubId,
    pc: u32,
    owner: (u8, u16, u16),
    parent: u16,
    frame: u32,
) -> (r: Option<u16>)
    ensures
        TaskPool::spawned(*old(tasks), *final(tasks), sub, pc, owner, parent, frame, r),
        r is None ==> full_counted(*old(body), *final(body), POOL_TASK as int),
        r is Some ==> *final(body) == *old(body),
        final(body).frame == old(body).frame,
        r is None ==> forall|j: int| #[trigger] final(tasks).spec_alive(j) == old(tasks).spec_alive(j),
        r matches Some(idx) ==> idx < TASK_CAP && final(tasks).spec_alive(idx as int)
            && !old(tasks).spec_alive(idx as int),
{
    let r = tasks.spawn(sub, pc, owner, parent, frame);
    if r.is_none() {
        body.count_pool_full(POOL_TASK);
    }
    r
}

/// One transform slot unpacked from three locals: the first word carries
/// the wait in its high 16 bits and the opcode in bits 8..16.
pub fn unpack_xform(w0: i32, a: i32, b: i32) -> (r: XformSlot)
    ensures
        r.wait == ((w0 as u32) >> 16u32) as u16,
        r.op == (((w0 as u32) >> 8u32) & 0xFFu32) as u8,
        r.pad == 0,
        r.args@ == seq![a, b],
{
    let w = w0 as u32;
    let r = XformSlot { wait: (w >> 16) as u16, op: ((w >> 8) & 0xFF) as u8, pad: 0, args: [a, b] };
    assert(r.args@ =~= seq![a, b]);
    r
}

/// The transform slot stored in locals `b`, `b + 1` and `b + 2`.
pub open spec fn xform_at(t: Task, b: int) -> XformSlot {
    XformSlot {
        wait: ((t.locals@[b] as u32) >> 16u32) as u16,
        op: (((t.locals@[b] as u32) >> 8u32) & 0xFFu32) as u8,
        pad: 0,
        args: [t.locals@[b + 1], t.locals@[b + 2]],
    }
}

/// The `cnt` transform slots stored from local `off` on, three locals each.
pub fn load_xforms(task: &Task, off: usize, cnt: usize) -> (r: Vec<XformSlot>)
    requires
        off + cnt * 3 <= LOCALS,
    ensures
        r@.len() == cnt,
        forall|k: int| 0 <= k < cnt ==> #[trigger] r@[k] == xform_at(*task, off + k * 3),
{
    let mut v: Vec<XformSlot> = Vec::new();
    let mut k: usize = 0;
    while k < cnt
        invariant
            k <= cnt,
            off + cnt * 3 <= LOCALS,
            v@.len() == k,
            forall|j: int| 0 <= j < k ==> #[trigger] v@[j] == xform_at(*task, off + j * 3),
        decreases cnt - k,
    {
        let b = off + k * 3;
        let x = unpack_xform(task.locals[b], task.locals[b + 1], task.locals[b + 2]);
        assert(x.args =~= [task.locals@[b as int + 1], task.locals@[b as int + 2]]);
        v.push(x);
        k += 1;
    }
    v
}

/// `xform_cnt` slots from local `xform_off` lie inside the locals
/// (`cnt == 0` means no transform program).
pub open spec fn xform_range_ok(off: int, cnt: int) -> bool {
    cnt == 0 || (0 < cnt <= XFORM_MAX && 0 <= off && off + cnt * 3 <= LOCALS)
}

/// `create_bullet(appearance, x, y, speed, angle, xform_off, xform_cnt,
/// task)`. Every check comes before the world is touched: an appearance
/// that is out of the table or empty, a transform range outside the locals
/// (or longer than `XFORM_MAX`), or a task number that is not a spawnable
/// parameterless async sub (a negative number means none) all fault.
/// Then the bullet is created with the polar velocity resolved, and its
/// slot index is pushed (-1 when the world refused it; no task then).
/// The bullet's own task (if any) belongs to it and has the caller as its parent;
/// a full task pool is counted, not a fault.
pub fn sys_create_bullet<P: Simulation>(
    task: &mut Task,
    tasks: &mut TaskPool,
    ecl: &EclImage,
    tables: &WorldTables,
    body: &mut WorldBody,
    sim: &mut Recorder<P>,
    self_index: u16,
    frame: u32,
) -> (r: Result<(), u8>)
    requires
        task_wf(*old(task)),
        self_index < TASK_CAP,
    ensures
        old(sim).calls().is_prefix_of(final(sim).calls()),
        old(sim).reads().is_prefix_of(final(sim).reads()),
        handler_fault(r),
        task_wf(*final(task)),
        same_identity(*old(task), *final(task)),
        final(body).frame == old(body).frame,
        r is Err ==> final(sim).calls() == old(sim).calls() && *final(tasks) == *old(tasks) && *final(body) == *old(body),
        old(task).sp >= 8 ==> ({
            let t = *old(task);
            let ok = {
                &&& 0 <= argn(t, 8, 0)
                &&& xform_range_ok(argn(t, 8, 5) as int, argn(t, 8, 6) as int)
                &&& (argn(t, 8, 7) >= 0 ==> spawnable(ecl.spec_subs(), argn(t, 8, 7), 0))
            };
            let cell_ok = appearance_cell(*tables, argn(t, 8, 0) as int) matches Some(c) && c.valid;
            &&& r is Ok ==> ok && cell_ok
            &&& !ok ==> r == Err::<(), u8>(FAULT_BAD_OP)
            &&& !cell_ok ==> r == Err::<(), u8>(FAULT_BAD_OP)
            &&& ok && cell_ok ==> r is Ok && create_bullet_after(t, *final(task), *old(tasks), *final(tasks),
                *old(body), *final(body), old(sim).calls(), final(sim).calls(), old(sim).reads(), final(sim).reads(),
                appearance_cell(*tables, argn(t, 8, 0) as int)->Some_0, ecl.spec_subs(), self_index, frame)
        }),
{
    let base = match pop_args(task, 8) {
        Ok(b) => b,
        Err(e) => { return Err(e); },
    };
    let appearance = task.stack[base];
    let x = task.stack[base + 1];
    let y = task.stack[base + 2];
    let speed_raw = task.stack[base + 3];
    let angle_raw = task.stack[base + 4];
    let xform_off = task.stack[base + 5];
    let xform_cnt = task.stack[base + 6];
    let task_script = task.stack[base + 7];
    if appearance < 0 {
        return Err(FAULT_BAD_OP);
    }
    let cfg = match table_cell(tables, appearance as u32) {
        Some(c) => c,
        None => { return Err(FAULT_BAD_OP); },
    };
    if !cfg.valid {
        return Err(FAULT_BAD_OP);
    }
    let xforms: Vec<XformSlot> = if xform_cnt == 0 {
        Vec::new()
    } else {
        if xform_cnt < 0 || xform_cnt as usize > XFORM_MAX || xform_off < 0 {
            return Err(FAULT_BAD_OP);
        }
        if xform_off as usize + xform_cnt as usize * 3 > LOCALS {
            return Err(FAULT_BAD_OP);
        }
        load_xforms(task, xform_off as usize, xform_cnt as usize)
    };
    let task_sub = if task_script >= 0 {
        match async_sub(ecl, task_script, 0) {
            Some(p) => Some(p),
            None => { return Err(FAULT_BAD_OP); },
        }
    } else {
        None
    };
    let angle = bam(angle_raw);
    let speed = Fx(speed_raw);
    let v = sim.polar_to_vec(speed, angle);
    let init = bullet_record(x, y, speed_raw, angle_raw, cfg, v, body.frame);
    proof {
        assert(xforms@ =~= xforms_of(*old(task), xform_off as int, xform_cnt as int));
    }
    let h = sim.create_bullet(init, xforms.as_slice());
    proof {
        assert(sim.calls() == old(sim).calls().push(bullet_call(*old(task), cfg, v, old(body).frame, h)));
    }
    if h.index == 0xFFFF && h.generation == 0 {
        body.count_pool_full(POOL_BULLET);
        let rr = push(task, -1);
        proof {
            assert(h == Handle::spec_null());
            assert(created_push(*old(task), *task, old(task).sp - 8, h, bullet_number(h)));
        }
        return rr;
    }
    match push(task, h.index as i32) {
        Ok(()) => {},
        Err(e) => { return Err(e); },
    }
    proof {
        assert(h != Handle::spec_null());
        assert(created_push(*old(task), *task, old(task).sp - 8, h, bullet_number(h)));
    }
    if let Some((sub, pc)) = task_sub {
        let ghost p0 = *tasks;
        let ghost b0 = *body;
        let res = spawn_attached(tasks, body, sub, pc, (OWNER_BULLET, h.index, h.generation), self_index + 1, frame);
        proof {
            assert(TaskPool::spawned(p0, *tasks, sub, ecl.spec_subs()[task_script as int].code_entry,
                (OWNER_BULLET, h.index, h.generation), (self_index + 1) as u16, frame, res));
        }
    }
    Ok(())
}

/// `create_bullets_batch(appearance, x, y, n_angle, angle0, angle_step,
/// n_speed, speed0, speed_step)`: a bad or empty appearance faults before
/// the world is touched; otherwise the world creates the grid (negative
/// counts read as 0, counts truncated to 16 bits, the step to `i16`) and
/// the number created is pushed.
pub fn sys_create_bullets_batch<P: Simulation>(task: &mut Task, tables: &WorldTables, body: &WorldBody, sim: &mut Recorder<P>) -> (r: Result<(), u8>)
    requires
        task_wf(*old(task)),
    ensures
        old(sim).calls().is_prefix_of(final(sim).calls()),
        old(sim).reads().is_prefix_of(final(sim).reads()),
        handler_fault(r),
        task_wf(*final(task)),
        same_identity(*old(task), *final(task)),
        r is Err ==> final(sim).calls() == old(sim).calls(),
        old(task).sp >= 9 && argn(*old(task), 9, 0) < 0 ==> r == Err::<(), u8>(FAULT_BAD_OP),
        old(task).sp >= 9 && argn(*old(task), 9, 0) >= 0 && !(appearance_cell(*tables, argn(*old(task), 9, 0) as int)
            matches Some(c) && c.valid) ==> r == Err::<(), u8>(FAULT_BAD_OP),
        old(task).sp >= 9 && argn(*old(task), 9, 0) >= 0 && (appearance_cell(*tables, argn(*old(task), 9, 0) as int)
            matches Some(c) && c.valid) ==> r is Ok && exists|n: u32| final(sim).calls() == old(sim).calls().push(
            #[trigger] batch_call(*old(task), appearance_cell(*tables, argn(*old(task), 9, 0) as int)->Some_0, body.frame, n))
            && stack_effect(*old(task), *final(task), r, 9, Some(n as i32)),
{
    let base = match pop_args(task, 9) {
        Ok(b) => b,
        Err(e) => { return Err(e); },
    };
    let appearance = task.stack[base];
    if appearance < 0 {
        return Err(FAULT_BAD_OP);
    }
    let cfg = match table_cell(tables, appearance as u32) {
        Some(c) => c,
        None => { return Err(FAULT_BAD_OP); },
    };
    if !cfg.valid {
        return Err(FAULT_BAD_OP);
    }
    let init = BulletSpawn {
        x: Fx(task.stack[base + 1]),
        y: Fx(task.stack[base + 2]),
        vx: Fx(0),
        vy: Fx(0),
        speed: Fx(0),
        angle: Angle(0),
        sprite: cfg.sprite,
        radius: cfg.radius,
        born_frame: body.frame,
    };
    let n_angle = task.stack[base + 3];
    let n_speed = task.stack[base + 6];
    let n = sim.create_bullets_batch(
        init,
        if n_angle < 0 { 0 } else { n_angle as u16 },
        bam(task.stack[base + 4]),
        task.stack[base + 5] as i16,
        if n_speed < 0 { 0 } else { n_speed as u16 },
        Fx(task.stack[base + 7]),
        Fx(task.stack[base + 8]),
    );
    proof {
        assert(bam_of(0) == 0);
        assert(sim.calls() == old(sim).calls().push(batch_call(*old(task), cfg, body.frame, n)));
    }
    push(task, n as i32)
}

/// The batch creation a `create_bullets` call in task state `t` hands the
/// world, answered with `n` bullets created: a still bullet at the given
/// position with the appearance `cell`'s sprite and radius, born at
/// `frame`; negative counts as 0, the base angle modulo 65536, the step
/// truncated to 16 bits.
pub open spec fn batch_call(t: Task, cell: Appearance, frame: u32, n: u32) -> WorldCall {
    WorldCall::CreateBulletsBatch(
        bullet_record_spec(argn(t, 9, 1), argn(t, 9, 2), 0, 0, cell, (Fx(0), Fx(0)), frame),
        if argn(t, 9, 3) < 0 { 0u16 } else { argn(t, 9, 3) as u16 },
        Angle(bam_of(argn(t, 9, 4) as int)),
        argn(t, 9, 5) as i16,
        if argn(t, 9, 6) < 0 { 0u16 } else { argn(t, 9, 6) as u16 },
        Fx(argn(t, 9, 7)),
        Fx(argn(t, 9, 8)),
        n,
    )
}

/// Radius of a script-spawned enemy's body.
pub const SPAWN_RADIUS: i32 = 786432;
/// Radius of a script-spawned enemy's hurtbox.
pub const SPAWN_HURTBOX: i32 = 1048576;

/// `spawn_enemy(x, y, hp, drop_table, score, sprite, task, args..., argc)`.
/// `argc` outside `0..=LOCALS`, or fewer than `argc + 7` values under it,
/// is a stack fault; a task number that is not a spawnable async sub
/// declaring `argc` parameters (or `argc > 0` without a task) faults; all
/// before the world is touched. A missing drop table is refused (empty
/// drops) but the enemy is still created. The packed enemy number is
/// pushed (-1 when the world refused). The task, owned by the enemy and
/// receiving the arguments in declaration order, is recorded as the
/// enemy's main task.
pub fn sys_spawn_enemy<P: Simulation>(
    task: &mut Task,
    tasks: &mut TaskPool,
    ecl: &EclImage,
    tables: &WorldTables,
    body: &mut WorldBody,
    sim: &mut Recorder<P>,
    self_index: u16,
    frame: u32,
) -> (r: Result<(), u8>)
    requires
        task_wf(*old(task)),
        self_index < TASK_CAP,
    ensures
        old(sim).calls().is_prefix_of(final(sim).calls()),
        old(sim).reads().is_prefix_of(final(sim).reads()),
        handler_fault(r),
        task_wf(*final(task)),
        same_identity(*old(task), *final(task)),
        final(body).frame == old(body).frame,
        r is Err ==> final(sim).calls() == old(sim).calls() && *final(tasks) == *old(tasks) && *final(body) == *old(body),
        old(task).sp >= 1 && !(0 <= argn(*old(task), 1, 0) <= LOCALS) ==> r == Err::<(), u8>(FAULT_STACK),
        old(task).sp >= 1 && 0 <= argn(*old(task), 1, 0) <= LOCALS
            && old(task).sp < argn(*old(task), 1, 0) + 8 ==> r == Err::<(), u8>(FAULT_STACK),
        old(task).sp >= 1 && 0 <= argn(*old(task), 1, 0) <= LOCALS && old(task).sp >= argn(*old(task), 1, 0) + 8
            ==> spawn_enemy_outcome(*old(task), *final(task), r, ecl.spec_subs()),
        old(task).sp >= 1 && 0 <= argn(*old(task), 1, 0) <= LOCALS && old(task).sp >= argn(*old(task), 1, 0) + 8
            && r is Ok ==> spawn_enemy_after(*old(task), *final(task), *old(tasks), *final(tasks), *old(body),
            *final(body), old(sim).calls(), final(sim).calls(), ecl.spec_subs(), *tables, self_index, frame),
{
    let top = match pop_args(task, 1) {
        Ok(b) => b,
        Err(e) => { return Err(e); },
    };
    let argc_raw = task.stack[top];
    if argc_raw < 0 || argc_raw as usize > LOCALS {
        return Err(FAULT_STACK);
    }
    let argc = argc_raw as usize;
    if (task.sp as usize) < argc + 7 {
        return Err(FAULT_STACK);
    }
    let base = match pop_args(task, argc + 7) {
        Ok(b) => b,
        Err(e) => { return Err(e); },
    };
    let mut args: Vec<i32> = Vec::new();
    let mut k: usize = 0;
    while k < argc
        invariant
            k <= argc,
            base + 7 + argc <= EVAL_DEPTH,
            args@ == task.stack@.subrange(base + 7, base + 7 + k),
        decreases argc - k,
    {
        args.push(task.stack[base + 7 + k]);
        proof {
            assert(args@ =~= task.stack@.subrange(base + 7, base + 7 + k + 1));
        }
        k += 1;
    }
    let x = task.stack[base];
    let y = task.stack[base + 1];
    let hp = task.stack[base + 2];
    let drop_table = task.stack[base + 3];
    let score = task.stack[base + 4];
    let sprite = task.stack[base + 5];
    let task_script = task.stack[base + 6];
    let task_sub = if task_script >= 0 {
        match async_sub(ecl, task_script, argc) {
            Some(p) => Some(p),
            None => { return Err(FAULT_BAD_OP); },
        }
    } else if argc > 0 {
        return Err(FAULT_BAD_OP);
    } else {
        None
    };
    let (drop_count, table_ok) = drop_row(tables, drop_table as u16);
    if !table_ok {
        body.refuse();
    }
    let ghost bm = *body;
    let init = enemy_record(x, y, hp, score, sprite, drop_count, body.frame);
    let h = sim.create_enemy(init);
    let ghost cm = sim.calls();
    proof {
        assert(cm == old(sim).calls().push(enemy_call(*old(task), *tables, old(body).frame, h)));
    }
    if h.index == 0xFFFF && h.generation == 0 {
        body.count_pool_full(POOL_ENEMY);
        let rr = push(task, -1);
        proof {
            assert(h == Handle::spec_null());
            assert(created_push(*old(task), *task, old(task).sp - 1 - (argc + 7), h, enemy_number(h)));
            assert(enemy_created(*old(task), *task, *old(tasks), *tasks, bm, *body, cm, sim.calls(), ecl.spec_subs(), self_index, frame, h));
        }
        return rr;
    }
    match push(task, pack_handle(h)) {
        Ok(()) => {},
        Err(e) => { return Err(e); },
    }
    proof {
        assert(h != Handle::spec_null());
        assert(created_push(*old(task), *task, old(task).sp - 1 - (argc + 7), h, enemy_number(h)));
    }
    if let Some((sub, pc)) = task_sub {
        let ghost p0 = *tasks;
        let ghost b0 = *body;
        match spawn_attached(tasks, body, sub, pc, (OWNER_ENEMY, h.index, h.generation), self_index + 1, frame) {
            Some(slot) => {
                let ghost mid = *tasks;
                tasks.write_args(slot as usize, args.as_slice());
                sim.set_enemy_main_task(h.index as usize, slot as u32 + 1);
                proof {
                    assert(TaskPool::spawned(p0, mid, sub, ecl.spec_subs()[task_script as int].code_entry,
                        (OWNER_ENEMY, h.index, h.generation), (self_index + 1) as u16, frame, Some(slot)));
                    assert(with_args(mid, *tasks, slot as int, args@));
                    assert(enemy_created(*old(task), *task, *old(tasks), *tasks, bm, *body, cm, sim.calls(), ecl.spec_subs(), self_index, frame, h));
                }
            },
            None => {
                proof {
                    assert(TaskPool::spawned(p0, *tasks, sub, ecl.spec_subs()[task_script as int].code_entry,
                        (OWNER_ENEMY, h.index, h.generation), (self_index + 1) as u16, frame, None::<u16>));
                    assert(enemy_created(*old(task), *task, *old(tasks), *tasks, bm, *body, cm, sim.calls(), ecl.spec_subs(), self_index, frame, h));
                }
            },
        }
    } else {
        proof {
            assert(enemy_created(*old(task), *task, *old(tasks), *tasks, bm, *body, cm, sim.calls(), ecl.spec_subs(), self_index, frame, h));
        }
    }
    Ok(())
}

/// `spell_begin(slot, spell_id, pattern, time_limit, bonus0, flags,
/// threshold)`, owner must be an enemy (misuse faults, after popping). A
/// negative threshold or bonus, a non-positive time limit, or a boss
/// already bound to an active slot is refused; a pattern number that is not
/// a spawnable parameterless async sub faults (a negative one means none);
/// all before the world is asked. A card the world declines (slot out of
/// range or busy, threshold above the boss's health) is counted as refused.
/// When the card begins and has a pattern, the pattern task is spawned
/// owned by the boss and bound to the slot with the slot's new epoch.
pub fn sys_spell_begin<P: Simulation>(
    task: &mut Task,
    tasks: &mut TaskPool,
    ecl: &EclImage,
    tables: &WorldTables,
    body: &mut WorldBody,
    sim: &mut Recorder<P>,
    self_index: u16,
    frame: u32,
) -> (r: Result<(), u8>)
    requires
        task_wf(*old(task)),
        self_index < TASK_CAP,
    ensures
        old(sim).calls().is_prefix_of(final(sim).calls()),
        old(sim).reads().is_prefix_of(final(sim).reads()),
        handler_fault(r),
        task_wf(*final(task)),
        same_identity(*old(task), *final(task)),
        final(body).frame == old(body).frame,
        stack_effect(*old(task), *final(task), r, 7, None) || r == Err::<(), u8>(FAULT_BAD_OP),
        r is Err ==> final(sim).calls() == old(sim).calls() && *final(tasks) == *old(tasks) && *final(body) == *old(body),
        old(task).sp >= 7 && old(task).owner_kind != OWNER_ENEMY ==> r == Err::<(), u8>(FAULT_BAD_OP),
        old(task).sp >= 7 && old(task).owner_kind == OWNER_ENEMY && (argn(*old(task), 7, 6) < 0
            || argn(*old(task), 7, 4) < 0 || argn(*old(task), 7, 3) <= 0) ==> r is Ok
            && refused(*old(body), *final(body)) && final(sim).calls() == old(sim).calls() && *final(tasks) == *old(tasks),
        old(task).sp >= 7 && old(task).owner_kind == OWNER_ENEMY && !(argn(*old(task), 7, 6) < 0
            || argn(*old(task), 7, 4) < 0 || argn(*old(task), 7, 3) <= 0) && (argn(*old(task), 7, 2) < 0
            || spawnable(ecl.spec_subs(), argn(*old(task), 7, 2), 0)) ==> r is Ok,
        r == Err::<(), u8>(FAULT_BAD_OP) && old(task).sp >= 7 && old(task).owner_kind == OWNER_ENEMY
            ==> argn(*old(task), 7, 2) >= 0 && !spawnable(ecl.spec_subs(), argn(*old(task), 7, 2), 0),
        old(task).sp >= 7 && old(task).owner_kind == OWNER_ENEMY && !(argn(*old(task), 7, 6) < 0
            || argn(*old(task), 7, 4) < 0 || argn(*old(task), 7, 3) <= 0) && r is Ok ==> spell_begin_after(
            *old(task), *old(tasks), *final(tasks), *old(body), *final(body), old(sim).calls(), final(sim).calls(),
            old(sim).reads(), final(sim).reads(), ecl.spec_subs(), self_index, frame),
{
    let base = match pop_args(task, 7) {
        Ok(b) => b,
        Err(e) => { return Err(e); },
    };
    let slot = task.stack[base];
    let spell_id = task.stack[base + 1];
    let pattern = task.stack[base + 2];
    let time_limit = task.stack[base + 3];
    let bonus0 = task.stack[base + 4];
    let flags = task.stack[base + 5];
    let threshold = task.stack[base + 6];
    let h = match self_enemy(task) {
        Ok(h) => h,
        Err(e) => { return Err(e); },
    };
    if threshold < 0 || bonus0 < 0 || time_limit <= 0 {
        body.refuse();
        return Ok(());
    }
    let ghost t1 = *task;
    let ghost boss = Handle { index: old(task).owner_index, generation: old(task).owner_gen };
    let ghost mut views: Seq<SpellView> = Seq::empty();
    let mut s: usize = 0;
    while s < MAX_BOSSES
        invariant
            views.len() == s,
            forall|k: int| 0 <= k < s ==> !holds_card(#[trigger] views[k], boss),
            sim.reads() == old(sim).reads() + scan_reads(views),
            h == boss,
            boss == (Handle { index: old(task).owner_index, generation: old(task).owner_gen }),
            s <= MAX_BOSSES,
            *task == t1,
            task_wf(t1),
            old(task).sp >= 7,
            old(task).owner_kind == OWNER_ENEMY,
            t1 == (Task { sp: (old(task).sp - 7) as u8, ..*old(task) }),
            *body == *old(body),
            *tasks == *old(tasks),
            sim.calls() == old(sim).calls(),
            old(sim).reads().is_prefix_of(sim.reads()),
        decreases MAX_BOSSES - s,
    {
        let v = sim.spell(s);
        proof {
            assert(scan_reads(views.push(v)) =~= scan_reads(views).push(WorldRead::Spell(s, v)));
            views = views.push(v);
        }
        if v.active && v.boss.index == h.index && v.boss.generation == h.generation {
            body.refuse();
            proof {
                assert(spell_answers(true, false, 0u16));
                assert(spell_scan(views, boss, true));
            }
            return Ok(());
        }
        s += 1;
    }
    proof {
        assert(spell_scan(views, boss, false));
    }
    let ghost rd_scan = sim.reads();
    let pattern_sub = if pattern >= 0 {
        match async_sub(ecl, pattern, 0) {
            Some(p) => Some(p),
            None => { return Err(FAULT_BAD_OP); },
        }
    } else {
        None
    };
    let slot_idx = slot as usize;
    let began = sim.spell_begin(slot_idx, h, spell_id as u16, time_limit as u16, bonus0 as u32, flags as u8, threshold);
    proof {
        assert(sim.calls() == old(sim).calls().push(spell_call(*old(task), began)));
        assert(sim.reads() == rd_scan);
    }
    if !began {
        body.refuse();
        proof {
            assert(spell_answers(false, false, 0u16));
        }
        return Ok(());
    }
    if slot_idx < MAX_BOSSES {
        if let Some((sub, pc)) = pattern_sub {
            let ghost p0 = *tasks;
            let ghost b0 = *body;
            match spawn_attached(tasks, body, sub, pc, (OWNER_ENEMY, h.index, h.generation), self_index + 1, frame) {
                Some(idx) => {
                    let ghost mid = *tasks;
                    let mut child = *tasks.task(idx as usize);
                    child.spell_bound = (slot_idx + 1) as u8;
                    let sv = sim.spell(slot_idx);
                    let epoch = sv.epoch;
                    child.spell_epoch = epoch;
                    tasks.set_task(idx as usize, child);
                    proof {
                        assert(TaskPool::spawned(p0, mid, sub, ecl.spec_subs()[pattern as int].code_entry,
                            (OWNER_ENEMY, h.index, h.generation), (self_index + 1) as u16, frame, Some(idx)));
                        assert(bound_to_spell(mid, *tasks, idx as int, ((slot as usize) + 1) as u8, epoch));
                        assert(!spell_answers(false, true, epoch));
                        assert(sim.reads() == (old(sim).reads() + scan_reads(views)).push(WorldRead::Spell(slot as usize, sv)));
                    }
                },
                None => {
                    proof {
                        assert(TaskPool::spawned(p0, *tasks, sub, ecl.spec_subs()[pattern as int].code_entry,
                            (OWNER_ENEMY, h.index, h.generation), (self_index + 1) as u16, frame, None::<u16>));
                        assert(!spell_answers(false, true, 0u16));
                    }
                },
            }
        } else {
            proof {
                assert(!spell_answers(false, true, 0u16));
            }
        }
    } else {
        proof {
            assert(!spell_answers(false, true, 0u16));
        }
    }
    Ok(())
}

/// `x / 2` rounded toward zero.
pub open spec fn trunc_half(x: int) -> int {
    if x >= 0 {
        x / 2
    } else {
        -((-x) / 2)
    }
}

/// The unwrapped angle of grid bullet `(i, j)` of a shooter fired at base
/// angle `base` with `n_angle` directions and signed step `step`. A fan is
/// centred on the base direction; a ring spreads its directions over the
/// full turn (each one at `i * 65536 / n_angle`, so the remainder is spread
/// and the ring closes exactly) and the step becomes a per-layer offset.
pub open spec fn fire_angle_raw(base: int, i: int, j: int, n_angle: int, step: int, ring: bool) -> int {
    if ring {
        base + (i * 65536) / n_angle + j * step
    } else {
        base + i * step - trunc_half((n_angle - 1) * step)
    }
}

/// The unwrapped angle of grid bullet `(i, j)` (see `fire_angle_raw`).
pub fn fire_angle(base: i32, i: i32, j: i32, n_angle: i32, step: i32, ring: bool) -> (r: i32)
    requires
        0 <= base <= 131070,
        0 <= i < n_angle <= 255,
        0 <= j < 256,
        -32768 <= step <= 32767,
    ensures
        r as int == fire_angle_raw(base as int, i as int, j as int, n_angle as int, step as int, ring),
{
    assert(-8388608 <= (j as int) * (step as int) <= 8388608) by (nonlinear_arith)
        requires
            0 <= j < 256,
            -32768 <= step <= 32767,
    ;
    assert(-8388608 <= (i as int) * (step as int) <= 8388608) by (nonlinear_arith)
        requires
            0 <= i < 256,
            -32768 <= step <= 32767,
    ;
    assert(-8388608 <= (n_angle - 1) * (step as int) <= 8388608) by (nonlinear_arith)
        requires
            1 <= n_angle <= 255,
            -32768 <= step <= 32767,
    ;
    if ring {
        assert(0 <= (i as int) * 65536 <= 16711680) by (nonlinear_arith)
            requires
                0 <= i < 256,
        ;
        let q = ((i as u32) * 65536) / (n_angle as u32);
        assert(q <= 16711680) by (nonlinear_arith)
            requires
                q == ((i as int) * 65536) / (n_angle as int),
                0 <= (i as int) * 65536 <= 16711680,
                1 <= n_angle,
        ;
        base + q as i32 + j * step
    } else {
        let x = (n_angle - 1) * step;
        let h: i32 = if x >= 0 { ((x as u32) / 2) as i32 } else { 0 - (((0 - x) as u32) / 2) as i32 };
        base + i * step - h
    }
}

/// `sh_fire(id)`: fires shooter `id`. An id outside the slots, or a
/// degenerate grid (no direction, no speed, or more bullets than the bullet
/// pool holds) is refused. Then, before any bullet exists, a bad or empty
/// appearance, a transform range outside the locals (or too long), or a
/// task number that is not a spawnable parameterless async sub fault. The
/// origin is the owner (unless the offset is absolute) plus the offset plus
/// the polar offset; the base angle is `angle0`, measured from the
/// direction to the targeted player when aimed. Bullets are created
/// direction by direction, speed by speed (`fire_angle`), each pushed out
/// by `dist` along its own angle; the first refusal stops the grid. Each
/// bullet gets the shooter's task if any. A request id other than 0 is then
/// emitted with the origin, the appearance and the number created.
#[verifier::rlimit(60)]
pub fn sys_sh_fire<P: Simulation>(
    task: &mut Task,
    tasks: &mut TaskPool,
    ecl: &EclImage,
    tables: &WorldTables,
    body: &mut WorldBody,
    sim: &mut Recorder<P>,
    self_index: u16,
    frame: u32,
) -> (r: Result<(), u8>)
    requires
        task_wf(*old(task)),
        self_index < TASK_CAP,
    ensures
        old(sim).calls().is_prefix_of(final(sim).calls()),
        old(sim).reads().is_prefix_of(final(sim).reads()),
        handler_fault(r),
        task_wf(*final(task)),
        same_identity(*old(task), *final(task)),
        final(body).frame == old(body).frame,
        stack_effect(*old(task), *final(task), r, 1, None) || r == Err::<(), u8>(FAULT_BAD_OP),
        r is Err ==> final(sim).calls() == old(sim).calls() && *final(tasks) == *old(tasks) && *final(body) == *old(body),
        old(task).sp >= 1 && !(0 <= argn(*old(task), 1, 0) < SHOOTERS_PER_TASK) ==> r is Ok
            && refused(*old(body), *final(body)) && final(sim).calls() == old(sim).calls() && *final(tasks) == *old(tasks),
        old(task).sp >= 1 && 0 <= argn(*old(task), 1, 0) < SHOOTERS_PER_TASK && ({
            let sh = old(tasks).spec_shooters(self_index as int)[argn(*old(task), 1, 0) as int];
            sh.n_angle == 0 || sh.n_speed == 0 || sh.n_angle * sh.n_speed > BULLET_CAP
        }) ==> r is Ok && refused(*old(body), *final(body)) && final(sim).calls() == old(sim).calls() && *final(tasks) == *old(tasks),
        old(task).sp >= 1 && 0 <= argn(*old(task), 1, 0) < SHOOTERS_PER_TASK && ({
            let sh = old(tasks).spec_shooters(self_index as int)[argn(*old(task), 1, 0) as int];
            &&& sh.n_angle != 0 && sh.n_speed != 0 && sh.n_angle * sh.n_speed <= BULLET_CAP
            &&& shooter_misconfigured(sh, ecl.spec_subs())
        }) ==> r == Err::<(), u8>(FAULT_BAD_OP),
        old(task).sp >= 1 && 0 <= argn(*old(task), 1, 0) < SHOOTERS_PER_TASK && ({
            let sh = old(tasks).spec_shooters(self_index as int)[argn(*old(task), 1, 0) as int];
            &&& sh.n_angle != 0 && sh.n_speed != 0 && sh.n_angle * sh.n_speed <= BULLET_CAP
            &&& !shooter_misconfigured(sh, ecl.spec_subs())
        }) ==> ({
            let sh = old(tasks).spec_shooters(self_index as int)[argn(*old(task), 1, 0) as int];
            let cell_ok = appearance_cell(*tables, sh.appearance as int) matches Some(c) && c.valid;
            &&& !cell_ok ==> r == Err::<(), u8>(FAULT_BAD_OP)
            &&& cell_ok ==> r is Ok && only_pool_counts(*old(body), *final(body))
                && (sh.task_script == SH_NO_TASK ==> *final(tasks) == *old(tasks))
                && exists|pre: Seq<WorldCall>, shots: Seq<WorldCall>, ox: Fx, oy: Fx, base: int|
                #[trigger] fire_log(old(sim).calls(), final(sim).calls(), pre, shots, sh,
                appearance_cell(*tables, sh.appearance as int)->Some_0,
                xforms_of(*old(task), sh.xform_off as int, sh.xform_cnt as int), ox, oy, base, old(body).frame)
                && fire_reads(old(sim).reads(), final(sim).reads(), *old(task), sh, *old(body), pre, shots, ox, oy, base)
                && (sh.task_script != SH_NO_TASK ==> exists|sub: SubId, pools: Seq<TaskPool>, results: Seq<Option<u16>>|
                    sub@ == sh.task_script && pools[0] == *old(tasks) && pools.last() == *final(tasks)
                    && #[trigger] attached_chain(pools, results, shots, shots_created(shots), sub,
                    ecl.spec_subs()[sh.task_script as int].code_entry, (self_index + 1) as u16, frame))
        }),
{
    let top = match pop_args(task, 1) {
        Ok(b) => b,
        Err(e) => { return Err(e); },
    };
    let id = task.stack[top];
    if id < 0 || id as usize >= SHOOTERS_PER_TASK {
        body.refuse();
        return Ok(());
    }
    let sh = tasks.shooter(self_index as usize, id as usize);
    assert((sh.n_angle as int) * (sh.n_speed as int) <= 65025) by (nonlinear_arith)
        requires
            sh.n_angle <= 255,
            sh.n_speed <= 255,
    ;
    let total = sh.n_angle as u32 * sh.n_speed as u32;
    if sh.n_angle == 0 || sh.n_speed == 0 || total > BULLET_CAP {
        body.refuse();
        return Ok(());
    }
    let cfg = match table_cell(tables, sh.appearance as u32) {
        Some(c) => c,
        None => { return Err(FAULT_BAD_OP); },
    };
    if !cfg.valid {
        return Err(FAULT_BAD_OP);
    }
    let xforms: Vec<XformSlot> = if sh.xform_cnt == 0 {
        Vec::new()
    } else {
        if sh.xform_cnt as usize > XFORM_MAX {
            return Err(FAULT_BAD_OP);
        }
        if sh.xform_off as usize + sh.xform_cnt as usize * 3 > LOCALS {
            return Err(FAULT_BAD_OP);
        }
        load_xforms(task, sh.xform_off as usize, sh.xform_cnt as usize)
    };
    let task_sub = if sh.task_script == SH_NO_TASK {
        None
    } else {
        match async_sub(ecl, sh.task_script as i32, 0) {
            Some(p) => Some(p),
            None => { return Err(FAULT_BAD_OP); },
        }
    };
    proof {
        assert(xforms@ =~= xforms_of(*old(task), sh.xform_off as int, sh.xform_cnt as int));
    }
    let ghost xf = xforms@;
    let ghost c_start = sim.calls();
    let ghost rd_start = sim.reads();
    let (bx, by) = if sh.flags & SH_ABS_OFFSET != 0 { (Fx(0), Fx(0)) } else { self_pos(task, sim) };
    let ghost pre = sim.calls().subrange(c_start.len() as int, sim.calls().len() as int);
    let ghost own = sim.reads().subrange(rd_start.len() as int, sim.reads().len() as int);
    proof {
        assert(sim.calls() =~= c_start + pre);
        assert(sim.reads() =~= rd_start + own);
        assert(task.owner_kind == old(task).owner_kind && task.owner_index == old(task).owner_index);
        if sh.flags & SH_ABS_OFFSET == 0 {
            assert(own_position(*old(task), own, pre, (bx, by)));
        }
    }
    let (px, py) = sim.polar_to_vec(sh.polar_r, sh.polar_ang);
    let ghost rd_origin = sim.reads();
    let ox = Fx(bx.0.wrapping_add(sh.off_x.0).wrapping_add(px.0));
    let oy = Fx(by.0.wrapping_add(sh.off_y.0).wrapping_add(py.0));
    assert(body.players == old(body).players);
    let base: i32 = if sh.flags & SH_AIMED != 0 {
        let t = sim.aim_target(ox, oy);
        let p = if t < MAX_PLAYERS { t } else { 0 };
        let a = sim.atan2(
            Fx(body.players[p].y.0.wrapping_sub(oy.0)),
            Fx(body.players[p].x.0.wrapping_sub(ox.0)),
        );
        a.0 as i32 + sh.angle0.0 as i32
    } else {
        sh.angle0.0 as i32
    };
    let ghost aim = sim.reads().subrange(rd_origin.len() as int, sim.reads().len() as int);
    proof {
        assert(sim.reads() =~= rd_origin + aim);
        assert(fire_aim(sh, *old(body), ox, oy, aim, base as int));
    }
    let ghost rd_loop = sim.reads();
    let ghost mut geo: Seq<WorldRead> = Seq::empty();
    let ring = sh.flags & SH_RING != 0;
    let n_angle = sh.n_angle as i32;
    let n_speed = sh.n_speed as i32;
    let step = (sh.angle_step.0 as i16) as i32;
    let mut created: u32 = 0;
    let mut stopped = false;
    let mut i: i32 = 0;
    let ghost c_pre = sim.calls();
    let ghost mut shots: Seq<WorldCall> = Seq::empty();
    let ghost mut pools: Seq<TaskPool> = seq![*tasks];
    let ghost mut results: Seq<Option<u16>> = Seq::empty();
    let ghost parent = (self_index + 1) as u16;
    proof {
        assert(sh == old(tasks).spec_shooters(self_index as int)[id as int]);
    }
    while i < n_angle
        invariant
            sim.calls() == c_pre + shots,
            old(sim).reads().is_prefix_of(sim.reads()),
            sim.reads() == rd_loop + geo,
            geo.len() == 2 * shots.len(),
            forall|k: int| 0 <= k < shots.len() ==> #[trigger] shot_geometry(shots, geo, k, sh, ox, oy),
            shots.len() <= n_angle * n_speed,
            shots.len() == created + (if stopped { 1int } else { 0int }),
            !stopped ==> shots.len() == i * n_speed,
            stopped ==> shots.len() >= 1 && shot_answer(shots.last()) == Handle::spec_null(),
            forall|k: int| 0 <= k < created ==> #[trigger] shot_answer(shots[k]) != Handle::spec_null(),
            forall|i2: int, j2: int| 0 <= i2 && 0 <= j2 < n_speed && i2 * n_speed + j2 < shots.len()
                ==> #[trigger] shot_ok_at(shots, sh, cfg, xf, base as int, i2, j2, old(body).frame),
            n_angle == sh.n_angle,
            n_speed == sh.n_speed,
            step == (sh.angle_step.0 as i16) as int,
            ring == (sh.flags & SH_RING != 0),
            xforms@ == xf,
            body.frame == old(body).frame,
            0 <= i <= n_angle,
            1 <= n_angle <= 255,
            1 <= n_speed <= 255,
            0 <= base <= 131070,
            -32768 <= step <= 32767,
            created <= (i as int) * 255,
            stopped ==> i == n_angle,
            task_wf(*task),
            self_index < TASK_CAP,
            body.frame == old(body).frame,
            only_pool_counts(*old(body), *body),
            task_sub is None ==> *tasks == *old(tasks),
            pools.len() == created + 1,
            pools[0] == *old(tasks),
            pools.last() == *tasks,
            parent == (self_index + 1) as u16,
            (task_sub is Some) == (sh.task_script != SH_NO_TASK),
            task_sub matches Some(p) ==> p.0@ == sh.task_script && p.1 == ecl.spec_subs()[sh.task_script as int].code_entry
                && attached_chain(pools, results, shots, created as int, p.0, p.1, parent, frame),
        decreases n_angle - i,
    {
        assert(!stopped);
        let mut cur_speed = sh.speed0;
        let mut j: i32 = 0;
        while j < n_speed
            invariant
                sim.calls() == c_pre + shots,
                old(sim).reads().is_prefix_of(sim.reads()),
                sim.reads() == rd_loop + geo,
                geo.len() == 2 * shots.len(),
                forall|k: int| 0 <= k < shots.len() ==> #[trigger] shot_geometry(shots, geo, k, sh, ox, oy),
                shots.len() <= n_angle * n_speed,
                shots.len() == created + (if stopped { 1int } else { 0int }),
                !stopped ==> shots.len() == i * n_speed + j,
                stopped ==> shots.len() >= 1 && shot_answer(shots.last()) == Handle::spec_null(),
                forall|k: int| 0 <= k < created ==> #[trigger] shot_answer(shots[k]) != Handle::spec_null(),
                forall|i2: int, j2: int| 0 <= i2 && 0 <= j2 < n_speed && i2 * n_speed + j2 < shots.len()
                    ==> #[trigger] shot_ok_at(shots, sh, cfg, xf, base as int, i2, j2, old(body).frame),
                !stopped ==> cur_speed == speed_at(sh, j as nat),
                n_angle == sh.n_angle,
                n_speed == sh.n_speed,
                step == (sh.angle_step.0 as i16) as int,
                ring == (sh.flags & SH_RING != 0),
                xforms@ == xf,
                0 <= i < n_angle,
                0 <= j <= n_speed,
                1 <= n_angle <= 255,
                1 <= n_speed <= 255,
                0 <= base <= 131070,
                -32768 <= step <= 32767,
                created <= (i as int) * 255 + j,
                !stopped || j == n_speed,
                task_wf(*task),
                self_index < TASK_CAP,
                body.frame == old(body).frame,
                only_pool_counts(*old(body), *body),
                task_sub is None ==> *tasks == *old(tasks),
                pools.len() == created + 1,
                pools[0] == *old(tasks),
                pools.last() == *tasks,
                parent == (self_index + 1) as u16,
                (task_sub is Some) == (sh.task_script != SH_NO_TASK),
                task_sub matches Some(p) ==> p.0@ == sh.task_script && p.1 == ecl.spec_subs()[sh.task_script as int].code_entry
                    && attached_chain(pools, results, shots, created as int, p.0, p.1, parent, frame),
            decreases n_speed - j,
        {
            let raw = fire_angle(base, i, j, n_angle, step, ring);
            let angle = bam(raw);
            let (dx, dy) = sim.polar_to_vec(sh.dist, angle);
            let (vx, vy) = sim.polar_to_vec(cur_speed, angle);
            let init = fired_record(ox, oy, (dx, dy), (vx, vy), cur_speed, angle, cfg, body.frame);
            let ghost old_shots = shots;
            let h = sim.create_bullet(init, xforms.as_slice());
            proof {
                let w = WorldCall::CreateBullet(init, xf, h);
                let old_geo = geo;
                geo = geo.push(WorldRead::PolarToVec(sh.dist, angle, (dx, dy))).push(WorldRead::PolarToVec(cur_speed, angle, (vx, vy)));
                assert(sim.reads() =~= rd_loop + geo);
                assert forall|k: int| 0 <= k < old_shots.len() + 1 implies #[trigger] shot_geometry(old_shots.push(w), geo, k, sh, ox, oy) by {
                    if k < old_shots.len() {
                        assert(shot_geometry(old_shots, old_geo, k, sh, ox, oy));
                        assert(old_shots.push(w)[k] == old_shots[k]);
                        assert(geo[2 * k] == old_geo[2 * k] && geo[2 * k + 1] == old_geo[2 * k + 1]);
                    } else {
                        assert(old_shots.push(w)[k] == w);
                        assert(geo[2 * k] == WorldRead::PolarToVec(sh.dist, angle, (dx, dy)));
                        assert(geo[2 * k + 1] == WorldRead::PolarToVec(cur_speed, angle, (vx, vy)));
                    }
                }
                assert(i * n_speed + j + 1 <= n_angle * n_speed) by (nonlinear_arith)
                    requires
                        0 <= i < n_angle,
                        0 <= j < n_speed,
                ;
                shots = shots.push(w);
                assert(sim.calls() =~= c_pre + shots);
                assert(shot_ok(w, sh, cfg, xf, base as int, i as int, j as int, old(body).frame));
                assert forall|i2: int, j2: int| 0 <= i2 && 0 <= j2 < n_speed && i2 * n_speed + j2 < shots.len()
                    implies #[trigger] shot_ok_at(shots, sh, cfg, xf, base as int, i2, j2, old(body).frame) by {
                    if i2 * n_speed + j2 < old_shots.len() {
                        assert(shot_ok_at(old_shots, sh, cfg, xf, base as int, i2, j2, old(body).frame));
                    } else {
                        lemma_grid_unique(i as int, j as int, i2, j2, n_speed as int);
                    }
                }
                assert forall|k: int| 0 <= k < created implies #[trigger] shot_answer(shots[k]) != Handle::spec_null() by {
                    assert(shots[k] == old_shots[k]);
                }
                if let Some(p) = task_sub {
                    assert forall|k2: int| 0 <= k2 < created implies #[trigger] shots[k2] == old_shots[k2] by {}
                    assert(attached_chain(pools, results, shots, created as int, p.0, p.1, parent, frame)) by {
                        assert forall|k2: int| 0 <= k2 < created implies TaskPool::spawned(pools[k2], pools[k2 + 1],
                            p.0, p.1, bullet_owner(shots[k2]), parent, frame, #[trigger] results[k2]) by {
                            assert(shots[k2] == old_shots[k2]);
                        }
                    }
                }
            }
            if h.index == 0xFFFF && h.generation == 0 {
                body.count_pool_full(POOL_BULLET);
                stopped = true;
                j = n_speed;
            } else {
                let ghost pools0 = pools;
                let ghost k = created as int;
                created = created + 1;
                if let Some((sub, pc)) = task_sub {
                    let ghost p0 = *tasks;
                    let res = spawn_attached(tasks, body, sub, pc, (OWNER_BULLET, h.index, h.generation), self_index + 1, frame);
                    proof {
                        let results0 = results;
                        pools = pools0.push(*tasks);
                        results = results0.push(res);
                        assert(shots[k] == WorldCall::CreateBullet(init, xf, h));
                        assert(bullet_owner(shots[k]) == (OWNER_BULLET, h.index, h.generation));
                        assert forall|k2: int| 0 <= k2 < created implies TaskPool::spawned(pools[k2], pools[k2 + 1],
                            sub, pc, bullet_owner(shots[k2]), parent, frame, #[trigger] results[k2]) by {
                            if k2 < k {
                                assert(pools[k2] == pools0[k2] && pools[k2 + 1] == pools0[k2 + 1]);
                                assert(results[k2] == results0[k2]);
                                assert(attached_chain(pools0, results0, shots, k, sub, pc, parent, frame));
                                assert(TaskPool::spawned(pools0[k2], pools0[k2 + 1], sub, pc, bullet_owner(shots[k2]), parent, frame, results0[k2]));
                            }
                        }
                    }
                } else {
                    proof {
                        pools = pools0.push(*tasks);
                        results = results.push(None);
                    }
                }
                cur_speed = Fx(cur_speed.0.wrapping_add(sh.speed_step.0));
                j = j + 1;
            }
        }
        if stopped {
            i = n_angle;
        } else {
            proof {
                assert((i + 1) * n_speed == i * n_speed + n_speed) by (nonlinear_arith);
            }
            i = i + 1;
        }
    }
    proof {
        if !stopped {
            assert(shots.len() == sh.n_angle as int * sh.n_speed as int);
        }
        assert(shots_created(shots) == created);
        if let Some(p) = task_sub {
            assert(attached_chain(pools, results, shots, shots_created(shots), p.0, p.1, parent, frame));
        }
        assert(shots_ok(shots, sh, cfg, xf, base as int, old(body).frame));
    }
    if sh.on_fire_req != 0 {
        sim.emit_req(sh.on_fire_req, [ox.0, oy.0, sh.appearance as i32, created as i32, 0, 0]);
    }
    proof {
        assert(fire_log(old(sim).calls(), sim.calls(), pre, shots, sh, cfg, xf, ox, oy, base as int, old(body).frame));
        assert(sim.reads() =~= old(sim).reads() + own + seq![WorldRead::PolarToVec(sh.polar_r, sh.polar_ang, (px, py))] + aim + geo);
        assert(fire_reads_with(old(sim).reads(), sim.reads(), *old(task), sh, *old(body), pre, shots, ox, oy, base as int,
            own, (bx, by), (px, py), aim, geo));
    }
    Ok(())
}

/// Syscall `no` run by slot `self_index` in frame `frame`: task `t0`, pool
/// `p` and body `b0` become `t1`, `q` and `b1` with result `r`, as far as
/// the script layer's own state goes (what the world is told or answers is
/// not part of it).
pub open spec fn dispatch_step(
    no: u16,
    t0: Task,
    t1: Task,
    p: TaskPool,
    q: TaskPool,
    b0: WorldBody,
    b1: WorldBody,
    r: Result<(), u8>,
    subs: Seq<RuntimeSubMeta>,
    tables: WorldTables,
    self_index: u16,
    frame: u32,
) -> bool {
    &&& (task_wf(t1))
    &&& (same_identity(t0, t1))
    &&& (!spec_syscall_implemented(no) ==> r == Err::<(), u8>(FAULT_BAD_OP) && t1 == t0
        && q == p && b1 == b0)
    &&& (b1.frame == b0.frame)
    &&& ((no == SYS_ATAN2 || no == SYS_NEAREST_ENEMY) ==> stack_effect(t0, t1, r, 2, Some(t1.stack@[t0.sp - 2]))
        && q == p && b1 == b0)
    &&& (no == SYS_DIST ==> stack_effect(t0, t1, r, 2, Some(t1.stack@[t0.sp - 2]))
        && (r is Ok ==> fx_length(argn(t0, 2, 0), argn(t0, 2, 1), t1.stack@[t0.sp - 2]))
        && q == p && b1 == b0)
    &&& (no == SYS_GET_VAR ==> stack_effect(t0, t1, r, 1, Some(t1.stack@[t0.sp - 1]))
        && q == p && b1 == b0)
    &&& (no == SYS_SET_VAR ==> stack_effect(t0, t1, r, 2, None) && q == p)
    &&& (no == SYS_SET_VAR && r is Ok && (argn(t0, 2, 0) as u16) >= GLOBALS_SYS_SEGMENT ==> b1 == b0)
    &&& (no == SYS_FRAME ==> stack_effect(t0, t1, r, 0, Some(frame as i32)))
    &&& (no == SYS_PLAYER_X ==> stack_effect(t0, t1, r, 0, Some(b0.players@[0].x.0)))
    &&& (no == SYS_PLAYER_Y ==> stack_effect(t0, t1, r, 0, Some(b0.players@[0].y.0)))
    &&& (no == SYS_SELF_AGE ==> stack_effect(t0, t1, r, 0, Some(
        vstd::wrapping::u32_specs::wrapping_sub(frame, t0.born_frame) as i32)))
    &&& (no == SYS_SELF_ENEMY ==> stack_effect(t0, t1, r, 0, Some(
        if t0.owner_kind == OWNER_ENEMY {
            spec_pack_handle(Handle { index: t0.owner_index, generation: t0.owner_gen })
        } else {
            -1i32
        })))
    &&& (no == SYS_ADD_SCORE && r is Ok ==> with_player0(b0, b1, Player {
        score: clamp_int(b0.players@[0].score + argn(t0, 1, 0), 0, u64::MAX as int) as u64,
        ..b0.players@[0]
    }))
    &&& (no == SYS_ADD_LIVES && r is Ok ==> with_player0(b0, b1, Player {
        lives: clamp_int(b0.players@[0].lives + argn(t0, 1, 0), 0, 255) as u8,
        ..b0.players@[0]
    }))
    &&& (no == SYS_ADD_BOMBS && r is Ok ==> with_player0(b0, b1, Player {
        bombs: clamp_int(b0.players@[0].bombs + argn(t0, 1, 0), 0, STOP_STOCK_MAX as int) as u8,
        ..b0.players@[0]
    }))
    &&& (no == SYS_ADD_POWER && r is Ok ==> with_player0(b0, b1, Player {
        power: clamp_int(b0.players@[0].power + argn(t0, 1, 0), 0, POWER_MAX as int) as u16,
        ..b0.players@[0]
    }))
    &&& (no == SYS_RAND_RANGE && argn(t0, 1, 0) <= 0 ==> stack_effect(t0, t1, r, 1, Some(0i32)))
    &&& (no == SYS_SET_VAR && r is Ok && (argn(t0, 2, 0) as u16) < GLOBALS_SYS_SEGMENT
        ==> refused(b0, b1))
    &&& ((no == SYS_SH_RESET || no == SYS_SH_SPRITE || no == SYS_SH_OFFSET || no == SYS_SH_OFFSET_ABS
        || no == SYS_SH_OFFSET_RAD || no == SYS_SH_DIST || no == SYS_SH_ANGLE || no == SYS_SH_SPEED
        || no == SYS_SH_COUNT || no == SYS_SH_AIM || no == SYS_SH_RING || no == SYS_SH_XFORM
        || no == SYS_SH_TASK || no == SYS_SH_REQ) && r is Ok ==> ({
        let n = shooter_arity(no) + 1;
        let id = argn(t0, n, 0);
        let a = if n > 1 { argn(t0, n, 1) } else { 0i32 };
        let b = if n > 2 { argn(t0, n, 2) } else { 0i32 };
        if 0 <= id < SHOOTERS_PER_TASK {
            &&& b1 == b0
            &&& forall|j: int| 0 <= j < TASK_CAP ==> #[trigger] q.spec_shooters(j) == (if j == self_index {
                p.spec_shooters(j).update(id as int, configure_shooter(no, p.spec_shooters(j)[id as int], a, b))
            } else {
                p.spec_shooters(j)
            })
        } else {
            &&& refused(b0, b1)
            &&& q == p
        }
    }))
    &&& ((no == SYS_SET_BULLET_SPEED || no == SYS_SET_BULLET_ANGLE || no == SYS_TURN_BULLET
        || no == SYS_SET_BULLET_VEL || no == SYS_SET_BULLET_ANG_VEL || no == SYS_SET_BULLET_ACCEL
        || no == SYS_SET_BULLET_GRAVITY || no == SYS_STOP_BULLET_FX || no == SYS_AIM_BULLET_AT_PLAYER)
        && t0.owner_kind != OWNER_BULLET ==> r == Err::<(), u8>(FAULT_BAD_OP))
    &&& ((no == SYS_MOVE_ENEMY_TO || no == SYS_MOVE_VEL || no == SYS_MOVE_VEL_XY || no == SYS_MOVE_ANGLE
        || no == SYS_MOVE_SPEED || no == SYS_SET_ANM_STATE || no == SYS_SET_INVULN || no == SYS_SET_HITBOX
        || no == SYS_SET_HURTBOX || no == SYS_SET_ENEMY_FLAG || no == SYS_DROP_CLEAR || no == SYS_DROP_ADD
        || no == SYS_DROP_ITEMS || no == SYS_DIE) && t0.owner_kind != OWNER_ENEMY ==> r == Err::<(), u8>(
        FAULT_BAD_OP) && t1 == t0 && q == p && b1 == b0)
    &&& ((no == SYS_MOVE_ENEMY_TO || no == SYS_MOVE_VEL || no == SYS_MOVE_VEL_XY || no == SYS_MOVE_ANGLE
        || no == SYS_MOVE_SPEED || no == SYS_SET_ANM_STATE || no == SYS_SET_INVULN || no == SYS_SET_HITBOX
        || no == SYS_SET_HURTBOX || no == SYS_SET_ENEMY_FLAG || no == SYS_DROP_CLEAR || no == SYS_DROP_ADD
        || no == SYS_DROP_ITEMS || no == SYS_DIE) && t0.owner_kind == OWNER_ENEMY && r is Ok
        && enemy_op_refuses(no, t0) ==> refused(b0, b1))
    &&& (no == SYS_CREATE_BULLET && t0.sp >= 8 && r is Ok ==> {
        let t = t0;
        &&& 0 <= argn(t, 8, 0)
        &&& xform_range_ok(argn(t, 8, 5) as int, argn(t, 8, 6) as int)
        &&& (argn(t, 8, 7) >= 0 ==> spawnable(subs, argn(t, 8, 7), 0))
    })
    &&& (no == SYS_SH_FIRE && t0.sp >= 1 && !(0 <= argn(t0, 1, 0) < SHOOTERS_PER_TASK) ==> r is Ok
        && refused(b0, b1) && q == p)
    &&& (no == SYS_SH_FIRE && t0.sp >= 1 && 0 <= argn(t0, 1, 0) < SHOOTERS_PER_TASK && ({
        let sh = p.spec_shooters(self_index as int)[argn(t0, 1, 0) as int];
        &&& sh.n_angle != 0 && sh.n_speed != 0 && sh.n_angle * sh.n_speed <= BULLET_CAP
        &&& shooter_misconfigured(sh, subs)
    }) ==> r == Err::<(), u8>(FAULT_BAD_OP))
    &&& (no == SYS_SPAWN_ENEMY && t0.sp >= 1 && 0 <= argn(t0, 1, 0) <= LOCALS && t0.sp >= argn(t0, 1, 0) + 8
        ==> spawn_enemy_outcome(t0, t1, r, subs))
    &&& (no == SYS_SPAWN_ENEMY && t0.sp >= 1 && !(0 <= argn(t0, 1, 0) <= LOCALS && t0.sp >= argn(t0, 1, 0) + 8)
        ==> r == Err::<(), u8>(FAULT_STACK))
}

/// Runs syscall `no` for `task` (pool slot `self_index`) in frame `frame`.
/// An unknown number is `Err(FAULT_BAD_OP)`; a stack underflow or overflow
/// is `Err(FAULT_STACK)`; a call that requires an enemy or bullet owner
/// from a task without one is `Err(FAULT_BAD_OP)`.
pub fn dispatch<P: Simulation>(
    no: u16,
    task: &mut Task,
    tasks: &mut TaskPool,
    ecl: &EclImage,
    tables: &WorldTables,
    body: &mut WorldBody,
    sim: &mut Recorder<P>,
    self_index: u16,
    frame: u32,
) -> (r: Result<(), u8>)
    requires
        task_wf(*old(task)),
        self_index < TASK_CAP,
    ensures
        old(sim).calls().is_prefix_of(final(sim).calls()),
        old(sim).reads().is_prefix_of(final(sim).reads()),
        no == SYS_CREATE_BULLET ==> (old(task).sp >= 8 ==> ({
            let t = *old(task);
            let ok = {
                &&& 0 <= argn(t, 8, 0)
                &&& xform_range_ok(argn(t, 8, 5) as int, argn(t, 8, 6) as int)
                &&& (argn(t, 8, 7) >= 0 ==> spawnable(ecl.spec_subs(), argn(t, 8, 7), 0))
            };
            let cell_ok = appearance_cell(*tables, argn(t, 8, 0) as int) matches Some(c) && c.valid;
            &&& r is Ok ==> ok && cell_ok
            &&& !ok ==> r == Err::<(), u8>(FAULT_BAD_OP)
            &&& !cell_ok ==> r == Err::<(), u8>(FAULT_BAD_OP)
            &&& ok && cell_ok ==> r is Ok && create_bullet_after(t, *final(task), *old(tasks), *final(tasks),
                *old(body), *final(body), old(sim).calls(), final(sim).calls(), old(sim).reads(), final(sim).reads(),
                appearance_cell(*tables, argn(t, 8, 0) as int)->Some_0, ecl.spec_subs(), self_index, frame)
        })),
        no == SYS_SPAWN_ENEMY ==> (old(task).sp >= 1 && 0 <= argn(*old(task), 1, 0) <= LOCALS && old(task).sp >= argn(*old(task), 1, 0) + 8
            && r is Ok ==> spawn_enemy_after(*old(task), *final(task), *old(tasks), *final(tasks), *old(body),
            *final(body), old(sim).calls(), final(sim).calls(), ecl.spec_subs(), *tables, self_index, frame)),
        no == SYS_SPELL_BEGIN ==> (old(task).sp >= 7 && old(task).owner_kind == OWNER_ENEMY && !(argn(*old(task), 7, 6) < 0
            || argn(*old(task), 7, 4) < 0 || argn(*old(task), 7, 3) <= 0) && (argn(*old(task), 7, 2) < 0
            || spawnable(ecl.spec_subs(), argn(*old(task), 7, 2), 0)) ==> r is Ok),
        no == SYS_SPELL_BEGIN ==> (old(task).sp >= 7 && old(task).owner_kind == OWNER_ENEMY && !(argn(*old(task), 7, 6) < 0
            || argn(*old(task), 7, 4) < 0 || argn(*old(task), 7, 3) <= 0) && r is Ok ==> spell_begin_after(
            *old(task), *old(tasks), *final(tasks), *old(body), *final(body), old(sim).calls(), final(sim).calls(),
            old(sim).reads(), final(sim).reads(), ecl.spec_subs(), self_index, frame)),
        no == SYS_SH_FIRE ==> (old(task).sp >= 1 && 0 <= argn(*old(task), 1, 0) < SHOOTERS_PER_TASK && ({
            let sh = old(tasks).spec_shooters(self_index as int)[argn(*old(task), 1, 0) as int];
            &&& sh.n_angle != 0 && sh.n_speed != 0 && sh.n_angle * sh.n_speed <= BULLET_CAP
            &&& !shooter_misconfigured(sh, ecl.spec_subs())
        }) ==> ({
            let sh = old(tasks).spec_shooters(self_index as int)[argn(*old(task), 1, 0) as int];
            let cell_ok = appearance_cell(*tables, sh.appearance as int) matches Some(c) && c.valid;
            &&& !cell_ok ==> r == Err::<(), u8>(FAULT_BAD_OP)
            &&& cell_ok ==> r is Ok && only_pool_counts(*old(body), *final(body))
                && (sh.task_script == SH_NO_TASK ==> *final(tasks) == *old(tasks))
                && exists|pre: Seq<WorldCall>, shots: Seq<WorldCall>, ox: Fx, oy: Fx, base: int|
                #[trigger] fire_log(old(sim).calls(), final(sim).calls(), pre, shots, sh,
                appearance_cell(*tables, sh.appearance as int)->Some_0,
                xforms_of(*old(task), sh.xform_off as int, sh.xform_cnt as int), ox, oy, base, old(body).frame)
                && fire_reads(old(sim).reads(), final(sim).reads(), *old(task), sh, *old(body), pre, shots, ox, oy, base)
                && (sh.task_script != SH_NO_TASK ==> exists|sub: SubId, pools: Seq<TaskPool>, results: Seq<Option<u16>>|
                    sub@ == sh.task_script && pools[0] == *old(tasks) && pools.last() == *final(tasks)
                    && #[trigger] attached_chain(pools, results, shots, shots_created(shots), sub,
                    ecl.spec_subs()[sh.task_script as int].code_entry, (self_index + 1) as u16, frame))
        })),
        no == SYS_SET_VAR ==> (r is Ok && (argn(*old(task), 2, 0) as u16) >= GLOBALS_SYS_SEGMENT ==> *final(body) == *old(body)
            && final(sim).calls() == old(sim).calls().push(WorldCall::SetVar(argn(*old(task), 2, 0) as u16,
            argn(*old(task), 2, 1)))),
        no == SYS_RAND_RANGE && old(task).sp >= 1 && argn(*old(task), 1, 0) > 0 ==> (exists|d: u32| final(sim).calls()
            == #[trigger] old(sim).calls().push(WorldCall::RandRange(argn(*old(task), 1, 0) as u32, d))
            && (r is Ok ==> final(task).stack@[old(task).sp - 1] == d as i32)),
        no == SYS_LASER_CREATE && old(task).sp >= 9 && 0 <= argn(*old(task), 9, 0) <= 15 ==> {
            let t = *old(task);
            let bad = !in_u16(argn(t, 9, 6)) || !in_u16(argn(t, 9, 7)) || !in_u16(argn(t, 9, 8));
            &&& stack_effect(t, *final(task), r, 9, Some(final(task).stack@[t.sp - 9]))
            &&& r is Ok
            &&& final(body).diag.contract_viol == vstd::wrapping::u32_specs::wrapping_add(
                old(body).diag.contract_viol, if bad { 1u32 } else { 0u32 })
            &&& final(body).last_status == old(body).last_status
            &&& final(body).diag.task_faults == old(body).diag.task_faults
            &&& final(body).players == old(body).players
            &&& final(body).freeze_left == old(body).freeze_left
            &&& final(body).spell_last_result == old(body).spell_last_result
            &&& exists|h: Handle| {
                &&& #[trigger] laser_number(h) == final(task).stack@[t.sp - 9]
                &&& final(sim).calls() == old(sim).calls().push(WorldCall::CreateLaser(laser_record_spec(argn(t, 9, 0),
                    argn(t, 9, 1), argn(t, 9, 2), argn(t, 9, 3), argn(t, 9, 4), argn(t, 9, 5), argn(t, 9, 6),
                    argn(t, 9, 7), argn(t, 9, 8)), h))
                &&& h == Handle::spec_null() ==> final(body).diag.pool_full@ == old(body).diag.pool_full@.update(
                    POOL_LASER as int, vstd::wrapping::u32_specs::wrapping_add(old(body).diag.pool_full@[POOL_LASER as int], 1))
                &&& h != Handle::spec_null() ==> final(body).diag.pool_full == old(body).diag.pool_full
            }
        },
        task_wf(*final(task)),
        same_identity(*old(task), *final(task)),
        !spec_syscall_implemented(no) ==> r == Err::<(), u8>(FAULT_BAD_OP) && *final(task) == *old(task)
            && *final(tasks) == *old(tasks) && *final(body) == *old(body) && final(sim).calls() == old(sim).calls(),
        final(body).frame == old(body).frame,
        dispatch_step(no, *old(task), *final(task), *old(tasks), *final(tasks), *old(body), *final(body), r,
            ecl.spec_subs(), *tables, self_index, frame),
        handler_fault(r),
        (no == SYS_ATAN2 || no == SYS_NEAREST_ENEMY) ==> stack_effect(*old(task), *final(task), r, 2, Some(
            final(task).stack@[old(task).sp - 2],
        )) && *final(tasks) == *old(tasks) && *final(body) == *old(body),
        no == SYS_DIST ==> stack_effect(*old(task), *final(task), r, 2, Some(final(task).stack@[old(task).sp - 2]))
            && (r is Ok ==> fx_length(argn(*old(task), 2, 0), argn(*old(task), 2, 1), final(task).stack@[old(task).sp - 2]))
            && *final(tasks) == *old(tasks) && *final(body) == *old(body) && final(sim).calls() == old(sim).calls(),
        no == SYS_GET_VAR ==> stack_effect(*old(task), *final(task), r, 1, Some(final(task).stack@[old(task).sp - 1]))
            && *final(tasks) == *old(tasks) && *final(body) == *old(body) && final(sim).calls() == old(sim).calls(),
        (no == SYS_DROP_ITEM || no == SYS_KILL_ALL_ENEMIES || no == SYS_CLEAR_BULLETS
            || no == SYS_CLEAR_BULLETS_AT || no == SYS_BGM || no == SYS_BG || no == SYS_BG_PHASE
            || no == SYS_PULSE_SIGNAL || no == SYS_EMIT_REQ || no == SYS_FX_AT || no == SYS_STAGE_CLEAR)
            && r is Ok && !stage_call_refuses(no, *old(task)) ==> exists|c: WorldCall| final(sim).calls()
            == old(sim).calls().push(c) && #[trigger] stage_call_made(no, *old(task), c),
        no == SYS_CREATE_BULLETS_BATCH && old(task).sp >= 9 ==> ({
            let t = *old(task);
            let cell_ok = argn(t, 9, 0) >= 0 && (appearance_cell(*tables, argn(t, 9, 0) as int) matches Some(c) && c.valid);
            &&& !cell_ok ==> r == Err::<(), u8>(FAULT_BAD_OP)
            &&& cell_ok ==> r is Ok && exists|n: u32| final(sim).calls() == old(sim).calls().push(
                #[trigger] batch_call(t, appearance_cell(*tables, argn(t, 9, 0) as int)->Some_0, old(body).frame, n))
                && stack_effect(t, *final(task), r, 9, Some(n as i32))
        }),
        laser_write(no) && old(task).sp >= laser_arity(no) ==> r is Ok
            && stack_effect(*old(task), *final(task), r, laser_arity(no), None)
            && exists|ans: Option<u16>| final(sim).reads() == old(sim).reads()
            + #[trigger] laser_slot_query(argn(*old(task), laser_arity(no), 0), ans)
            && match packed_laser(argn(*old(task), laser_arity(no), 0), ans) {
                Some(h) => final(sim).calls() == old(sim).calls().push(WorldCall::WriteLaser(h, laser_op_spec(no, *old(task))))
                    && *final(body) == *old(body),
                None => final(sim).calls() == old(sim).calls() && stale_counted(*old(body), *final(body)),
            },
        no == SYS_LASER_ALIVE && old(task).sp >= 1 ==> final(sim).calls() == old(sim).calls()
            && *final(body) == *old(body) && exists|ans: Option<u16>| final(sim).reads() == old(sim).reads()
            + #[trigger] laser_slot_query(argn(*old(task), 1, 0), ans)
            && stack_effect(*old(task), *final(task), r, 1, Some(if packed_laser(argn(*old(task), 1, 0), ans) is Some { 1i32 } else { 0i32 })),
        no == SYS_LASER_ANCHOR && old(task).sp >= 4 ==> r is Ok && stack_effect(*old(task), *final(task), r, 4, None)
            && exists|ans: Option<u16>| #[trigger] anchor_done(*old(task), *old(body), *final(body), old(sim).calls(),
            final(sim).calls(), old(sim).reads(), final(sim).reads(), ans),
        SYS_LASER_X <= no <= SYS_LASER_FAR && old(task).sp >= 1 ==> final(sim).calls() == old(sim).calls()
            && *final(body) == *old(body) && exists|ans: Option<u16>, g: LaserView| #[trigger] laser_geometry_read(
            old(sim).reads(), final(sim).reads(), argn(*old(task), 1, 0), ans, g)
            && stack_effect(*old(task), *final(task), r, 1, Some(match packed_laser(argn(*old(task), 1, 0), ans) {
                Some(_) => laser_field(no, g),
                None => 0i32,
            })),
        (no == SYS_FX_ON || no == SYS_BOSS_SET || no == SYS_SPELL_END) && r is Ok ==> exists|c: WorldCall|
            final(sim).calls() == old(sim).calls().push(c) && #[trigger] owner_call_made(no, *old(task), c),
        (no == SYS_ENEMY_HP || no == SYS_ENEMY_X || no == SYS_ENEMY_Y || no == SYS_ENEMY_ALIVE) && old(task).sp >= 1
            ==> final(sim).calls() == old(sim).calls() && exists|ans: Option<u16>, e: EnemyView| #[trigger] enemy_read_done(no,
            old(sim).reads(), final(sim).reads(), argn(*old(task), 1, 0), ans, e, final(task).stack@[old(task).sp - 1]),
        self_read(no) ==> exists|val: i32| #[trigger] self_read_done(no, *old(task), old(sim).reads(), final(sim).reads(),
            old(sim).calls(), final(sim).calls(), val) && stack_effect(*old(task), *final(task), r, 0, Some(val)),
        no == SYS_GET_VAR && old(task).sp >= 1 ==> final(sim).reads() == old(sim).reads().push(WorldRead::GetVar(
            argn(*old(task), 1, 0) as u16, final(task).stack@[old(task).sp - 1])),
        no == SYS_ATAN2 ==> final(sim).calls() == old(sim).calls(),
        no == SYS_ATAN2 && old(task).sp >= 2 ==> exists|a: Angle| final(sim).reads()
            == #[trigger] old(sim).reads().push(WorldRead::Atan2(Fx(argn(*old(task), 2, 0)), Fx(argn(*old(task), 2, 1)), a))
            && final(task).stack@[old(task).sp - 2] == a.0 as i32,
        no == SYS_NEAREST_ENEMY ==> final(sim).calls() == old(sim).calls(),
        no == SYS_NEAREST_ENEMY && old(task).sp >= 2 ==> exists|ans: Option<Handle>| final(sim).reads()
            == #[trigger] old(sim).reads().push(WorldRead::NearestEnemy(Fx(argn(*old(task), 2, 0)), Fx(argn(*old(task), 2, 1)), ans))
            && final(task).stack@[old(task).sp - 2] == (match ans { Some(h) => spec_pack_handle(h), None => -1i32 }),
        no == SYS_SPELL_TIMER && old(task).owner_kind == OWNER_ENEMY ==> final(sim).calls() == old(sim).calls()
            && exists|left: i32| final(sim).reads() == #[trigger] old(sim).reads().push(WorldRead::SpellFramesLeftOf(
            Handle { index: old(task).owner_index, generation: old(task).owner_gen }, left))
            && stack_effect(*old(task), *final(task), r, 0, Some(left)),
        no == SYS_AIM_PLAYER_ANGLE ==> exists|val: i32, own: Seq<WorldRead>, pre: Seq<WorldCall>, b: (Fx, Fx), aim: Seq<WorldRead>, a: Angle|
            #[trigger] aim_player_with(*old(task), *old(body), old(sim).reads(), final(sim).reads(), old(sim).calls(),
            final(sim).calls(), val, own, pre, b, aim, a) && stack_effect(*old(task), *final(task), r, 0, Some(val)),
        no == SYS_SET_VAR ==> stack_effect(*old(task), *final(task), r, 2, None) && *final(tasks) == *old(tasks),
        no == SYS_SET_VAR && r is Ok && (argn(*old(task), 2, 0) as u16) >= GLOBALS_SYS_SEGMENT ==> *final(body) == *old(body),
        no == SYS_FRAME ==> stack_effect(*old(task), *final(task), r, 0, Some(frame as i32)),
        no == SYS_PLAYER_X ==> stack_effect(*old(task), *final(task), r, 0, Some(old(body).players@[0].x.0)),
        no == SYS_PLAYER_Y ==> stack_effect(*old(task), *final(task), r, 0, Some(old(body).players@[0].y.0)),
        no == SYS_SELF_AGE ==> stack_effect(*old(task), *final(task), r, 0, Some(
            vstd::wrapping::u32_specs::wrapping_sub(frame, old(task).born_frame) as i32,
        )),
        no == SYS_SELF_ENEMY ==> stack_effect(*old(task), *final(task), r, 0, Some(
            if old(task).owner_kind == OWNER_ENEMY {
                spec_pack_handle(Handle { index: old(task).owner_index, generation: old(task).owner_gen })
            } else {
                -1i32
            },
        )),
        no == SYS_ADD_SCORE && r is Ok ==> with_player0(*old(body), *final(body), Player {
            score: clamp_int(old(body).players@[0].score + argn(*old(task), 1, 0), 0, u64::MAX as int) as u64,
            ..old(body).players@[0]
        }),
        no == SYS_ADD_LIVES && r is Ok ==> with_player0(*old(body), *final(body), Player {
            lives: clamp_int(old(body).players@[0].lives + argn(*old(task), 1, 0), 0, 255) as u8,
            ..old(body).players@[0]
        }),
        no == SYS_ADD_BOMBS && r is Ok ==> with_player0(*old(body), *final(body), Player {
            bombs: clamp_int(old(body).players@[0].bombs + argn(*old(task), 1, 0), 0, STOP_STOCK_MAX as int) as u8,
            ..old(body).players@[0]
        }),
        no == SYS_ADD_POWER && r is Ok ==> with_player0(*old(body), *final(body), Player {
            power: clamp_int(old(body).players@[0].power + argn(*old(task), 1, 0), 0, POWER_MAX as int) as u16,
            ..old(body).players@[0]
        }),
        no == SYS_RAND_RANGE && argn(*old(task), 1, 0) <= 0 ==> stack_effect(*old(task), *final(task), r, 1, Some(0i32))
            && final(sim).calls() == old(sim).calls(),
        no == SYS_SET_VAR && r is Ok && (argn(*old(task), 2, 0) as u16) < GLOBALS_SYS_SEGMENT
            ==> refused(*old(body), *final(body)) && final(sim).calls() == old(sim).calls(),
        (no == SYS_SH_RESET || no == SYS_SH_SPRITE || no == SYS_SH_OFFSET || no == SYS_SH_OFFSET_ABS
            || no == SYS_SH_OFFSET_RAD || no == SYS_SH_DIST || no == SYS_SH_ANGLE || no == SYS_SH_SPEED
            || no == SYS_SH_COUNT || no == SYS_SH_AIM || no == SYS_SH_RING || no == SYS_SH_XFORM
            || no == SYS_SH_TASK || no == SYS_SH_REQ) && r is Ok ==> ({
            let n = shooter_arity(no) + 1;
            let id = argn(*old(task), n, 0);
            let a = if n > 1 { argn(*old(task), n, 1) } else { 0i32 };
            let b = if n > 2 { argn(*old(task), n, 2) } else { 0i32 };
            if 0 <= id < SHOOTERS_PER_TASK {
                &&& *final(body) == *old(body)
                &&& forall|j: int| 0 <= j < TASK_CAP ==> #[trigger] final(tasks).spec_shooters(j) == (if j == self_index {
                    old(tasks).spec_shooters(j).update(id as int, configure_shooter(no, old(tasks).spec_shooters(j)[id as int], a, b))
                } else {
                    old(tasks).spec_shooters(j)
                })
            } else {
                &&& refused(*old(body), *final(body))
                &&& *final(tasks) == *old(tasks)
            }
        }),
        (no == SYS_SET_BULLET_SPEED || no == SYS_SET_BULLET_ANGLE || no == SYS_TURN_BULLET
            || no == SYS_SET_BULLET_VEL || no == SYS_SET_BULLET_ANG_VEL || no == SYS_SET_BULLET_ACCEL
            || no == SYS_SET_BULLET_GRAVITY || no == SYS_STOP_BULLET_FX || no == SYS_AIM_BULLET_AT_PLAYER)
            && old(task).owner_kind != OWNER_BULLET ==> r == Err::<(), u8>(FAULT_BAD_OP) && final(sim).calls() == old(sim).calls(),
        (no == SYS_MOVE_ENEMY_TO || no == SYS_MOVE_VEL || no == SYS_MOVE_VEL_XY || no == SYS_MOVE_ANGLE
            || no == SYS_MOVE_SPEED || no == SYS_SET_ANM_STATE || no == SYS_SET_INVULN || no == SYS_SET_HITBOX
            || no == SYS_SET_HURTBOX || no == SYS_SET_ENEMY_FLAG || no == SYS_DROP_CLEAR || no == SYS_DROP_ADD
            || no == SYS_DROP_ITEMS || no == SYS_DIE) && old(task).owner_kind != OWNER_ENEMY ==> r == Err::<(), u8>(
            FAULT_BAD_OP,
        ) && *final(task) == *old(task) && *final(tasks) == *old(tasks) && *final(body) == *old(body)
            && final(sim).calls() == old(sim).calls(),
        (no == SYS_MOVE_ENEMY_TO || no == SYS_MOVE_VEL || no == SYS_MOVE_VEL_XY || no == SYS_MOVE_ANGLE
            || no == SYS_MOVE_SPEED || no == SYS_SET_ANM_STATE || no == SYS_SET_INVULN || no == SYS_SET_HITBOX
            || no == SYS_SET_HURTBOX || no == SYS_SET_ENEMY_FLAG || no == SYS_DROP_CLEAR || no == SYS_DROP_ADD
            || no == SYS_DROP_ITEMS || no == SYS_DIE) && old(task).owner_kind == OWNER_ENEMY && r is Ok
            && enemy_op_refuses(no, *old(task)) ==> refused(*old(body), *final(body)) && final(sim).calls() == old(sim).calls(),
        (no == SYS_MOVE_ENEMY_TO || no == SYS_MOVE_VEL || no == SYS_MOVE_VEL_XY || no == SYS_MOVE_ANGLE
            || no == SYS_MOVE_SPEED || no == SYS_SET_ANM_STATE || no == SYS_SET_INVULN || no == SYS_SET_HITBOX
            || no == SYS_SET_HURTBOX || no == SYS_SET_ENEMY_FLAG || no == SYS_DROP_CLEAR || no == SYS_DROP_ADD
            || no == SYS_DROP_ITEMS || no == SYS_DIE) && r is Ok && !enemy_op_refuses(no, *old(task))
            ==> final(sim).calls() == old(sim).calls().push(WorldCall::WriteEnemy(
            Handle { index: old(task).owner_index, generation: old(task).owner_gen }, enemy_op_spec(no, *old(task)))),
        no == SYS_CREATE_BULLET && old(task).sp >= 8 && r is Ok ==> {
            let t = *old(task);
            &&& 0 <= argn(t, 8, 0)
            &&& xform_range_ok(argn(t, 8, 5) as int, argn(t, 8, 6) as int)
            &&& (argn(t, 8, 7) >= 0 ==> spawnable(ecl.spec_subs(), argn(t, 8, 7), 0))
        },
        no == SYS_SH_FIRE && old(task).sp >= 1 && !(0 <= argn(*old(task), 1, 0) < SHOOTERS_PER_TASK) ==> r is Ok
            && refused(*old(body), *final(body)) && final(sim).calls() == old(sim).calls() && *final(tasks) == *old(tasks),
{
    if no == SYS_FRAME || no == SYS_PLAYER_X || no == SYS_PLAYER_Y || no == SYS_SELF_ENEMY
        || no == SYS_SELF_X || no == SYS_SELF_Y || no == SYS_SELF_VX || no == SYS_SELF_VY
        || no == SYS_SELF_SPEED || no == SYS_SELF_ANGLE || no == SYS_SELF_HP
        || no == SYS_SELF_HP_MAX || no == SYS_SELF_AGE {
        sys_engine_var(no, task, body, sim, frame)
    } else if no == SYS_ENEMY_HP || no == SYS_ENEMY_X || no == SYS_ENEMY_Y || no == SYS_ENEMY_ALIVE {
        sys_enemy_read(no, task, sim)
    } else if no == SYS_RAND_RANGE {
        sys_rand_range(task, sim)
    } else if no == SYS_GET_VAR {
        sys_get_var(task, sim)
    } else if no == SYS_SET_VAR {
        sys_set_var(task, body, sim)
    } else if no == SYS_NEAREST_ENEMY || no == SYS_AIM_PLAYER_ANGLE || no == SYS_SPELL_TIMER
        || no == SYS_ATAN2 || no == SYS_DIST {
        sys_query(no, task, body, sim)
    } else if no == SYS_SET_BULLET_SPEED || no == SYS_SET_BULLET_ANGLE || no == SYS_TURN_BULLET
        || no == SYS_SET_BULLET_VEL || no == SYS_SET_BULLET_ANG_VEL || no == SYS_SET_BULLET_ACCEL
        || no == SYS_SET_BULLET_GRAVITY || no == SYS_STOP_BULLET_FX || no == SYS_AIM_BULLET_AT_PLAYER {
        sys_bullet_op(no, task, sim)
    } else if no == SYS_MOVE_ENEMY_TO || no == SYS_MOVE_VEL || no == SYS_MOVE_VEL_XY || no == SYS_MOVE_ANGLE
        || no == SYS_MOVE_SPEED || no == SYS_SET_ANM_STATE || no == SYS_SET_INVULN || no == SYS_SET_HITBOX
        || no == SYS_SET_HURTBOX || no == SYS_SET_ENEMY_FLAG || no == SYS_DROP_CLEAR || no == SYS_DROP_ADD
        || no == SYS_DROP_ITEMS || no == SYS_DIE {
        sys_enemy_op(no, task, body, sim)
    } else if no == SYS_DROP_ITEM || no == SYS_KILL_ALL_ENEMIES || no == SYS_CLEAR_BULLETS
        || no == SYS_CLEAR_BULLETS_AT || no == SYS_BGM || no == SYS_BG || no == SYS_BG_PHASE
        || no == SYS_PULSE_SIGNAL || no == SYS_EMIT_REQ || no == SYS_FX_AT || no == SYS_STAGE_CLEAR {
        sys_stage_call(no, task, body, sim)
    } else if no == SYS_FX_ON || no == SYS_BOSS_SET || no == SYS_SPELL_END {
        sys_owner_call(no, task, sim)
    } else if SYS_LASER_CREATE <= no && no <= SYS_LASER_FAR {
        sys_laser(no, task, body, sim)
    } else if no == SYS_SH_RESET || no == SYS_SH_SPRITE || no == SYS_SH_OFFSET || no == SYS_SH_OFFSET_ABS
        || no == SYS_SH_OFFSET_RAD || no == SYS_SH_DIST || no == SYS_SH_ANGLE || no == SYS_SH_SPEED
        || no == SYS_SH_COUNT || no == SYS_SH_AIM || no == SYS_SH_RING || no == SYS_SH_XFORM
        || no == SYS_SH_TASK || no == SYS_SH_REQ {
        sys_shooter_config(no, task, tasks, body, self_index)
    } else if no == SYS_CREATE_BULLET {
        sys_create_bullet(task, tasks, ecl, tables, body, sim, self_index, frame)
    } else if no == SYS_CREATE_BULLETS_BATCH {
        sys_create_bullets_batch(task, tables, body, sim)
    } else if no == SYS_SPAWN_ENEMY {
        sys_spawn_enemy(task, tasks, ecl, tables, body, sim, self_index, frame)
    } else if no == SYS_SPELL_BEGIN {
        sys_spell_begin(task, tasks, ecl, tables, body, sim, self_index, frame)
    } else if no == SYS_SH_FIRE {
        sys_sh_fire(task, tasks, ecl, tables, body, sim, self_index, frame)
    } else if no == SYS_ADD_SCORE {
        sys_add_score(task, body)
    } else if no == SYS_ADD_LIVES {
        sys_add_lives(task, body)
    } else if no == SYS_ADD_BOMBS {
        sys_add_bombs(task, body)
    } else if no == SYS_ADD_POWER {
        sys_add_power(task, body)
    } else if no == SYS_TIME_STOP_PLAYER {
        sys_time_stop_player(task, body)
    } else if no == SYS_SPELL_RESULT {
        sys_spell_result(task, body)
    } else {
        Err(FAULT_BAD_OP)
    }
}

} // verus!
