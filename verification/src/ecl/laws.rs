//! What the world-facing syscalls hand the world, stated by where each
//! argument sits on the caller's stack: the words a syscall takes are the
//! last ones pushed, in push order, so with `k` words taken the first
//! argument is `stack[sp - k]` and the last `stack[sp - 1]`.
use vstd::prelude::*;
use crate::ecl::task::{task_wf, Task, OWNER_BULLET, OWNER_ENEMY};
use crate::ecl::vm::{gate_spec, Gate, binary_step, binop_value, flow_step, trig_read, Exec, Step, VmState};
use crate::ecl::image::RuntimeSubMeta;
use crate::ecl::task::{EVAL_DEPTH, LOCALS};
use crate::ecl::ops::{OP_ADD, OP_COSB, OP_DIV, OP_DIVF, OP_DUP, OP_EQ, OP_GE, OP_GT, OP_JZ, OP_LE, OP_LT, OP_MOD, OP_MUL, OP_MULF, OP_NE, OP_NEG, OP_POPL, OP_PUSHI, OP_PUSHL, OP_SINB, OP_SUB, OP_WAIT};
use crate::ecl::syscall::{
    bullet_op_spec, bullet_record_spec, enemy_op_spec, enemy_read_done, fired_record_spec, laser_field,
    laser_op_spec, laser_record_spec, owner_call_made, packed_names, self_read_done, stage_call_made,
    enemy_slot_query, SYS_BG, SYS_BGM, SYS_BG_PHASE, SYS_BOSS_SET, SYS_CLEAR_BULLETS_AT, SYS_DROP_ITEM,
    SYS_EMIT_REQ, SYS_ENEMY_ALIVE, SYS_ENEMY_HP, SYS_ENEMY_X, SYS_ENEMY_Y, SYS_FX_AT, SYS_FX_ON,
    SYS_KILL_ALL_ENEMIES, SYS_LASER_AIM, SYS_LASER_ANGLE, SYS_LASER_CANCEL, SYS_LASER_FAR, SYS_LASER_NEAR,
    SYS_LASER_OMEGA, SYS_LASER_ORIGIN, SYS_LASER_ROTATE, SYS_LASER_SPEED, SYS_LASER_START, SYS_LASER_X,
    SYS_LASER_Y, SYS_MOVE_ANGLE, SYS_MOVE_ENEMY_TO, SYS_MOVE_SPEED, SYS_MOVE_VEL, SYS_MOVE_VEL_XY,
    SYS_PULSE_SIGNAL, SYS_SELF_ANGLE, SYS_SELF_HP, SYS_SELF_HP_MAX, SYS_SELF_SPEED, SYS_SELF_VX, SYS_SELF_VY,
    SYS_SELF_X, SYS_SELF_Y, SYS_SET_ANM_STATE, SYS_SET_BULLET_ACCEL, SYS_SET_BULLET_ANGLE,
    SYS_SET_BULLET_ANG_VEL, SYS_SET_BULLET_GRAVITY, SYS_SET_BULLET_SPEED, SYS_SET_BULLET_VEL,
    SYS_SET_ENEMY_FLAG, SYS_SET_HITBOX, SYS_SET_HURTBOX, SYS_SET_INVULN, SYS_SPELL_END, SYS_STAGE_CLEAR,
    SYS_TURN_BULLET, SYS_AIM_BULLET_AT_PLAYER, SYS_DROP_ADD,
};
use crate::enemy::ENEMY_CAP;
use crate::enemy::KILL_DIE;
use crate::events::EVT_STAGE_CLEARED;
use crate::consts::{REQ_FX_AT, REQ_FX_ATTACHED};
use crate::math::{bam_of, fx_length, is_isqrt, Angle, Fx};
use crate::pool::Handle;
use crate::ecl::shooter::{default_shooter, ShooterSlot, SH_ABS_OFFSET};
use crate::ecl::task::OWNER_STAGE;
use crate::ecl::vm::{owner_alive_given, owner_query};
use crate::ecl::syscall::{
    stack_effect, anchor_done, batch_call, bullet_call, configure_shooter, enemy_call, fire_angle_raw, packed_laser, speed_at,
    spell_call, trunc_half, SYS_SH_ANGLE, SYS_SH_COUNT, SYS_SH_DIST, SYS_SH_OFFSET, SYS_SH_OFFSET_ABS,
    SYS_SH_OFFSET_RAD, SYS_SH_RESET, SYS_SH_SPEED, SYS_SH_SPRITE, SYS_SH_TASK,
};
use crate::enemy::spec_pack_handle;
use crate::world::{
    Appearance, AnchorKind, WorldBody, WorldTables, BulletOp, BulletView, EnemyOp, EnemyView, FieldSpec, LaserOp, LaserView, WorldCall,
    WorldRead,
};

verus! {

/// After `SINB` (`COSB`) on a non-empty stack whose top word is `word`,
/// exactly one question was asked: the sine (cosine) of the binary angle
/// in the low 16 bits of `word`; and the new top is the world's answer
/// itself, sign included.
pub proof fn law_trig_top_is_the_worlds_answer(op: u8, word: i32, rd0: Seq<WorldRead>, rd1: Seq<WorldRead>, top: i32)
    requires
        op == OP_SINB || op == OP_COSB,
        trig_read(op, word, rd0, rd1, top),
    ensures
        rd1.len() == rd0.len() + 1,
        rd1.subrange(0, rd0.len() as int) == rd0,
        op == OP_SINB ==> (rd1.last() matches WorldRead::Sin(a, v)
            && a.0 == (word as u32 & 0xFFFFu32) as u16 && v.0 == top),
        op == OP_COSB ==> (rd1.last() matches WorldRead::Cos(a, v)
            && a.0 == (word as u32 & 0xFFFFu32) as u16 && v.0 == top),
{
    assert(rd1.subrange(0, rd0.len() as int) =~= rd0);
}

/// The laser writes take their arguments after the laser number in push
/// order: `lz_origin(lz, x, y)` moves the origin to `(x, y)` (x the word
/// pushed before y), `lz_speed(lz, a, b)` writes `a` then `b`, the one
/// argument of `lz_start` is the start, `lz_omega` takes an angular speed
/// (its low 16 bits, signed), `lz_rotate` and `lz_aim` an angle modulo
/// 65536; `lz_cancel` takes nothing but the number.
pub proof fn law_laser_writes_take_their_arguments_in_push_order(t: Task)
    requires
        t.sp >= 3,
    ensures
        laser_op_spec(SYS_LASER_ORIGIN, t) == LaserOp::Origin(Fx(t.stack@[t.sp - 2]), Fx(t.stack@[t.sp - 1])),
        laser_op_spec(SYS_LASER_SPEED, t) == LaserOp::Speed(Fx(t.stack@[t.sp - 2]), Fx(t.stack@[t.sp - 1])),
        laser_op_spec(SYS_LASER_START, t) == LaserOp::Start(Fx(t.stack@[t.sp - 1])),
        laser_op_spec(SYS_LASER_OMEGA, t) == LaserOp::Omega(bam_of(t.stack@[t.sp - 1] as int) as i16),
        laser_op_spec(SYS_LASER_ROTATE, t) == LaserOp::Rotate(Angle(bam_of(t.stack@[t.sp - 1] as int))),
        laser_op_spec(SYS_LASER_AIM, t) == LaserOp::Aim(Angle(bam_of(t.stack@[t.sp - 1] as int))),
        laser_op_spec(SYS_LASER_CANCEL, t) == LaserOp::Cancel,
{
}

/// Swapping the two coordinates given to `lz_origin` swaps the origin
/// written: the first is always the x.
pub proof fn law_lz_origin_x_is_the_first_coordinate(t: Task, u: Task)
    requires
        t.sp >= 3,
        u.sp == t.sp,
        u.stack@[u.sp - 2] == t.stack@[t.sp - 1],
        u.stack@[u.sp - 1] == t.stack@[t.sp - 2],
    ensures
        laser_op_spec(SYS_LASER_ORIGIN, t) matches LaserOp::Origin(x, y) && laser_op_spec(SYS_LASER_ORIGIN, u)
            == LaserOp::Origin(y, x),
{
}

/// A laser geometry read pushes the field it names from the world's view
/// of the laser: origin x, origin y, direction, near end, far end.
pub proof fn law_laser_reads_name_their_field(g: LaserView)
    ensures
        laser_field(SYS_LASER_X, g) == g.ox.0,
        laser_field(SYS_LASER_Y, g) == g.oy.0,
        laser_field(SYS_LASER_ANGLE, g) == g.angle.0 as i32,
        laser_field(SYS_LASER_NEAR, g) == g.start.0,
        laser_field(SYS_LASER_FAR, g) == g.end.0,
{
}

/// `laser(color, x, y, angle, len, width, warn, active, fade)` creates the
/// laser at `(x, y)` with the given direction (modulo 65536), length and
/// width, drawn with `color`; the three phase lengths are clamped into
/// `u16`, each keeping its own place.
pub proof fn law_laser_record_keeps_each_argument_in_place(
    color: i32,
    x: i32,
    y: i32,
    angle: i32,
    len: i32,
    width: i32,
    warn: u16,
    active: u16,
    fade: u16,
)
    ensures
        laser_record_spec(color, x, y, angle, len, width, warn as i32, active as i32, fade as i32).ox == Fx(x),
        laser_record_spec(color, x, y, angle, len, width, warn as i32, active as i32, fade as i32).oy == Fx(y),
        laser_record_spec(color, x, y, angle, len, width, warn as i32, active as i32, fade as i32).angle
            == Angle(bam_of(angle as int)),
        laser_record_spec(color, x, y, angle, len, width, warn as i32, active as i32, fade as i32).len == Fx(len),
        laser_record_spec(color, x, y, angle, len, width, warn as i32, active as i32, fade as i32).width == Fx(width),
        laser_record_spec(color, x, y, angle, len, width, warn as i32, active as i32, fade as i32).sprite == color as u16,
        laser_record_spec(color, x, y, angle, len, width, warn as i32, active as i32, fade as i32).warn == warn,
        laser_record_spec(color, x, y, angle, len, width, warn as i32, active as i32, fade as i32).active == active,
        laser_record_spec(color, x, y, angle, len, width, warn as i32, active as i32, fade as i32).fade == fade,
{
}

/// `bgm(v)`, `bg(v)` and `bg_phase(v)` each set their own anchor, to the
/// value given: the three calls name three different anchors.
pub proof fn law_anchor_calls_set_their_own_anchor(t: Task, c: WorldCall)
    requires
        t.sp >= 1,
    ensures
        stage_call_made(SYS_BGM, t, c) ==> c == WorldCall::SetAnchor(AnchorKind::Bgm, t.stack@[t.sp - 1] as u16),
        stage_call_made(SYS_BG, t, c) ==> c == WorldCall::SetAnchor(AnchorKind::Bg, t.stack@[t.sp - 1] as u16),
        stage_call_made(SYS_BG_PHASE, t, c) ==> c == WorldCall::SetAnchor(AnchorKind::BgPhase, t.stack@[t.sp - 1] as u16),
        !(stage_call_made(SYS_BGM, t, c) && stage_call_made(SYS_BG, t, c)),
        !(stage_call_made(SYS_BG, t, c) && stage_call_made(SYS_BG_PHASE, t, c)),
        !(stage_call_made(SYS_BGM, t, c) && stage_call_made(SYS_BG_PHASE, t, c)),
{
}

/// The other stage calls hand the world their arguments in push order:
/// `kill_all_enemies(mode)` dies (rather than vanishes) exactly for the
/// die mode and spares an enemy caller; `pulse_signal(ch)` pulses `ch`;
/// `emit_req(id, a0..a5)` carries the six words after the id in order;
/// `fx_at(x, y, kind, param)` its four words then two zeros;
/// `stage_clear(n)` an event carrying `n`; `drop_item(x, y, type)` drops
/// at `(x, y)`; `clear_bullets_at(x, y, r, stars)` clears around `(x, y)`
/// with radius `r`.
pub proof fn law_stage_calls_take_their_arguments_in_push_order(t: Task, c: WorldCall)
    requires
        task_wf(t),
        t.sp >= 7,
    ensures
        stage_call_made(SYS_KILL_ALL_ENEMIES, t, c) ==> c == WorldCall::KillAllEnemies(
            if t.owner_kind == OWNER_ENEMY { Some(Handle { index: t.owner_index, generation: t.owner_gen }) } else { None },
            t.stack@[t.sp - 1] == KILL_DIE as i32),
        stage_call_made(SYS_PULSE_SIGNAL, t, c) ==> c == WorldCall::PulseSignal(t.stack@[t.sp - 1] as usize),
        stage_call_made(SYS_EMIT_REQ, t, c) ==> (c matches WorldCall::EmitReq(id, a) && id == t.stack@[t.sp - 7] as u16
            && a@ == t.stack@.subrange(t.sp - 6, t.sp as int)),
        stage_call_made(SYS_FX_AT, t, c) ==> (c matches WorldCall::EmitReq(id, a) && id == REQ_FX_AT
            && a@ == t.stack@.subrange(t.sp - 4, t.sp as int) + seq![0i32, 0i32]),
        stage_call_made(SYS_STAGE_CLEAR, t, c) ==> (c matches WorldCall::PushEvent(e) && e.kind == EVT_STAGE_CLEARED
            && e.data@[0] == t.stack@[t.sp - 1]),
        stage_call_made(SYS_DROP_ITEM, t, c) ==> (c matches WorldCall::DropItem(x, y, ty, _)
            && x == Fx(t.stack@[t.sp - 3]) && y == Fx(t.stack@[t.sp - 2]) && ty == t.stack@[t.sp - 1] as u8),
        stage_call_made(SYS_CLEAR_BULLETS_AT, t, c) ==> (c matches WorldCall::CreateField(f, _)
            && f == (FieldSpec::At { x: Fx(t.stack@[t.sp - 4]), y: Fx(t.stack@[t.sp - 3]), r: Fx(t.stack@[t.sp - 2]),
            stars: t.stack@[t.sp - 1] != 0 })),
{
    if stage_call_made(SYS_EMIT_REQ, t, c) {
        assert(t.stack@.subrange(t.sp - 6, t.sp as int) =~= seq![t.stack@[t.sp - 6], t.stack@[t.sp - 5],
            t.stack@[t.sp - 4], t.stack@[t.sp - 3], t.stack@[t.sp - 2], t.stack@[t.sp - 1]]);
    }
    if stage_call_made(SYS_FX_AT, t, c) {
        assert(t.stack@.subrange(t.sp - 4, t.sp as int) + seq![0i32, 0i32] =~= seq![t.stack@[t.sp - 4],
            t.stack@[t.sp - 3], t.stack@[t.sp - 2], t.stack@[t.sp - 1], 0i32, 0i32]);
    }
}

/// `boss_set(slot, hp_ratio, spell_id, timer, phases, active)` writes each
/// argument to its own bulletin field, for the calling enemy;
/// `spell_end()` ends the caller's card; `fx_on(kind, param)` asks for an
/// effect attached to the caller, carrying its index and generation, then
/// the two arguments in order.
pub proof fn law_owner_calls_take_their_arguments_in_push_order(t: Task, c: WorldCall)
    requires
        t.sp >= 6,
        t.owner_kind == OWNER_ENEMY,
    ensures
        owner_call_made(SYS_BOSS_SET, t, c) ==> (c matches WorldCall::BossSet(slot, ui) && slot == t.stack@[t.sp - 6] as u8
            && ui.enemy == (Handle { index: t.owner_index, generation: t.owner_gen })
            && ui.hp_ratio == Fx(t.stack@[t.sp - 5]) && ui.spell_id == t.stack@[t.sp - 4] as u16
            && ui.timer_frames == t.stack@[t.sp - 3] as u16 && ui.phase_left == t.stack@[t.sp - 2] as u8
            && ui.active == t.stack@[t.sp - 1] as u8),
        owner_call_made(SYS_SPELL_END, t, c) ==> c == WorldCall::SpellEndByOwner(
            Handle { index: t.owner_index, generation: t.owner_gen }),
        owner_call_made(SYS_FX_ON, t, c) ==> (c matches WorldCall::EmitReq(id, a) && id == REQ_FX_ATTACHED
            && a@ == seq![t.owner_index as i32, t.owner_gen as i32, t.stack@[t.sp - 2], t.stack@[t.sp - 1], 0i32, 0i32]),
{
}

/// The writes to the owning enemy take their arguments in push order:
/// the moves take the duration first and the easing last, with the target
/// (x then y, angle then speed, vx then vy) between; the single-argument
/// writes write their argument, a negative radius as 0; a flag write sets
/// the given mask when its second argument is non-zero.
pub proof fn law_enemy_writes_take_their_arguments_in_push_order(t: Task)
    requires
        t.sp >= 4,
    ensures
        enemy_op_spec(SYS_MOVE_ENEMY_TO, t) == (EnemyOp::MoveTo { x: Fx(t.stack@[t.sp - 3]), y: Fx(t.stack@[t.sp - 2]),
            dur: t.stack@[t.sp - 4] as u16, easing: t.stack@[t.sp - 1] as u8 }),
        enemy_op_spec(SYS_MOVE_VEL, t) == (EnemyOp::VelPolar { angle: Angle(t.stack@[t.sp - 3] as u16),
            speed: Fx(t.stack@[t.sp - 2]), dur: t.stack@[t.sp - 4] as u16, easing: t.stack@[t.sp - 1] as u8 }),
        enemy_op_spec(SYS_MOVE_VEL_XY, t) == (EnemyOp::VelCart { vx: Fx(t.stack@[t.sp - 3]), vy: Fx(t.stack@[t.sp - 2]),
            dur: t.stack@[t.sp - 4] as u16, easing: t.stack@[t.sp - 1] as u8 }),
        enemy_op_spec(SYS_MOVE_ANGLE, t) == (EnemyOp::Angle { angle: Angle(t.stack@[t.sp - 2] as u16),
            dur: t.stack@[t.sp - 3] as u16, easing: t.stack@[t.sp - 1] as u8 }),
        enemy_op_spec(SYS_MOVE_SPEED, t) == (EnemyOp::Speed { speed: Fx(t.stack@[t.sp - 2]),
            dur: t.stack@[t.sp - 3] as u16, easing: t.stack@[t.sp - 1] as u8 }),
        enemy_op_spec(SYS_SET_ENEMY_FLAG, t) == EnemyOp::SetFlags(t.stack@[t.sp - 2] as u8, t.stack@[t.sp - 1] != 0),
        enemy_op_spec(SYS_DROP_ADD, t) matches EnemyOp::AddDrop(ty, n) && ty == t.stack@[t.sp - 2] as u8
            && (0 <= t.stack@[t.sp - 1] <= 255 ==> n == t.stack@[t.sp - 1]),
        enemy_op_spec(SYS_SET_ANM_STATE, t) == EnemyOp::SetAnmState(t.stack@[t.sp - 1] as u16),
        enemy_op_spec(SYS_SET_INVULN, t) == EnemyOp::SetInvuln(t.stack@[t.sp - 1] as u16),
        t.stack@[t.sp - 1] >= 0 ==> enemy_op_spec(SYS_SET_HITBOX, t) == EnemyOp::SetHitbox(Fx(t.stack@[t.sp - 1])),
        t.stack@[t.sp - 1] >= 0 ==> enemy_op_spec(SYS_SET_HURTBOX, t) == EnemyOp::SetHurtbox(Fx(t.stack@[t.sp - 1])),
        t.stack@[t.sp - 1] < 0 ==> enemy_op_spec(SYS_SET_HITBOX, t) == EnemyOp::SetHitbox(Fx(0))
            && enemy_op_spec(SYS_SET_HURTBOX, t) == EnemyOp::SetHurtbox(Fx(0)),
{
}

/// The writes to the owning bullet write their arguments: one value, or
/// two in push order for velocity and gravity; angles modulo 65536.
pub proof fn law_bullet_writes_take_their_arguments_in_push_order(a: i32, b: i32)
    ensures
        bullet_op_spec(SYS_SET_BULLET_SPEED, a, b) == BulletOp::SetSpeed(Fx(a)),
        bullet_op_spec(SYS_SET_BULLET_ANGLE, a, b) == BulletOp::SetAngle(Angle(bam_of(a as int))),
        bullet_op_spec(SYS_TURN_BULLET, a, b) == BulletOp::Turn(Angle(bam_of(a as int))),
        bullet_op_spec(SYS_SET_BULLET_VEL, a, b) == BulletOp::SetVel(Fx(a), Fx(b)),
        bullet_op_spec(SYS_SET_BULLET_ANG_VEL, a, b) == BulletOp::SetAngVel(a as i16),
        bullet_op_spec(SYS_SET_BULLET_ACCEL, a, b) == BulletOp::SetAccel(Fx(a)),
        bullet_op_spec(SYS_SET_BULLET_GRAVITY, a, b) == BulletOp::SetGravity(Fx(a), Fx(b)),
        bullet_op_spec(SYS_AIM_BULLET_AT_PLAYER, a, b) == BulletOp::AimAtPlayer(Angle(bam_of(a as int))),
{
}

/// An owner read returns the field it names from the world's view of the
/// owner: for a bullet owner, `self_x` its x and `self_y` its y (and so on
/// for velocity, speed and direction), and 0 for its health; for an enemy
/// owner the same fields and its health.
pub proof fn law_self_reads_name_their_field(
    no: u16,
    t: Task,
    rd0: Seq<WorldRead>,
    rd1: Seq<WorldRead>,
    c0: Seq<WorldCall>,
    c1: Seq<WorldCall>,
    val: i32,
)
    requires
        self_read_done(no, t, rd0, rd1, c0, c1, val),
    ensures
        t.owner_kind == OWNER_BULLET && no != SYS_SELF_HP && no != SYS_SELF_HP_MAX ==> exists|v: BulletView|
            #[trigger] c0.push(WorldCall::BulletView(t.owner_index as usize, v)) == c1 && rd1 == rd0
            && (no == SYS_SELF_X ==> val == v.x.0) && (no == SYS_SELF_Y ==> val == v.y.0)
            && (no == SYS_SELF_VX ==> val == v.vx.0) && (no == SYS_SELF_VY ==> val == v.vy.0)
            && (no == SYS_SELF_SPEED ==> val == v.speed.0) && (no == SYS_SELF_ANGLE ==> val == v.angle.0 as i32),
        t.owner_kind == OWNER_BULLET && (no == SYS_SELF_HP || no == SYS_SELF_HP_MAX) ==> val == 0,
        t.owner_kind == OWNER_ENEMY ==> exists|v: EnemyView|
            #[trigger] rd0.push(WorldRead::EnemyView(t.owner_index as usize, v)) == rd1 && c1 == c0
            && (no == SYS_SELF_X ==> val == v.x.0) && (no == SYS_SELF_Y ==> val == v.y.0)
            && (no == SYS_SELF_VX ==> val == v.vx.0) && (no == SYS_SELF_VY ==> val == v.vy.0)
            && (no == SYS_SELF_SPEED ==> val == v.speed.0) && (no == SYS_SELF_ANGLE ==> val == v.angle.0 as i32)
            && (no == SYS_SELF_HP ==> val == v.hp) && (no == SYS_SELF_HP_MAX ==> val == v.hp_max),
{
    if t.owner_kind == OWNER_BULLET && no != SYS_SELF_HP && no != SYS_SELF_HP_MAX {
        let v = choose|v: BulletView| c1 == c0.push(WorldCall::BulletView(t.owner_index as usize, v)) && rd1 == rd0
            && val == #[trigger] crate::ecl::syscall::self_field_bullet(no, v);
        assert(c0.push(WorldCall::BulletView(t.owner_index as usize, v)) == c1);
    }
    if t.owner_kind == OWNER_ENEMY {
        let v = choose|v: EnemyView| rd1 == rd0.push(WorldRead::EnemyView(t.owner_index as usize, v)) && c1 == c0
            && val == #[trigger] crate::ecl::syscall::self_field_enemy(no, v);
        assert(rd0.push(WorldRead::EnemyView(t.owner_index as usize, v)) == rd1);
    }
}

/// An enemy read of a live enemy number pushes the field it names from the
/// world's view of that enemy: health, x or y; liveness pushes 1.
pub proof fn law_enemy_reads_name_their_field(
    no: u16,
    rd0: Seq<WorldRead>,
    rd1: Seq<WorldRead>,
    packed: i32,
    ans: Option<u16>,
    e: EnemyView,
    pushed: i32,
)
    requires
        enemy_read_done(no, rd0, rd1, packed, ans, e, pushed),
        packed_names(packed, ENEMY_CAP as int, ans) is Some,
    ensures
        no == SYS_ENEMY_ALIVE ==> pushed == 1,
        no == SYS_ENEMY_HP ==> pushed == e.hp && rd1.last() == WorldRead::EnemyView(
            packed_names(packed, ENEMY_CAP as int, ans)->Some_0, e),
        no == SYS_ENEMY_X ==> pushed == e.x.0 && rd1.last() == WorldRead::EnemyView(
            packed_names(packed, ENEMY_CAP as int, ans)->Some_0, e),
        no == SYS_ENEMY_Y ==> pushed == e.y.0 && rd1.last() == WorldRead::EnemyView(
            packed_names(packed, ENEMY_CAP as int, ans)->Some_0, e),
{
    let _q = enemy_slot_query(packed, ans);
}

/// A created bullet's record: `create_bullet` puts it at `(x, y)` with the
/// given speed and direction (modulo 65536), moving with the world's
/// velocity `v`; a shooter's bullet sits at the origin moved by the
/// world's offset `d` and moves with `v`.
pub proof fn law_bullet_records_keep_each_argument_in_place(
    x: i32,
    y: i32,
    speed: i32,
    angle: i32,
    cell: Appearance,
    v: (Fx, Fx),
    frame: u32,
    ox: Fx,
    oy: Fx,
    d: (Fx, Fx),
    sp: Fx,
    a: Angle,
)
    ensures
        bullet_record_spec(x, y, speed, angle, cell, v, frame).x == Fx(x),
        bullet_record_spec(x, y, speed, angle, cell, v, frame).y == Fx(y),
        bullet_record_spec(x, y, speed, angle, cell, v, frame).speed == Fx(speed),
        bullet_record_spec(x, y, speed, angle, cell, v, frame).angle == Angle(bam_of(angle as int)),
        bullet_record_spec(x, y, speed, angle, cell, v, frame).vx == v.0,
        bullet_record_spec(x, y, speed, angle, cell, v, frame).vy == v.1,
        fired_record_spec(ox, oy, d, v, sp, a, cell, frame).x == Fx(vstd::wrapping::i32_specs::wrapping_add(ox.0, d.0.0)),
        fired_record_spec(ox, oy, d, v, sp, a, cell, frame).y == Fx(vstd::wrapping::i32_specs::wrapping_add(oy.0, d.1.0)),
        fired_record_spec(ox, oy, d, v, sp, a, cell, frame).vx == v.0,
        fired_record_spec(ox, oy, d, v, sp, a, cell, frame).vy == v.1,
        fired_record_spec(ox, oy, d, v, sp, a, cell, frame).speed == sp,
        fired_record_spec(ox, oy, d, v, sp, a, cell, frame).angle == a,
{
}

/// The creation calls take the arguments in push order:
/// `create_bullet(appearance, x, y, speed, angle, ..)` puts the bullet at
/// `(x, y)` with that speed and direction; `create_bullets(appearance, x,
/// y, n_angle, angle0, step, n_speed, speed0, speed_step)` passes its
/// grid in that order (negative counts as 0); `spawn_enemy(x, y, hp,
/// table, score, sprite, task, args.., argc)` creates the enemy at `(x, y)`
/// with that health, score and sprite; `spell_begin(slot, id, pattern,
/// time, bonus, flags, threshold)` hands the card to the world in that
/// order for the calling boss.
pub proof fn law_creation_calls_take_their_arguments_in_push_order(
    t: Task,
    cell: Appearance,
    v: (Fx, Fx),
    frame: u32,
    h: Handle,
    n: u32,
    tables: WorldTables,
    began: bool,
)
    requires
        t.sp >= 9,
    ensures
        bullet_call(t, cell, v, frame, h) matches WorldCall::CreateBullet(rec, _, hh) && hh == h
            && rec.x == Fx(t.stack@[t.sp - 7]) && rec.y == Fx(t.stack@[t.sp - 6])
            && rec.speed == Fx(t.stack@[t.sp - 5]) && rec.angle == Angle(bam_of(t.stack@[t.sp - 4] as int))
            && rec.vx == v.0 && rec.vy == v.1 && rec.sprite == cell.sprite && rec.born_frame == frame,
        batch_call(t, cell, frame, n) matches WorldCall::CreateBulletsBatch(rec, na, a0, st, ns, s0, ss, nn)
            && nn == n && rec.x == Fx(t.stack@[t.sp - 8]) && rec.y == Fx(t.stack@[t.sp - 7])
            && (t.stack@[t.sp - 6] >= 0 ==> na == t.stack@[t.sp - 6] as u16)
            && a0 == Angle(bam_of(t.stack@[t.sp - 5] as int)) && st == t.stack@[t.sp - 4] as i16
            && (t.stack@[t.sp - 3] >= 0 ==> ns == t.stack@[t.sp - 3] as u16)
            && s0 == Fx(t.stack@[t.sp - 2]) && ss == Fx(t.stack@[t.sp - 1]),
        t.stack@[t.sp - 1] == 0 ==> (enemy_call(t, tables, frame, h) matches WorldCall::CreateEnemy(rec, hh) && hh == h
            && rec.x == Fx(t.stack@[t.sp - 8]) && rec.y == Fx(t.stack@[t.sp - 7]) && rec.hp == t.stack@[t.sp - 6]
            && rec.hp_max == t.stack@[t.sp - 6] && rec.score == t.stack@[t.sp - 4] as u16
            && rec.sprite == t.stack@[t.sp - 3] as u16 && rec.anm_state_frame == frame),
        spell_call(t, began) == WorldCall::SpellBegin(t.stack@[t.sp - 7] as usize,
            Handle { index: t.owner_index, generation: t.owner_gen }, t.stack@[t.sp - 6] as u16,
            t.stack@[t.sp - 4] as u16, t.stack@[t.sp - 3] as u32, t.stack@[t.sp - 2] as u8, t.stack@[t.sp - 1], began),
{
}

/// The three phase lengths of a created laser are clamped into `u16`: a
/// negative one becomes 0 and one past 65535 becomes 65535.
pub proof fn law_laser_phases_are_clamped(color: i32, x: i32, y: i32, angle: i32, len: i32, width: i32, warn: i32, active: i32, fade: i32)
    ensures
        warn < 0 ==> laser_record_spec(color, x, y, angle, len, width, warn, active, fade).warn == 0,
        warn > 65535 ==> laser_record_spec(color, x, y, angle, len, width, warn, active, fade).warn == 65535,
        active < 0 ==> laser_record_spec(color, x, y, angle, len, width, warn, active, fade).active == 0,
        active > 65535 ==> laser_record_spec(color, x, y, angle, len, width, warn, active, fade).active == 65535,
        fade < 0 ==> laser_record_spec(color, x, y, angle, len, width, warn, active, fade).fade == 0,
        fade > 65535 ==> laser_record_spec(color, x, y, angle, len, width, warn, active, fade).fade == 65535,
{
}

/// `lz_anchor(lz, enemy, dx, dy)` on a live laser with `enemy == -1`
/// detaches it (the null handle) keeping the offset `(dx, dy)` in push
/// order, and asks nothing more.
pub proof fn law_anchor_detach_keeps_the_offset(
    t: Task,
    b0: WorldBody,
    b1: WorldBody,
    c0: Seq<WorldCall>,
    c1: Seq<WorldCall>,
    rd0: Seq<WorldRead>,
    rd1: Seq<WorldRead>,
    ans: Option<u16>,
)
    requires
        t.sp >= 4,
        anchor_done(t, b0, b1, c0, c1, rd0, rd1, ans),
        packed_laser(t.stack@[t.sp - 4], ans) is Some,
        t.stack@[t.sp - 3] == -1,
    ensures
        c1 == c0.push(WorldCall::WriteLaser(packed_laser(t.stack@[t.sp - 4], ans)->Some_0,
            LaserOp::Anchor(Handle::spec_null(), Fx(t.stack@[t.sp - 2]), Fx(t.stack@[t.sp - 1])))),
        b1 == b0,
{
}

/// An enemy read of a number that names no live enemy pushes -1 for the
/// health and 0 for position and liveness.
pub proof fn law_enemy_reads_of_a_dead_number(
    no: u16,
    rd0: Seq<WorldRead>,
    rd1: Seq<WorldRead>,
    packed: i32,
    ans: Option<u16>,
    e: EnemyView,
    pushed: i32,
)
    requires
        enemy_read_done(no, rd0, rd1, packed, ans, e, pushed),
        packed_names(packed, ENEMY_CAP as int, ans) is None,
    ensures
        no == SYS_ENEMY_HP ==> pushed == -1,
        no != SYS_ENEMY_HP ==> pushed == 0,
{
}

/// A handle's packed number gives back its slot and the low 15 bits of
/// its generation.
pub proof fn law_packed_number_names_its_handle(h: Handle)
    ensures
        spec_pack_handle(h) >= 0,
        crate::enemy::packed_index(spec_pack_handle(h)) == h.index,
        crate::enemy::packed_generation(spec_pack_handle(h)) == h.generation as int % 32768,
{
    let g = h.generation as int % 32768;
    assert(0 <= g * 65536 + h.index < 0x8000_0000) by (nonlinear_arith)
        requires
            0 <= g < 32768,
            0 <= h.index < 65536,
    ;
    assert((g * 65536 + h.index as int) % 65536 == h.index as int) by (nonlinear_arith)
        requires
            0 <= g,
            0 <= h.index < 65536,
    ;
    assert((g * 65536 + h.index as int) / 65536 == g) by (nonlinear_arith)
        requires
            0 <= g,
            0 <= h.index < 65536,
    ;
}

/// A task's owner is checked by asking the generation of the owner's own
/// slot, in the owner's own pool: an enemy or bullet owner is alive exactly
/// when the world reports the generation stamped on the task; the stage
/// never dies and is never asked about.
pub proof fn law_owner_liveness_asks_the_owners_slot(t: Task, ans: Option<u16>)
    ensures
        t.owner_kind == OWNER_ENEMY ==> owner_query(t, ans) == seq![WorldRead::EnemyGeneration(t.owner_index as usize, ans)],
        t.owner_kind == OWNER_BULLET ==> owner_query(t, ans) == seq![WorldRead::BulletGeneration(t.owner_index as usize, ans)],
        t.owner_kind == OWNER_STAGE ==> owner_query(t, ans).len() == 0 && owner_alive_given(t, ans),
        (t.owner_kind == OWNER_ENEMY || t.owner_kind == OWNER_BULLET) ==> (owner_alive_given(t, ans) <==> ans == Some(t.owner_gen)),
{
}

/// Shooter settings: each two-value setting keeps its first argument
/// first (offset x then y, polar angle then radius, first direction then
/// step, first speed then step, direction count then speed count) and
/// touches nothing else; an absolute offset sets the absolute flag and a
/// relative one clears it.
pub proof fn law_shooter_settings_keep_argument_order(s: ShooterSlot, a: i32, b: i32)
    ensures
        configure_shooter(SYS_SH_OFFSET, s, a, b) == (ShooterSlot { off_x: Fx(a), off_y: Fx(b),
            flags: s.flags & !SH_ABS_OFFSET, ..s }),
        configure_shooter(SYS_SH_OFFSET_ABS, s, a, b) == (ShooterSlot { off_x: Fx(a), off_y: Fx(b),
            flags: s.flags | SH_ABS_OFFSET, ..s }),
        configure_shooter(SYS_SH_OFFSET_RAD, s, a, b) == (ShooterSlot { polar_ang: Angle(bam_of(a as int)),
            polar_r: Fx(b), ..s }),
        configure_shooter(SYS_SH_DIST, s, a, b) == (ShooterSlot { dist: Fx(a), ..s }),
        configure_shooter(SYS_SH_ANGLE, s, a, b) == (ShooterSlot { angle0: Angle(bam_of(a as int)),
            angle_step: Angle(bam_of(b as int)), ..s }),
        configure_shooter(SYS_SH_SPEED, s, a, b) == (ShooterSlot { speed0: Fx(a), speed_step: Fx(b), ..s }),
        0 <= a <= 255 && 0 <= b <= 255 ==> configure_shooter(SYS_SH_COUNT, s, a, b) == (ShooterSlot {
            n_angle: a as u8, n_speed: b as u8, ..s }),
        0 <= a <= 65535 ==> configure_shooter(SYS_SH_SPRITE, s, a, b) == (ShooterSlot { appearance: a as u16, ..s }),
        0 <= a <= 65535 ==> configure_shooter(SYS_SH_TASK, s, a, b) == (ShooterSlot { task_script: a as u16, ..s }),
        configure_shooter(SYS_SH_RESET, s, a, b) == default_shooter(),
{
}

/// The speeds along a shooter's speed axis start at its first speed and
/// go up by its speed step (wrapping) each time.
pub proof fn law_speeds_step_from_the_first(sh: ShooterSlot, j: nat)
    ensures
        speed_at(sh, 0) == sh.speed0,
        speed_at(sh, j + 1) == Fx(vstd::wrapping::i32_specs::wrapping_add(speed_at(sh, j).0, sh.speed_step.0)),
{
}

/// Directions of a shooter's grid: along the speed axis each bullet turns
/// by the step; a ring's directions start at the base and its `n`-th
/// would close the circle exactly (one full turn on from the base), each
/// next direction no earlier than the one before; a fan's directions are
/// one step apart, centred on the base.
pub proof fn law_grid_directions(base: int, i: int, j: int, n: int, step: int)
    requires
        1 <= n,
        0 <= i < n,
        0 <= j,
    ensures
        fire_angle_raw(base, i, j + 1, n, step, true) == fire_angle_raw(base, i, j, n, step, true) + step,
        fire_angle_raw(base, 0, 0, n, step, true) == base,
        fire_angle_raw(base, n, 0, n, step, true) == base + 65536,
        fire_angle_raw(base, i, 0, n, step, true) <= fire_angle_raw(base, i + 1, 0, n, step, true),
        fire_angle_raw(base, i + 1, j, n, step, false) == fire_angle_raw(base, i, j, n, step, false) + step,
        fire_angle_raw(base, 0, j, n, step, false) == base - trunc_half((n - 1) * step),
{
    assert((n * 65536) / n == 65536) by (nonlinear_arith)
        requires
            1 <= n,
    ;
    assert((i * 65536) / n <= ((i + 1) * 65536) / n) by (nonlinear_arith)
        requires
            1 <= n,
            0 <= i,
    ;
    assert(0int / n == 0) by (nonlinear_arith)
        requires
            1 <= n,
    ;
    assert((i + 1) * step == i * step + step) by (nonlinear_arith);
    assert((j + 1) * step == j * step + step) by (nonlinear_arith);
    assert(0 * step == 0);
}

/// The integer opcodes compute the exact sum, difference, product and
/// negation whenever it fits in an `i32` (and wrap otherwise).
pub proof fn law_integer_arithmetic_is_exact_when_it_fits(a: i32, b: i32)
    ensures
        i32::MIN <= a + b <= i32::MAX ==> binop_value(OP_ADD, a, b) == Some((a + b) as i32),
        i32::MIN <= a - b <= i32::MAX ==> binop_value(OP_SUB, a, b) == Some((a - b) as i32),
        binop_value(OP_ADD, a, b) == binop_value(OP_ADD, b, a),
        binop_value(OP_MUL, a, b) == binop_value(OP_MUL, b, a),
        a != i32::MIN ==> vstd::wrapping::i32_specs::wrapping_sub(0, a) == -a,
{
}

/// `DIV` and `MOD` truncate toward zero: with `q` the quotient and `r` the
/// remainder of `a` by a non-zero `b` (other than -1), `q * b + r == a`, `r`
/// is smaller than `b` in size and never has the opposite sign of `a`;
/// dividing by -1 negates (wrapping) and leaves no remainder; dividing by
/// zero has no result.
pub proof fn law_division_truncates_toward_zero(a: i32, b: i32)
    ensures
        binop_value(OP_DIV, a, 0i32) is None,
        binop_value(OP_MOD, a, 0i32) is None,
        b != 0 && b != -1 ==> (binop_value(OP_DIV, a, b) matches Some(q) && binop_value(OP_MOD, a, b) matches Some(r)
            && q as int * b as int + r as int == a as int
            && (if b > 0 { -b < r < b } else { b < r < -b })
            && (r == 0 || (r > 0) == (a > 0))),
        binop_value(OP_DIV, a, -1i32) == Some(vstd::wrapping::i32_specs::wrapping_sub(0, a)),
        binop_value(OP_MOD, a, -1i32) == Some(0i32),
{
    if b != 0 && b != -1 {
        let x = a as int;
        let d = b as int;
        if x == 0 {
        } else if x > 0 && d > 0 {
            assert((x / d) * d + x % d == x && 0 <= x % d < d && 0 <= x / d <= x) by (nonlinear_arith)
                requires
                    x > 0,
                    d > 0,
            ;
        } else if x < 0 && d < 0 {
            assert(((x * -1) / (d * -1)) * d + ((x * -1) % (d * -1)) * -1 == x
                && 0 <= (x * -1) % (d * -1) < d * -1 && 0 <= (x * -1) / (d * -1) <= x * -1) by (nonlinear_arith)
                requires
                    x < 0,
                    d < 0,
            ;
        } else if x < 0 {
            assert((((x * -1) / d) * -1) * d + ((x * -1) % d) * -1 == x
                && 0 <= (x * -1) % d < d && 0 <= (x * -1) / d <= x * -1) by (nonlinear_arith)
                requires
                    x < 0,
                    d > 0,
            ;
        } else {
            assert(((x / (d * -1)) * -1) * d + x % (d * -1) == x
                && 0 <= x % (d * -1) < d * -1 && 0 <= x / (d * -1) <= x) by (nonlinear_arith)
                requires
                    x > 0,
                    d < 0,
            ;
        }
    }
}

/// The comparisons push 1 when the relation holds of the deeper operand
/// `a` against the top `b`, and 0 otherwise; each is the negation of its
/// opposite, and `LT`/`GT` (`LE`/`GE`) are mirror images.
pub proof fn law_comparisons_push_one_exactly_when_they_hold(a: i32, b: i32)
    ensures
        binop_value(OP_EQ, a, b) == Some(if a == b { 1i32 } else { 0i32 }),
        binop_value(OP_LT, a, b) == Some(if a < b { 1i32 } else { 0i32 }),
        binop_value(OP_NE, a, b)->Some_0 == 1 - binop_value(OP_EQ, a, b)->Some_0,
        binop_value(OP_GE, a, b)->Some_0 == 1 - binop_value(OP_LT, a, b)->Some_0,
        binop_value(OP_LE, a, b)->Some_0 == 1 - binop_value(OP_GT, a, b)->Some_0,
        binop_value(OP_GT, a, b) == binop_value(OP_LT, b, a),
        binop_value(OP_LE, a, b) == binop_value(OP_GE, b, a),
{
}

/// Q16.16: multiplying by 1.0 (65536) or dividing by it gives the value
/// back, the product is symmetric, a non-zero value divided by itself is
/// 1.0, and when it fits the product is the exact product scaled down by
/// 2^16, rounded toward minus infinity.
pub proof fn law_fixed_point_product_and_quotient(a: i32, b: i32)
    ensures
        binop_value(OP_MULF, a, 65536i32) == Some(a),
        binop_value(OP_MULF, a, b) == binop_value(OP_MULF, b, a),
        binop_value(OP_DIVF, a, 65536i32) == Some(a),
        binop_value(OP_DIVF, a, 0i32) is None,
        b != 0 ==> binop_value(OP_DIVF, b, b) == Some(65536i32),
        i32::MIN <= (a * b) / 65536 <= i32::MAX ==> binop_value(OP_MULF, a, b) == Some(((a * b) / 65536) as i32),
{
    assert((a as int * 65536) / 65536 == a) by (nonlinear_arith);
    assert(a as int * b as int == b as int * a as int) by (nonlinear_arith);
    let x = a as int * 65536;
    assert(i64::MIN <= x <= i64::MAX) by (nonlinear_arith)
        requires
            x == a as int * 65536,
            i32::MIN <= a <= i32::MAX,
    ;
    if b != 0 {
        let y = b as int * 65536;
        assert(i64::MIN <= y <= i64::MAX) by (nonlinear_arith)
            requires
                y == b as int * 65536,
                i32::MIN <= b <= i32::MAX,
        ;
        if b > 0 {
            assert(y / (b as int) == 65536) by (nonlinear_arith)
                requires
                    y == b as int * 65536,
                    b > 0,
            ;
        } else {
            assert((y * -1) / (b as int * -1) == 65536) by (nonlinear_arith)
                requires
                    y == b as int * 65536,
                    b < 0,
            ;
        }
    }
    if a > 0 {
        assert(x / 65536 == a) by (nonlinear_arith)
            requires
                x == a as int * 65536,
        ;
    } else if a < 0 {
        assert((x * -1) / 65536 == -a) by (nonlinear_arith)
            requires
                x == a as int * 65536,
                a < 0,
        ;
    }
}

/// A binary instruction takes the deeper operand as its left side and the
/// top as its right: `SUB` leaves deeper minus top (when it fits), with
/// one word fewer on the stack and the pc on the next instruction.
pub proof fn law_binary_instructions_take_the_deeper_operand_first(s: VmState, next: u32)
    requires
        2 <= s.sp <= s.stack.len(),
        i32::MIN <= s.stack[s.sp - 2] - s.stack[s.sp - 1] <= i32::MAX,
    ensures
        binary_step(s, OP_SUB, next) matches Step::Next(s2) && s2.sp == s.sp - 1 && s2.pc == next
            && s2.stack[s.sp - 2] == s.stack[s.sp - 2] - s.stack[s.sp - 1],
{
}

/// The control and stack instructions: `JZ` pops the top and jumps to its
/// operand exactly when that top was zero; `PUSHI` pushes its operand;
/// `PUSHL` pushes the named local and `POPL` stores the top into it;
/// `DUP` pushes a copy of the top; `WAIT` yields with the popped top as
/// the wait; `NEG` negates the top (when it fits).
pub proof fn law_control_and_stack_instructions(s: VmState, opnd: u32, next: u32, subs: Seq<RuntimeSubMeta>)
    requires
        1 <= s.sp < EVAL_DEPTH,
        s.stack.len() == EVAL_DEPTH,
        s.locals.len() == LOCALS,
        opnd < LOCALS,
    ensures
        flow_step(s, OP_JZ, opnd, next, subs) matches Step::Next(s2) && s2.sp == s.sp - 1
            && s2.pc == (if s.stack[s.sp - 1] == 0 { opnd } else { next }),
        flow_step(s, OP_PUSHI, opnd, next, subs) matches Step::Next(s2) && s2.sp == s.sp + 1
            && s2.stack[s.sp as int] == opnd as i32,
        flow_step(s, OP_PUSHL, opnd, next, subs) matches Step::Next(s2) && s2.sp == s.sp + 1
            && s2.stack[s.sp as int] == s.locals[opnd as int],
        flow_step(s, OP_POPL, opnd, next, subs) matches Step::Next(s2) && s2.sp == s.sp - 1
            && s2.locals[opnd as int] == s.stack[s.sp - 1],
        flow_step(s, OP_DUP, opnd, next, subs) matches Step::Next(s2) && s2.sp == s.sp + 1
            && s2.stack[s.sp as int] == s.stack[s.sp - 1],
        flow_step(s, OP_WAIT, opnd, next, subs) matches Step::Stop(e, s2) && e == Exec::Yield
            && s2.wait == s.stack[s.sp - 1] as u16 && s2.sp == s.sp - 1,
        s.stack[s.sp - 1] != i32::MIN ==> (flow_step(s, OP_NEG, opnd, next, subs) matches Step::Next(s2)
            && s2.stack[s.sp - 1] == -s.stack[s.sp - 1]),
{
}

/// The scheduling gates: a task whose enemy or bullet owner is gone, or
/// whose bound spell card is gone, is killed whatever else holds of it; a
/// live one born this frame is left alone; one still waiting more than a
/// frame sleeps; one with no frame budget left is left alone; any other
/// runs.
pub proof fn law_gates_kill_orphans_first(t: Task, frame: u32, alive: bool, live: bool, budget: u32)
    ensures
        t.owner_kind != OWNER_STAGE && !alive ==> gate_spec(t, frame, alive, live, budget) == Gate::Kill,
        t.spell_bound != 0 && !live ==> gate_spec(t, frame, alive, live, budget) == Gate::Kill,
        (t.owner_kind == OWNER_STAGE || alive) && (t.spell_bound == 0 || live) ==> (
            gate_spec(t, frame, alive, live, budget) == if t.born_frame == frame {
                Gate::Skip
            } else if t.wait > 1 {
                Gate::Sleep
            } else if budget == 0 {
                Gate::Skip
            } else {
                Gate::Run
            }),
{
}

/// A syscall that takes `n` words and pushes `v` leaves `v` where its first
/// argument was, one word above what lay below its arguments, and changes
/// nothing below; one that pushes nothing just drops its arguments.
pub proof fn law_syscalls_replace_their_arguments_by_their_result(t0: Task, t1: Task, n: int, v: i32)
    requires
        0 <= n <= t0.sp,
        t0.sp - n < EVAL_DEPTH,
    ensures
        stack_effect(t0, t1, Ok::<(), u8>(()), n, Some(v)) ==> t1.sp == t0.sp - n + 1 && t1.stack@[t0.sp - n] == v
            && forall|k: int| 0 <= k < t0.sp - n ==> #[trigger] t1.stack@[k] == t0.stack@[k],
        stack_effect(t0, t1, Ok::<(), u8>(()), n, None) ==> t1.sp == t0.sp - n && t1.stack == t0.stack,
{
}

/// `dist(dx, dy)` has one answer, does not depend on which coordinate
/// comes first, and along an axis is the coordinate's size.
pub proof fn law_distance_is_the_length(dx: i32, dy: i32, v: i32, w: i32)
    ensures
        fx_length(dx, dy, v) && fx_length(dx, dy, w) ==> v == w,
        fx_length(dx, dy, v) == fx_length(dy, dx, v),
        dx >= 0 ==> (fx_length(dx, 0, v) <==> v == dx),
{
    let sq = dx as int * dx as int + dy as int * dy as int;
    if fx_length(dx, dy, v) && fx_length(dx, dy, w) {
        if 0 <= v < i32::MAX && 0 <= w < i32::MAX {
            assert(v == w) by (nonlinear_arith)
                requires
                    0 <= v,
                    0 <= w,
                    v * v <= sq,
                    sq < (v + 1) * (v + 1),
                    w * w <= sq,
                    sq < (w + 1) * (w + 1),
            ;
        } else if 0 <= v < i32::MAX {
            assert(false) by (nonlinear_arith)
                requires
                    0 <= v < i32::MAX,
                    sq < (v + 1) * (v + 1),
                    (i32::MAX as int) * (i32::MAX as int) <= sq,
            ;
        } else if 0 <= w < i32::MAX {
            assert(false) by (nonlinear_arith)
                requires
                    0 <= w < i32::MAX,
                    sq < (w + 1) * (w + 1),
                    (i32::MAX as int) * (i32::MAX as int) <= sq,
            ;
        }
    }
    if dx >= 0 {
        let s0 = dx as int * dx as int + 0int * 0int;
        if fx_length(dx, 0, v) {
            if 0 <= v < i32::MAX {
                assert(v == dx) by (nonlinear_arith)
                    requires
                        0 <= v,
                        0 <= dx,
                        v * v <= dx * dx,
                        dx * dx < (v + 1) * (v + 1),
                ;
            } else {
                assert(dx == i32::MAX) by (nonlinear_arith)
                    requires
                        0 <= dx <= i32::MAX,
                        (i32::MAX as int) * (i32::MAX as int) <= dx * dx,
                ;
            }
        }
        if v == dx {
            if dx < i32::MAX {
                assert(is_isqrt(s0, dx as int)) by (nonlinear_arith)
                    requires
                        s0 == dx * dx + 0int * 0int,
                        0 <= dx,
                ;
            }
        }
    }
}

} // verus!
