use lib::checksum::Checksum;
use lib::boss::BossUiSlot;
use lib::bullets::{BulletSpawn, XformSlot};
use lib::ecl::binding::{EclArg, EclOwner, TaskStartError, World};
use lib::ecl::image::{EclImage, EclValueType, EntryInit, ImageParts, ResolveError, SubId, SubInit, SubKind};
use lib::ecl::ops::{OP_ADD, OP_CALL, OP_COSB, OP_DIV, OP_DIVF, OP_DUP, OP_END, OP_EQ, OP_GE, OP_GT, OP_JMP, OP_JZ, OP_KILL_CHILDREN, OP_KILL_SELF, OP_LE, OP_LT, OP_MOD, OP_MUL, OP_MULF, OP_NE, OP_NEG, OP_POP, OP_POPL, OP_PUSHI, OP_PUSHL, OP_RET, OP_SINB, OP_SPAWN, OP_SUB, OP_SYS, OP_WAIT};
use lib::ecl::shooter::{ShooterSlot, SHOOTERS_PER_TASK, SH_ABS_OFFSET, SH_AIMED, SH_RING};
use lib::ecl::syscall::{dispatch, syscall_implemented, SYS_ADD_BOMBS, SYS_ADD_LIVES, SYS_ADD_POWER, SYS_ADD_SCORE, SYS_AIM_BULLET_AT_PLAYER, SYS_AIM_PLAYER_ANGLE, SYS_ATAN2, SYS_BG, SYS_BGM, SYS_BG_PHASE, SYS_BOSS_SET, SYS_CLEAR_BULLETS, SYS_CLEAR_BULLETS_AT, SYS_CREATE_BULLET, SYS_CREATE_BULLETS_BATCH, SYS_DIE, SYS_DIST, SYS_DROP_ADD, SYS_DROP_CLEAR, SYS_DROP_ITEM, SYS_DROP_ITEMS, SYS_EMIT_REQ, SYS_ENEMY_ALIVE, SYS_ENEMY_HP, SYS_ENEMY_X, SYS_ENEMY_Y, SYS_FRAME, SYS_FX_AT, SYS_FX_ON, SYS_GET_VAR, SYS_KILL_ALL_ENEMIES, SYS_LASER_ALIVE, SYS_LASER_ANCHOR, SYS_LASER_ANGLE, SYS_LASER_CANCEL, SYS_LASER_CREATE, SYS_LASER_FAR, SYS_LASER_NEAR, SYS_LASER_OMEGA, SYS_LASER_X, SYS_LASER_Y, SYS_MOVE_ANGLE, SYS_MOVE_ENEMY_TO, SYS_MOVE_SPEED, SYS_MOVE_VEL, SYS_MOVE_VEL_XY, SYS_NEAREST_ENEMY, SYS_PLAYER_X, SYS_PLAYER_Y, SYS_PULSE_SIGNAL, SYS_RAND_RANGE, SYS_SELF_AGE, SYS_SELF_ANGLE, SYS_SELF_ENEMY, SYS_SELF_HP, SYS_SELF_HP_MAX, SYS_SELF_SPEED, SYS_SELF_VX, SYS_SELF_VY, SYS_SELF_X, SYS_SELF_Y, SYS_SET_ANM_STATE, SYS_SET_BULLET_ACCEL, SYS_SET_BULLET_ANGLE, SYS_SET_BULLET_ANG_VEL, SYS_SET_BULLET_GRAVITY, SYS_SET_BULLET_SPEED, SYS_SET_BULLET_VEL, SYS_SET_ENEMY_FLAG, SYS_SET_HITBOX, SYS_SET_HURTBOX, SYS_SET_INVULN, SYS_SET_VAR, SYS_SH_AIM, SYS_SH_ANGLE, SYS_SH_COUNT, SYS_SH_DIST, SYS_SH_FIRE, SYS_SH_OFFSET, SYS_SH_OFFSET_ABS, SYS_SH_OFFSET_RAD, SYS_SH_REQ, SYS_SH_RESET, SYS_SH_RING, SYS_SH_SPEED, SYS_SH_SPRITE, SYS_SH_TASK, SYS_SH_XFORM, SYS_SPAWN_ENEMY, SYS_SPELL_BEGIN, SYS_SPELL_END, SYS_SPELL_RESULT, SYS_SPELL_TIMER, SYS_STAGE_CLEAR, SYS_STOP_BULLET_FX, SYS_TIME_STOP_PLAYER, SYS_TURN_BULLET};
use lib::ecl::task::{Task, CALL_DEPTH, EVAL_DEPTH, LOCALS, OWNER_BULLET, OWNER_ENEMY, OWNER_STAGE, TASK_CAP};
use lib::ecl::vm::{exec, gate, run_tasks, Exec, Gate, SlotOutcome, FAULT_BAD_OP, FAULT_BUDGET, FAULT_CALL_DEPTH, FAULT_DIV_ZERO, FAULT_PC_OOB, FAULT_STACK, FAULT_UNIMPLEMENTED};
use lib::enemy::{pack_handle, EnemySpawn, ENEMY_DYING, ENEMY_KILLALL_EXEMPT, ENEMY_NO_BODY};
use lib::events::{Event, EVT_STAGE_CLEARED, EVT_TASK_FAULT};
use lib::math::{Angle, Fx};
use lib::pool::{Handle, Pool};
use lib::ecl::syscall::{SYS_LASER_AIM, SYS_LASER_ORIGIN, SYS_LASER_ROTATE, SYS_LASER_SPEED, SYS_LASER_START};
use lib::world::{POOL_FIELD, POOL_LASER, POWER_MAX, STOP_STOCK_MAX};
use lib::consts::{REQ_FX_AT, REQ_FX_ATTACHED};
use lib::world::{AnchorKind, Appearance, BulletOp, BulletView, EnemyOp, EnemyView, FieldSpec, LaserOp, LaserSpawn, LaserView, SpellView, Simulation, WorldTables, Recorder, POOL_TASK, STATUS_BAD_ARGS, STATUS_OK, STATUS_POOL_FULL};

// ── a small world standing behind the sim ──────────────────────────────

#[derive(Clone, Copy, Debug, PartialEq)]
struct EnemyRec {
    x: Fx,
    y: Fx,
    vx: Fx,
    vy: Fx,
    speed: Fx,
    angle: Angle,
    hp: i32,
    hp_max: i32,
    flags: u8,
    main_task: u32,
    sprite: u16,
    score: u16,
    drop_count: [u8; 5],
    anm_state: u16,
    anm_state_frame: u32,
    invuln: u16,
    radius: Fx,
    hurtbox: Fx,
    last_op: Option<EnemyOp>,
}

fn enemy_rec(x: i32, y: i32, hp: i32) -> EnemyRec {
    EnemyRec {
        x: Fx::from_int(x),
        y: Fx::from_int(y),
        vx: Fx::zero(),
        vy: Fx::zero(),
        speed: Fx::zero(),
        angle: Angle::zero(),
        hp,
        hp_max: hp,
        flags: 0,
        main_task: 0,
        sprite: 0,
        score: 0,
        drop_count: [0; 5],
        anm_state: 0,
        anm_state_frame: 0,
        invuln: 0,
        radius: Fx::from_int(12),
        hurtbox: Fx::from_int(16),
        last_op: None,
    }
}

#[derive(Clone, Copy, Debug)]
struct BulletRec {
    spawn: BulletSpawn,
    xform_len: usize,
    first_xform: Option<XformSlot>,
    last_op: Option<BulletOp>,
}

#[derive(Clone, Copy, Debug, PartialEq)]
struct LaserRec {
    spawn: LaserSpawn,
    omega: i16,
    anchor: Option<Handle>,
    start: Fx,
    end: Fx,
    angle: Angle,
    ox: Fx,
    oy: Fx,
    last_op: Option<LaserOp>,
}

struct Mock {
    enemies: Pool<EnemyRec>,
    bullets: Pool<BulletRec>,
    lasers: Pool<LaserRec>,
    spells: [SpellView; 2],
    spell_ids: [u16; 2],
    spell_seq: [u16; 2],
    frames_left: [i32; 2],
    events: Vec<Event>,
    reqs: Vec<(u16, [i32; 6])>,
    globals: Vec<i32>,
    rng_draws: u32,
    items: Vec<(Fx, Fx, u8)>,
    fields: Vec<FieldSpec>,
    anchors: Vec<(AnchorKind, u16)>,
    boss_ui: [BossUiSlot; 2],
    signals: Vec<usize>,
    kill_alls: Vec<(Option<Handle>, bool)>,
    aim: usize,
    batches: Vec<(u16, Angle, i16, u16, Fx, Fx)>,
    field_cap: usize,
}

fn null() -> Handle {
    Handle::null()
}

fn bam_to_rad(a: Angle) -> f64 {
    a.raw() as f64 / 65536.0 * std::f64::consts::TAU
}

impl Mock {
    fn new() -> Mock {
        let e = enemy_rec(0, 0, 0);
        let b = BulletRec {
            spawn: BulletSpawn {
                x: Fx::zero(),
                y: Fx::zero(),
                vx: Fx::zero(),
                vy: Fx::zero(),
                speed: Fx::zero(),
                angle: Angle::zero(),
                sprite: 0,
                radius: Fx::zero(),
                born_frame: 0,
            },
            xform_len: 0,
            first_xform: None,
            last_op: None,
        };
        let l = LaserRec {
            omega: 0,
            anchor: None,
            spawn: LaserSpawn {
                ox: Fx::zero(),
                oy: Fx::zero(),
                angle: Angle::zero(),
                len: Fx::zero(),
                width: Fx::zero(),
                sprite: 0,
                warn: 0,
                active: 0,
                fade: 0,
            },
            start: Fx::zero(),
            end: Fx::zero(),
            angle: Angle::zero(),
            ox: Fx::zero(),
            oy: Fx::zero(),
            last_op: None,
        };
        let spell = SpellView { active: false, epoch: 0, boss: null() };
        Mock {
            enemies: Pool::new(256, e),
            bullets: Pool::new(8192, b),
            lasers: Pool::new(64, l),
            spells: [spell, spell],
            spell_ids: [0, 0],
            spell_seq: [0, 0],
            frames_left: [0, 0],
            events: Vec::new(),
            reqs: Vec::new(),
            globals: vec![0; 256],
            rng_draws: 0,
            items: Vec::new(),
            fields: Vec::new(),
            anchors: Vec::new(),
            boss_ui: [BossUiSlot::default(), BossUiSlot::default()],
            signals: Vec::new(),
            kill_alls: Vec::new(),
            aim: 0,
            batches: Vec::new(),
            field_cap: 16,
        }
    }

    fn spawn_enemy(&mut self, x: i32, y: i32, hp: i32) -> Handle {
        self.enemies.allocate(enemy_rec(x, y, hp)).unwrap()
    }

    fn enemy(&self, h: Handle) -> EnemyRec {
        self.enemies.item(self.enemies.get(h).unwrap())
    }

    fn enemy_at(&self, i: usize) -> EnemyRec {
        self.enemies.item(i)
    }

    fn edit_enemy(&mut self, i: usize, f: impl FnOnce(&mut EnemyRec)) {
        let mut e = self.enemies.item(i);
        f(&mut e);
        self.enemies.set_item(i, e);
    }

    fn bullet_at(&mut self, x: i32, y: i32) -> Handle {
        let mut b = self.bullets.item(0);
        b.spawn.x = Fx::from_int(x);
        b.spawn.y = Fx::from_int(y);
        b.xform_len = 0;
        b.first_xform = None;
        b.last_op = None;
        self.bullets.allocate(b).unwrap()
    }

    fn bullet(&self, h: Handle) -> BulletRec {
        self.bullets.item(self.bullets.get(h).unwrap())
    }

    fn live_bullets(&self) -> Vec<BulletRec> {
        self.bullets.iter_alive().into_iter().map(|i| self.bullets.item(i)).collect()
    }

    fn spell_begin_internal(&mut self, slot: usize, boss: Handle, spell_id: u16) -> bool {
        if slot >= 2 || self.spells[slot].active {
            return false;
        }
        self.spell_seq[slot] = self.spell_seq[slot].wrapping_add(1);
        self.spells[slot] = SpellView { active: true, epoch: self.spell_seq[slot], boss };
        self.spell_ids[slot] = spell_id;
        self.frames_left[slot] = 100;
        true
    }
}

impl Simulation for Mock {
    fn sin(&self, a: Angle) -> Fx {
        Fx::from_raw((bam_to_rad(a).sin() * 65536.0).round() as i32)
    }
    fn cos(&self, a: Angle) -> Fx {
        Fx::from_raw((bam_to_rad(a).cos() * 65536.0).round() as i32)
    }
    fn atan2(&self, y: Fx, x: Fx) -> Angle {
        if y.raw() == 0 && x.raw() == 0 {
            return Angle::zero();
        }
        let r = (y.raw() as f64).atan2(x.raw() as f64);
        let b = (r / std::f64::consts::TAU * 65536.0).round() as i64;
        Angle(b.rem_euclid(65536) as u16)
    }
    fn polar_to_vec(&self, r: Fx, a: Angle) -> (Fx, Fx) {
        let c = self.cos(a).raw() as i64;
        let s = self.sin(a).raw() as i64;
        (Fx::from_raw(((r.raw() as i64 * c) >> 16) as i32), Fx::from_raw(((r.raw() as i64 * s) >> 16) as i32))
    }
    fn rand_range(&mut self, n: u32) -> u32 {
        self.rng_draws += 1;
        (self.rng_draws * 7919) % n
    }
    fn enemy_generation(&self, index: usize) -> Option<u16> {
        if self.enemies.is_alive(index) { Some(self.enemies.generation(index)) } else { None }
    }
    fn enemy_view(&self, index: usize) -> EnemyView {
        let e = self.enemies.item(index);
        EnemyView { x: e.x, y: e.y, vx: e.vx, vy: e.vy, speed: e.speed, angle: e.angle, hp: e.hp, hp_max: e.hp_max }
    }
    fn enemy_main_task(&self, index: usize) -> u32 {
        self.enemies.item(index).main_task
    }
    fn set_enemy_main_task(&mut self, index: usize, v: u32) {
        self.edit_enemy(index, |e| e.main_task = v);
    }
    fn mark_enemy_dying(&mut self, index: usize) {
        self.edit_enemy(index, |e| e.flags |= ENEMY_DYING);
    }
    fn bullet_generation(&self, index: usize) -> Option<u16> {
        if self.bullets.is_alive(index) { Some(self.bullets.generation(index)) } else { None }
    }
    fn bullet_view(&mut self, index: usize) -> BulletView {
        let b = self.bullets.item(index).spawn;
        BulletView { x: b.x, y: b.y, vx: b.vx, vy: b.vy, speed: b.speed, angle: b.angle }
    }
    fn laser_generation(&self, index: usize) -> Option<u16> {
        if self.lasers.is_alive(index) { Some(self.lasers.generation(index)) } else { None }
    }
    fn laser_view(&self, index: usize) -> LaserView {
        let l = self.lasers.item(index);
        LaserView { ox: l.ox, oy: l.oy, angle: l.angle, start: l.start, end: l.end }
    }
    fn spell(&self, slot: usize) -> SpellView {
        self.spells[slot]
    }
    fn spell_frames_left_of(&self, h: Handle) -> i32 {
        for s in 0..2 {
            if self.spells[s].active && self.spells[s].boss == h {
                return self.frames_left[s];
            }
        }
        -1
    }
    fn nearest_enemy(&self, x: Fx, y: Fx) -> Option<Handle> {
        let mut best: Option<(i64, usize)> = None;
        for i in self.enemies.iter_alive() {
            let e = self.enemies.item(i);
            if e.flags & ENEMY_DYING != 0 {
                continue;
            }
            let dx = (e.x.raw() - x.raw()) as i64;
            let dy = (e.y.raw() - y.raw()) as i64;
            let d = dx * dx + dy * dy;
            if best.map_or(true, |(bd, _)| d < bd) {
                best = Some((d, i));
            }
        }
        best.map(|(_, i)| Handle { index: i as u16, generation: self.enemies.generation(i) })
    }
    fn aim_target(&self, _x: Fx, _y: Fx) -> usize {
        self.aim
    }
    fn get_var(&self, slot: u16) -> i32 {
        self.globals.get(slot as usize).copied().unwrap_or(0)
    }
    fn create_bullet(&mut self, init: BulletSpawn, xform: &[XformSlot]) -> Handle {
        let rec = BulletRec { spawn: init, xform_len: xform.len(), first_xform: xform.first().copied(), last_op: None };
        self.bullets.allocate(rec).unwrap_or(null())
    }
    fn create_bullets_batch(&mut self, init: BulletSpawn, n_angle: u16, angle0: Angle, angle_step: i16, n_speed: u16, speed0: Fx, speed_step: Fx) -> u32 {
        self.batches.push((n_angle, angle0, angle_step, n_speed, speed0, speed_step));
        let mut n = 0;
        for i in 0..n_angle as i32 {
            for j in 0..n_speed as i32 {
                let a = Angle(((angle0.raw() as i32 + i * angle_step as i32) & 0xFFFF) as u16);
                let sp = Fx::from_raw(speed0.raw() + j * speed_step.raw());
                let (vx, vy) = self.polar_to_vec(sp, a);
                let rec = BulletRec { spawn: BulletSpawn { vx, vy, speed: sp, angle: a, ..init }, xform_len: 0, first_xform: None, last_op: None };
                if self.bullets.allocate(rec).is_none() {
                    return n;
                }
                n += 1;
            }
        }
        n
    }
    fn create_enemy(&mut self, init: EnemySpawn) -> Handle {
        let mut e = enemy_rec(0, 0, init.hp);
        e.x = init.x;
        e.y = init.y;
        e.hp_max = init.hp_max;
        e.radius = init.radius;
        e.hurtbox = init.hurtbox;
        e.sprite = init.sprite;
        e.score = init.score;
        e.drop_count = init.drop_count;
        e.anm_state_frame = init.anm_state_frame;
        self.enemies.allocate(e).unwrap_or(null())
    }
    fn drop_item(&mut self, x: Fx, y: Fx, item_type: u8) -> Option<u16> {
        if item_type >= 5 {
            return None;
        }
        self.items.push((x, y, item_type));
        Some((self.items.len() - 1) as u16)
    }
    fn bullet_op(&mut self, h: Handle, op: BulletOp) {
        if let Some(i) = self.bullets.get(h) {
            let mut b = self.bullets.item(i);
            b.last_op = Some(op);
            if let BulletOp::SetSpeed(s) = op {
                b.spawn.speed = s;
            }
            self.bullets.set_item(i, b);
        }
    }
    fn enemy_op(&mut self, h: Handle, op: EnemyOp) {
        if let Some(i) = self.enemies.get(h) {
            let frame_stamp = 0;
            self.edit_enemy(i, |e| {
                e.last_op = Some(op);
                match op {
                    EnemyOp::VelPolar { angle, speed, dur: 0, .. } => {
                        e.angle = angle;
                        e.speed = speed;
                    }
                    EnemyOp::Angle { angle, dur: 0, .. } => e.angle = angle,
                    EnemyOp::Speed { speed, dur: 0, .. } => e.speed = speed,
                    EnemyOp::SetAnmState(s) => {
                        e.anm_state = s;
                        e.anm_state_frame = frame_stamp;
                    }
                    EnemyOp::SetInvuln(n) => e.invuln = n,
                    EnemyOp::SetHitbox(r) => e.radius = r,
                    EnemyOp::SetHurtbox(r) => e.hurtbox = r,
                    EnemyOp::SetFlags(m, on) => {
                        if on { e.flags |= m } else { e.flags &= !m }
                    }
                    EnemyOp::ClearDrops => e.drop_count = [0; 5],
                    EnemyOp::AddDrop(t, n) => {
                        let k = t as usize;
                        e.drop_count[k] = e.drop_count[k].saturating_add(n);
                    }
                    EnemyOp::Die => {
                        e.hp = e.hp.min(0);
                        e.flags |= ENEMY_DYING;
                    }
                    _ => {}
                }
            });
        }
    }
    fn kill_all_enemies(&mut self, except: Option<Handle>, die: bool) {
        self.kill_alls.push((except, die));
    }
    fn create_field(&mut self, f: FieldSpec) -> bool {
        if self.fields.len() >= self.field_cap {
            return false;
        }
        self.fields.push(f);
        true
    }
    fn set_anchor(&mut self, kind: AnchorKind, v: u16) {
        self.anchors.push((kind, v));
    }
    fn pulse_signal(&mut self, ch: usize) {
        self.signals.push(ch);
    }
    fn emit_req(&mut self, id: u16, args: [i32; 6]) {
        self.reqs.push((id, args));
    }
    fn push_event(&mut self, e: Event) {
        self.events.push(e);
    }
    fn boss_set(&mut self, slot: u8, ui: BossUiSlot) {
        if (slot as usize) < 2 {
            self.boss_ui[slot as usize] = ui;
        }
    }
    fn spell_begin(&mut self, slot: usize, boss: Handle, spell_id: u16, time_limit: u16, _bonus0: u32, _flags: u8, threshold: i32) -> bool {
        if let Some(i) = self.enemies.get(boss) {
            if threshold > self.enemies.item(i).hp {
                return false;
            }
        }
        let ok = self.spell_begin_internal(slot, boss, spell_id);
        if ok {
            self.frames_left[slot] = time_limit as i32;
        }
        ok
    }
    fn spell_end_by_owner(&mut self, h: Handle) {
        for s in 0..2 {
            if self.spells[s].active && self.spells[s].boss == h {
                self.spells[s].active = false;
            }
        }
    }
    fn set_var(&mut self, slot: u16, v: i32) {
        if (slot as usize) < self.globals.len() {
            self.globals[slot as usize] = v;
        }
    }
    fn create_laser(&mut self, init: LaserSpawn) -> Handle {
        let rec = LaserRec { spawn: init, omega: 0, anchor: None, start: Fx::zero(), end: init.len, angle: init.angle, ox: init.ox, oy: init.oy, last_op: None };
        self.lasers.allocate(rec).unwrap_or(null())
    }
    fn laser_op(&mut self, h: Handle, op: LaserOp) {
        if let Some(i) = self.lasers.get(h) {
            let mut l = self.lasers.item(i);
            l.last_op = Some(op);
            match op {
                LaserOp::Omega(w) => l.omega = w,
                LaserOp::Rotate(d) => l.angle = Angle(l.angle.raw().wrapping_add(d.raw())),
                LaserOp::Anchor(e, ox, oy) => {
                    l.anchor = if e == null() { None } else { Some(e) };
                    if e != null() {
                        if let Some(ei) = self.enemies.get(e) {
                            let en = self.enemies.item(ei);
                            l.ox = Fx::from_raw(en.x.raw() + ox.raw());
                            l.oy = Fx::from_raw(en.y.raw() + oy.raw());
                        }
                    }
                }
                LaserOp::Origin(x, y) => {
                    l.ox = x;
                    l.oy = y;
                }
                LaserOp::Start(s) => l.start = s,
                _ => {}
            }
            self.lasers.set_item(i, l);
        }
    }
}

// ── helpers ─────────────────────────────────────────────────────────────

fn test_image(code: Vec<u32>, subs: Vec<SubInit>, entries: Vec<EntryInit>, root: Option<u16>) -> EclImage {
    EclImage::try_from_parts(ImageParts { code, subs, entries, root, marks: vec![], content_hash: 0 })
        .expect("a valid test image")
}

fn async_image(code: Vec<u32>, params: usize) -> EclImage {
    test_image(
        code,
        vec![
            SubInit::new(0, SubKind::Root, vec![]),
            SubInit::new(0, SubKind::Async, vec![EclValueType::Int; params]),
        ],
        vec![EntryInit::new("worker", 1)],
        Some(0),
    )
}

fn call_image(code: Vec<u32>, call_entry: u32) -> EclImage {
    test_image(
        code,
        vec![SubInit::new(0, SubKind::Root, vec![]), SubInit::new(call_entry, SubKind::CallOnly, vec![])],
        vec![],
        Some(0),
    )
}

fn sid() -> SubId {
    SubId::default()
}

struct Env {
    w: World,
    m: Recorder<Mock>,
    tables: WorldTables,
}

fn test_tables() -> WorldTables {
    let mut appearances = Vec::new();
    for k in 0..48u16 {
        appearances.push(Appearance { valid: true, sprite: k, radius: Fx::from_int(2 + (k % 4) as i32) });
    }
    WorldTables { appearances, drop_tables: vec![[0; 5], [2, 1, 0, 0, 0]] }
}

fn test_world() -> Env {
    Env { w: World::new(), m: Recorder::new(Mock::new()), tables: test_tables() }
}

fn exec_in(env: &mut Env, task: &mut Task, code: &[u32], ecl: &EclImage, budget: &mut u32, self_index: u16, frame: u32) -> Exec {
    exec(task, code, budget, &mut env.w.tasks, ecl, &env.tables, &mut env.w.body, &mut env.m, self_index, frame)
}

fn run(code: &[u32]) -> (Exec, Task) {
    let mut task = Task::default();
    let mut budget = u32::MAX;
    let mut env = test_world();
    let ecl = EclImage::empty();
    let r = exec_in(&mut env, &mut task, code, &ecl, &mut budget, 0, 0);
    (r, task)
}

fn run_pass(env: &mut Env, ecl: &EclImage) {
    run_tasks(&mut env.w.tasks, &mut env.w.body, ecl, &env.tables, &mut env.m);
}

fn op(o: u8) -> u32 {
    o as u32
}

// ── the interpreter ─────────────────────────────────────────────────────

#[test]
fn pushi_and_end() {
    let (r, t) = run(&[op(OP_PUSHI), 42, op(OP_END)]);
    assert_eq!(r, Exec::End);
    assert_eq!(t.sp, 1);
    assert_eq!(t.stack[0], 42);
}

#[test]
fn wait_truncates_to_low_16_bits() {
    let (r, t) = run(&[op(OP_PUSHI), -1i32 as u32, op(OP_WAIT), op(OP_END)]);
    assert_eq!(r, Exec::Yield);
    assert_eq!(t.wait, 65535);
    let (r, t) = run(&[op(OP_PUSHI), 65536u32, op(OP_WAIT), op(OP_END)]);
    assert_eq!(r, Exec::Yield);
    assert_eq!(t.wait, 0);
}

#[test]
fn arith_wrapping_edge_min_over_neg_one() {
    let (r, t) = run(&[op(OP_PUSHI), i32::MIN as u32, op(OP_PUSHI), -1i32 as u32, op(OP_DIV), op(OP_END)]);
    assert_eq!(r, Exec::End);
    assert_eq!(t.stack[0], i32::MIN);
    let (r, t) = run(&[op(OP_PUSHI), i32::MIN as u32, op(OP_PUSHI), -1i32 as u32, op(OP_MOD), op(OP_END)]);
    assert_eq!(r, Exec::End);
    assert_eq!(t.stack[0], 0);
    let (r, t) = run(&[op(OP_PUSHI), i32::MIN as u32, op(OP_NEG), op(OP_END)]);
    assert_eq!(r, Exec::End);
    assert_eq!(t.stack[0], i32::MIN);
}

#[test]
fn integer_arith_family() {
    let (_, t) = run(&[op(OP_PUSHI), 7, op(OP_PUSHI), 3, op(OP_ADD)]);
    assert_eq!(t.stack[0], 10);
    let (_, t) = run(&[op(OP_PUSHI), 7, op(OP_PUSHI), 3, op(OP_SUB)]);
    assert_eq!(t.stack[0], 4);
    let (_, t) = run(&[op(OP_PUSHI), 7, op(OP_PUSHI), 3, op(OP_MUL)]);
    assert_eq!(t.stack[0], 21);
    let (_, t) = run(&[op(OP_PUSHI), 7, op(OP_PUSHI), 3, op(OP_DIV)]);
    assert_eq!(t.stack[0], 2);
    let (_, t) = run(&[op(OP_PUSHI), 7, op(OP_PUSHI), 3, op(OP_MOD)]);
    assert_eq!(t.stack[0], 1);
    let (_, t) = run(&[op(OP_PUSHI), 7, op(OP_NEG)]);
    assert_eq!(t.stack[0], -7);
}

#[test]
fn negative_division_truncates_toward_zero() {
    let (_, t) = run(&[op(OP_PUSHI), -7i32 as u32, op(OP_PUSHI), 2, op(OP_DIV)]);
    assert_eq!(t.stack[0], -3);
    let (_, t) = run(&[op(OP_PUSHI), -7i32 as u32, op(OP_PUSHI), 2, op(OP_MOD)]);
    assert_eq!(t.stack[0], -1);
    let (_, t) = run(&[op(OP_PUSHI), Fx::from_int(-3).raw() as u32, op(OP_PUSHI), Fx::from_int(2).raw() as u32, op(OP_DIVF)]);
    assert_eq!(t.stack[0], -98304, "-1.5 in Q16.16");
    let (_, t) = run(&[op(OP_PUSHI), -1i32 as u32, op(OP_PUSHI), 1, op(OP_MULF)]);
    assert_eq!(t.stack[0], -1, "the product shifts right with floor, as an arithmetic shift does");
}

#[test]
fn div_and_mod_and_divf_by_zero_fault() {
    let (r, _) = run(&[op(OP_PUSHI), 7, op(OP_PUSHI), 0, op(OP_DIV)]);
    assert_eq!(r, Exec::Fault(FAULT_DIV_ZERO));
    let (r, _) = run(&[op(OP_PUSHI), 7, op(OP_PUSHI), 0, op(OP_MOD)]);
    assert_eq!(r, Exec::Fault(FAULT_DIV_ZERO));
    let (r, _) = run(&[op(OP_PUSHI), 65536, op(OP_PUSHI), 0, op(OP_DIVF)]);
    assert_eq!(r, Exec::Fault(FAULT_DIV_ZERO));
}

#[test]
fn mulf_and_divf_q16_16_semantics() {
    let (_, t) = run(&[op(OP_PUSHI), Fx::from_int(2).raw() as u32, op(OP_PUSHI), Fx::from_int(3).raw() as u32, op(OP_MULF)]);
    assert_eq!(t.stack[0], Fx::from_int(6).raw());
    let (_, t) = run(&[op(OP_PUSHI), Fx::from_int(6).raw() as u32, op(OP_PUSHI), Fx::from_int(3).raw() as u32, op(OP_DIVF)]);
    assert_eq!(t.stack[0], Fx::from_int(2).raw());
}

#[test]
fn sinb_cosb_use_math_trig_tables() {
    let (_, t) = run(&[op(OP_PUSHI), 16384, op(OP_SINB)]);
    assert_eq!(t.stack[0], Fx::one().raw());
    let (_, t) = run(&[op(OP_PUSHI), 0, op(OP_COSB)]);
    assert_eq!(t.stack[0], Fx::one().raw());
}

#[test]
fn compare_ops_push_zero_or_one() {
    let cases: [(u8, i32); 6] = [(OP_LT, 1), (OP_GT, 0), (OP_EQ, 0), (OP_NE, 1), (OP_LE, 1), (OP_GE, 0)];
    for (o, expect) in cases {
        let (_, t) = run(&[op(OP_PUSHI), 3, op(OP_PUSHI), 5, op(o)]);
        assert_eq!(t.stack[0], expect, "op {o}: 3 vs 5");
    }
}

#[test]
fn dup_and_pop_semantics() {
    let (_, t) = run(&[op(OP_PUSHI), 42, op(OP_DUP)]);
    assert_eq!(t.sp, 2);
    assert_eq!((t.stack[0], t.stack[1]), (42, 42));
    let (_, t) = run(&[op(OP_PUSHI), 1, op(OP_PUSHI), 2, op(OP_POP)]);
    assert_eq!(t.sp, 1);
    assert_eq!(t.stack[0], 1);
}

#[test]
fn dup_and_pop_on_empty_stack_fault() {
    let (r, _) = run(&[op(OP_DUP)]);
    assert_eq!(r, Exec::Fault(FAULT_STACK));
    let (r, _) = run(&[op(OP_POP)]);
    assert_eq!(r, Exec::Fault(FAULT_STACK));
}

#[test]
fn binary_op_with_one_value_leaves_the_first_pop_done() {
    let (r, t) = run(&[op(OP_PUSHI), 5, op(OP_ADD)]);
    assert_eq!(r, Exec::Fault(FAULT_STACK));
    assert_eq!(t.sp, 0, "the top value was popped before the underflow");
}

#[test]
fn jmp_unconditional_skips_to_target() {
    let code = [op(OP_JMP), 4, op(OP_PUSHI), 999, op(OP_PUSHI), 5, op(OP_END)];
    let (r, t) = run(&code);
    assert_eq!(r, Exec::End);
    assert_eq!(t.sp, 1);
    assert_eq!(t.stack[0], 5);
}

#[test]
fn jz_branches_on_zero_and_falls_through_otherwise() {
    fn jz_program(v: i32) -> [u32; 10] {
        [op(OP_PUSHI), v as u32, op(OP_JZ), 7, op(OP_PUSHI), 111, op(OP_END), op(OP_PUSHI), 222, op(OP_END)]
    }
    let (r, t) = run(&jz_program(0));
    assert_eq!(r, Exec::End);
    assert_eq!(t.stack[0], 222);
    let (r, t) = run(&jz_program(7));
    assert_eq!(r, Exec::End);
    assert_eq!(t.stack[0], 111);
}

#[test]
fn wait_yields_with_precise_wait_value_and_pc() {
    let code = [op(OP_PUSHI), 30, op(OP_WAIT), op(OP_PUSHI), 99, op(OP_END)];
    let mut task = Task::default();
    let mut budget = u32::MAX;
    let mut env = test_world();
    let ecl = EclImage::empty();
    let r = exec_in(&mut env, &mut task, &code, &ecl, &mut budget, 0, 0);
    assert_eq!(r, Exec::Yield);
    assert_eq!(task.wait, 30);
    assert_eq!(task.pc, 3);
    assert_eq!(task.sp, 0);
    let r2 = exec_in(&mut env, &mut task, &code, &ecl, &mut budget, 0, 0);
    assert_eq!(r2, Exec::End);
    assert_eq!(task.stack[0], 99);
}

#[test]
fn call_ret_roundtrip_shares_locals_across_call() {
    let code = [
        op(OP_PUSHI), 5, op(OP_POPL), 0, op(OP_CALL), 1, op(OP_PUSHL), 0, op(OP_END),
        op(OP_PUSHL), 0, op(OP_PUSHI), 1, op(OP_ADD), op(OP_POPL), 0, op(OP_RET),
    ];
    let ecl = call_image(code.to_vec(), 9);
    let mut task = Task::default();
    let mut budget = u32::MAX;
    let mut env = test_world();
    let r = exec_in(&mut env, &mut task, ecl.code(), &ecl, &mut budget, 0, 0);
    assert_eq!(r, Exec::End);
    assert_eq!(task.sp, 1);
    assert_eq!(task.stack[0], 6);
    assert_eq!(task.locals[0], 6);
}

#[test]
fn call_depth_exceeded_at_9th_call() {
    let code = [op(OP_CALL), 1];
    let ecl = call_image(code.to_vec(), 0);
    let mut task = Task::default();
    let mut budget = u32::MAX;
    let mut env = test_world();
    let r = exec_in(&mut env, &mut task, ecl.code(), &ecl, &mut budget, 0, 0);
    assert_eq!(r, Exec::Fault(FAULT_CALL_DEPTH));
    assert_eq!(task.csp as usize, CALL_DEPTH);
}

#[test]
fn call_to_a_non_call_only_sub_faults() {
    // The loader rejects this code, so it is run directly against an image
    // with the same sub table.
    let code = vec![op(OP_CALL), 1];
    let ecl = async_image(vec![op(OP_END), op(OP_END)], 0);
    let mut task = Task::default();
    let mut budget = u32::MAX;
    let mut env = test_world();
    let r = exec_in(&mut env, &mut task, &code, &ecl, &mut budget, 0, 0);
    assert_eq!(r, Exec::Fault(FAULT_BAD_OP));
}

#[test]
fn ret_on_empty_call_stack_faults() {
    let (r, _) = run(&[op(OP_RET)]);
    assert_eq!(r, Exec::Fault(FAULT_CALL_DEPTH));
}

fn n_pushi(n: usize, v: i32) -> Vec<u32> {
    let mut code = Vec::with_capacity(n * 2 + 1);
    for _ in 0..n {
        code.push(op(OP_PUSHI));
        code.push(v as u32);
    }
    code.push(op(OP_END));
    code
}

#[test]
fn eval_stack_full_at_32_overflow_at_33rd_push() {
    let (r, t) = run(&n_pushi(32, 1));
    assert_eq!(r, Exec::End);
    assert_eq!(t.sp as usize, EVAL_DEPTH);
    let (r, _) = run(&n_pushi(33, 1));
    assert_eq!(r, Exec::Fault(FAULT_STACK));
}

fn jmp_chain_then_end(n_jmps: usize) -> Vec<u32> {
    let mut code = Vec::with_capacity(n_jmps * 2 + 1);
    for i in 0..n_jmps {
        code.push(op(OP_JMP));
        code.push(((i + 1) * 2) as u32);
    }
    code.push(op(OP_END));
    code
}

#[test]
fn budget_boundary_1024_ok_1025_faults() {
    let (r, _) = run(&jmp_chain_then_end(1023));
    assert_eq!(r, Exec::End);
    let (r, _) = run(&jmp_chain_then_end(1024));
    assert_eq!(r, Exec::Fault(FAULT_BUDGET));
}

#[test]
fn global_budget_exhaustion_also_faults() {
    let code = [op(OP_JMP), 0];
    let mut task = Task::default();
    let mut budget = 5u32;
    let mut env = test_world();
    let ecl = EclImage::empty();
    let r = exec_in(&mut env, &mut task, &code, &ecl, &mut budget, 0, 0);
    assert_eq!(r, Exec::Fault(FAULT_BUDGET));
    assert_eq!(budget, 0);
}

#[test]
fn each_fetched_instruction_costs_one_unit_of_budget() {
    let code = [op(OP_PUSHI), 1, op(OP_PUSHI), 2, op(OP_ADD), op(OP_END)];
    let mut task = Task::default();
    let mut budget = 100u32;
    let mut env = test_world();
    let ecl = EclImage::empty();
    let r = exec_in(&mut env, &mut task, &code, &ecl, &mut budget, 0, 0);
    assert_eq!(r, Exec::End);
    assert_eq!(budget, 96);
}

#[test]
fn unknown_op_faults() {
    let (r, _) = run(&[255u32]);
    assert_eq!(r, Exec::Fault(FAULT_BAD_OP));
}

#[test]
fn high_bits_of_the_head_word_are_ignored() {
    let (r, t) = run(&[0xABCD_0000 | op(OP_PUSHI), 7, op(OP_END)]);
    assert_eq!(r, Exec::End);
    assert_eq!(t.stack[0], 7);
}

#[test]
fn pc_out_of_bounds_on_empty_code_faults() {
    let (r, _) = run(&[]);
    assert_eq!(r, Exec::Fault(FAULT_PC_OOB));
}

#[test]
fn truncated_operand_is_pc_oob_fault() {
    let (r, _) = run(&[op(OP_PUSHI)]);
    assert_eq!(r, Exec::Fault(FAULT_PC_OOB));
}

#[test]
fn pushl_popl_bad_index_faults() {
    let (r, _) = run(&[op(OP_PUSHL), LOCALS as u32]);
    assert_eq!(r, Exec::Fault(FAULT_BAD_OP));
    let (r, _) = run(&[op(OP_PUSHI), 1, op(OP_POPL), LOCALS as u32]);
    assert_eq!(r, Exec::Fault(FAULT_BAD_OP));
}

#[test]
fn pushl_reads_locals_and_popl_writes_them() {
    let mut task = Task::default();
    task.locals[3] = 77;
    let mut budget = u32::MAX;
    let mut env = test_world();
    let ecl = EclImage::empty();
    let r = exec_in(&mut env, &mut task, &[op(OP_PUSHL), 3], &ecl, &mut budget, 0, 0);
    assert_eq!(r, Exec::Fault(FAULT_PC_OOB));
    assert_eq!(task.stack[0], 77);

    let mut task2 = Task::default();
    let mut budget2 = u32::MAX;
    let mut env2 = test_world();
    let r2 = exec_in(&mut env2, &mut task2, &[op(OP_PUSHI), 55, op(OP_POPL), 9], &ecl, &mut budget2, 0, 0);
    assert_eq!(r2, Exec::Fault(FAULT_PC_OOB));
    assert_eq!(task2.locals[9], 55);
}

#[test]
fn fault_unimplemented_numbering_frozen() {
    assert_eq!(FAULT_UNIMPLEMENTED, 6);
}

#[test]
fn sys_op_bad_syscall_number_faults() {
    let (r, _) = run(&[op(OP_SYS), 9999]);
    assert_eq!(r, Exec::Fault(FAULT_BAD_OP));
}

#[test]
fn sys_op_dispatches_frame_read() {
    let mut task = Task::default();
    let mut budget = u32::MAX;
    let mut env = test_world();
    env.w.body.frame = 7;
    let ecl = EclImage::empty();
    let r = exec_in(&mut env, &mut task, &[op(OP_SYS), SYS_FRAME as u32, op(OP_END)], &ecl, &mut budget, 0, 7);
    assert_eq!(r, Exec::End);
    assert_eq!(task.stack[0], 7);
}

#[test]
fn kill_self_ends_like_end() {
    let (r, _) = run(&[op(OP_KILL_SELF)]);
    assert_eq!(r, Exec::End);
}

#[test]
fn spawn_op_inherits_owner_and_stamps_child_fields() {
    let mut env = test_world();
    let ecl = async_image(vec![op(OP_END)], 0);
    let mut budget = u32::MAX;
    let mut task = Task { owner_kind: OWNER_ENEMY, owner_index: 5, owner_gen: 2, ..Task::default() };
    let r = exec_in(&mut env, &mut task, &[op(OP_SPAWN), 1, 0, op(OP_END)], &ecl, &mut budget, 7, 42);
    assert_eq!(r, Exec::End);
    assert_eq!(task.sp, 1);
    let child_idx = task.stack[0];
    assert!(child_idx >= 0);
    let c = env.w.tasks.task(child_idx as usize);
    assert_eq!(c.owner_kind, OWNER_ENEMY);
    assert_eq!(c.owner_index, 5);
    assert_eq!(c.owner_gen, 2);
    assert_eq!(c.parent, 7 + 1);
    assert_eq!(c.born_frame, 42);
    assert_eq!(c.pc, 0);
    assert_eq!(c.locals, [0; LOCALS]);
}

#[test]
fn spawn_with_args_lands_in_child_locals_in_declaration_order() {
    let mut env = test_world();
    let ecl = async_image(vec![op(OP_END)], 3);
    let mut budget = u32::MAX;
    let mut task = Task::default();
    let code = [op(OP_PUSHI), 11, op(OP_PUSHI), 22, op(OP_PUSHI), 33, op(OP_SPAWN), 1, 3, op(OP_END)];
    let r = exec_in(&mut env, &mut task, &code, &ecl, &mut budget, 0, 0);
    assert_eq!(r, Exec::End);
    assert_eq!(task.sp, 1);
    let c = env.w.tasks.task(task.stack[0] as usize);
    assert_eq!(&c.locals[0..3], &[11, 22, 33]);
    assert_eq!(&c.locals[3..], &[0; LOCALS - 3]);
}

#[test]
fn spawn_argc_over_64_faults() {
    let (r, _) = run(&[op(OP_SPAWN), 0, (LOCALS + 1) as u32]);
    assert_eq!(r, Exec::Fault(FAULT_STACK));
}

#[test]
fn spawn_insufficient_parent_stack_faults() {
    let mut env = test_world();
    let ecl = async_image(vec![op(OP_END)], 3);
    let mut budget = u32::MAX;
    let mut task = Task::default();
    let alive_before = env.w.tasks.iter_alive().len();
    let r = exec_in(&mut env, &mut task, &[op(OP_SPAWN), 1, 3], &ecl, &mut budget, 0, 0);
    assert_eq!(r, Exec::Fault(FAULT_STACK));
    assert_eq!(env.w.tasks.iter_alive().len(), alive_before);
}

#[test]
fn spawn_bad_script_id_faults() {
    let mut env = test_world();
    let ecl = EclImage::empty();
    let mut budget = u32::MAX;
    let mut task = Task::default();
    let r = exec_in(&mut env, &mut task, &[op(OP_SPAWN), 0, 0], &ecl, &mut budget, 0, 0);
    assert_eq!(r, Exec::Fault(FAULT_BAD_OP));
}

#[test]
fn spawn_pushes_neg1_and_counts_pool_full_when_task_pool_exhausted() {
    let mut env = test_world();
    for _ in 0..TASK_CAP {
        env.w.tasks.spawn(sid(), 0, (OWNER_STAGE, 0, 0), 0, 0).expect("room left");
    }
    let ecl = async_image(vec![op(OP_END)], 0);
    let mut budget = u32::MAX;
    let mut task = Task::default();
    let r = exec_in(&mut env, &mut task, &[op(OP_SPAWN), 1, 0, op(OP_END)], &ecl, &mut budget, 0, 0);
    assert_eq!(r, Exec::End);
    assert_eq!(task.stack[0], -1);
    assert_eq!(env.w.body.diag.pool_full[POOL_TASK], 1);
}

#[test]
fn kill_children_kills_only_direct_children() {
    let mut env = test_world();
    let self_idx = env.w.tasks.spawn(sid(), 0, (OWNER_STAGE, 0, 0), 0, 0).unwrap();
    let child = env.w.tasks.spawn(sid(), 0, (OWNER_STAGE, 0, 0), self_idx + 1, 0).unwrap();
    let grandchild = env.w.tasks.spawn(sid(), 0, (OWNER_STAGE, 0, 0), child + 1, 0).unwrap();
    let unrelated = env.w.tasks.spawn(sid(), 0, (OWNER_STAGE, 0, 0), 0, 0).unwrap();
    let ecl = EclImage::empty();
    let mut budget = u32::MAX;
    let mut task = *env.w.tasks.task(self_idx as usize);
    let r = exec_in(&mut env, &mut task, &[op(OP_KILL_CHILDREN), op(OP_END)], &ecl, &mut budget, self_idx, 0);
    assert_eq!(r, Exec::End);
    assert!(!env.w.tasks.is_alive(child as usize));
    assert!(env.w.tasks.is_alive(grandchild as usize));
    assert!(env.w.tasks.is_alive(unrelated as usize));
}

#[test]
fn kill_children_does_not_kill_a_reused_slots_previous_orphans() {
    let mut env = test_world();
    let ecl = EclImage::empty();
    let parent_a = env.w.tasks.spawn(sid(), 0, (OWNER_STAGE, 0, 0), 0, 0).unwrap();
    let orphan = env.w.tasks.spawn(sid(), 0, (OWNER_STAGE, 0, 0), parent_a + 1, 0).unwrap();
    env.w.tasks.kill(parent_a as usize);
    let d = env.w.tasks.spawn(sid(), 0, (OWNER_STAGE, 0, 0), 0, 0).unwrap();
    assert_eq!(d, parent_a);
    let mut budget = u32::MAX;
    let mut task = *env.w.tasks.task(d as usize);
    let r = exec_in(&mut env, &mut task, &[op(OP_KILL_CHILDREN), op(OP_END)], &ecl, &mut budget, d, 0);
    assert_eq!(r, Exec::End);
    assert!(env.w.tasks.is_alive(orphan as usize));
}

#[test]
fn op_spawn_child_inherits_parent_spell_bound_and_epoch() {
    let mut env = test_world();
    let ecl = async_image(vec![op(OP_END)], 0);
    let mut budget = u32::MAX;
    let mut bound_task = Task { spell_bound: 3, spell_epoch: 7, ..Task::default() };
    let r = exec_in(&mut env, &mut bound_task, &[op(OP_SPAWN), 1, 0, op(OP_END)], &ecl, &mut budget, 0, 0);
    assert_eq!(r, Exec::End);
    let child = bound_task.stack[0] as usize;
    assert_eq!(env.w.tasks.task(child).spell_bound, 3);
    assert_eq!(env.w.tasks.task(child).spell_epoch, 7);

    let mut budget0 = u32::MAX;
    let mut unbound_task = Task::default();
    let r0 = exec_in(&mut env, &mut unbound_task, &[op(OP_SPAWN), 1, 0, op(OP_END)], &ecl, &mut budget0, 0, 0);
    assert_eq!(r0, Exec::End);
    let child0 = unbound_task.stack[0] as usize;
    assert_eq!(env.w.tasks.task(child0).spell_bound, 0);
    assert_eq!(env.w.tasks.task(child0).spell_epoch, 0);
}

fn set_spell_binding(env: &mut Env, idx: u16, bound: u8, epoch: u16) {
    let mut t = *env.w.tasks.task(idx as usize);
    t.spell_bound = bound;
    t.spell_epoch = epoch;
    env.w.tasks.set_task(idx as usize, t);
}

#[test]
fn run_tasks_kills_spell_bound_task_tree_on_slot_settle_fire_task_survives() {
    let mut env = test_world();
    let boss = env.m.inner.spawn_enemy(0, 80, 999);
    assert!(env.m.inner.spell_begin_internal(0, boss, 1));
    let code = vec![
        op(OP_END), op(OP_SPAWN), 2, 0, op(OP_POP), op(OP_PUSHI), 1, op(OP_WAIT), op(OP_JMP), 1,
        op(OP_PUSHI), 1, op(OP_WAIT), op(OP_JMP), 10,
    ];
    let ecl = test_image(
        code,
        vec![SubInit::new(0, SubKind::Root, vec![]), SubInit::new(1, SubKind::Async, vec![]), SubInit::new(10, SubKind::Async, vec![])],
        vec![EntryInit::new("entry_1", 1), EntryInit::new("entry_2", 2)],
        Some(0),
    );
    let mode_idx = env.w.spawn_sub_internal(&ecl, ecl.sub_id(1).unwrap(), &[], (OWNER_ENEMY, boss.index, boss.generation)).unwrap();
    let epoch = env.m.inner.spells[0].epoch;
    set_spell_binding(&mut env, mode_idx, 1, epoch);
    let bh = env.m.inner.bullet_at(0, 0);
    let fire_idx = env.w.spawn_sub_internal(&ecl, ecl.sub_id(2).unwrap(), &[], (OWNER_BULLET, bh.index, bh.generation)).unwrap();
    assert_eq!(env.w.tasks.task(fire_idx as usize).spell_bound, 0);

    env.w.body.frame = 1;
    run_pass(&mut env, &ecl);
    assert!(env.w.tasks.is_alive(mode_idx as usize));
    assert!(env.w.tasks.is_alive(fire_idx as usize));
    let child_idx = (0..TASK_CAP)
        .find(|&i| env.w.tasks.is_alive(i) && i != mode_idx as usize && i != fire_idx as usize)
        .expect("the mode task spawned a child");
    assert_eq!(env.w.tasks.task(child_idx).spell_bound, 1);
    assert_eq!(env.w.tasks.task(child_idx).spell_epoch, env.w.tasks.task(mode_idx as usize).spell_epoch);
    assert_eq!(env.w.tasks.task(child_idx).owner_kind, OWNER_ENEMY);

    env.m.inner.spell_end_by_owner(boss);
    env.w.body.frame = 2;
    run_pass(&mut env, &ecl);
    assert!(!env.w.tasks.is_alive(mode_idx as usize));
    assert!(!env.w.tasks.is_alive(child_idx));
    assert!(env.w.tasks.is_alive(fire_idx as usize));
    assert_eq!(env.w.body.diag.task_faults, 0);
}

#[test]
fn run_tasks_gate_kills_stale_epoch_leftover_task_on_same_pass_slot_reuse_aba() {
    let mut env = test_world();
    let boss = env.m.inner.spawn_enemy(0, 80, 999);
    assert!(env.m.inner.spell_begin_internal(0, boss, 1));
    let epoch_a = env.m.inner.spells[0].epoch;
    assert_eq!(epoch_a, 1);
    let code = vec![
        op(OP_END), op(OP_PUSHI), 0, op(OP_PUSHI), 99, op(OP_PUSHI), (-1i32) as u32, op(OP_PUSHI), 100,
        op(OP_PUSHI), 1000, op(OP_PUSHI), 0, op(OP_PUSHI), 0, op(OP_SYS), SYS_SPELL_BEGIN as u32, op(OP_END),
        op(OP_PUSHI), 1, op(OP_WAIT), op(OP_JMP), 18,
    ];
    let ecl = test_image(
        code,
        vec![SubInit::new(0, SubKind::Root, vec![]), SubInit::new(1, SubKind::Async, vec![]), SubInit::new(18, SubKind::Async, vec![])],
        vec![EntryInit::new("entry_1", 1), EntryInit::new("entry_2", 2)],
        Some(0),
    );
    env.m.inner.spell_end_by_owner(boss);
    assert!(!env.m.inner.spells[0].active);
    let master_idx = env.w.spawn_sub_internal(&ecl, ecl.sub_id(1).unwrap(), &[], (OWNER_ENEMY, boss.index, boss.generation)).unwrap();
    let leftover_idx = env.w.spawn_sub_internal(&ecl, ecl.sub_id(2).unwrap(), &[], (OWNER_ENEMY, boss.index, boss.generation)).unwrap();
    set_spell_binding(&mut env, leftover_idx, 1, epoch_a);
    assert!(master_idx < leftover_idx);
    env.w.body.frame = 1;
    run_pass(&mut env, &ecl);
    assert!(env.m.inner.spells[0].active);
    assert_eq!(env.m.inner.spell_ids[0], 99);
    let epoch_b = env.m.inner.spells[0].epoch;
    assert_ne!(epoch_b, epoch_a);
    assert!(!env.w.tasks.is_alive(leftover_idx as usize));
}

fn d9_enemy(env: &mut Env) -> Handle {
    let mut e = enemy_rec(0, 100, 5);
    e.drop_count = [2, 1, 0, 0, 0];
    e.score = 100;
    env.m.inner.enemies.allocate(e).unwrap()
}

#[test]
fn enemy_main_task_returning_self_destructs_quietly() {
    let mut env = test_world();
    let ecl = async_image(vec![op(OP_END)], 0);
    let h = d9_enemy(&mut env);
    let eidx = env.m.inner.enemies.get(h).unwrap();
    let main_idx = env.w.spawn_sub_internal(&ecl, ecl.sub_id(1).unwrap(), &[], (OWNER_ENEMY, h.index, h.generation)).unwrap();
    env.m.inner.edit_enemy(eidx, |e| e.main_task = main_idx as u32 + 1);
    let score_before = env.w.body.players[0].score;
    env.w.body.frame = 1;
    run_pass(&mut env, &ecl);
    assert!(env.m.inner.enemy_at(eidx).flags & ENEMY_DYING != 0);
    assert_eq!(env.m.inner.items.len(), 0);
    assert_eq!(env.w.body.players[0].score, score_before);
    assert!(env.m.inner.events.is_empty());
    assert!(!env.w.tasks.is_alive(main_idx as usize));
    assert_eq!(env.m.inner.enemy_at(eidx).main_task, 0);
}

#[test]
fn non_main_enemy_task_ending_does_not_self_destruct() {
    let code = vec![op(OP_END), op(OP_PUSHI), 1, op(OP_WAIT), op(OP_JMP), 1, op(OP_END)];
    let ecl = test_image(
        code,
        vec![SubInit::new(0, SubKind::Root, vec![]), SubInit::new(1, SubKind::Async, vec![]), SubInit::new(6, SubKind::Async, vec![])],
        vec![EntryInit::new("task_main", 1), EntryInit::new("task_side", 2)],
        Some(0),
    );
    let mut env = test_world();
    let h = d9_enemy(&mut env);
    let eidx = env.m.inner.enemies.get(h).unwrap();
    let main_idx = env.w.spawn_sub_internal(&ecl, ecl.sub_id(1).unwrap(), &[], (OWNER_ENEMY, h.index, h.generation)).unwrap();
    env.m.inner.edit_enemy(eidx, |e| e.main_task = main_idx as u32 + 1);
    let side_idx = env.w.spawn_sub_internal(&ecl, ecl.sub_id(2).unwrap(), &[], (OWNER_ENEMY, h.index, h.generation)).unwrap();
    env.w.body.frame = 1;
    run_pass(&mut env, &ecl);
    assert!(!env.w.tasks.is_alive(side_idx as usize));
    assert!(env.w.tasks.is_alive(main_idx as usize));
    assert_eq!(env.m.inner.enemy_at(eidx).flags & ENEMY_DYING, 0);
}

#[test]
fn enemy_main_task_faulting_does_not_self_destruct() {
    let code = vec![op(OP_END), op(OP_DUP)];
    let ecl = test_image(
        code,
        vec![SubInit::new(0, SubKind::Root, vec![]), SubInit::new(1, SubKind::Async, vec![])],
        vec![EntryInit::new("task_main", 1)],
        Some(0),
    );
    let mut env = test_world();
    let h = d9_enemy(&mut env);
    let eidx = env.m.inner.enemies.get(h).unwrap();
    let main_idx = env.w.spawn_sub_internal(&ecl, ecl.sub_id(1).unwrap(), &[], (OWNER_ENEMY, h.index, h.generation)).unwrap();
    env.m.inner.edit_enemy(eidx, |e| e.main_task = main_idx as u32 + 1);
    env.w.body.frame = 1;
    run_pass(&mut env, &ecl);
    assert!(!env.w.tasks.is_alive(main_idx as usize));
    assert_eq!(env.w.body.diag.task_faults, 1);
    assert_eq!(env.m.inner.enemy_at(eidx).flags & ENEMY_DYING, 0);
    assert_eq!(env.m.inner.enemy_at(eidx).main_task, 0);
    assert_eq!(env.m.inner.events.len(), 1);
    assert_eq!(env.m.inner.events[0].kind, EVT_TASK_FAULT);
    assert_eq!(env.m.inner.events[0].a_index, main_idx);
    assert_eq!(env.m.inner.events[0].data, [FAULT_STACK as i32, 1]);
}

#[test]
fn main_task_slot_reuse_does_not_spuriously_self_destruct() {
    let code = vec![op(OP_END), op(OP_DUP), op(OP_END)];
    let ecl = test_image(
        code,
        vec![SubInit::new(0, SubKind::Root, vec![]), SubInit::new(1, SubKind::Async, vec![]), SubInit::new(2, SubKind::Async, vec![])],
        vec![EntryInit::new("task_child", 2), EntryInit::new("task_main", 1)],
        Some(0),
    );
    let mut env = test_world();
    let h = d9_enemy(&mut env);
    let eidx = env.m.inner.enemies.get(h).unwrap();
    let main_idx = env.w.spawn_sub_internal(&ecl, ecl.sub_id(1).unwrap(), &[], (OWNER_ENEMY, h.index, h.generation)).unwrap();
    env.m.inner.edit_enemy(eidx, |e| e.main_task = main_idx as u32 + 1);
    env.w.body.frame = 1;
    run_pass(&mut env, &ecl);
    assert!(!env.w.tasks.is_alive(main_idx as usize));
    let reused_idx = env.w.spawn_sub_internal(&ecl, ecl.sub_id(2).unwrap(), &[], (OWNER_ENEMY, h.index, h.generation)).unwrap();
    assert_eq!(reused_idx, main_idx);
    env.w.body.frame = 2;
    run_pass(&mut env, &ecl);
    assert!(!env.w.tasks.is_alive(reused_idx as usize));
    assert_eq!(env.m.inner.enemy_at(eidx).flags & ENEMY_DYING, 0);
}

#[test]
fn scheduler_skips_tasks_born_this_frame_and_counts_down_waits() {
    let ecl = async_image(vec![op(OP_PUSHI), 2, op(OP_WAIT), op(OP_END)], 0);
    let mut env = test_world();
    let idx = env.w.spawn_sub_internal(&ecl, ecl.sub_id(1).unwrap(), &[], (OWNER_STAGE, 0, 0)).unwrap();
    run_pass(&mut env, &ecl);
    assert_eq!(env.w.tasks.task(idx as usize).pc, 0, "born this frame: not run");
    env.w.body.frame = 1;
    run_pass(&mut env, &ecl);
    assert_eq!(env.w.tasks.task(idx as usize).wait, 2);
    env.w.body.frame = 2;
    run_pass(&mut env, &ecl);
    assert_eq!(env.w.tasks.task(idx as usize).wait, 1, "one frame of the wait used up");
    assert!(env.w.tasks.is_alive(idx as usize));
    env.w.body.frame = 3;
    run_pass(&mut env, &ecl);
    assert!(!env.w.tasks.is_alive(idx as usize), "wait(2) resumes two frames later");
}

#[test]
fn owner_gone_kills_quietly_without_fault() {
    let ecl = async_image(vec![op(OP_PUSHI), 1, op(OP_WAIT), op(OP_END)], 0);
    let mut env = test_world();
    let h = env.m.inner.spawn_enemy(0, 0, 5);
    let idx = env.w.spawn_sub_internal(&ecl, ecl.sub_id(1).unwrap(), &[], (OWNER_ENEMY, h.index, h.generation)).unwrap();
    assert!(env.m.inner.enemies.free(h));
    env.w.body.frame = 1;
    run_pass(&mut env, &ecl);
    assert!(!env.w.tasks.is_alive(idx as usize));
    assert_eq!(env.w.body.diag.task_faults, 0);
    assert!(env.m.inner.events.is_empty());
}

#[test]
fn gate_order_owner_then_spell_then_birth_then_wait_then_budget() {
    let t = Task { owner_kind: OWNER_ENEMY, spell_bound: 1, born_frame: 3, wait: 2, ..Task::default() };
    assert_eq!(gate(&t, 3, false, true, 10), Gate::Kill);
    assert_eq!(gate(&t, 3, true, false, 10), Gate::Kill);
    assert_eq!(gate(&t, 3, true, true, 10), Gate::Skip);
    assert_eq!(gate(&t, 4, true, true, 10), Gate::Sleep);
    let t2 = Task { wait: 0, ..t };
    assert_eq!(gate(&t2, 4, true, true, 0), Gate::Skip);
    assert_eq!(gate(&t2, 4, true, true, 1), Gate::Run);
    let stage = Task::default();
    assert_eq!(gate(&stage, 1, false, false, 1), Gate::Run, "stage tasks need no owner");
}

#[test]
fn exec_faults_deterministically_when_pc_lands_mid_instruction() {
    let img = test_image(vec![op(OP_PUSHI), 50, op(OP_END)], vec![SubInit::new(0, SubKind::Root, vec![])], vec![], Some(0));
    let mut env = test_world();
    let mut task = Task { pc: 1, ..Task::default() };
    let mut budget = u32::MAX;
    let r = exec_in(&mut env, &mut task, img.code(), &img, &mut budget, 0, 0);
    assert_eq!(r, Exec::Fault(FAULT_PC_OOB));
}

// ── starting scripts from the host ──────────────────────────────────────

fn root_and_async_image() -> EclImage {
    test_image(
        vec![op(OP_END)],
        vec![
            SubInit::new(0, SubKind::Root, vec![]),
            SubInit::new(0, SubKind::Async, vec![EclValueType::Fx, EclValueType::Angle]),
        ],
        vec![EntryInit::new("worker", 1)],
        Some(0),
    )
}

fn root_and_zero_arg_async_image() -> EclImage {
    test_image(
        vec![op(OP_END)],
        vec![SubInit::new(0, SubKind::Root, vec![]), SubInit::new(0, SubKind::Async, vec![])],
        vec![EntryInit::new("worker", 1)],
        Some(0),
    )
}

fn root_only_image(first_word: u32) -> EclImage {
    test_image(vec![first_word], vec![SubInit::new(0, SubKind::Root, vec![])], vec![], Some(0))
}

fn fill_task_pool(world: &mut World) {
    let img = root_only_image(op(OP_END));
    let root = img.root().unwrap();
    let entry = img.sub_meta(root).unwrap().code_entry();
    while world.tasks.spawn(root, entry, (OWNER_STAGE, 0, 0), 0, 0).is_some() {}
}

fn fx_one_angle_zero() -> [i32; 2] {
    [Fx::one().raw(), Angle::zero().raw() as i32]
}

#[test]
fn start_main_is_stage_owned_and_once_per_world_lifetime() {
    let image = root_and_async_image();
    let mut world = World::new();
    let task = world.start_main(&image).unwrap();
    let spawned = world.tasks.task(task as usize);
    assert_eq!((spawned.owner_kind, spawned.owner_index, spawned.owner_gen), (OWNER_STAGE, 0, 0));
    assert_eq!(world.start_main(&image), Err(TaskStartError::MainAlreadyStarted));
    assert_eq!(world.body.diag.contract_viol, 1);
    assert_eq!(world.body.last_status, STATUS_BAD_ARGS);
}

#[test]
fn main_started_roundtrips_through_snapshot_and_checksum() {
    let image = root_and_async_image();
    let mut source = World::new();
    source.start_main(&image).unwrap();
    let mut copy = World::new();
    copy.body.frame = 2;
    source.copy_into(&mut copy);
    assert_eq!(source.checksum(), copy.checksum());
    assert_eq!(copy.start_main(&image), Err(TaskStartError::MainAlreadyStarted));
}

#[test]
fn named_entry_checks_types_and_fast_entry_checks_only_arity() {
    let image = root_and_async_image();
    let entry = image.resolve_entry("worker").unwrap();
    let mut world = World::new();
    let mut m = Recorder::new(Mock::new());
    assert!(matches!(
        world.spawn_entry_named(&image, "worker", &[EclArg::Int(1), EclArg::Angle(Angle::zero())], EclOwner::Stage, &mut m),
        Err(TaskStartError::WrongArgType { index: 0, .. })
    ));
    assert!(world.spawn_entry(entry, &fx_one_angle_zero(), EclOwner::Stage, &mut m).is_ok());
}

#[test]
fn main_cannot_restart_after_end_or_fault() {
    // The loader now rejects an unknown opcode, so the faulting variant
    // faults at run time instead (POP on an empty stack).
    for first_word in [op(OP_END), op(OP_POP)] {
        let image = root_only_image(first_word);
        let mut env = test_world();
        env.w.start_main(&image).unwrap();
        for f in 1..3 {
            env.w.body.frame = f;
            run_pass(&mut env, &image);
        }
        assert_eq!(env.w.tasks.iter_alive().len(), 0);
        assert_eq!(env.w.start_main(&image), Err(TaskStartError::MainAlreadyStarted));
    }
}

#[test]
fn start_main_resolves_main_name_via_error() {
    let image = root_and_async_image();
    assert!(matches!(image.resolve_entry("main"), Err(ResolveError::RootRequiresStartMain)));
}

#[test]
fn spawn_entry_named_unknown_name() {
    let image = root_and_async_image();
    let mut world = World::new();
    let mut m = Recorder::new(Mock::new());
    assert_eq!(
        world.spawn_entry_named(&image, "nonexistent", &[], EclOwner::Stage, &mut m),
        Err(TaskStartError::UnknownEntry)
    );
}

#[test]
fn spawn_entry_named_main_returns_root_requires_start_main() {
    let image = root_and_async_image();
    let mut world = World::new();
    let mut m = Recorder::new(Mock::new());
    assert_eq!(
        world.spawn_entry_named(&image, "main", &[], EclOwner::Stage, &mut m),
        Err(TaskStartError::RootRequiresStartMain)
    );
}

#[test]
fn spawn_entry_wrong_arg_count() {
    let image = root_and_async_image();
    let entry = image.resolve_entry("worker").unwrap();
    let mut world = World::new();
    let mut m = Recorder::new(Mock::new());
    let alive_before = world.tasks.iter_alive().len();
    let cv_before = world.body.diag.contract_viol;
    assert_eq!(
        world.spawn_entry(entry, &[Fx::one().raw()], EclOwner::Stage, &mut m),
        Err(TaskStartError::WrongArgCount { expected: 2, actual: 1 })
    );
    assert_eq!(world.tasks.iter_alive().len(), alive_before);
    assert_eq!(world.body.diag.contract_viol, cv_before + 1);
    assert_eq!(world.body.last_status, STATUS_BAD_ARGS);
}

#[test]
fn spawn_entry_named_wrong_arg_count() {
    let image = root_and_async_image();
    let mut world = World::new();
    let mut m = Recorder::new(Mock::new());
    let cv_before = world.body.diag.contract_viol;
    assert_eq!(
        world.spawn_entry_named(&image, "worker", &[EclArg::Fx(Fx::one())], EclOwner::Stage, &mut m),
        Err(TaskStartError::WrongArgCount { expected: 2, actual: 1 })
    );
    assert_eq!(world.body.diag.contract_viol, cv_before + 1);
    assert_eq!(world.body.last_status, STATUS_BAD_ARGS);
}

#[test]
fn invalid_entry_id_variant_is_present() {
    let err = TaskStartError::InvalidEntryId;
    assert!(matches!(err, TaskStartError::InvalidEntryId));
}

#[test]
fn spawn_entry_invalid_owner_enemy() {
    let image = root_and_async_image();
    let entry = image.resolve_entry("worker").unwrap();
    let mut world = World::new();
    let mut m = Recorder::new(Mock::new());
    let stale = Handle { index: 0, generation: 999 };
    let alive_before = world.tasks.iter_alive().len();
    let cv_before = world.body.diag.contract_viol;
    assert_eq!(
        world.spawn_entry(entry, &fx_one_angle_zero(), EclOwner::Enemy(stale), &mut m),
        Err(TaskStartError::InvalidOwner)
    );
    assert_eq!(world.tasks.iter_alive().len(), alive_before);
    assert_eq!(world.body.diag.contract_viol, cv_before + 1);
    assert_eq!(world.body.last_status, STATUS_BAD_ARGS);
}

#[test]
fn spawn_entry_invalid_owner_bullet() {
    let image = root_and_async_image();
    let entry = image.resolve_entry("worker").unwrap();
    let mut world = World::new();
    let mut m = Recorder::new(Mock::new());
    let stale = Handle { index: 0, generation: 999 };
    let cv_before = world.body.diag.contract_viol;
    assert_eq!(
        world.spawn_entry(entry, &fx_one_angle_zero(), EclOwner::Bullet(stale), &mut m),
        Err(TaskStartError::InvalidOwner)
    );
    assert_eq!(world.body.diag.contract_viol, cv_before + 1);
    assert_eq!(world.body.last_status, STATUS_BAD_ARGS);
}

#[test]
fn spawn_entry_pool_full() {
    let image = root_and_zero_arg_async_image();
    let entry = image.resolve_entry("worker").unwrap();
    let mut world = World::new();
    let mut m = Recorder::new(Mock::new());
    fill_task_pool(&mut world);
    let pf_before = world.body.diag.pool_full[POOL_TASK];
    assert_eq!(world.spawn_entry(entry, &[], EclOwner::Stage, &mut m), Err(TaskStartError::PoolFull));
    assert_eq!(world.body.diag.pool_full[POOL_TASK], pf_before + 1);
    assert_eq!(world.body.last_status, STATUS_POOL_FULL);
}

#[test]
fn start_main_pool_full_does_not_set_flag() {
    let image = root_and_async_image();
    let mut world = World::new();
    fill_task_pool(&mut world);
    let pf_before = world.body.diag.pool_full[POOL_TASK];
    assert_eq!(world.start_main(&image), Err(TaskStartError::PoolFull));
    assert_eq!(world.body.diag.pool_full[POOL_TASK], pf_before + 1);
    assert_eq!(world.body.last_status, STATUS_POOL_FULL);
    let victim = world.tasks.iter_alive()[0];
    world.tasks.kill(victim);
    let result = world.start_main(&image);
    assert!(result.is_ok(), "after freeing one, start_main should succeed: {:?}", result);
}

#[test]
fn start_main_no_root() {
    let mut world = World::new();
    assert_eq!(world.start_main(&EclImage::empty()), Err(TaskStartError::NoRoot));
}

#[test]
fn spawn_entry_named_valid_args() {
    let image = root_and_async_image();
    let mut world = World::new();
    let mut m = Recorder::new(Mock::new());
    let task = world
        .spawn_entry_named(&image, "worker", &[EclArg::Fx(Fx::one()), EclArg::Angle(Angle::zero())], EclOwner::Stage, &mut m)
        .unwrap();
    assert!(world.tasks.is_alive(task as usize));
    let t = world.tasks.task(task as usize);
    assert_eq!(t.owner_kind, OWNER_STAGE);
    assert_eq!(t.locals[0], Fx::one().raw());
    assert_eq!(t.locals[1], Angle::zero().raw() as i32);
}

// ── the syscalls ────────────────────────────────────────────────────────

const ROW_A: i32 = 0;
const ROW_B: i32 = 1;
const ROW_C: i32 = 2;

fn call_at(env: &mut Env, ecl: &EclImage, task: &mut Task, no: u16, args: &[i32], self_index: u16) -> Result<(), u8> {
    for &a in args {
        task.stack[task.sp as usize] = a;
        task.sp += 1;
    }
    let frame = env.w.body.frame;
    dispatch(no, task, &mut env.w.tasks, ecl, &env.tables, &mut env.w.body, &mut env.m, self_index, frame)
}

fn call(env: &mut Env, ecl: &EclImage, task: &mut Task, no: u16, args: &[i32]) -> Result<(), u8> {
    call_at(env, ecl, task, no, args, 0)
}

fn fresh() -> (Env, EclImage) {
    (test_world(), EclImage::empty())
}

fn enemy_slot(packed: i32) -> usize {
    (packed & 0xFFFF) as usize
}

fn popv(task: &mut Task) -> i32 {
    task.sp -= 1;
    task.stack[task.sp as usize]
}

fn enemy_task(h: Handle) -> Task {
    Task { owner_kind: OWNER_ENEMY, owner_index: h.index, owner_gen: h.generation, ..Task::default() }
}

fn bullet_task(h: Handle) -> Task {
    Task { owner_kind: OWNER_BULLET, owner_index: h.index, owner_gen: h.generation, ..Task::default() }
}

fn waiting_async_image(name: &str) -> EclImage {
    test_image(
        vec![op(OP_PUSHI), 999, op(OP_WAIT)],
        vec![SubInit::new(0, SubKind::Root, vec![]), SubInit::new(0, SubKind::Async, vec![])],
        vec![EntryInit::new(name, 1)],
        Some(0),
    )
}

fn async_pattern_image() -> EclImage {
    test_image(
        vec![op(OP_PUSHI), 1, op(OP_WAIT)],
        vec![SubInit::new(0, SubKind::Root, vec![]), SubInit::new(0, SubKind::Async, vec![])],
        vec![EntryInit::new("pattern", 1)],
        Some(0),
    )
}

fn wrong_kind_task_image() -> EclImage {
    test_image(
        vec![op(OP_RET)],
        vec![SubInit::new(0, SubKind::Root, vec![]), SubInit::new(0, SubKind::CallOnly, vec![])],
        vec![],
        Some(0),
    )
}

fn async_with_param_task_image() -> EclImage {
    test_image(
        vec![op(OP_PUSHI), 1, op(OP_WAIT)],
        vec![SubInit::new(0, SubKind::Root, vec![]), SubInit::new(0, SubKind::Async, vec![EclValueType::Fx])],
        vec![EntryInit::new("pattern", 1)],
        Some(0),
    )
}

fn alive_tasks(env: &Env) -> Vec<usize> {
    env.w.tasks.iter_alive()
}

#[test]
fn sys_frame_reads_world_frame() {
    let (mut env, ecl) = fresh();
    env.w.body.frame = 123;
    let mut task = Task::default();
    assert!(call(&mut env, &ecl, &mut task, SYS_FRAME, &[]).is_ok());
    assert_eq!(task.stack[0], 123);
}

#[test]
fn sys_player_xy_reads_player0_position() {
    let (mut env, ecl) = fresh();
    env.w.body.players[0].x = Fx::from_int(7);
    env.w.body.players[0].y = Fx::from_int(-9);
    let mut task = Task::default();
    assert!(call(&mut env, &ecl, &mut task, SYS_PLAYER_X, &[]).is_ok());
    assert_eq!(task.stack[0], env.w.body.players[0].x.raw());
    task.sp = 0;
    assert!(call(&mut env, &ecl, &mut task, SYS_PLAYER_Y, &[]).is_ok());
    assert_eq!(task.stack[0], env.w.body.players[0].y.raw());
}

#[test]
fn sys_self_reads_dispatch_by_owner_kind() {
    let (mut env, ecl) = fresh();
    let eh = env.m.inner.spawn_enemy(11, 22, 7);
    let mut et = enemy_task(eh);
    assert!(call(&mut env, &ecl, &mut et, SYS_SELF_X, &[]).is_ok());
    assert_eq!(et.stack[0], Fx::from_int(11).raw());
    et.sp = 0;
    assert!(call(&mut env, &ecl, &mut et, SYS_SELF_Y, &[]).is_ok());
    assert_eq!(et.stack[0], Fx::from_int(22).raw());
    et.sp = 0;
    assert!(call(&mut env, &ecl, &mut et, SYS_SELF_HP, &[]).is_ok());
    assert_eq!(et.stack[0], 7);

    let bh = env.m.inner.bullet_at(33, 44);
    let mut bt = bullet_task(bh);
    assert!(call(&mut env, &ecl, &mut bt, SYS_SELF_X, &[]).is_ok());
    assert_eq!(bt.stack[0], Fx::from_int(33).raw());
    bt.sp = 0;
    assert!(call(&mut env, &ecl, &mut bt, SYS_SELF_HP, &[]).is_ok());
    assert_eq!(bt.stack[0], 0, "a bullet's hp reads 0");

    let mut st = Task { owner_kind: OWNER_STAGE, ..Task::default() };
    assert!(call(&mut env, &ecl, &mut st, SYS_SELF_X, &[]).is_ok());
    assert_eq!(st.stack[0], 0, "the stage's self_x reads 0");
}

#[test]
fn self_velocity_vars_read_enemy_pool() {
    let (mut env, ecl) = fresh();
    let eh = env.m.inner.spawn_enemy(0, 0, 5);
    let i = eh.index as usize;
    env.m.inner.edit_enemy(i, |e| {
        e.vx = Fx::from_int(3);
        e.vy = Fx::from_int(-7);
        e.speed = Fx::from_int(9);
        e.angle = Angle(16384);
    });
    for (sys, want) in [
        (SYS_SELF_VX, Fx::from_int(3).raw()),
        (SYS_SELF_VY, Fx::from_int(-7).raw()),
        (SYS_SELF_SPEED, Fx::from_int(9).raw()),
        (SYS_SELF_ANGLE, 16384),
    ] {
        let mut task = enemy_task(eh);
        assert!(call(&mut env, &ecl, &mut task, sys, &[]).is_ok());
        assert_eq!(popv(&mut task), want, "syscall {sys}");
    }
}

#[test]
fn self_velocity_vars_dispatch_to_bullet_pool() {
    let (mut env, ecl) = fresh();
    let bh = env.m.inner.bullet_at(0, 0);
    let i = env.m.inner.bullets.get(bh).unwrap();
    let mut b = env.m.inner.bullets.item(i);
    b.spawn.vx = Fx::from_int(2);
    env.m.inner.bullets.set_item(i, b);
    let mut task = bullet_task(bh);
    assert!(call(&mut env, &ecl, &mut task, SYS_SELF_VX, &[]).is_ok());
    assert_eq!(popv(&mut task), Fx::from_int(2).raw());
}

#[test]
fn self_velocity_vars_degrade_to_zero_for_stage_owner() {
    let (mut env, ecl) = fresh();
    for sys in [SYS_SELF_VX, SYS_SELF_VY, SYS_SELF_SPEED, SYS_SELF_ANGLE] {
        let mut task = Task { owner_kind: OWNER_STAGE, ..Task::default() };
        assert!(call(&mut env, &ecl, &mut task, sys, &[]).is_ok());
        assert_eq!(popv(&mut task), 0, "syscall {sys} reads 0 for the stage");
    }
}

#[test]
fn sys_get_set_var_roundtrip() {
    let (mut env, ecl) = fresh();
    let mut task = Task::default();
    assert!(call(&mut env, &ecl, &mut task, SYS_SET_VAR, &[20, 42]).is_ok());
    assert_eq!(env.m.inner.globals[20], 42);
    task.sp = 0;
    assert!(call(&mut env, &ecl, &mut task, SYS_GET_VAR, &[20]).is_ok());
    assert_eq!(task.stack[0], 42);
}

#[test]
fn sys_set_var_system_segment_slot_is_guarded_no_op() {
    let (mut env, ecl) = fresh();
    env.m.inner.set_var(0, 111);
    let mut task = Task::default();
    assert!(call(&mut env, &ecl, &mut task, SYS_SET_VAR, &[0, 999]).is_ok(), "a refused write is no fault");
    assert_eq!(env.m.inner.globals[0], 111);
    assert_eq!(env.w.body.diag.contract_viol, 1);
    assert_eq!(env.w.body.last_status, STATUS_BAD_ARGS);
    task.sp = 0;
    assert!(call(&mut env, &ecl, &mut task, SYS_SET_VAR, &[15, 999]).is_ok());
    assert_eq!(env.m.inner.globals[15], 0);
    assert_eq!(env.w.body.diag.contract_viol, 2);
    task.sp = 0;
    assert!(call(&mut env, &ecl, &mut task, SYS_SET_VAR, &[16, 999]).is_ok());
    assert_eq!(env.m.inner.globals[16], 999);
    assert_eq!(env.w.body.diag.contract_viol, 2);
    env.m.inner.set_var(0, 777);
    assert_eq!(env.m.inner.globals[0], 777);
    task.sp = 0;
    assert!(call(&mut env, &ecl, &mut task, SYS_GET_VAR, &[0]).is_ok());
    assert_eq!(task.stack[0], 777);
}

#[test]
fn sys_self_age_computes_frame_minus_born_frame() {
    let (mut env, ecl) = fresh();
    let mut task = Task { born_frame: 10, ..Task::default() };
    env.w.body.frame = 13;
    assert!(call(&mut env, &ecl, &mut task, SYS_SELF_AGE, &[]).is_ok());
    assert_eq!(task.stack[0], 3);
    let mut task2 = Task { born_frame: 5, ..Task::default() };
    env.w.body.frame = 0;
    assert!(call(&mut env, &ecl, &mut task2, SYS_SELF_AGE, &[]).is_ok());
    assert_eq!(task2.stack[0], 0i32.wrapping_sub(5));
}

#[test]
fn sys_self_hp_max_dispatch_by_owner_kind() {
    let (mut env, ecl) = fresh();
    let eh = env.m.inner.spawn_enemy(0, 0, 5);
    env.m.inner.edit_enemy(eh.index as usize, |e| e.hp_max = 9999);
    let mut et = enemy_task(eh);
    assert!(call(&mut env, &ecl, &mut et, SYS_SELF_HP_MAX, &[]).is_ok());
    assert_eq!(et.stack[0], 9999);
    let mut st = Task { owner_kind: OWNER_STAGE, ..Task::default() };
    assert!(call(&mut env, &ecl, &mut st, SYS_SELF_HP_MAX, &[]).is_ok());
    assert_eq!(st.stack[0], 0);
}

#[test]
fn sys_rand_range_zero_does_not_consume_rng() {
    let (mut env, ecl) = fresh();
    let mut task = Task::default();
    assert!(call(&mut env, &ecl, &mut task, SYS_RAND_RANGE, &[0]).is_ok());
    assert_eq!(task.stack[0], 0);
    assert_eq!(env.m.inner.rng_draws, 0, "n = 0 leaves the stream alone");
    let mut m2 = Mock::new();
    task.sp = 0;
    assert!(call(&mut env, &ecl, &mut task, SYS_RAND_RANGE, &[100]).is_ok());
    let direct = m2.rand_range(100) as i32;
    assert_eq!(task.stack[0], direct);
}

#[test]
fn sys_rand_range_negative_n_does_not_consume_rng() {
    let (mut env, ecl) = fresh();
    let mut task = Task::default();
    assert!(call(&mut env, &ecl, &mut task, SYS_RAND_RANGE, &[-5]).is_ok());
    assert_eq!(task.stack[0], 0);
    assert_eq!(env.m.inner.rng_draws, 0);
}

#[test]
fn sys_create_bullet_dumb_path_position_and_appearance_bitwise() {
    let (mut env, ecl) = fresh();
    let mut task = Task::default();
    let args = [ROW_B, Fx::from_int(10).raw(), Fx::from_int(-20).raw(), Fx::from_int(3).raw(), 16384, 0, 0, -1];
    assert!(call(&mut env, &ecl, &mut task, SYS_CREATE_BULLET, &args).is_ok());
    let idx = task.stack[0];
    assert!(idx >= 0);
    let b = env.m.inner.bullets.item(idx as usize);
    assert_eq!(b.spawn.x, Fx::from_int(10));
    assert_eq!(b.spawn.y, Fx::from_int(-20));
    assert_eq!(b.spawn.speed, Fx::from_int(3));
    assert_eq!(b.spawn.angle, Angle(16384));
    let cfg = env.tables.appearances[ROW_B as usize];
    assert_eq!(b.spawn.radius, cfg.radius);
    assert_eq!(b.spawn.sprite, cfg.sprite);
    assert_eq!(b.xform_len, 0, "no transform program");
}

#[test]
fn sys_create_bullet_appearance_oob_faults() {
    let (mut env, ecl) = fresh();
    let mut task = Task::default();
    let bad = env.tables.appearances.len() as i32;
    let r = call(&mut env, &ecl, &mut task, SYS_CREATE_BULLET, &[bad, 0, 0, 0, 0, 0, 0, -1]);
    assert_eq!(r, Err(FAULT_BAD_OP));
    assert_eq!(env.m.inner.bullets.iter_alive().len(), 0);
}

#[test]
fn sys_create_bullet_blank_cell_faults_without_creating() {
    const BLANK: i32 = 3 * 16 + 7;
    let (mut env, ecl) = fresh();
    while env.tables.appearances.len() <= BLANK as usize {
        env.tables.appearances.push(Appearance { valid: true, sprite: 0, radius: Fx::from_int(2) });
    }
    env.tables.appearances[BLANK as usize].valid = false;
    let mut task = Task::default();
    let r = call(&mut env, &ecl, &mut task, SYS_CREATE_BULLET, &[BLANK, 0, 0, 0, 0, 0, 0, -1]);
    assert_eq!(r, Err(FAULT_BAD_OP));
    assert_eq!(env.m.inner.bullets.iter_alive().len(), 0);
}

#[test]
fn sys_create_bullet_xform_unpack_bitwise() {
    let (mut env, ecl) = fresh();
    let mut task = Task::default();
    let off = 4usize;
    const OP_SET_SPEED: u8 = 10;
    task.locals[off] = ((3u32 << 16) | (OP_SET_SPEED as u32) << 8) as i32;
    task.locals[off + 1] = Fx::from_int(2).raw();
    task.locals[off + 2] = 0;
    assert!(call(&mut env, &ecl, &mut task, SYS_CREATE_BULLET, &[ROW_A, 0, 0, 0, 0, off as i32, 1, -1]).is_ok());
    let b = env.m.inner.bullets.item(task.stack[0] as usize);
    assert_eq!(b.xform_len, 1);
    let expect = XformSlot { wait: 3, op: OP_SET_SPEED, pad: 0, args: [Fx::from_int(2).raw(), 0] };
    let got = b.first_xform.expect("a transform program");
    assert_eq!((got.wait, got.op, got.pad, got.args), (expect.wait, expect.op, expect.pad, expect.args));
}

#[test]
fn sys_create_bullet_xform_bounds_violation_faults() {
    let (mut env, ecl) = fresh();
    let mut task = Task::default();
    let r = call(&mut env, &ecl, &mut task, SYS_CREATE_BULLET, &[ROW_A, 0, 0, 0, 0, 60, 2, -1]);
    assert_eq!(r, Err(FAULT_BAD_OP));
    assert_eq!(env.m.inner.bullets.iter_alive().len(), 0);
}

#[test]
fn sys_create_bullet_bad_task_script_faults_before_creating() {
    let (mut env, ecl) = fresh();
    let mut task = Task::default();
    let r = call(&mut env, &ecl, &mut task, SYS_CREATE_BULLET, &[ROW_A, 0, 0, 0, 0, 0, 0, 0]);
    assert_eq!(r, Err(FAULT_BAD_OP));
    assert_eq!(env.m.inner.bullets.iter_alive().len(), 0);
}

#[test]
fn sys_create_bullet_task_script_out_of_u16_faults_before_creating() {
    let ecl = async_pattern_image();
    let mut env = test_world();
    let mut task = Task::default();
    let r = call(&mut env, &ecl, &mut task, SYS_CREATE_BULLET, &[ROW_A, 0, 0, 0, 0, 0, 0, 65537]);
    assert_eq!(r, Err(FAULT_BAD_OP));
    assert_eq!(env.m.inner.bullets.iter_alive().len(), 0);
}

#[test]
fn sys_create_bullet_task_script_wrong_kind_faults_before_creating() {
    let ecl = wrong_kind_task_image();
    let mut env = test_world();
    let mut task = Task::default();
    let r = call(&mut env, &ecl, &mut task, SYS_CREATE_BULLET, &[ROW_A, 0, 0, 0, 0, 0, 0, 1]);
    assert_eq!(r, Err(FAULT_BAD_OP));
    assert_eq!(env.m.inner.bullets.iter_alive().len(), 0);
}

#[test]
fn sys_create_bullet_task_script_with_params_faults_before_creating() {
    let ecl = async_with_param_task_image();
    let mut env = test_world();
    let mut task = Task::default();
    let r = call(&mut env, &ecl, &mut task, SYS_CREATE_BULLET, &[ROW_A, 0, 0, 0, 0, 0, 0, 1]);
    assert_eq!(r, Err(FAULT_BAD_OP));
    assert_eq!(env.m.inner.bullets.iter_alive().len(), 0);
}

#[test]
fn sys_create_bullet_pool_full_pushes_neg1() {
    let (mut env, ecl) = fresh();
    while env.m.inner.bullets.allocate(env.m.inner.bullets.item(0)).is_some() {}
    let mut task = Task::default();
    assert!(call(&mut env, &ecl, &mut task, SYS_CREATE_BULLET, &[ROW_A, 0, 0, 0, 0, 0, 0, -1]).is_ok());
    assert_eq!(task.stack[0], -1);
}

#[test]
fn sys_create_bullet_task_script_spawns_owner_bound_task_and_dies_with_bullet() {
    let ecl = waiting_async_image("bullet_task");
    let mut env = test_world();
    env.w.body.frame = 5;
    let mut task = Task::default();
    assert!(call(&mut env, &ecl, &mut task, SYS_CREATE_BULLET, &[ROW_A, 0, 0, 0, 0, 0, 0, 1]).is_ok());
    let bidx = task.stack[0] as u16;
    let bgen = env.m.inner.bullets.generation(bidx as usize);
    let alive = alive_tasks(&env);
    assert_eq!(alive.len(), 1);
    let child = alive[0];
    let c = *env.w.tasks.task(child);
    assert_eq!(c.owner_kind, OWNER_BULLET);
    assert_eq!(c.owner_index, bidx);
    assert_eq!(c.owner_gen, bgen);
    assert_eq!(c.born_frame, 5);
    assert!(env.m.inner.bullets.free(Handle { index: bidx, generation: bgen }));
    env.w.body.frame = 6;
    run_pass(&mut env, &ecl);
    assert!(!env.w.tasks.is_alive(child));
    assert_eq!(env.w.body.diag.task_faults, 0);
}

#[test]
fn sys_create_bullets_batch_ring_count_and_appearance() {
    let (mut env, ecl) = fresh();
    let mut task = Task::default();
    let args = [ROW_C, 0, Fx::from_int(100).raw(), 8, 0, 8192, 1, Fx::from_int(2).raw(), 0];
    assert!(call(&mut env, &ecl, &mut task, SYS_CREATE_BULLETS_BATCH, &args).is_ok());
    assert_eq!(task.stack[0], 8);
    let live = env.m.inner.live_bullets();
    assert_eq!(live.len(), 8);
    let cfg = env.tables.appearances[ROW_C as usize];
    for b in live {
        assert_eq!(b.spawn.radius, cfg.radius);
        assert_eq!(b.spawn.sprite, cfg.sprite);
    }
}

#[test]
fn sys_create_bullets_batch_blank_cell_faults_without_creating() {
    const BLANK: i32 = 3 * 16 + 7;
    let (mut env, ecl) = fresh();
    while env.tables.appearances.len() <= BLANK as usize {
        env.tables.appearances.push(Appearance { valid: true, sprite: 0, radius: Fx::from_int(2) });
    }
    env.tables.appearances[BLANK as usize].valid = false;
    let mut task = Task::default();
    let args = [BLANK, 0, 0, 4, 0, 4096, 1, Fx::from_int(1).raw(), 0];
    let r = call(&mut env, &ecl, &mut task, SYS_CREATE_BULLETS_BATCH, &args);
    assert_eq!(r, Err(FAULT_BAD_OP));
    assert_eq!(env.m.inner.bullets.iter_alive().len(), 0);
}

#[test]
fn sys_spawn_enemy_creates_with_fields() {
    let (mut env, ecl) = fresh();
    let mut task = Task::default();
    let args = [Fx::from_int(5).raw(), Fx::from_int(6).raw(), 42, 1, 100, 0, -1, 0];
    assert!(call(&mut env, &ecl, &mut task, SYS_SPAWN_ENEMY, &args).is_ok());
    let handle = task.stack[0];
    assert!(handle >= 0);
    let e = env.m.inner.enemy_at(enemy_slot(handle));
    assert_eq!(e.x, Fx::from_int(5));
    assert_eq!(e.y, Fx::from_int(6));
    assert_eq!(e.hp, 42);
    assert_eq!(e.drop_count, env.tables.drop_tables[1]);
    assert_eq!(e.drop_count[0], 2);
    assert_eq!(e.score, 100);
}

#[test]
fn spawn_enemy_out_of_range_drop_table_degrades_to_empty() {
    let oob = 2 + 9;
    for &bad in &[oob, -1] {
        let (mut env, ecl) = fresh();
        let mut task = Task::default();
        let viol_before = env.w.body.diag.contract_viol;
        assert_eq!(env.w.body.last_status, STATUS_OK);
        let args = [0, Fx::from_int(80).raw(), 10, bad, 100, 0, -1, 0];
        assert!(call(&mut env, &ecl, &mut task, SYS_SPAWN_ENEMY, &args).is_ok());
        let handle = task.stack[0];
        assert!(handle >= 0, "the enemy is still created (table {bad})");
        assert_eq!(env.w.body.diag.contract_viol, viol_before + 1);
        assert_eq!(env.w.body.last_status, STATUS_BAD_ARGS);
        assert_eq!(env.m.inner.enemy_at(enemy_slot(handle)).drop_count, [0u8; 5]);
    }
}

#[test]
fn spawn_enemy_with_task_binds_owner_and_main_task() {
    let ecl = waiting_async_image("enemy_task");
    let mut env = test_world();
    env.w.body.frame = 3;
    let mut task = Task::default();
    let args = [0, Fx::from_int(80).raw(), 10, 0, 0, 5, 1, 0];
    assert!(call(&mut env, &ecl, &mut task, SYS_SPAWN_ENEMY, &args).is_ok());
    let eidx = enemy_slot(task.stack[0]) as u16;
    assert_eq!(env.m.inner.enemy_at(eidx as usize).sprite, 5);
    let egen = env.m.inner.enemies.generation(eidx as usize);
    let child = alive_tasks(&env)[0];
    let c = *env.w.tasks.task(child);
    assert_eq!(c.owner_kind, OWNER_ENEMY);
    assert_eq!(c.owner_index, eidx);
    assert_eq!(c.owner_gen, egen);
    assert_eq!(c.born_frame, 3);
    assert_eq!(env.m.inner.enemy_at(eidx as usize).main_task, child as u32 + 1);
}

#[test]
fn spawn_enemy_task_none_leaves_main_task_zero() {
    let (mut env, ecl) = fresh();
    let mut task = Task::default();
    let args = [0, Fx::from_int(80).raw(), 10, 0, 0, 0, -1, 0];
    assert!(call(&mut env, &ecl, &mut task, SYS_SPAWN_ENEMY, &args).is_ok());
    let handle = task.stack[0];
    assert!(handle >= 0);
    assert_eq!(env.m.inner.enemy_at(enemy_slot(handle)).main_task, 0);
    assert_eq!(alive_tasks(&env).len(), 0);
}

#[test]
fn spawn_enemy_bad_task_script_faults_without_enemy() {
    let (mut env, ecl) = fresh();
    let mut task = Task::default();
    let args = [0, Fx::from_int(80).raw(), 10, 0, 0, 0, 9999, 0];
    assert_eq!(call(&mut env, &ecl, &mut task, SYS_SPAWN_ENEMY, &args), Err(FAULT_BAD_OP));
    assert_eq!(env.m.inner.enemies.iter_alive().len(), 0);
}

#[test]
fn spawn_enemy_task_script_out_of_u16_faults_without_enemy() {
    let ecl = async_pattern_image();
    let mut env = test_world();
    let mut task = Task::default();
    assert_eq!(call(&mut env, &ecl, &mut task, SYS_SPAWN_ENEMY, &[0, 0, 100, 0, 0, 0, 65537, 0]), Err(FAULT_BAD_OP));
    assert_eq!(env.m.inner.enemies.iter_alive().len(), 0);
}

#[test]
fn spawn_enemy_task_script_wrong_kind_faults_without_enemy() {
    let ecl = wrong_kind_task_image();
    let mut env = test_world();
    let mut task = Task::default();
    assert_eq!(call(&mut env, &ecl, &mut task, SYS_SPAWN_ENEMY, &[0, 0, 100, 0, 0, 0, 1, 0]), Err(FAULT_BAD_OP));
    assert_eq!(env.m.inner.enemies.iter_alive().len(), 0);
}

#[test]
fn spawn_enemy_task_script_with_params_faults_without_enemy() {
    let ecl = async_with_param_task_image();
    let mut env = test_world();
    let mut task = Task::default();
    assert_eq!(call(&mut env, &ecl, &mut task, SYS_SPAWN_ENEMY, &[0, 0, 100, 0, 0, 0, 1, 0]), Err(FAULT_BAD_OP));
    assert_eq!(env.m.inner.enemies.iter_alive().len(), 0);
}

#[test]
fn spawn_enemy_task_pool_full_degrades() {
    let ecl = waiting_async_image("enemy_task");
    let mut env = test_world();
    while env.w.tasks.spawn(sid(), 0, (OWNER_STAGE, 0, 0), 0, 0).is_some() {}
    let mut task = Task::default();
    let args = [0, Fx::from_int(80).raw(), 10, 0, 0, 0, 1, 0];
    assert!(call(&mut env, &ecl, &mut task, SYS_SPAWN_ENEMY, &args).is_ok());
    let handle = task.stack[0];
    assert!(handle >= 0);
    assert_eq!(env.w.body.diag.pool_full[POOL_TASK], 1);
    assert_eq!(env.m.inner.enemy_at(enemy_slot(handle)).main_task, 0);
}

#[test]
fn enemy_owned_task_dies_with_enemy() {
    let ecl = waiting_async_image("enemy_task");
    let mut env = test_world();
    env.w.body.frame = 5;
    let mut task = Task::default();
    let args = [0, Fx::from_int(80).raw(), 50, 0, 0, 0, 1, 0];
    assert!(call(&mut env, &ecl, &mut task, SYS_SPAWN_ENEMY, &args).is_ok());
    let eidx = enemy_slot(task.stack[0]) as u16;
    let egen = env.m.inner.enemies.generation(eidx as usize);
    let child = alive_tasks(&env)[0];
    assert!(env.w.tasks.is_alive(child));
    assert!(env.m.inner.enemies.free(Handle { index: eidx, generation: egen }));
    env.w.body.frame = 6;
    run_pass(&mut env, &ecl);
    assert!(!env.w.tasks.is_alive(child));
    assert_eq!(env.w.body.diag.task_faults, 0);
}

#[test]
fn enemy_hp_reads_alive_and_rejects_dead() {
    let (mut env, ecl) = fresh();
    let eh = env.m.inner.spawn_enemy(0, 0, 77);
    env.m.inner.edit_enemy(eh.index as usize, |e| e.hp_max = 9999);
    let mut task = Task::default();
    assert!(call(&mut env, &ecl, &mut task, SYS_ENEMY_HP, &[pack_handle(eh)]).is_ok());
    assert_eq!(task.stack[0], 77);
    assert!(env.m.inner.enemies.free(eh));
    task.sp = 0;
    assert!(call(&mut env, &ecl, &mut task, SYS_ENEMY_HP, &[pack_handle(eh)]).is_ok());
    assert_eq!(task.stack[0], -1);
    task.sp = 0;
    assert!(call(&mut env, &ecl, &mut task, SYS_ENEMY_HP, &[9999]).is_ok());
    assert_eq!(task.stack[0], -1);
}

#[test]
fn sys_drop_item_creates_item() {
    let (mut env, ecl) = fresh();
    let mut task = Task::default();
    assert!(call(&mut env, &ecl, &mut task, SYS_DROP_ITEM, &[Fx::from_int(1).raw(), Fx::from_int(2).raw(), 1]).is_ok());
    assert!(task.stack[0] >= 0);
    assert_eq!(env.m.inner.items.len(), 1);
}

#[test]
fn sys_move_enemy_to_arms_interpolator() {
    let (mut env, ecl) = fresh();
    let eh = env.m.inner.spawn_enemy(0, 0, 5);
    let mut task = enemy_task(eh);
    let args = [30, Fx::from_int(50).raw(), Fx::from_int(60).raw(), 2];
    assert!(call(&mut env, &ecl, &mut task, SYS_MOVE_ENEMY_TO, &args).is_ok());
    assert_eq!(
        env.m.inner.enemy(eh).last_op,
        Some(EnemyOp::MoveTo { x: Fx::from_int(50), y: Fx::from_int(60), dur: 30, easing: 2 })
    );
}

#[test]
fn move_verbs_reject_out_of_range_dur_and_easing_instead_of_truncating() {
    for (label, args) in [
        ("easing=256", [30, 0, 0, 256]),
        ("easing=-1", [30, 0, 0, -1]),
        ("dur=65536", [65536, 0, 0, 2]),
        ("dur=-1", [-1, 0, 0, 2]),
    ] {
        let (mut env, ecl) = fresh();
        let eh = env.m.inner.spawn_enemy(0, 0, 5);
        let mut task = enemy_task(eh);
        let before = env.w.body.diag.contract_viol;
        assert!(call(&mut env, &ecl, &mut task, SYS_MOVE_ENEMY_TO, &args).is_ok(), "{label}");
        assert_eq!(env.m.inner.enemy(eh).last_op, None, "{label}: nothing reaches the enemy");
        assert_eq!(env.w.body.diag.contract_viol - before, 1, "{label}");
        assert_eq!(env.w.body.last_status, STATUS_BAD_ARGS, "{label}");
    }
    let (mut env, ecl) = fresh();
    let eh = env.m.inner.spawn_enemy(0, 0, 5);
    let mut task = enemy_task(eh);
    let args = [65535, Fx::from_int(50).raw(), 0, 7];
    assert!(call(&mut env, &ecl, &mut task, SYS_MOVE_ENEMY_TO, &args).is_ok());
    assert_eq!(
        env.m.inner.enemy(eh).last_op,
        Some(EnemyOp::MoveTo { x: Fx::from_int(50), y: Fx::zero(), dur: 65535, easing: 7 })
    );
}

#[test]
fn all_five_move_verbs_share_the_same_narrowing_leg() {
    let cases: [(u16, &[i32]); 4] = [
        (SYS_MOVE_VEL, &[30, 0, Fx::from_int(3).raw(), 256]),
        (SYS_MOVE_VEL_XY, &[30, Fx::from_int(3).raw(), 0, 256]),
        (SYS_MOVE_ANGLE, &[30, 0, 256]),
        (SYS_MOVE_SPEED, &[30, Fx::from_int(3).raw(), 256]),
    ];
    for (sys, args) in cases {
        let (mut env, ecl) = fresh();
        let eh = env.m.inner.spawn_enemy(0, 0, 5);
        let mut task = enemy_task(eh);
        let before = env.w.body.diag.contract_viol;
        assert!(call(&mut env, &ecl, &mut task, sys, args).is_ok(), "syscall {sys}");
        assert_eq!(env.m.inner.enemy(eh).last_op, None, "syscall {sys}");
        assert_eq!(env.w.body.diag.contract_viol - before, 1, "syscall {sys}");
    }
}

#[test]
fn sys_move_enemy_to_wrong_owner_faults() {
    let (mut env, ecl) = fresh();
    let mut task = Task { owner_kind: OWNER_STAGE, ..Task::default() };
    assert_eq!(call(&mut env, &ecl, &mut task, SYS_MOVE_ENEMY_TO, &[30, 0, 0, 0]), Err(FAULT_BAD_OP));
}

#[test]
fn sys_move_vel_arms_polar_interpolator() {
    let (mut env, ecl) = fresh();
    let eh = env.m.inner.spawn_enemy(0, 0, 5);
    let mut task = enemy_task(eh);
    let args = [20, 16384, Fx::from_int(4).raw(), 3];
    assert!(call(&mut env, &ecl, &mut task, SYS_MOVE_VEL, &args).is_ok());
    assert_eq!(
        env.m.inner.enemy(eh).last_op,
        Some(EnemyOp::VelPolar { angle: Angle(16384), speed: Fx::from_int(4), dur: 20, easing: 3 })
    );
}

#[test]
fn sys_move_vel_xy_arms_cartesian_interpolator() {
    let (mut env, ecl) = fresh();
    let eh = env.m.inner.spawn_enemy(0, 0, 5);
    let mut task = enemy_task(eh);
    let args = [12, Fx::from_int(3).raw(), Fx::from_int(-7).raw(), 0];
    assert!(call(&mut env, &ecl, &mut task, SYS_MOVE_VEL_XY, &args).is_ok());
    assert_eq!(
        env.m.inner.enemy(eh).last_op,
        Some(EnemyOp::VelCart { vx: Fx::from_int(3), vy: Fx::from_int(-7), dur: 12, easing: 0 })
    );
}

#[test]
fn sys_move_angle_and_speed_are_single_axis() {
    let (mut env, ecl) = fresh();
    let eh = env.m.inner.spawn_enemy(0, 0, 5);
    let mut task = enemy_task(eh);
    assert!(call(&mut env, &ecl, &mut task, SYS_MOVE_VEL, &[0, 0, Fx::from_int(7).raw(), 0]).is_ok());
    assert!(call(&mut env, &ecl, &mut task, SYS_MOVE_ANGLE, &[0, 16384, 0]).is_ok());
    assert_eq!(env.m.inner.enemy(eh).speed, Fx::from_int(7));
    assert_eq!(env.m.inner.enemy(eh).angle, Angle(16384));
    assert!(call(&mut env, &ecl, &mut task, SYS_MOVE_SPEED, &[0, Fx::from_int(2).raw(), 0]).is_ok());
    assert_eq!(env.m.inner.enemy(eh).angle, Angle(16384));
    assert_eq!(env.m.inner.enemy(eh).speed, Fx::from_int(2));
}

#[test]
fn motion_verbs_fault_on_non_enemy_owner() {
    let (mut env, ecl) = fresh();
    for (sys, argc) in [(SYS_MOVE_VEL, 4), (SYS_MOVE_VEL_XY, 4), (SYS_MOVE_ANGLE, 3), (SYS_MOVE_SPEED, 3)] {
        let mut task = Task { owner_kind: OWNER_STAGE, ..Task::default() };
        let args = vec![0i32; argc];
        assert_eq!(call(&mut env, &ecl, &mut task, sys, &args), Err(FAULT_BAD_OP), "syscall {sys}");
    }
}

#[test]
fn sys_boss_set_writes_slot_with_self_owner_enemy() {
    let (mut env, ecl) = fresh();
    let eh = env.m.inner.spawn_enemy(0, 0, 5);
    let mut task = enemy_task(eh);
    let args = [0, Fx::from_raw(32768).raw(), 7, 3600, 2, 1];
    assert!(call(&mut env, &ecl, &mut task, SYS_BOSS_SET, &args).is_ok());
    let ui = env.m.inner.boss_ui[0];
    assert_eq!(ui.enemy, eh);
    assert_eq!(ui.hp_ratio, Fx::from_raw(32768));
    assert_eq!(ui.spell_id, 7);
    assert_eq!(ui.timer_frames, 3600);
    assert_eq!(ui.phase_left, 2);
    assert_eq!(ui.active, 1);
}

#[test]
fn sys_boss_set_non_enemy_owner_writes_null_enemy_no_fault() {
    let (mut env, ecl) = fresh();
    let mut task = Task { owner_kind: OWNER_STAGE, ..Task::default() };
    assert!(call(&mut env, &ecl, &mut task, SYS_BOSS_SET, &[0, 0, 0, 0, 0, 1]).is_ok());
    assert_eq!(env.m.inner.boss_ui[0].enemy, Handle::null());
    assert_eq!(env.m.inner.boss_ui[0].active, 1);
}

#[test]
fn sys_pulse_signal_sets_channel() {
    let (mut env, ecl) = fresh();
    env.w.body.frame = 10;
    let mut task = Task::default();
    assert!(call(&mut env, &ecl, &mut task, SYS_PULSE_SIGNAL, &[3]).is_ok());
    assert_eq!(env.m.inner.signals, vec![3]);
}

#[test]
fn sys_bullet_setter_family_happy_path() {
    let (mut env, ecl) = fresh();
    let bh = env.m.inner.bullet_at(0, 100);
    let mut task = bullet_task(bh);
    assert!(call(&mut env, &ecl, &mut task, SYS_SET_BULLET_SPEED, &[Fx::from_int(3).raw()]).is_ok());
    assert_eq!(env.m.inner.bullet(bh).spawn.speed, Fx::from_int(3));
    task.sp = 0;
    assert!(call(&mut env, &ecl, &mut task, SYS_SET_BULLET_VEL, &[Fx::from_int(1).raw(), Fx::from_int(2).raw()]).is_ok());
    assert!(matches!(env.m.inner.bullet(bh).last_op, Some(BulletOp::SetVel(a, b)) if a == Fx::from_int(1) && b == Fx::from_int(2)));
    task.sp = 0;
    assert!(call(&mut env, &ecl, &mut task, SYS_SET_BULLET_ANG_VEL, &[300]).is_ok());
    assert!(matches!(env.m.inner.bullet(bh).last_op, Some(BulletOp::SetAngVel(300))));
    task.sp = 0;
    assert!(call(&mut env, &ecl, &mut task, SYS_SET_BULLET_GRAVITY, &[11, 22]).is_ok());
    assert!(matches!(env.m.inner.bullet(bh).last_op, Some(BulletOp::SetGravity(a, b)) if a.raw() == 11 && b.raw() == 22));
    task.sp = 0;
    assert!(call(&mut env, &ecl, &mut task, SYS_STOP_BULLET_FX, &[]).is_ok());
    assert!(matches!(env.m.inner.bullet(bh).last_op, Some(BulletOp::StopFx)));
}

#[test]
fn sys_bullet_setter_wrong_owner_faults() {
    for sys in [
        SYS_SET_BULLET_SPEED, SYS_SET_BULLET_ANGLE, SYS_TURN_BULLET, SYS_SET_BULLET_VEL, SYS_SET_BULLET_ANG_VEL,
        SYS_SET_BULLET_ACCEL, SYS_SET_BULLET_GRAVITY, SYS_STOP_BULLET_FX, SYS_AIM_BULLET_AT_PLAYER,
    ] {
        let (mut env, ecl) = fresh();
        let mut task = Task { owner_kind: OWNER_ENEMY, ..Task::default() };
        assert_eq!(call(&mut env, &ecl, &mut task, sys, &[]), Err(FAULT_BAD_OP), "sys={sys}");
    }
}

fn place_player(env: &mut Env, p: usize, x: i32, y: i32) {
    env.w.body.players[p].x = Fx::from_int(x);
    env.w.body.players[p].y = Fx::from_int(y);
}

#[test]
fn sys_aim_player_angle_matches_atan2_reference() {
    let (mut env, ecl) = fresh();
    let eh = env.m.inner.spawn_enemy(100, 100, 5);
    place_player(&mut env, 0, 0, 384);
    let mut task = enemy_task(eh);
    assert!(call(&mut env, &ecl, &mut task, SYS_AIM_PLAYER_ANGLE, &[]).is_ok());
    let expect = env.m.inner.atan2(Fx::from_int(384 - 100), Fx::from_int(0 - 100));
    assert_eq!(task.stack[0] as u16 as u32, expect.raw() as u32);
}

#[test]
fn sys_aim_player_angle_skips_unaimable_player() {
    let (mut env, ecl) = fresh();
    let eh = env.m.inner.spawn_enemy(0, 0, 5);
    place_player(&mut env, 0, -200, -150);
    place_player(&mut env, 1, 200, 150);
    env.m.inner.aim = 1;
    let mut task = enemy_task(eh);
    assert!(call(&mut env, &ecl, &mut task, SYS_AIM_PLAYER_ANGLE, &[]).is_ok());
    let to_p1 = env.m.inner.atan2(Fx::from_int(150), Fx::from_int(200));
    let to_p0 = env.m.inner.atan2(Fx::from_int(-150), Fx::from_int(-200));
    assert_eq!(task.stack[0] as u16 as u32, to_p1.raw() as u32);
    assert_ne!(task.stack[0] as u16 as u32, to_p0.raw() as u32);
}

#[test]
fn sys_aim_player_angle_falls_back_to_p0_when_none_aimable() {
    let (mut env, ecl) = fresh();
    let eh = env.m.inner.spawn_enemy(0, 0, 5);
    place_player(&mut env, 0, -200, -150);
    env.m.inner.aim = usize::MAX;
    let mut task = enemy_task(eh);
    assert!(call(&mut env, &ecl, &mut task, SYS_AIM_PLAYER_ANGLE, &[]).is_ok());
    let to_corpse = env.m.inner.atan2(Fx::from_int(-150), Fx::from_int(-200));
    assert_eq!(task.stack[0] as u16 as u32, to_corpse.raw() as u32);
}

#[test]
fn dispatch_bad_syscall_number_faults() {
    let (mut env, ecl) = fresh();
    let mut task = Task::default();
    assert_eq!(call(&mut env, &ecl, &mut task, 9999, &[]), Err(FAULT_BAD_OP));
}

fn frozen_table() -> Vec<(u16, &'static str, u16)> {
    vec![
        (SYS_FRAME, "frame", 0), (SYS_PLAYER_X, "player_x", 0), (SYS_PLAYER_Y, "player_y", 0),
        (SYS_SELF_X, "self_x", 0), (SYS_SELF_Y, "self_y", 0), (SYS_SELF_VX, "self_vx", 0),
        (SYS_SELF_VY, "self_vy", 0), (SYS_SELF_SPEED, "self_speed", 0), (SYS_SELF_ANGLE, "self_angle", 0),
        (SYS_SELF_HP, "self_hp", 0), (SYS_SELF_HP_MAX, "self_hp_max", 0), (SYS_SELF_AGE, "self_age", 0),
        (SYS_SELF_ENEMY, "self_enemy", 0), (SYS_ENEMY_HP, "enemy_hp", 1), (SYS_ENEMY_X, "enemy_x", 1),
        (SYS_ENEMY_Y, "enemy_y", 1), (SYS_ENEMY_ALIVE, "enemy_alive", 1), (SYS_NEAREST_ENEMY, "nearest_enemy", 1),
        (SYS_AIM_PLAYER_ANGLE, "aim_player_angle", 1), (SYS_SPELL_TIMER, "spell_timer", 1),
        (SYS_SPELL_RESULT, "spell_result", 1), (SYS_ATAN2, "atan2", 1), (SYS_DIST, "dist", 1),
        (SYS_RAND_RANGE, "rand_range", 1), (SYS_CREATE_BULLET, "create_bullet", 2),
        (SYS_CREATE_BULLETS_BATCH, "create_bullets_batch", 2), (SYS_SPAWN_ENEMY, "spawn_enemy", 2),
        (SYS_DROP_ITEM, "drop_item", 2), (SYS_SET_BULLET_SPEED, "set_bullet_speed", 3),
        (SYS_SET_BULLET_ANGLE, "set_bullet_angle", 3), (SYS_TURN_BULLET, "turn_bullet", 3),
        (SYS_SET_BULLET_VEL, "set_bullet_vel", 3), (SYS_SET_BULLET_ANG_VEL, "set_bullet_ang_vel", 3),
        (SYS_SET_BULLET_ACCEL, "set_bullet_accel", 3), (SYS_SET_BULLET_GRAVITY, "set_bullet_gravity", 3),
        (SYS_STOP_BULLET_FX, "stop_bullet_fx", 3), (SYS_AIM_BULLET_AT_PLAYER, "aim_bullet_at_player", 3),
        (SYS_MOVE_ENEMY_TO, "move_enemy_to", 4), (SYS_MOVE_VEL, "move_vel", 4), (SYS_MOVE_VEL_XY, "move_vel_xy", 4),
        (SYS_MOVE_ANGLE, "move_angle", 4), (SYS_MOVE_SPEED, "move_speed", 4), (SYS_SET_ANM_STATE, "set_anm_state", 4),
        (SYS_SET_INVULN, "set_invuln", 4), (SYS_SET_HITBOX, "set_hitbox", 4), (SYS_SET_HURTBOX, "set_hurtbox", 4),
        (SYS_SET_ENEMY_FLAG, "set_enemy_flag", 4), (SYS_ADD_SCORE, "add_score", 5), (SYS_ADD_LIVES, "add_lives", 5),
        (SYS_ADD_BOMBS, "add_bombs", 5), (SYS_ADD_POWER, "add_power", 5), (SYS_DROP_CLEAR, "drop_clear", 5),
        (SYS_DROP_ADD, "drop_add", 5), (SYS_DROP_ITEMS, "drop_items", 5), (SYS_DIE, "die", 5),
        (SYS_KILL_ALL_ENEMIES, "kill_all_enemies", 5), (SYS_CLEAR_BULLETS, "clear_bullets", 5),
        (SYS_CLEAR_BULLETS_AT, "clear_bullets_at", 5), (SYS_BGM, "bgm", 5), (SYS_BG, "bg", 5),
        (SYS_BG_PHASE, "bg_phase", 5), (SYS_TIME_STOP_PLAYER, "time_stop_player", 5), (SYS_SH_RESET, "sh_reset", 6),
        (SYS_SH_SPRITE, "sh_sprite", 6), (SYS_SH_OFFSET, "sh_offset", 6), (SYS_SH_OFFSET_ABS, "sh_offset_abs", 6),
        (SYS_SH_OFFSET_RAD, "sh_offset_rad", 6), (SYS_SH_DIST, "sh_dist", 6), (SYS_SH_ANGLE, "sh_angle", 6),
        (SYS_SH_SPEED, "sh_speed", 6), (SYS_SH_COUNT, "sh_count", 6), (SYS_SH_AIM, "sh_aim", 6),
        (SYS_SH_RING, "sh_ring", 6), (SYS_SH_XFORM, "sh_xform", 6), (SYS_SH_TASK, "sh_task", 6),
        (SYS_SH_REQ, "sh_req", 6), (SYS_SH_FIRE, "sh_fire", 6), (SYS_GET_VAR, "get_var", 7),
        (SYS_SET_VAR, "set_var", 7), (SYS_PULSE_SIGNAL, "pulse_signal", 7), (SYS_EMIT_REQ, "emit_req", 7),
        (SYS_FX_AT, "fx_at", 7), (SYS_FX_ON, "fx_on", 7), (SYS_STAGE_CLEAR, "stage_clear", 7),
        (SYS_BOSS_SET, "boss_set", 7), (SYS_SPELL_BEGIN, "spell_begin", 7), (SYS_SPELL_END, "spell_end", 7),
        (SYS_LASER_CREATE, "laser", 8), (SYS_LASER_SPEED, "lz_speed", 8), (SYS_LASER_START, "lz_start", 8),
        (SYS_LASER_OMEGA, "lz_omega", 8), (SYS_LASER_ROTATE, "lz_rotate", 8), (SYS_LASER_AIM, "lz_aim", 8),
        (SYS_LASER_ANCHOR, "lz_anchor", 8), (SYS_LASER_ORIGIN, "lz_origin", 8), (SYS_LASER_CANCEL, "lz_cancel", 8),
        (SYS_LASER_ALIVE, "lz_alive", 8), (SYS_LASER_X, "lz_x", 8), (SYS_LASER_Y, "lz_y", 8),
        (SYS_LASER_ANGLE, "lz_angle", 8), (SYS_LASER_NEAR, "lz_near", 8), (SYS_LASER_FAR, "lz_far", 8),
    ]
}

#[test]
fn syscall_table_is_hundred_partitioned_and_unique() {
    let table = frozen_table();
    assert_eq!(table.len(), 102);
    for &(num, name, fam) in &table {
        assert_eq!(num / 100, fam, "{name}(={num}) belongs to family {fam}xx");
    }
    for (i, &(a, na, _)) in table.iter().enumerate() {
        for &(b, nb, _) in &table[i + 1..] {
            assert_ne!(a, b, "{na} and {nb} share a number");
        }
    }
    for &(num, name, fam) in &table {
        if fam != 0 {
            assert!(num >= 100, "{name}(={num}) must stay clear of the opcode space");
        }
    }
}

#[test]
fn syscall_whitelist_matches_the_frozen_table() {
    let table = frozen_table();
    for &(num, name, _) in &table {
        assert!(syscall_implemented(num), "{name}(={num})");
    }
    let live: Vec<u16> = (0..=u16::MAX).filter(|&n| syscall_implemented(n)).collect();
    assert_eq!(live.len(), table.len());
    for n in &live {
        assert!(table.iter().any(|&(num, _, _)| num == *n), "{n} is not in the table");
    }
    let (mut env, ecl) = fresh();
    for probe in [9999u16, 33, 99, 104, 199, 899, u16::MAX] {
        assert!(!syscall_implemented(probe));
        let mut task = Task::default();
        assert_eq!(call(&mut env, &ecl, &mut task, probe, &[]), Err(FAULT_BAD_OP));
    }
}

#[test]
fn dispatch_stack_underflow_faults() {
    let (mut env, ecl) = fresh();
    let mut task = Task::default();
    assert_eq!(call(&mut env, &ecl, &mut task, SYS_SET_VAR, &[]), Err(FAULT_STACK));
}

#[test]
fn sys_stage_clear_pushes_fact_event_not_request() {
    let (mut env, ecl) = fresh();
    let mut task = Task::default();
    assert!(call(&mut env, &ecl, &mut task, SYS_STAGE_CLEAR, &[3]).is_ok());
    let evs: Vec<&Event> = env.m.inner.events.iter().filter(|e| e.kind == EVT_STAGE_CLEARED).collect();
    assert_eq!(evs.len(), 1);
    assert_eq!(evs[0].data[0], 3);
    assert_eq!(env.m.inner.reqs.len(), 0);
    assert_eq!(task.sp, 0);
}

#[test]
fn sys_emit_req_pushes_request_and_drains_stack() {
    let (mut env, ecl) = fresh();
    let mut task = Task::default();
    assert!(call(&mut env, &ecl, &mut task, SYS_EMIT_REQ, &[64, 1, 2, 3, 4, 5, 6]).is_ok());
    assert_eq!(env.m.inner.reqs, vec![(64, [1, 2, 3, 4, 5, 6])]);
    assert_eq!(task.sp, 0);
}

#[test]
fn sys_emit_req_bad_id_is_p4b_noop() {
    let (mut env, ecl) = fresh();
    let mut task = Task::default();
    let cv0 = env.w.body.diag.contract_viol;
    assert!(call(&mut env, &ecl, &mut task, SYS_EMIT_REQ, &[-1, 0, 0, 0, 0, 0, 0]).is_ok());
    assert_eq!(env.m.inner.reqs.len(), 0);
    assert_eq!(env.w.body.diag.contract_viol, cv0 + 1);
    assert_eq!(env.w.body.last_status, STATUS_BAD_ARGS);
    assert_eq!(task.sp, 0);
    assert!(call(&mut env, &ecl, &mut task, SYS_EMIT_REQ, &[65536, 0, 0, 0, 0, 0, 0]).is_ok());
    assert_eq!(env.m.inner.reqs.len(), 0);
    assert_eq!(env.w.body.diag.contract_viol, cv0 + 2);
    assert_eq!(task.sp, 0);
}

#[test]
fn sys_emit_req_stack_underflow_faults() {
    let (mut env, ecl) = fresh();
    let mut task = Task::default();
    assert_eq!(call(&mut env, &ecl, &mut task, SYS_EMIT_REQ, &[1, 2]), Err(FAULT_STACK));
}

fn boss_task(env: &mut Env, hp: i32) -> (Handle, Task) {
    let boss = env.m.inner.spawn_enemy(0, 80, hp);
    (boss, enemy_task(boss))
}

#[test]
fn sys_spell_begin_owner_stage_faults() {
    let (mut env, ecl) = fresh();
    let mut task = Task { owner_kind: OWNER_STAGE, ..Task::default() };
    let r = call(&mut env, &ecl, &mut task, SYS_SPELL_BEGIN, &[0, 1, -1, 100, 1000, 0, 0]);
    assert_eq!(r, Err(FAULT_BAD_OP));
    assert!(!env.m.inner.spells[0].active);
}

#[test]
fn sys_spell_begin_success_spawns_pattern_task_bound_to_slot() {
    let ecl = async_pattern_image();
    let mut env = test_world();
    let (boss, mut task) = boss_task(&mut env, 1000);
    assert!(call(&mut env, &ecl, &mut task, SYS_SPELL_BEGIN, &[0, 5, 1, 100, 1000, 0, 300]).is_ok());
    assert!(env.m.inner.spells[0].active);
    let child = alive_tasks(&env)[0];
    let c = *env.w.tasks.task(child);
    assert_eq!(c.owner_kind, OWNER_ENEMY);
    assert_eq!(c.owner_index, boss.index);
    assert_eq!(c.owner_gen, boss.generation);
    assert_eq!(c.spell_bound, 1);
    assert_eq!(c.spell_epoch, env.m.inner.spells[0].epoch);
    assert_ne!(env.m.inner.spells[0].epoch, 0);
}

#[test]
fn sys_spell_begin_pattern_none_does_not_spawn() {
    let ecl = async_pattern_image();
    let mut env = test_world();
    let (_boss, mut task) = boss_task(&mut env, 1000);
    assert!(call(&mut env, &ecl, &mut task, SYS_SPELL_BEGIN, &[0, 5, -1, 100, 1000, 0, 0]).is_ok());
    assert!(env.m.inner.spells[0].active);
    assert_eq!(alive_tasks(&env).len(), 0);
}

#[test]
fn sys_spell_begin_pattern_bad_sub_faults_before_mutating_world() {
    let ecl = async_pattern_image();
    let mut env = test_world();
    let (_boss, mut task) = boss_task(&mut env, 1000);
    let r = call(&mut env, &ecl, &mut task, SYS_SPELL_BEGIN, &[0, 5, 99, 100, 1000, 0, 0]);
    assert_eq!(r, Err(FAULT_BAD_OP));
    assert!(!env.m.inner.spells[0].active);
    assert_eq!(alive_tasks(&env).len(), 0);
}

#[test]
fn sys_spell_begin_slot_oob_is_p4b_noop() {
    let (mut env, ecl) = fresh();
    let (_boss, mut task) = boss_task(&mut env, 1000);
    let cv0 = env.w.body.diag.contract_viol;
    assert!(call(&mut env, &ecl, &mut task, SYS_SPELL_BEGIN, &[99, 5, -1, 100, 1000, 0, 0]).is_ok());
    assert_eq!(env.w.body.diag.contract_viol, cv0 + 1);
    assert_eq!(env.w.body.last_status, STATUS_BAD_ARGS);
    assert_eq!(alive_tasks(&env).len(), 0);
}

#[test]
fn sys_spell_begin_threshold_over_hp_is_p4b_noop() {
    let (mut env, ecl) = fresh();
    let (_boss, mut task) = boss_task(&mut env, 100);
    let cv0 = env.w.body.diag.contract_viol;
    assert!(call(&mut env, &ecl, &mut task, SYS_SPELL_BEGIN, &[0, 5, -1, 100, 1000, 0, 200]).is_ok());
    assert!(!env.m.inner.spells[0].active);
    assert_eq!(env.w.body.diag.contract_viol, cv0 + 1);
}

#[test]
fn sys_spell_begin_duplicate_active_slot_is_p4b_noop() {
    let (mut env, ecl) = fresh();
    let (_boss, mut task) = boss_task(&mut env, 1000);
    assert!(call(&mut env, &ecl, &mut task, SYS_SPELL_BEGIN, &[0, 5, -1, 100, 1000, 0, 0]).is_ok());
    assert!(env.m.inner.spells[0].active);
    task.sp = 0;
    let cv0 = env.w.body.diag.contract_viol;
    assert!(call(&mut env, &ecl, &mut task, SYS_SPELL_BEGIN, &[0, 6, -1, 100, 1000, 0, 0]).is_ok());
    assert_eq!(env.w.body.diag.contract_viol, cv0 + 1);
    assert_eq!(env.m.inner.spell_ids[0], 5);
}

#[test]
fn sys_spell_begin_negative_threshold_is_p4b_noop_no_spawn() {
    let ecl = async_pattern_image();
    let mut env = test_world();
    let (_boss, mut task) = boss_task(&mut env, 1000);
    let cv0 = env.w.body.diag.contract_viol;
    assert!(call(&mut env, &ecl, &mut task, SYS_SPELL_BEGIN, &[0, 5, 1, 100, 1000, 0, -1]).is_ok());
    assert_eq!(env.w.body.diag.contract_viol, cv0 + 1);
    assert_eq!(env.w.body.last_status, STATUS_BAD_ARGS);
    assert!(!env.m.inner.spells[0].active);
    assert_eq!(alive_tasks(&env).len(), 0);
}

#[test]
fn sys_spell_begin_negative_bonus0_is_p4b_noop_no_spawn() {
    let ecl = async_pattern_image();
    let mut env = test_world();
    let (_boss, mut task) = boss_task(&mut env, 1000);
    let cv0 = env.w.body.diag.contract_viol;
    assert!(call(&mut env, &ecl, &mut task, SYS_SPELL_BEGIN, &[0, 5, 1, 100, -1, 0, 0]).is_ok());
    assert_eq!(env.w.body.diag.contract_viol, cv0 + 1);
    assert_eq!(env.w.body.last_status, STATUS_BAD_ARGS);
    assert!(!env.m.inner.spells[0].active);
    assert_eq!(alive_tasks(&env).len(), 0);
}

#[test]
fn sys_spell_begin_non_positive_time_limit_is_p4b_noop_no_spawn() {
    let ecl = async_pattern_image();
    let mut env = test_world();
    let (_boss, mut task) = boss_task(&mut env, 1000);
    let cv0 = env.w.body.diag.contract_viol;
    assert!(call(&mut env, &ecl, &mut task, SYS_SPELL_BEGIN, &[0, 5, 1, -1, 1000, 0, 0]).is_ok());
    assert_eq!(env.w.body.diag.contract_viol, cv0 + 1);
    assert_eq!(env.w.body.last_status, STATUS_BAD_ARGS);
    assert!(!env.m.inner.spells[0].active);
    assert_eq!(alive_tasks(&env).len(), 0);
    task.sp = 0;
    let cv1 = env.w.body.diag.contract_viol;
    assert!(call(&mut env, &ecl, &mut task, SYS_SPELL_BEGIN, &[0, 5, 1, 0, 1000, 0, 0]).is_ok());
    assert_eq!(env.w.body.diag.contract_viol, cv1 + 1);
    assert!(!env.m.inner.spells[0].active);
}

#[test]
fn sys_spell_begin_boss_already_bound_to_another_slot_is_p4b_noop() {
    let (mut env, ecl) = fresh();
    let (_boss, mut task) = boss_task(&mut env, 1000);
    assert!(call(&mut env, &ecl, &mut task, SYS_SPELL_BEGIN, &[0, 5, -1, 100, 1000, 0, 0]).is_ok());
    assert!(env.m.inner.spells[0].active);
    task.sp = 0;
    let cv0 = env.w.body.diag.contract_viol;
    assert!(call(&mut env, &ecl, &mut task, SYS_SPELL_BEGIN, &[1, 6, -1, 100, 1000, 0, 0]).is_ok());
    assert_eq!(env.w.body.diag.contract_viol, cv0 + 1);
    assert!(!env.m.inner.spells[1].active);
}

#[test]
fn sys_spell_end_bound_owner_settles_slot() {
    let (mut env, ecl) = fresh();
    let (boss, mut task) = boss_task(&mut env, 1000);
    assert!(env.m.inner.spell_begin(0, boss, 5, 100, 1000, 0, 0));
    assert!(call(&mut env, &ecl, &mut task, SYS_SPELL_END, &[]).is_ok());
    assert!(!env.m.inner.spells[0].active);
}

#[test]
fn sys_spell_end_unbound_owner_is_noop() {
    let (mut env, ecl) = fresh();
    let (_boss, mut task) = boss_task(&mut env, 1000);
    let cv0 = env.w.body.diag.contract_viol;
    assert!(call(&mut env, &ecl, &mut task, SYS_SPELL_END, &[]).is_ok());
    assert_eq!(env.w.body.diag.contract_viol, cv0);
}

#[test]
fn sys_spell_timer_bound_pushes_frames_left() {
    let (mut env, ecl) = fresh();
    let (boss, mut task) = boss_task(&mut env, 1000);
    assert!(env.m.inner.spell_begin(0, boss, 5, 100, 1000, 0, 0));
    assert!(call(&mut env, &ecl, &mut task, SYS_SPELL_TIMER, &[]).is_ok());
    assert_eq!(task.stack[0], 100);
}

#[test]
fn sys_spell_timer_unbound_pushes_neg1() {
    let (mut env, ecl) = fresh();
    let (_boss, mut task) = boss_task(&mut env, 1000);
    assert!(call(&mut env, &ecl, &mut task, SYS_SPELL_TIMER, &[]).is_ok());
    assert_eq!(task.stack[0], -1);
}

#[test]
fn sys_spell_timer_non_enemy_owner_pushes_neg1_no_fault() {
    let (mut env, ecl) = fresh();
    let mut task = Task { owner_kind: OWNER_STAGE, ..Task::default() };
    assert!(call(&mut env, &ecl, &mut task, SYS_SPELL_TIMER, &[]).is_ok());
    assert_eq!(task.stack[0], -1);
}

#[test]
fn sys_bgm_writes_field_and_emits_req() {
    let (mut env, ecl) = fresh();
    let mut task = Task::default();
    assert!(call(&mut env, &ecl, &mut task, SYS_BGM, &[5]).is_ok());
    assert_eq!(env.m.inner.anchors, vec![(AnchorKind::Bgm, 5)]);
}

#[test]
fn sys_bg_phase_stamps_current_frame() {
    let (mut env, ecl) = fresh();
    env.w.body.frame = 42;
    let mut task = Task::default();
    assert!(call(&mut env, &ecl, &mut task, SYS_BG_PHASE, &[3]).is_ok());
    assert_eq!(env.m.inner.anchors, vec![(AnchorKind::BgPhase, 3)]);
}

#[test]
fn sys_anchor_out_of_range_is_noop_with_viol() {
    let (mut env, ecl) = fresh();
    let mut task = Task::default();
    let cv0 = env.w.body.diag.contract_viol;
    assert!(call(&mut env, &ecl, &mut task, SYS_BGM, &[-1]).is_ok());
    assert!(env.m.inner.anchors.is_empty());
    assert_eq!(env.w.body.diag.contract_viol, cv0 + 1);
    assert_eq!(env.w.body.last_status, STATUS_BAD_ARGS);
}

#[test]
fn sys_add_score_saturates_at_zero() {
    let (mut env, ecl) = fresh();
    env.w.body.players[0].score = 10;
    let mut task = Task::default();
    assert!(call(&mut env, &ecl, &mut task, SYS_ADD_SCORE, &[-100]).is_ok());
    assert_eq!(env.w.body.players[0].score, 0);
    task.sp = 0;
    assert!(call(&mut env, &ecl, &mut task, SYS_ADD_SCORE, &[7]).is_ok());
    assert_eq!(env.w.body.players[0].score, 7);
    env.w.body.players[0].score = u64::MAX - 1;
    task.sp = 0;
    assert!(call(&mut env, &ecl, &mut task, SYS_ADD_SCORE, &[100]).is_ok());
    assert_eq!(env.w.body.players[0].score, u64::MAX);
}

#[test]
fn sys_time_stop_player_writes_the_cutscene_slot() {
    let (mut env, ecl) = fresh();
    let mut task = Task::default();
    assert!(call(&mut env, &ecl, &mut task, SYS_TIME_STOP_PLAYER, &[90]).is_ok());
    assert_eq!(env.w.body.freeze_left, [0, 90]);
}

#[test]
fn sys_time_stop_player_reentry_overwrites() {
    let (mut env, ecl) = fresh();
    let mut task = Task::default();
    assert!(call(&mut env, &ecl, &mut task, SYS_TIME_STOP_PLAYER, &[90]).is_ok());
    assert!(call(&mut env, &ecl, &mut task, SYS_TIME_STOP_PLAYER, &[10]).is_ok());
    assert_eq!(env.w.body.freeze_left[1], 10);
}

#[test]
fn sys_time_stop_player_zero_cancels() {
    let (mut env, ecl) = fresh();
    let mut task = Task::default();
    env.w.body.freeze_left[1] = 50;
    assert!(call(&mut env, &ecl, &mut task, SYS_TIME_STOP_PLAYER, &[0]).is_ok());
    assert_eq!(env.w.body.freeze_left[1], 0);
}

#[test]
fn sys_time_stop_player_rejects_out_of_range() {
    for bad in [-1i32, 65536] {
        let (mut env, ecl) = fresh();
        let mut task = Task::default();
        env.w.body.freeze_left[1] = 7;
        let cv0 = env.w.body.diag.contract_viol;
        assert!(call(&mut env, &ecl, &mut task, SYS_TIME_STOP_PLAYER, &[bad]).is_ok());
        assert_eq!(env.w.body.freeze_left[1], 7, "{bad}");
        assert_eq!(env.w.body.diag.contract_viol, cv0 + 1);
        assert_eq!(env.w.body.last_status, STATUS_BAD_ARGS);
    }
}

#[test]
fn clear_bullets_field_pool_full_degrades() {
    let (mut env, ecl) = fresh();
    env.m.inner.field_cap = 0;
    let before = env.w.body.diag.pool_full[POOL_FIELD];
    let mut task = Task::default();
    assert!(call(&mut env, &ecl, &mut task, SYS_CLEAR_BULLETS, &[]).is_ok());
    assert_eq!(env.w.body.diag.pool_full[POOL_FIELD], before + 1);
}

#[test]
fn add_lives_clamps_both_ends() {
    let (mut env, ecl) = fresh();
    let mut task = Task::default();
    env.w.body.players[0].lives = 3;
    assert!(call(&mut env, &ecl, &mut task, SYS_ADD_LIVES, &[1]).is_ok());
    assert_eq!(env.w.body.players[0].lives, 4);
    assert!(call(&mut env, &ecl, &mut task, SYS_ADD_LIVES, &[-1]).is_ok());
    assert_eq!(env.w.body.players[0].lives, 3);
    env.w.body.players[0].lives = 0;
    assert!(call(&mut env, &ecl, &mut task, SYS_ADD_LIVES, &[-1]).is_ok());
    assert_eq!(env.w.body.players[0].lives, 0);
    env.w.body.players[0].lives = u8::MAX;
    assert!(call(&mut env, &ecl, &mut task, SYS_ADD_LIVES, &[1]).is_ok());
    assert_eq!(env.w.body.players[0].lives, u8::MAX);
}

#[test]
fn add_bombs_clamps_both_ends() {
    let (mut env, ecl) = fresh();
    let mut task = Task::default();
    env.w.body.players[0].bombs = 3;
    let lives0 = env.w.body.players[0].lives;
    assert!(call(&mut env, &ecl, &mut task, SYS_ADD_BOMBS, &[1]).is_ok());
    assert_eq!(env.w.body.players[0].bombs, 4);
    assert_eq!(env.w.body.players[0].lives, lives0);
    assert!(call(&mut env, &ecl, &mut task, SYS_ADD_BOMBS, &[-1]).is_ok());
    assert_eq!(env.w.body.players[0].bombs, 3);
    env.w.body.players[0].bombs = 0;
    assert!(call(&mut env, &ecl, &mut task, SYS_ADD_BOMBS, &[-1]).is_ok());
    assert_eq!(env.w.body.players[0].bombs, 0);
    assert!(call(&mut env, &ecl, &mut task, SYS_ADD_BOMBS, &[9]).is_ok());
    assert_eq!(env.w.body.players[0].bombs, STOP_STOCK_MAX);
}

#[test]
fn add_power_clamps_to_power_max_not_u16_max() {
    let (mut env, ecl) = fresh();
    let mut task = Task::default();
    env.w.body.players[0].power = 100;
    assert!(call(&mut env, &ecl, &mut task, SYS_ADD_POWER, &[50]).is_ok());
    assert_eq!(env.w.body.players[0].power, 150);
    assert!(call(&mut env, &ecl, &mut task, SYS_ADD_POWER, &[-50]).is_ok());
    assert_eq!(env.w.body.players[0].power, 100);
    env.w.body.players[0].power = 0;
    assert!(call(&mut env, &ecl, &mut task, SYS_ADD_POWER, &[-1]).is_ok());
    assert_eq!(env.w.body.players[0].power, 0);
    env.w.body.players[0].power = POWER_MAX;
    assert!(call(&mut env, &ecl, &mut task, SYS_ADD_POWER, &[1]).is_ok());
    assert_eq!(env.w.body.players[0].power, POWER_MAX);
    env.w.body.players[0].power = 0;
    assert!(call(&mut env, &ecl, &mut task, SYS_ADD_POWER, &[10_000]).is_ok());
    assert_eq!(env.w.body.players[0].power, POWER_MAX);
}

#[test]
fn add_counters_survive_extreme_deltas() {
    let (mut env, ecl) = fresh();
    let mut task = Task::default();
    for &no in &[SYS_ADD_LIVES, SYS_ADD_BOMBS] {
        env.w.body.players[0].lives = 200;
        env.w.body.players[0].bombs = 200;
        assert!(call(&mut env, &ecl, &mut task, no, &[i32::MAX]).is_ok());
        let v = if no == SYS_ADD_LIVES { env.w.body.players[0].lives } else { env.w.body.players[0].bombs };
        let cap = if no == SYS_ADD_LIVES { u8::MAX } else { STOP_STOCK_MAX };
        assert_eq!(v, cap, "syscall {no}");
        assert!(call(&mut env, &ecl, &mut task, no, &[i32::MIN]).is_ok());
        let v = if no == SYS_ADD_LIVES { env.w.body.players[0].lives } else { env.w.body.players[0].bombs };
        assert_eq!(v, 0, "syscall {no}");
    }
    env.w.body.players[0].power = 200;
    assert!(call(&mut env, &ecl, &mut task, SYS_ADD_POWER, &[i32::MAX]).is_ok());
    assert_eq!(env.w.body.players[0].power, POWER_MAX);
    assert!(call(&mut env, &ecl, &mut task, SYS_ADD_POWER, &[i32::MIN]).is_ok());
    assert_eq!(env.w.body.players[0].power, 0);
}

#[test]
fn drop_add_bad_type_degrades_and_counts() {
    let (mut env, ecl) = fresh();
    let eh = env.m.inner.spawn_enemy(0, 0, 8888);
    let mut task = enemy_task(eh);
    let viol0 = env.w.body.diag.contract_viol;
    assert!(call(&mut env, &ecl, &mut task, SYS_DROP_ADD, &[5, 3]).is_ok());
    assert!(call(&mut env, &ecl, &mut task, SYS_DROP_ADD, &[-1, 3]).is_ok());
    assert_eq!(env.m.inner.enemy(eh).drop_count, [0; 5]);
    assert_eq!(env.w.body.diag.contract_viol, viol0 + 2);
    assert_eq!(env.m.inner.enemy(eh).last_op, None, "nothing reaches the enemy");
}

#[test]
fn drop_add_clamps_and_saturates_n() {
    let (mut env, ecl) = fresh();
    let eh = env.m.inner.spawn_enemy(0, 0, 8888);
    let mut task = enemy_task(eh);
    let ty = 1;
    assert!(call(&mut env, &ecl, &mut task, SYS_DROP_ADD, &[ty, -5]).is_ok());
    assert_eq!(env.m.inner.enemy(eh).drop_count[1], 0);
    assert!(call(&mut env, &ecl, &mut task, SYS_DROP_ADD, &[ty, 2]).is_ok());
    assert!(call(&mut env, &ecl, &mut task, SYS_DROP_ADD, &[ty, 3]).is_ok());
    assert_eq!(env.m.inner.enemy(eh).drop_count[1], 5);
    assert!(call(&mut env, &ecl, &mut task, SYS_DROP_ADD, &[ty, i32::MAX]).is_ok());
    assert_eq!(env.m.inner.enemy(eh).drop_count[1], 255);
    assert!(call(&mut env, &ecl, &mut task, SYS_DROP_ADD, &[ty, 200]).is_ok());
    assert_eq!(env.m.inner.enemy(eh).drop_count[1], 255);
}

#[test]
fn drop_and_die_syscalls_fault_for_non_enemy_owner() {
    let (mut env, ecl) = fresh();
    for (no, args) in [(SYS_DROP_CLEAR, &[][..]), (SYS_DROP_ADD, &[0, 1][..]), (SYS_DROP_ITEMS, &[][..]), (SYS_DIE, &[][..])] {
        let mut task = Task { owner_kind: OWNER_STAGE, ..Task::default() };
        assert_eq!(call(&mut env, &ecl, &mut task, no, args), Err(FAULT_BAD_OP), "syscall {no}");
    }
}

// ── shooters ────────────────────────────────────────────────────────────

struct ShCase {
    no: u16,
    rest: &'static [i32],
    mutate: fn(&mut ShooterSlot),
}

fn shooter_cases() -> Vec<ShCase> {
    vec![
        ShCase { no: SYS_SH_RESET, rest: &[], mutate: |_s| {} },
        ShCase { no: SYS_SH_SPRITE, rest: &[19], mutate: |s| s.appearance = 19 },
        ShCase {
            no: SYS_SH_OFFSET,
            rest: &[0x0001_0000, 0x0002_0000],
            mutate: |s| {
                s.off_x = Fx::from_raw(0x0001_0000);
                s.off_y = Fx::from_raw(0x0002_0000);
            },
        },
        ShCase {
            no: SYS_SH_OFFSET_ABS,
            rest: &[0x0003_0000, 0x0004_0000],
            mutate: |s| {
                s.off_x = Fx::from_raw(0x0003_0000);
                s.off_y = Fx::from_raw(0x0004_0000);
                s.flags |= SH_ABS_OFFSET;
            },
        },
        ShCase {
            no: SYS_SH_OFFSET_RAD,
            rest: &[0x2000, 0x0005_0000],
            mutate: |s| {
                s.polar_ang = Angle(0x2000);
                s.polar_r = Fx::from_raw(0x0005_0000);
            },
        },
        ShCase { no: SYS_SH_DIST, rest: &[0x0006_0000], mutate: |s| s.dist = Fx::from_raw(0x0006_0000) },
        ShCase {
            no: SYS_SH_ANGLE,
            rest: &[0x1234, 0x0100],
            mutate: |s| {
                s.angle0 = Angle(0x1234);
                s.angle_step = Angle(0x0100);
            },
        },
        ShCase {
            no: SYS_SH_SPEED,
            rest: &[0x0002_8000, -0x0000_4000],
            mutate: |s| {
                s.speed0 = Fx::from_raw(0x0002_8000);
                s.speed_step = Fx::from_raw(-0x0000_4000);
            },
        },
        ShCase {
            no: SYS_SH_COUNT,
            rest: &[7, 3],
            mutate: |s| {
                s.n_angle = 7;
                s.n_speed = 3;
            },
        },
        ShCase { no: SYS_SH_AIM, rest: &[1], mutate: |s| s.flags |= SH_AIMED },
        ShCase { no: SYS_SH_RING, rest: &[1], mutate: |s| s.flags |= SH_RING },
        ShCase {
            no: SYS_SH_XFORM,
            rest: &[9, 2],
            mutate: |s| {
                s.xform_off = 9;
                s.xform_cnt = 2;
            },
        },
        ShCase { no: SYS_SH_TASK, rest: &[3], mutate: |s| s.task_script = 3 },
        ShCase { no: SYS_SH_REQ, rest: &[42], mutate: |s| s.on_fire_req = 42 },
    ]
}

fn sh_args(id: i32, rest: &[i32]) -> Vec<i32> {
    let mut v = vec![id];
    v.extend_from_slice(rest);
    v
}

fn shooter_at(env: &Env, i: usize, k: usize) -> ShooterSlot {
    env.w.tasks.shooter(i, k)
}

#[test]
fn each_shooter_setter_touches_only_its_own_field() {
    for c in shooter_cases() {
        let (mut env, ecl) = fresh();
        let mut task = Task::default();
        assert!(call(&mut env, &ecl, &mut task, c.no, &sh_args(1, c.rest)).is_ok(), "syscall {}", c.no);
        let mut want = ShooterSlot::default();
        (c.mutate)(&mut want);
        assert_eq!(shooter_at(&env, 0, 1), want, "syscall {}", c.no);
        for k in [0usize, 2, 3] {
            assert_eq!(shooter_at(&env, 0, k), ShooterSlot::default(), "syscall {} slot {k}", c.no);
        }
        assert_eq!(task.sp, 0, "syscall {}", c.no);
    }
}

#[test]
fn offset_abs_flag_is_set_and_cleared_by_the_two_setters() {
    let (mut env, ecl) = fresh();
    let mut task = Task::default();
    let (ten, twenty, thirty, forty) =
        (Fx::from_int(10).raw(), Fx::from_int(20).raw(), Fx::from_int(30).raw(), Fx::from_int(40).raw());
    assert!(call(&mut env, &ecl, &mut task, SYS_SH_OFFSET_ABS, &[0, ten, twenty]).is_ok());
    let s = shooter_at(&env, 0, 0);
    assert_ne!(s.flags & SH_ABS_OFFSET, 0);
    assert_eq!((s.off_x.raw(), s.off_y.raw()), (ten, twenty));
    assert!(call(&mut env, &ecl, &mut task, SYS_SH_OFFSET, &[0, thirty, forty]).is_ok());
    let s = shooter_at(&env, 0, 0);
    assert_eq!(s.flags & SH_ABS_OFFSET, 0);
    assert_eq!((s.off_x.raw(), s.off_y.raw()), (thirty, forty));
}

#[test]
fn sh_reset_restores_every_field_to_default() {
    let (mut env, ecl) = fresh();
    let mut task = Task::default();
    for c in shooter_cases() {
        assert!(call(&mut env, &ecl, &mut task, c.no, &sh_args(0, c.rest)).is_ok());
    }
    assert_ne!(shooter_at(&env, 0, 0), ShooterSlot::default());
    assert!(call(&mut env, &ecl, &mut task, SYS_SH_RESET, &[0]).is_ok());
    assert_eq!(shooter_at(&env, 0, 0), ShooterSlot::default());
}

#[test]
fn every_shooter_setter_rejects_out_of_range_id() {
    let (mut env, ecl) = fresh();
    let mut task = Task::default();
    let mut expect_viol = env.w.body.diag.contract_viol;
    for c in shooter_cases() {
        for bad_id in [SHOOTERS_PER_TASK as i32, -1] {
            env.w.body.last_status = STATUS_OK;
            assert!(call(&mut env, &ecl, &mut task, c.no, &sh_args(bad_id, c.rest)).is_ok(), "syscall {}", c.no);
            expect_viol += 1;
            assert_eq!(env.w.body.diag.contract_viol, expect_viol, "syscall {} id {bad_id}", c.no);
            assert_eq!(env.w.body.last_status, STATUS_BAD_ARGS);
            for k in 0..SHOOTERS_PER_TASK {
                assert_eq!(shooter_at(&env, 0, k), ShooterSlot::default(), "syscall {} slot {k}", c.no);
            }
            assert_eq!(task.sp, 0);
        }
    }
}

#[test]
fn aim_and_ring_flags_are_cleared_by_passing_zero() {
    for (no, bit) in [(SYS_SH_AIM, SH_AIMED), (SYS_SH_RING, SH_RING)] {
        let (mut env, ecl) = fresh();
        let mut task = Task::default();
        assert!(call(&mut env, &ecl, &mut task, no, &[0, 1]).is_ok());
        assert_ne!(shooter_at(&env, 0, 0).flags & bit, 0);
        assert!(call(&mut env, &ecl, &mut task, no, &[0, 0]).is_ok());
        assert_eq!(shooter_at(&env, 0, 0).flags & bit, 0);
        assert_eq!(shooter_at(&env, 0, 0), ShooterSlot::default());
    }
}

#[test]
fn setters_write_the_slots_of_the_calling_task_not_task_zero() {
    let (mut env, ecl) = fresh();
    let mut task = Task::default();
    assert!(call_at(&mut env, &ecl, &mut task, SYS_SH_DIST, &[2, 0x0006_0000], 7).is_ok());
    assert_eq!(shooter_at(&env, 7, 2).dist, Fx::from_raw(0x0006_0000));
    for k in 0..SHOOTERS_PER_TASK {
        assert_eq!(shooter_at(&env, 0, k), ShooterSlot::default());
    }
}

#[test]
fn sh_sprite_narrowing_keeps_out_of_range_values_out_of_range() {
    let (mut env, ecl) = fresh();
    let mut task = Task::default();
    let n_rows = env.tables.appearances.len();
    assert!(env.tables.appearances[0].valid);
    for bad in [-4, -1, i32::MIN] {
        assert!(call(&mut env, &ecl, &mut task, SYS_SH_SPRITE, &[0, bad]).is_ok());
        let got = shooter_at(&env, 0, 0).appearance;
        assert_ne!(got, 0, "{bad}");
        assert!(got as usize >= n_rows, "{bad} -> {got}");
    }
    assert!(call(&mut env, &ecl, &mut task, SYS_SH_SPRITE, &[0, 100_000]).is_ok());
    assert!(shooter_at(&env, 0, 0).appearance as usize >= n_rows);
    assert!(call(&mut env, &ecl, &mut task, SYS_SH_SPRITE, &[0, 19]).is_ok());
    assert_eq!(shooter_at(&env, 0, 0).appearance, 19);
}

#[test]
fn sh_req_narrowing_degrades_bad_ids_to_no_request() {
    let (mut env, ecl) = fresh();
    let mut task = Task::default();
    assert!(call(&mut env, &ecl, &mut task, SYS_SH_REQ, &[0, -7]).is_ok());
    assert_eq!(shooter_at(&env, 0, 0).on_fire_req, 0);
    assert!(call(&mut env, &ecl, &mut task, SYS_SH_REQ, &[0, 100_000]).is_ok());
    assert_eq!(shooter_at(&env, 0, 0).on_fire_req, u16::MAX);
}

#[test]
fn sh_count_clamps_both_ends() {
    let (mut env, ecl) = fresh();
    let mut task = Task::default();
    assert!(call(&mut env, &ecl, &mut task, SYS_SH_COUNT, &[0, -5, i32::MAX]).is_ok());
    let s = shooter_at(&env, 0, 0);
    assert_eq!(s.n_angle, 0);
    assert_eq!(s.n_speed, 255);
    assert!(call(&mut env, &ecl, &mut task, SYS_SH_COUNT, &[0, 256, -256]).is_ok());
    let s = shooter_at(&env, 0, 0);
    assert_eq!(s.n_angle, 255);
    assert_eq!(s.n_speed, 0);
}

fn sh(env: &mut Env, ecl: &EclImage, task: &mut Task, no: u16, args: &[i32]) {
    assert!(call(env, ecl, task, no, args).is_ok(), "shooter syscall {no}");
    assert_eq!(task.sp, 0, "shooter syscall {no}");
}

#[test]
fn shooter_fan_matches_batch_with_centering_compensation() {
    const N_ANGLE: i32 = 5;
    const N_SPEED: i32 = 3;
    const BASE: i32 = 0x1234;
    const STEP: i32 = 0x0400;
    let x = Fx::from_int(30).raw();
    let y = Fx::from_int(-40).raw();
    let speed0 = Fx::from_int(2).raw();
    let speed_step = 0x0000_8000;
    let (mut wa, ecl) = fresh();
    let mut ta = Task::default();
    sh(&mut wa, &ecl, &mut ta, SYS_SH_SPRITE, &[0, ROW_C]);
    sh(&mut wa, &ecl, &mut ta, SYS_SH_OFFSET, &[0, x, y]);
    sh(&mut wa, &ecl, &mut ta, SYS_SH_COUNT, &[0, N_ANGLE, N_SPEED]);
    sh(&mut wa, &ecl, &mut ta, SYS_SH_ANGLE, &[0, BASE, STEP]);
    sh(&mut wa, &ecl, &mut ta, SYS_SH_SPEED, &[0, speed0, speed_step]);
    sh(&mut wa, &ecl, &mut ta, SYS_SH_FIRE, &[0]);
    let compensated = BASE - (N_ANGLE - 1) * STEP / 2;
    assert_ne!(compensated, BASE);
    let (mut wb, _) = fresh();
    let mut tb = Task::default();
    let args = [ROW_C, x, y, N_ANGLE, compensated, STEP, N_SPEED, speed0, speed_step];
    assert!(call(&mut wb, &ecl, &mut tb, SYS_CREATE_BULLETS_BATCH, &args).is_ok());
    assert_eq!(tb.stack[0], N_ANGLE * N_SPEED);
    let ia = wa.m.inner.live_bullets();
    let ib = wb.m.inner.live_bullets();
    assert_eq!(ia.len(), (N_ANGLE * N_SPEED) as usize);
    assert_eq!(ia.len(), ib.len());
    for (k, (a, b)) in ia.iter().zip(ib.iter()).enumerate() {
        assert_eq!(a.spawn.x, b.spawn.x, "bullet {k} x");
        assert_eq!(a.spawn.y, b.spawn.y, "bullet {k} y");
        assert_eq!(a.spawn.vx, b.spawn.vx, "bullet {k} vx");
        assert_eq!(a.spawn.vy, b.spawn.vy, "bullet {k} vy");
        assert_eq!(a.spawn.speed, b.spawn.speed, "bullet {k} speed");
        assert_eq!(a.spawn.angle, b.spawn.angle, "bullet {k} angle");
        assert_eq!(a.spawn.sprite, b.spawn.sprite, "bullet {k} sprite");
        assert_eq!(a.spawn.radius, b.spawn.radius, "bullet {k} radius");
    }
    let mut angles: Vec<u16> = ia.iter().map(|b| b.spawn.angle.raw()).collect();
    let mut speeds: Vec<i32> = ia.iter().map(|b| b.spawn.speed.raw()).collect();
    angles.sort_unstable();
    angles.dedup();
    speeds.sort_unstable();
    speeds.dedup();
    assert_eq!(angles.len(), N_ANGLE as usize);
    assert_eq!(speeds.len(), N_SPEED as usize);
}

#[test]
fn fan_centering_handles_even_ways_with_negative_step() {
    const N_ANGLE: i32 = 4;
    const STEP: i32 = -0x400;
    const BASE: i32 = 0;
    let (mut wa, ecl) = fresh();
    let mut ta = Task::default();
    sh(&mut wa, &ecl, &mut ta, SYS_SH_SPRITE, &[0, ROW_C]);
    sh(&mut wa, &ecl, &mut ta, SYS_SH_COUNT, &[0, N_ANGLE, 1]);
    sh(&mut wa, &ecl, &mut ta, SYS_SH_ANGLE, &[0, BASE, STEP]);
    sh(&mut wa, &ecl, &mut ta, SYS_SH_FIRE, &[0]);
    let got: Vec<u16> = wa.m.inner.live_bullets().iter().map(|b| b.spawn.angle.raw()).collect();
    assert_eq!(got, vec![1536, 512, 65024, 64000]);
    let compensated = BASE - (N_ANGLE - 1) * STEP / 2;
    let (mut wb, _) = fresh();
    let mut tb = Task::default();
    let args = [ROW_C, 0, 0, N_ANGLE, compensated, STEP, 1, 0, 0];
    assert!(call(&mut wb, &ecl, &mut tb, SYS_CREATE_BULLETS_BATCH, &args).is_ok());
    let want: Vec<u16> = wb.m.inner.live_bullets().iter().map(|b| b.spawn.angle.raw()).collect();
    assert_eq!(got, want);
}

#[test]
fn aim_is_measured_from_the_fire_origin_not_from_the_owner() {
    let (mut env, ecl) = fresh();
    place_player(&mut env, 0, 0, 384);
    let eh = env.m.inner.spawn_enemy(100, -60, 5);
    let mut t = enemy_task(eh);
    sh(&mut env, &ecl, &mut t, SYS_SH_SPRITE, &[0, ROW_A]);
    sh(&mut env, &ecl, &mut t, SYS_SH_OFFSET_ABS, &[0, Fx::from_int(300).raw(), 0]);
    sh(&mut env, &ecl, &mut t, SYS_SH_AIM, &[0, 1]);
    sh(&mut env, &ecl, &mut t, SYS_SH_FIRE, &[0]);
    let got = env.m.inner.live_bullets()[0].spawn.angle;
    let (px, py) = (env.w.body.players[0].x.raw(), env.w.body.players[0].y.raw());
    let from_origin = env.m.inner.atan2(Fx::from_raw(py), Fx::from_raw(px - Fx::from_int(300).raw()));
    let from_owner = env.m.inner.atan2(Fx::from_raw(py - Fx::from_int(-60).raw()), Fx::from_raw(px - Fx::from_int(100).raw()));
    assert_eq!(got, from_origin);
    assert_ne!(got, from_owner);
}

#[test]
fn shooter_aim_skips_unaimable_player() {
    let (mut env, ecl) = fresh();
    place_player(&mut env, 0, -200, -150);
    place_player(&mut env, 1, 200, 150);
    env.m.inner.aim = 1;
    let mut t = Task::default();
    sh(&mut env, &ecl, &mut t, SYS_SH_SPRITE, &[0, ROW_A]);
    sh(&mut env, &ecl, &mut t, SYS_SH_AIM, &[0, 1]);
    sh(&mut env, &ecl, &mut t, SYS_SH_FIRE, &[0]);
    let a = env.m.inner.live_bullets()[0].spawn.angle;
    let to_p1 = env.m.inner.atan2(Fx::from_int(150), Fx::from_int(200));
    let to_p0 = env.m.inner.atan2(Fx::from_int(-150), Fx::from_int(-200));
    assert_eq!(a, to_p1);
    assert_ne!(a, to_p0);
}

#[test]
fn shooter_aim_falls_back_to_p0_when_none_aimable() {
    let (mut env, ecl) = fresh();
    place_player(&mut env, 0, -200, -150);
    env.m.inner.aim = usize::MAX;
    let mut t = Task::default();
    sh(&mut env, &ecl, &mut t, SYS_SH_SPRITE, &[0, ROW_A]);
    sh(&mut env, &ecl, &mut t, SYS_SH_AIM, &[0, 1]);
    sh(&mut env, &ecl, &mut t, SYS_SH_FIRE, &[0]);
    let a = env.m.inner.live_bullets()[0].spawn.angle;
    assert_eq!(a, env.m.inner.atan2(Fx::from_int(-150), Fx::from_int(-200)));
}

#[test]
fn dist_pushes_each_bullet_along_its_own_angle() {
    let fire = |dist: i32| -> Vec<(i32, i32)> {
        let (mut env, ecl) = fresh();
        let mut t = Task::default();
        sh(&mut env, &ecl, &mut t, SYS_SH_SPRITE, &[0, ROW_A]);
        sh(&mut env, &ecl, &mut t, SYS_SH_COUNT, &[0, 4, 1]);
        sh(&mut env, &ecl, &mut t, SYS_SH_ANGLE, &[0, 0, 16384]);
        sh(&mut env, &ecl, &mut t, SYS_SH_DIST, &[0, dist]);
        sh(&mut env, &ecl, &mut t, SYS_SH_FIRE, &[0]);
        env.m.inner.live_bullets().iter().map(|b| (b.spawn.x.raw(), b.spawn.y.raw())).collect()
    };
    let base = fire(0);
    let pushed = fire(Fx::from_int(20).raw());
    assert_eq!(base.len(), 4);
    assert_eq!(pushed.len(), 4);
    let off: Vec<(i32, i32)> = base.iter().zip(&pushed).map(|(b, p)| (p.0 - b.0, p.1 - b.1)).collect();
    for (k, o) in off.iter().enumerate() {
        assert_ne!(*o, (0, 0), "bullet {k}");
    }
    for i in 0..4 {
        for j in (i + 1)..4 {
            assert_ne!(off[i], off[j], "bullets {i} and {j}");
        }
    }
}

#[test]
fn rect_and_polar_offsets_stack_rather_than_override() {
    let x = Fx::from_int(30).raw();
    let y = Fx::from_int(-10).raw();
    let ang = 8192;
    let r = Fx::from_int(25).raw();
    let fire = |rect: bool, polar: bool| -> (i32, i32) {
        let (mut env, ecl) = fresh();
        let mut t = Task::default();
        sh(&mut env, &ecl, &mut t, SYS_SH_SPRITE, &[0, ROW_A]);
        if rect {
            sh(&mut env, &ecl, &mut t, SYS_SH_OFFSET, &[0, x, y]);
        }
        if polar {
            sh(&mut env, &ecl, &mut t, SYS_SH_OFFSET_RAD, &[0, ang, r]);
        }
        sh(&mut env, &ecl, &mut t, SYS_SH_FIRE, &[0]);
        let b = env.m.inner.live_bullets()[0];
        (b.spawn.x.raw(), b.spawn.y.raw())
    };
    let only_rect = fire(true, false);
    let only_polar = fire(false, true);
    let both = fire(true, true);
    assert_ne!(only_rect, only_polar);
    assert_eq!(both, (only_rect.0 + only_polar.0, only_rect.1 + only_polar.1));
}

#[test]
fn aim_resolves_at_fire_time_not_at_set_time() {
    let (mut env, ecl) = fresh();
    place_player(&mut env, 0, 0, 384);
    let mut t = Task::default();
    sh(&mut env, &ecl, &mut t, SYS_SH_SPRITE, &[0, ROW_A]);
    sh(&mut env, &ecl, &mut t, SYS_SH_AIM, &[0, 1]);
    let p0 = (env.w.body.players[0].x, env.w.body.players[0].y);
    sh(&mut env, &ecl, &mut t, SYS_SH_FIRE, &[0]);
    place_player(&mut env, 0, 200, -150);
    let p1 = (env.w.body.players[0].x, env.w.body.players[0].y);
    sh(&mut env, &ecl, &mut t, SYS_SH_FIRE, &[0]);
    let live = env.m.inner.live_bullets();
    assert_eq!(live.len(), 2);
    let (a0, a1) = (live[0].spawn.angle, live[1].spawn.angle);
    assert_eq!(a0, env.m.inner.atan2(p0.1, p0.0));
    assert_eq!(a1, env.m.inner.atan2(p1.1, p1.0));
    assert_ne!(a0, a1);
}

#[test]
fn ring_distributes_exactly_around_the_full_circle() {
    const N: usize = 28;
    let (mut env, ecl) = fresh();
    let mut t = Task::default();
    sh(&mut env, &ecl, &mut t, SYS_SH_SPRITE, &[0, ROW_A]);
    sh(&mut env, &ecl, &mut t, SYS_SH_RING, &[0, 1]);
    sh(&mut env, &ecl, &mut t, SYS_SH_COUNT, &[0, N as i32, 1]);
    sh(&mut env, &ecl, &mut t, SYS_SH_FIRE, &[0]);
    let a: Vec<u16> = env.m.inner.live_bullets().iter().map(|b| b.spawn.angle.raw()).collect();
    assert_eq!(a.len(), N);
    for (i, &got) in a.iter().enumerate() {
        let want = ((i as i32 * 65536) / N as i32) as u16;
        assert_eq!(got, want, "bullet {i}");
    }
    let gaps: Vec<u32> = (0..N).map(|i| a[(i + 1) % N].wrapping_sub(a[i]) as u32).collect();
    let lo = *gaps.iter().min().unwrap();
    let hi = *gaps.iter().max().unwrap();
    assert!(hi - lo <= 1);
    assert_eq!(gaps.iter().sum::<u32>(), 65536);
}

#[test]
fn ring_angle_step_offsets_layers_not_bullets() {
    const STEP: i32 = 0x0300;
    let (mut env, ecl) = fresh();
    let mut t = Task::default();
    sh(&mut env, &ecl, &mut t, SYS_SH_SPRITE, &[0, ROW_A]);
    sh(&mut env, &ecl, &mut t, SYS_SH_RING, &[0, 1]);
    sh(&mut env, &ecl, &mut t, SYS_SH_COUNT, &[0, 4, 2]);
    sh(&mut env, &ecl, &mut t, SYS_SH_ANGLE, &[0, 0, STEP]);
    sh(&mut env, &ecl, &mut t, SYS_SH_FIRE, &[0]);
    let a: Vec<u16> = env.m.inner.live_bullets().iter().map(|b| b.spawn.angle.raw()).collect();
    assert_eq!(a.len(), 8);
    for i in 0..4 {
        assert_eq!(a[i * 2 + 1].wrapping_sub(a[i * 2]), STEP as u16, "group {i}");
    }
    assert_eq!(a[2].wrapping_sub(a[0]), (65536 / 4) as u16);
}

#[test]
fn xform_survives_a_frame_boundary_between_set_and_fire() {
    const OP_SET_SPEED: u8 = 10;
    let word0 = ((3u32 << 16) | ((OP_SET_SPEED as u32) << 8)) as i32;
    let arg0 = Fx::from_int(2).raw();
    let code = vec![
        op(OP_END),
        op(OP_PUSHI), word0 as u32, op(OP_POPL), 0,
        op(OP_PUSHI), arg0 as u32, op(OP_POPL), 1,
        op(OP_PUSHI), 0, op(OP_POPL), 2,
        op(OP_PUSHI), 0, op(OP_PUSHI), ROW_A as u32, op(OP_SYS), SYS_SH_SPRITE as u32,
        op(OP_PUSHI), 0, op(OP_PUSHI), 0, op(OP_PUSHI), 1, op(OP_SYS), SYS_SH_XFORM as u32,
        op(OP_PUSHI), 2, op(OP_WAIT),
        op(OP_PUSHI), 0, op(OP_SYS), SYS_SH_FIRE as u32,
        op(OP_PUSHI), 999, op(OP_WAIT), op(OP_END),
    ];
    let ecl = test_image(
        code,
        vec![SubInit::new(0, SubKind::Root, vec![]), SubInit::new(1, SubKind::Async, vec![])],
        vec![EntryInit::new("xf_task", 1)],
        Some(0),
    );
    let mut env = test_world();
    let idx = env.w.spawn_sub_internal(&ecl, ecl.sub_id(1).unwrap(), &[], (OWNER_STAGE, 0, 0)).unwrap();
    env.w.body.frame = 1;
    run_pass(&mut env, &ecl);
    assert_eq!(env.m.inner.bullets.iter_alive().len(), 0);
    assert_ne!(shooter_at(&env, idx as usize, 0).xform_cnt, 0);
    env.w.body.frame = 2;
    run_pass(&mut env, &ecl);
    assert_eq!(env.m.inner.bullets.iter_alive().len(), 0);
    env.w.body.frame = 3;
    run_pass(&mut env, &ecl);
    let b = env.m.inner.live_bullets()[0];
    assert_eq!(b.xform_len, 1);
    let got = b.first_xform.unwrap();
    assert_eq!((got.wait, got.op, got.pad, got.args), (3, OP_SET_SPEED, 0, [arg0, 0]));
}

#[test]
fn sh_task_spawns_one_task_per_bullet() {
    let ecl = async_pattern_image();
    let mut env = test_world();
    let mut t = Task::default();
    sh(&mut env, &ecl, &mut t, SYS_SH_SPRITE, &[0, ROW_A]);
    sh(&mut env, &ecl, &mut t, SYS_SH_COUNT, &[0, 3, 1]);
    sh(&mut env, &ecl, &mut t, SYS_SH_TASK, &[0, 1]);
    sh(&mut env, &ecl, &mut t, SYS_SH_FIRE, &[0]);
    let bullets = env.m.inner.bullets.iter_alive();
    assert_eq!(bullets.len(), 3);
    let spawned = alive_tasks(&env);
    assert_eq!(spawned.len(), 3);
    for (k, (&ti, &bi)) in spawned.iter().zip(&bullets).enumerate() {
        let c = *env.w.tasks.task(ti);
        assert_eq!(c.owner_kind, OWNER_BULLET, "task {k}");
        assert_eq!(c.owner_index, bi as u16, "task {k}");
        assert_eq!(c.owner_gen, env.m.inner.bullets.generation(bi), "task {k}");
    }
}

#[test]
fn sh_task_degrades_when_task_pool_is_full() {
    let ecl = async_pattern_image();
    let mut env = test_world();
    while env.w.tasks.spawn(ecl.sub_id(1).unwrap(), 0, (OWNER_STAGE, 0, 0), 0, 0).is_some() {}
    let mut t = Task::default();
    sh(&mut env, &ecl, &mut t, SYS_SH_SPRITE, &[0, ROW_A]);
    sh(&mut env, &ecl, &mut t, SYS_SH_COUNT, &[0, 3, 1]);
    sh(&mut env, &ecl, &mut t, SYS_SH_TASK, &[0, 1]);
    let before = env.w.body.diag.pool_full[POOL_TASK];
    sh(&mut env, &ecl, &mut t, SYS_SH_FIRE, &[0]);
    assert_eq!(env.m.inner.bullets.iter_alive().len(), 3);
    assert_eq!(env.w.body.diag.pool_full[POOL_TASK], before + 3);
}

#[test]
fn on_fire_req_reports_actual_count_not_requested() {
    let (mut env, ecl) = fresh();
    let cap = env.m.inner.bullets.cap();
    for _ in 0..(cap - 2) {
        env.m.inner.bullet_at(0, 0);
    }
    let ox = Fx::from_int(12).raw();
    let oy = Fx::from_int(-34).raw();
    let mut t = Task::default();
    sh(&mut env, &ecl, &mut t, SYS_SH_SPRITE, &[0, ROW_C]);
    sh(&mut env, &ecl, &mut t, SYS_SH_OFFSET, &[0, ox, oy]);
    sh(&mut env, &ecl, &mut t, SYS_SH_RING, &[0, 1]);
    sh(&mut env, &ecl, &mut t, SYS_SH_COUNT, &[0, 5, 1]);
    sh(&mut env, &ecl, &mut t, SYS_SH_REQ, &[0, 77]);
    sh(&mut env, &ecl, &mut t, SYS_SH_FIRE, &[0]);
    assert_eq!(env.m.inner.bullets.iter_alive().len(), cap);
    let r = env.m.inner.reqs.iter().find(|r| r.0 == 77).expect("a request");
    assert_eq!(r.1[0], ox);
    assert_eq!(r.1[1], oy);
    assert_eq!(r.1[2], ROW_C);
    assert_eq!(r.1[3], 2);
}

#[test]
fn on_fire_req_zero_emits_nothing() {
    let (mut env, ecl) = fresh();
    let mut t = Task::default();
    sh(&mut env, &ecl, &mut t, SYS_SH_SPRITE, &[0, ROW_A]);
    sh(&mut env, &ecl, &mut t, SYS_SH_FIRE, &[0]);
    assert_eq!(env.m.inner.bullets.iter_alive().len(), 1);
    assert!(env.m.inner.reqs.is_empty());
}

#[test]
fn sh_fire_rejects_degenerate_grid() {
    assert!(255 * 255 > 8192);
    for (n_angle, n_speed, why) in [(0, 1, "n_angle=0"), (1, 0, "n_speed=0"), (255, 255, "over the cap")] {
        let (mut env, ecl) = fresh();
        let mut t = Task::default();
        sh(&mut env, &ecl, &mut t, SYS_SH_SPRITE, &[0, ROW_A]);
        sh(&mut env, &ecl, &mut t, SYS_SH_COUNT, &[0, n_angle, n_speed]);
        let viol = env.w.body.diag.contract_viol;
        env.w.body.last_status = STATUS_OK;
        sh(&mut env, &ecl, &mut t, SYS_SH_FIRE, &[0]);
        assert_eq!(env.m.inner.bullets.iter_alive().len(), 0, "{why}");
        assert_eq!(env.w.body.diag.contract_viol, viol + 1, "{why}");
        assert_eq!(env.w.body.last_status, STATUS_BAD_ARGS, "{why}");
    }
}

#[test]
fn sh_fire_rejects_out_of_range_id() {
    let (mut env, ecl) = fresh();
    let mut t = Task::default();
    for bad in [SHOOTERS_PER_TASK as i32, -1] {
        let viol = env.w.body.diag.contract_viol;
        env.w.body.last_status = STATUS_OK;
        assert!(call(&mut env, &ecl, &mut t, SYS_SH_FIRE, &[bad]).is_ok());
        assert_eq!(t.sp, 0);
        assert_eq!(env.m.inner.bullets.iter_alive().len(), 0);
        assert_eq!(env.w.body.diag.contract_viol, viol + 1);
        assert_eq!(env.w.body.last_status, STATUS_BAD_ARGS);
    }
}

#[test]
fn sh_fire_faults_on_out_of_range_or_blank_appearance() {
    let (mut env, ecl) = fresh();
    let mut t = Task::default();
    sh(&mut env, &ecl, &mut t, SYS_SH_SPRITE, &[0, -4]);
    assert_eq!(call(&mut env, &ecl, &mut t, SYS_SH_FIRE, &[0]), Err(FAULT_BAD_OP));
    assert_eq!(env.m.inner.bullets.iter_alive().len(), 0);
    const BLANK: i32 = 3 * 16 + 7;
    let (mut env, ecl) = fresh();
    while env.tables.appearances.len() <= BLANK as usize {
        env.tables.appearances.push(Appearance { valid: true, sprite: 0, radius: Fx::from_int(2) });
    }
    env.tables.appearances[BLANK as usize].valid = false;
    let mut t = Task::default();
    sh(&mut env, &ecl, &mut t, SYS_SH_SPRITE, &[0, BLANK]);
    assert_eq!(call(&mut env, &ecl, &mut t, SYS_SH_FIRE, &[0]), Err(FAULT_BAD_OP));
    assert_eq!(env.m.inner.bullets.iter_alive().len(), 0);
}

#[test]
fn abs_offset_ignores_owner_position_while_relative_follows_it() {
    let dx = Fx::from_int(7).raw();
    let dy = Fx::from_int(9).raw();
    let fire = |abs: bool| -> (i32, i32) {
        let (mut env, ecl) = fresh();
        let eh = env.m.inner.spawn_enemy(100, -60, 5);
        let mut t = enemy_task(eh);
        sh(&mut env, &ecl, &mut t, SYS_SH_SPRITE, &[0, ROW_A]);
        let no = if abs { SYS_SH_OFFSET_ABS } else { SYS_SH_OFFSET };
        sh(&mut env, &ecl, &mut t, no, &[0, dx, dy]);
        sh(&mut env, &ecl, &mut t, SYS_SH_FIRE, &[0]);
        let b = env.m.inner.live_bullets()[0];
        (b.spawn.x.raw(), b.spawn.y.raw())
    };
    assert_eq!(fire(true), (dx, dy));
    assert_eq!(fire(false), (Fx::from_int(100).raw() + dx, Fx::from_int(-60).raw() + dy));
}

#[test]
fn atan2_argument_order_is_y_then_x() {
    let (mut env, ecl) = fresh();
    let mut t = Task::default();
    let one = Fx::from_int(1).raw();
    assert!(call(&mut env, &ecl, &mut t, SYS_ATAN2, &[one, 0]).is_ok());
    assert_eq!(t.sp, 1);
    assert_eq!(t.stack[0], 16384);
    t.sp = 0;
    assert!(call(&mut env, &ecl, &mut t, SYS_ATAN2, &[0, one]).is_ok());
    assert_eq!(t.stack[0], 0);
}

#[test]
fn atan2_at_origin_is_zero_without_fault() {
    let (mut env, ecl) = fresh();
    let mut t = Task::default();
    let viol = env.w.body.diag.contract_viol;
    assert!(call(&mut env, &ecl, &mut t, SYS_ATAN2, &[0, 0]).is_ok());
    assert_eq!(t.stack[0], 0);
    assert_eq!(env.w.body.diag.contract_viol, viol);
}

#[test]
fn dist_is_the_square_root_of_the_squared_length() {
    let (mut env, ecl) = fresh();
    let mut t = Task::default();
    assert!(call(&mut env, &ecl, &mut t, SYS_DIST, &[Fx::from_int(3).raw(), Fx::from_int(4).raw()]).is_ok());
    assert_eq!(t.sp, 1);
    assert_eq!(t.stack[0], Fx::from_int(5).raw());
}

#[test]
fn dist_of_negative_components_is_the_same_magnitude() {
    let (mut env, ecl) = fresh();
    let mut t = Task::default();
    assert!(call(&mut env, &ecl, &mut t, SYS_DIST, &[Fx::from_int(-3).raw(), Fx::from_int(-4).raw()]).is_ok());
    assert_eq!(t.stack[0], Fx::from_int(5).raw());
}

#[test]
fn dist_saturates_instead_of_wrapping_negative() {
    let (mut env, ecl) = fresh();
    let mut t = Task::default();
    assert!(call(&mut env, &ecl, &mut t, SYS_DIST, &[i32::MAX, i32::MAX]).is_ok());
    assert_eq!(t.stack[0], i32::MAX);
}

#[test]
fn nearest_enemy_returns_the_nearer_of_two_enemies() {
    let (mut env, ecl) = fresh();
    let far = env.m.inner.spawn_enemy(10, 0, 5);
    let near = env.m.inner.spawn_enemy(3, 0, 5);
    assert!(near.index > far.index);
    let mut t = Task::default();
    assert!(call(&mut env, &ecl, &mut t, SYS_NEAREST_ENEMY, &[0, 0]).is_ok());
    assert_eq!(t.sp, 1);
    assert_eq!(t.stack[0], pack_handle(near));
    t.sp = 0;
    assert!(call(&mut env, &ecl, &mut t, SYS_NEAREST_ENEMY, &[Fx::from_int(20).raw(), 0]).is_ok());
    assert_eq!(t.stack[0], pack_handle(far));
}

#[test]
fn nearest_enemy_on_empty_field_is_minus_one() {
    let (mut env, ecl) = fresh();
    let mut t = Task::default();
    assert!(call(&mut env, &ecl, &mut t, SYS_NEAREST_ENEMY, &[0, 0]).is_ok());
    assert_eq!(t.stack[0], -1);
}

fn read_enemy_port(env: &mut Env, ecl: &EclImage, no: u16, handle: i32) -> i32 {
    let mut t = Task::default();
    assert!(call(env, ecl, &mut t, no, &[handle]).is_ok());
    assert_eq!(t.sp, 1);
    t.stack[0]
}

fn spawn_enemy_via_syscall(env: &mut Env, ecl: &EclImage, x: i32, y: i32, hp: i32) -> i32 {
    let mut t = Task::default();
    let args = [Fx::from_int(x).raw(), Fx::from_int(y).raw(), hp, 0, 100, 0, -1, 0];
    assert!(call(env, ecl, &mut t, SYS_SPAWN_ENEMY, &args).is_ok());
    t.stack[0]
}

#[test]
fn enemy_x_and_enemy_y_read_their_own_axis() {
    let (mut env, ecl) = fresh();
    let h = env.m.inner.spawn_enemy(30, -70, 5);
    assert_eq!(read_enemy_port(&mut env, &ecl, SYS_ENEMY_X, pack_handle(h)), Fx::from_int(30).raw());
    assert_eq!(read_enemy_port(&mut env, &ecl, SYS_ENEMY_Y, pack_handle(h)), Fx::from_int(-70).raw());
}

#[test]
fn enemy_pos_on_invalid_handle_degrades_to_zero() {
    let (mut env, ecl) = fresh();
    let h = env.m.inner.spawn_enemy(30, -70, 5);
    let before = env.w.body.diag.contract_viol;
    for no in [SYS_ENEMY_X, SYS_ENEMY_Y] {
        assert_eq!(read_enemy_port(&mut env, &ecl, no, -1), 0);
        assert_eq!(read_enemy_port(&mut env, &ecl, no, 9999), 0);
    }
    assert!(env.m.inner.enemies.free(h));
    for no in [SYS_ENEMY_X, SYS_ENEMY_Y] {
        assert_eq!(read_enemy_port(&mut env, &ecl, no, pack_handle(h)), 0);
    }
    assert_eq!(env.w.body.diag.contract_viol, before);
}

#[test]
fn enemy_pos_is_readable_while_dying() {
    let (mut env, ecl) = fresh();
    let h = env.m.inner.spawn_enemy(30, -70, 5);
    env.m.inner.edit_enemy(h.index as usize, |e| e.flags |= ENEMY_DYING);
    assert_eq!(read_enemy_port(&mut env, &ecl, SYS_ENEMY_X, pack_handle(h)), Fx::from_int(30).raw());
    assert_eq!(read_enemy_port(&mut env, &ecl, SYS_ENEMY_Y, pack_handle(h)), Fx::from_int(-70).raw());
}

#[test]
fn enemy_pos_is_callable_from_a_stage_task() {
    let (mut env, ecl) = fresh();
    let h = env.m.inner.spawn_enemy(30, -70, 5);
    let mut t = Task { owner_kind: OWNER_STAGE, ..Task::default() };
    assert!(call(&mut env, &ecl, &mut t, SYS_ENEMY_X, &[pack_handle(h)]).is_ok());
    assert_eq!(t.stack[0], Fx::from_int(30).raw());
}

#[test]
fn enemy_alive_is_one_for_a_live_enemy_and_zero_for_invalid_handles() {
    let (mut env, ecl) = fresh();
    let h = env.m.inner.spawn_enemy(30, -70, 5);
    let before = env.w.body.diag.contract_viol;
    assert_eq!(read_enemy_port(&mut env, &ecl, SYS_ENEMY_ALIVE, pack_handle(h)), 1);
    assert_eq!(read_enemy_port(&mut env, &ecl, SYS_ENEMY_ALIVE, -1), 0);
    assert_eq!(read_enemy_port(&mut env, &ecl, SYS_ENEMY_ALIVE, 9999), 0);
    assert!(env.m.inner.enemies.free(h));
    assert_eq!(read_enemy_port(&mut env, &ecl, SYS_ENEMY_ALIVE, pack_handle(h)), 0);
    assert_eq!(env.w.body.diag.contract_viol, before);
}

#[test]
fn enemy_alive_stays_one_while_dying() {
    let (mut env, ecl) = fresh();
    let h = env.m.inner.spawn_enemy(30, -70, 5);
    env.m.inner.edit_enemy(h.index as usize, |e| e.flags |= ENEMY_DYING);
    assert_eq!(read_enemy_port(&mut env, &ecl, SYS_ENEMY_ALIVE, pack_handle(h)), 1);
    assert_eq!(read_enemy_port(&mut env, &ecl, SYS_ENEMY_X, pack_handle(h)), Fx::from_int(30).raw());
}

#[test]
fn enemy_alive_agrees_with_enemy_hp_and_closes_the_minus_one_seam() {
    let (mut env, ecl) = fresh();
    let h = env.m.inner.spawn_enemy(30, -70, 5);
    env.m.inner.edit_enemy(h.index as usize, |e| e.hp = -1);
    assert_eq!(read_enemy_port(&mut env, &ecl, SYS_ENEMY_HP, pack_handle(h)), -1);
    assert_eq!(read_enemy_port(&mut env, &ecl, SYS_ENEMY_ALIVE, pack_handle(h)), 1);
    assert!(env.m.inner.enemies.free(h));
    for handle in [-1i32, 9999, pack_handle(h)] {
        let alive = read_enemy_port(&mut env, &ecl, SYS_ENEMY_ALIVE, handle);
        let hp = read_enemy_port(&mut env, &ecl, SYS_ENEMY_HP, handle);
        assert_eq!((alive, hp), (0, -1), "handle {handle}");
    }
}

#[test]
fn enemy_alive_is_callable_from_a_stage_task() {
    let (mut env, ecl) = fresh();
    let h = env.m.inner.spawn_enemy(30, -70, 5);
    let mut t = Task { owner_kind: OWNER_STAGE, ..Task::default() };
    assert!(call(&mut env, &ecl, &mut t, SYS_ENEMY_ALIVE, &[pack_handle(h)]).is_ok());
    assert_eq!(t.stack[0], 1);
}

#[test]
fn nearest_enemy_is_callable_from_a_stage_task() {
    let (mut env, ecl) = fresh();
    let h = env.m.inner.spawn_enemy(5, 5, 3);
    let mut t = Task { owner_kind: OWNER_STAGE, ..Task::default() };
    assert!(call(&mut env, &ecl, &mut t, SYS_NEAREST_ENEMY, &[0, 0]).is_ok());
    assert_eq!(t.stack[0], pack_handle(h));
}

#[test]
fn a_stale_enemy_handle_does_not_read_the_enemy_that_took_its_slot() {
    let (mut env, ecl) = fresh();
    let a = spawn_enemy_via_syscall(&mut env, &ecl, 30, -70, 77);
    let a_idx = (a & 0xFFFF) as usize;
    assert_eq!(a_idx, 0);
    let ah = Handle { index: a_idx as u16, generation: env.m.inner.enemies.generation(a_idx) };
    assert!(env.m.inner.enemies.free(ah));
    let b = spawn_enemy_via_syscall(&mut env, &ecl, 55, 66, 123);
    assert_eq!((b & 0xFFFF) as usize, a_idx);
    assert_eq!(read_enemy_port(&mut env, &ecl, SYS_ENEMY_HP, a), -1);
    assert_eq!(read_enemy_port(&mut env, &ecl, SYS_ENEMY_X, a), 0);
    assert_eq!(read_enemy_port(&mut env, &ecl, SYS_ENEMY_Y, a), 0);
    assert_eq!(read_enemy_port(&mut env, &ecl, SYS_ENEMY_ALIVE, a), 0);
    assert_ne!(b, a);
    assert_eq!(read_enemy_port(&mut env, &ecl, SYS_ENEMY_HP, b), 123);
    assert_eq!(read_enemy_port(&mut env, &ecl, SYS_ENEMY_X, b), Fx::from_int(55).raw());
    assert_eq!(read_enemy_port(&mut env, &ecl, SYS_ENEMY_Y, b), Fx::from_int(66).raw());
    assert_eq!(read_enemy_port(&mut env, &ecl, SYS_ENEMY_ALIVE, b), 1);
    let mut t = Task::default();
    assert!(call(&mut env, &ecl, &mut t, SYS_NEAREST_ENEMY, &[0, 0]).is_ok());
    assert_eq!(t.stack[0], b);
}

#[test]
fn packed_handle_stays_non_negative_and_resolves_with_a_high_generation() {
    let (mut env, ecl) = fresh();
    env.m.inner.enemies.set_generation(0, 0xF00C);
    let h = spawn_enemy_via_syscall(&mut env, &ecl, 30, -70, 77);
    assert_eq!(env.m.inner.enemies.generation(0), 0xF00D);
    assert!(h >= 0);
    assert_eq!((h & 0xFFFF) as usize, 0);
    assert_eq!((h >> 16) & 0x7FFF, 0xF00D & 0x7FFF);
    assert_eq!(read_enemy_port(&mut env, &ecl, SYS_ENEMY_HP, h), 77);
    assert_eq!(read_enemy_port(&mut env, &ecl, SYS_ENEMY_X, h), Fx::from_int(30).raw());
    assert_eq!(read_enemy_port(&mut env, &ecl, SYS_ENEMY_Y, h), Fx::from_int(-70).raw());
    assert_eq!(read_enemy_port(&mut env, &ecl, SYS_ENEMY_ALIVE, h), 1);
}

#[test]
fn freshly_spawned_enemy_handle_feeds_all_four_read_ports() {
    let (mut env, ecl) = fresh();
    let h = spawn_enemy_via_syscall(&mut env, &ecl, 30, -70, 77);
    assert!(h >= 0);
    assert_eq!(read_enemy_port(&mut env, &ecl, SYS_ENEMY_HP, h), 77);
    assert_eq!(read_enemy_port(&mut env, &ecl, SYS_ENEMY_X, h), Fx::from_int(30).raw());
    assert_eq!(read_enemy_port(&mut env, &ecl, SYS_ENEMY_Y, h), Fx::from_int(-70).raw());
    assert_eq!(read_enemy_port(&mut env, &ecl, SYS_ENEMY_ALIVE, h), 1);
    let mut t = Task::default();
    assert!(call(&mut env, &ecl, &mut t, SYS_NEAREST_ENEMY, &[0, 0]).is_ok());
    assert_eq!(t.stack[0], h);
}

#[test]
fn minus_one_is_still_invalid_for_every_read_port() {
    let (mut env, ecl) = fresh();
    let live = spawn_enemy_via_syscall(&mut env, &ecl, 30, -70, 77);
    assert_eq!(read_enemy_port(&mut env, &ecl, SYS_ENEMY_ALIVE, live), 1);
    let before = env.w.body.diag.contract_viol;
    assert_eq!(read_enemy_port(&mut env, &ecl, SYS_ENEMY_HP, -1), -1);
    assert_eq!(read_enemy_port(&mut env, &ecl, SYS_ENEMY_X, -1), 0);
    assert_eq!(read_enemy_port(&mut env, &ecl, SYS_ENEMY_Y, -1), 0);
    assert_eq!(read_enemy_port(&mut env, &ecl, SYS_ENEMY_ALIVE, -1), 0);
    assert_eq!(env.w.body.diag.contract_viol, before);
}

#[test]
fn a_negative_handle_whose_low_bits_alias_a_live_enemy_is_still_rejected() {
    let (mut env, ecl) = fresh();
    env.m.inner.enemies.set_generation(0, 0x7FFE);
    let good = spawn_enemy_via_syscall(&mut env, &ecl, 30, -70, 77);
    assert_eq!(env.m.inner.enemies.generation(0), 0x7FFF);
    assert_eq!(good, 0x7FFF_0000);
    assert_eq!(read_enemy_port(&mut env, &ecl, SYS_ENEMY_HP, good), 77);
    assert_eq!(read_enemy_port(&mut env, &ecl, SYS_ENEMY_ALIVE, good), 1);
    const ALIAS: i32 = -65536;
    assert_eq!(ALIAS & 0xFFFF, 0);
    assert_eq!((ALIAS >> 16) & 0x7FFF, 0x7FFF);
    assert_eq!(read_enemy_port(&mut env, &ecl, SYS_ENEMY_HP, ALIAS), -1);
    assert_eq!(read_enemy_port(&mut env, &ecl, SYS_ENEMY_X, ALIAS), 0);
    assert_eq!(read_enemy_port(&mut env, &ecl, SYS_ENEMY_Y, ALIAS), 0);
    assert_eq!(read_enemy_port(&mut env, &ecl, SYS_ENEMY_ALIVE, ALIAS), 0);
}

#[test]
fn set_anm_state_and_fx_on_fault_on_non_enemy_owner() {
    let (mut env, ecl) = fresh();
    let mut task = Task::default();
    assert_eq!(call(&mut env, &ecl, &mut task, SYS_SET_ANM_STATE, &[1]), Err(FAULT_BAD_OP));
    let mut task = Task::default();
    assert_eq!(call(&mut env, &ecl, &mut task, SYS_FX_ON, &[1, 2]), Err(FAULT_BAD_OP));
    assert!(env.m.inner.reqs.is_empty());
}

#[test]
fn fx_at_emits_pinned_request_layout() {
    let (mut env, ecl) = fresh();
    let mut task = Task::default();
    let args = [Fx::from_int(12).raw(), Fx::from_int(-34).raw(), 7, 99];
    assert!(call(&mut env, &ecl, &mut task, SYS_FX_AT, &args).is_ok());
    assert_eq!(env.m.inner.reqs, vec![(REQ_FX_AT, [Fx::from_int(12).raw(), Fx::from_int(-34).raw(), 7, 99, 0, 0])]);
    assert_eq!(task.sp, 0);
}

#[test]
fn fx_on_emits_owner_handle_as_two_raw_slots() {
    let (mut env, ecl) = fresh();
    let eh = env.m.inner.spawn_enemy(0, 0, 5);
    let mut task = enemy_task(eh);
    assert!(call(&mut env, &ecl, &mut task, SYS_FX_ON, &[5, -8]).is_ok());
    assert_eq!(env.m.inner.reqs, vec![(REQ_FX_ATTACHED, [eh.index as i32, eh.generation as i32, 5, -8, 0, 0])]);
}

#[test]
fn all_three_bullet_creation_paths_stamp_born_frame() {
    let (mut env, ecl) = fresh();
    env.w.body.frame = 42;
    let mut task = Task::default();
    assert!(call(&mut env, &ecl, &mut task, SYS_CREATE_BULLET, &[ROW_B, 0, 0, Fx::from_int(1).raw(), 0, 0, 0, -1]).is_ok());
    let i = task.stack[0] as usize;
    assert_eq!(env.m.inner.bullets.item(i).spawn.born_frame, 42);
    let mut task = Task::default();
    let n0 = env.m.inner.bullets.iter_alive().len();
    assert!(call(&mut env, &ecl, &mut task, SYS_CREATE_BULLETS_BATCH, &[ROW_B, 0, 0, 3, 0, 1000, 1, Fx::from_int(1).raw(), 0]).is_ok());
    assert!(env.m.inner.bullets.iter_alive().len() > n0);
    for b in env.m.inner.live_bullets() {
        assert_eq!(b.spawn.born_frame, 42);
    }
    let mut task = Task::default();
    assert!(call(&mut env, &ecl, &mut task, SYS_SH_RESET, &[0]).is_ok());
    assert!(call(&mut env, &ecl, &mut task, SYS_SH_SPRITE, &[0, ROW_B]).is_ok());
    assert!(call(&mut env, &ecl, &mut task, SYS_SH_COUNT, &[0, 2, 1]).is_ok());
    let n1 = env.m.inner.bullets.iter_alive().len();
    assert!(call(&mut env, &ecl, &mut task, SYS_SH_FIRE, &[0]).is_ok());
    assert!(env.m.inner.bullets.iter_alive().len() > n1);
    for b in env.m.inner.live_bullets() {
        assert_eq!(b.spawn.born_frame, 42);
    }
}

#[test]
fn spawn_enemy_stamps_anm_state_frame() {
    let (mut env, ecl) = fresh();
    env.w.body.frame = 42;
    let mut task = Task::default();
    let args = [Fx::from_int(5).raw(), Fx::from_int(6).raw(), 42, 1, 100, 0, -1, 0];
    assert!(call(&mut env, &ecl, &mut task, SYS_SPAWN_ENEMY, &args).is_ok());
    let e = env.m.inner.enemy_at(enemy_slot(task.stack[0]));
    assert_eq!(e.anm_state, 0);
    assert_eq!(e.anm_state_frame, 42);
}

#[test]
fn set_invuln_writes_rejects_out_of_range_and_faults_for_non_enemy() {
    let (mut env, ecl) = fresh();
    let eh = env.m.inner.spawn_enemy(0, 0, 100);
    let mut task = enemy_task(eh);
    assert!(call(&mut env, &ecl, &mut task, SYS_SET_INVULN, &[120]).is_ok());
    assert_eq!(env.m.inner.enemy(eh).invuln, 120);
    for bad in [-1, 65536] {
        let v0 = env.w.body.diag.contract_viol;
        assert!(call(&mut env, &ecl, &mut task, SYS_SET_INVULN, &[bad]).is_ok());
        assert_eq!(env.m.inner.enemy(eh).invuln, 120, "{bad}");
        assert_eq!(env.w.body.diag.contract_viol, v0 + 1);
    }
    let mut stage = Task::default();
    assert_eq!(call(&mut env, &ecl, &mut stage, SYS_SET_INVULN, &[1]), Err(FAULT_BAD_OP));
}

#[test]
fn set_hitbox_and_hurtbox_write_their_own_radius_and_clamp() {
    let (mut env, ecl) = fresh();
    let eh = env.m.inner.spawn_enemy(0, 0, 100);
    let mut task = enemy_task(eh);
    assert!(call(&mut env, &ecl, &mut task, SYS_SET_HITBOX, &[Fx::from_int(40).raw()]).is_ok());
    assert_eq!(env.m.inner.enemy(eh).radius, Fx::from_int(40));
    assert_eq!(env.m.inner.enemy(eh).hurtbox, Fx::from_int(16));
    assert!(call(&mut env, &ecl, &mut task, SYS_SET_HURTBOX, &[Fx::from_int(24).raw()]).is_ok());
    assert_eq!(env.m.inner.enemy(eh).hurtbox, Fx::from_int(24));
    assert_eq!(env.m.inner.enemy(eh).radius, Fx::from_int(40));
    let v0 = env.w.body.diag.contract_viol;
    assert!(call(&mut env, &ecl, &mut task, SYS_SET_HITBOX, &[Fx::from_int(-5).raw()]).is_ok());
    assert_eq!(env.m.inner.enemy(eh).radius, Fx::zero());
    assert_eq!(env.w.body.diag.contract_viol, v0 + 1);
}

#[test]
fn set_enemy_flag_accepts_only_settable_bits() {
    let (mut env, ecl) = fresh();
    let eh = env.m.inner.spawn_enemy(0, 0, 100);
    let mut task = enemy_task(eh);
    let (nb, ex) = (ENEMY_NO_BODY as i32, ENEMY_KILLALL_EXEMPT as i32);
    assert!(call(&mut env, &ecl, &mut task, SYS_SET_ENEMY_FLAG, &[nb | ex, 1]).is_ok());
    assert_eq!(env.m.inner.enemy(eh).flags, ENEMY_NO_BODY | ENEMY_KILLALL_EXEMPT);
    assert!(call(&mut env, &ecl, &mut task, SYS_SET_ENEMY_FLAG, &[ex, 0]).is_ok());
    assert_eq!(env.m.inner.enemy(eh).flags, ENEMY_NO_BODY);
    for bad in [0, ENEMY_DYING as i32, 8, nb | ENEMY_DYING as i32] {
        let v0 = env.w.body.diag.contract_viol;
        assert!(call(&mut env, &ecl, &mut task, SYS_SET_ENEMY_FLAG, &[bad, 1]).is_ok());
        assert_eq!(env.m.inner.enemy(eh).flags, ENEMY_NO_BODY, "mask {bad}");
        assert_eq!(env.w.body.diag.contract_viol, v0 + 1);
    }
}

#[test]
fn self_enemy_pushes_packed_handle_or_minus_one() {
    let (mut env, ecl) = fresh();
    let eh = env.m.inner.spawn_enemy(0, 0, 100);
    let mut task = enemy_task(eh);
    assert!(call(&mut env, &ecl, &mut task, SYS_SELF_ENEMY, &[]).is_ok());
    assert_eq!(task.stack[0], pack_handle(eh));
    let mut stage = Task::default();
    assert!(call(&mut env, &ecl, &mut stage, SYS_SELF_ENEMY, &[]).is_ok());
    assert_eq!(stage.stack[0], -1);
}

#[test]
fn spell_result_reads_slot_and_rejects_out_of_range() {
    const SPELL_END_TIMEOUT: u8 = 2;
    let (mut env, ecl) = fresh();
    env.w.body.spell_last_result[1] = SPELL_END_TIMEOUT;
    let mut stage = Task::default();
    assert!(call(&mut env, &ecl, &mut stage, SYS_SPELL_RESULT, &[1]).is_ok());
    assert_eq!(stage.stack[0], SPELL_END_TIMEOUT as i32);
    for bad in [-1, 2] {
        let mut t = Task::default();
        let v0 = env.w.body.diag.contract_viol;
        assert!(call(&mut env, &ecl, &mut t, SYS_SPELL_RESULT, &[bad]).is_ok());
        assert_eq!(t.stack[0], 0);
        assert_eq!(env.w.body.diag.contract_viol, v0 + 1);
    }
}

#[test]
fn clear_bullets_at_creates_one_frame_field_with_star_bit() {
    let (mut env, ecl) = fresh();
    let mut stage = Task::default();
    let args = [Fx::from_int(-30).raw(), Fx::from_int(200).raw(), Fx::from_int(40).raw(), 0];
    assert!(call(&mut env, &ecl, &mut stage, SYS_CLEAR_BULLETS_AT, &args).is_ok());
    assert_eq!(
        env.m.inner.fields,
        vec![FieldSpec::At { x: Fx::from_int(-30), y: Fx::from_int(200), r: Fx::from_int(40), stars: false }]
    );
    let (mut env2, _) = fresh();
    let mut args2 = args;
    args2[3] = 1;
    let mut stage2 = Task::default();
    assert!(call(&mut env2, &ecl, &mut stage2, SYS_CLEAR_BULLETS_AT, &args2).is_ok());
    assert_eq!(
        env2.m.inner.fields,
        vec![FieldSpec::At { x: Fx::from_int(-30), y: Fx::from_int(200), r: Fx::from_int(40), stars: true }]
    );
}

fn one_arg_async_image() -> EclImage {
    test_image(
        vec![op(OP_PUSHI), 999, op(OP_WAIT)],
        vec![SubInit::new(0, SubKind::Root, vec![]), SubInit::new(0, SubKind::Async, vec![EclValueType::Int])],
        vec![EntryInit::new("zako", 1)],
        Some(0),
    )
}

#[test]
fn spawn_enemy_with_args_gives_each_task_its_own_args_same_frame() {
    let ecl = one_arg_async_image();
    let mut env = test_world();
    let mut task = Task::default();
    for v in [111, 222] {
        let args = [0, Fx::from_int(80).raw(), 10, 0, 0, 0, 1, v, 1];
        assert!(call(&mut env, &ecl, &mut task, SYS_SPAWN_ENEMY, &args).is_ok());
    }
    let got: Vec<i32> = alive_tasks(&env).iter().map(|&i| env.w.tasks.task(i).locals[0]).collect();
    assert_eq!(got, vec![111, 222]);
}

#[test]
fn spawn_enemy_with_args_rejects_bad_arity_before_creating_enemy() {
    let ecl = one_arg_async_image();
    let cases: [(&[i32], u8); 4] = [
        (&[0, 0, 10, 0, 0, 0, 1, 0], FAULT_BAD_OP),
        (&[0, 0, 10, 0, 0, 0, -1, 7, 1], FAULT_BAD_OP),
        (&[0, 0, 10, 0, 0, 0, 1, 65], FAULT_STACK),
        (&[0, 0, 10, 0, 0, 0, 1, 3], FAULT_STACK),
    ];
    for (args, fault) in cases {
        let mut env = test_world();
        let mut task = Task::default();
        assert_eq!(call(&mut env, &ecl, &mut task, SYS_SPAWN_ENEMY, args), Err(fault), "{args:?}");
        assert_eq!(env.m.inner.enemies.iter_alive().len(), 0, "{args:?}");
    }
}

fn laser_args(color: i32, x: Fx, y: Fx, angle: Angle, len: Fx, width: Fx, warn: i32, active: i32, fade: i32) -> [i32; 9] {
    [color, x.raw(), y.raw(), angle.raw() as i32, len.raw(), width.raw(), warn, active, fade]
}

fn laser_slot(packed: i32) -> usize {
    (packed & 0xFFFF) as usize
}

#[test]
fn laser_create_packs_handle_and_fills_fields() {
    let (mut env, ecl) = fresh();
    let mut task = Task::default();
    let args = laser_args(3, Fx::from_int(10), Fx::from_int(20), Angle(16384), Fx::from_int(500), Fx::from_int(32), 30, 120, 16);
    assert!(call(&mut env, &ecl, &mut task, SYS_LASER_CREATE, &args).is_ok());
    let packed = task.stack[0];
    assert!(packed >= 0);
    let i = laser_slot(packed);
    assert!(env.m.inner.lasers.is_alive(i));
    assert_eq!((packed >> 16) & 0x7FFF, (env.m.inner.lasers.generation(i) & 0x7FFF) as i32);
    let l = env.m.inner.lasers.item(i);
    assert_eq!(l.spawn.ox, Fx::from_int(10));
    assert_eq!(l.spawn.oy, Fx::from_int(20));
    assert_eq!(l.spawn.angle, Angle(16384));
    assert_eq!(l.spawn.len, Fx::from_int(500));
    assert_eq!(l.spawn.width, Fx::from_int(32));
    assert_eq!(l.spawn.sprite, 3);
    assert_eq!(l.spawn.warn, 30);
    assert_eq!(l.spawn.active, 120);
    assert_eq!(l.spawn.fade, 16);
}

#[test]
fn laser_bad_color_faults_without_creating() {
    for color in [-1, 16] {
        let (mut env, ecl) = fresh();
        let mut task = Task::default();
        let args = laser_args(color, Fx::zero(), Fx::zero(), Angle::zero(), Fx::zero(), Fx::zero(), 0, 0, 0);
        assert_eq!(call(&mut env, &ecl, &mut task, SYS_LASER_CREATE, &args), Err(FAULT_BAD_OP), "color {color}");
        assert_eq!(env.m.inner.lasers.iter_alive().len(), 0);
    }
}

#[test]
fn laser_pool_full_pushes_neg1_and_counts() {
    let (mut env, ecl) = fresh();
    let zero = LaserSpawn { ox: Fx::zero(), oy: Fx::zero(), angle: Angle::zero(), len: Fx::zero(), width: Fx::zero(), sprite: 0, warn: 0, active: 1, fade: 0 };
    while env.m.inner.create_laser(zero) != Handle::null() {}
    let mut task = Task::default();
    let pf0 = env.w.body.diag.pool_full[POOL_LASER];
    let args = laser_args(0, Fx::zero(), Fx::zero(), Angle::zero(), Fx::zero(), Fx::zero(), 0, 0, 0);
    assert!(call(&mut env, &ecl, &mut task, SYS_LASER_CREATE, &args).is_ok());
    assert_eq!(task.stack[0], -1);
    assert_eq!(env.w.body.diag.pool_full[POOL_LASER], pf0 + 1);
}

#[test]
fn laser_time_fields_clamp_out_of_u16_and_count_once() {
    let (mut env, ecl) = fresh();
    let mut task = Task::default();
    let cv0 = env.w.body.diag.contract_viol;
    let args = laser_args(0, Fx::zero(), Fx::zero(), Angle::zero(), Fx::zero(), Fx::zero(), 100000, -1, 70000);
    assert!(call(&mut env, &ecl, &mut task, SYS_LASER_CREATE, &args).is_ok());
    let l = env.m.inner.lasers.item(laser_slot(task.stack[0]));
    assert_eq!(l.spawn.warn, u16::MAX);
    assert_eq!(l.spawn.active, 0);
    assert_eq!(l.spawn.fade, u16::MAX);
    assert_eq!(env.w.body.diag.contract_viol, cv0 + 1);
}

#[test]
fn lz_omega_wraps_bits_not_clamps() {
    let (mut env, ecl) = fresh();
    let mut task = Task::default();
    let args = laser_args(0, Fx::zero(), Fx::zero(), Angle::zero(), Fx::from_int(100), Fx::from_int(8), 0, 9999, 0);
    assert!(call(&mut env, &ecl, &mut task, SYS_LASER_CREATE, &args).is_ok());
    let lz = task.stack[0];
    let i = laser_slot(lz);
    let cv0 = env.w.body.diag.contract_viol;
    task.sp = 0;
    assert!(call(&mut env, &ecl, &mut task, SYS_LASER_OMEGA, &[lz, 65000]).is_ok());
    assert_eq!(env.m.inner.lasers.item(i).omega, 65000u16 as i16);
    assert_eq!(env.w.body.diag.contract_viol, cv0);
    task.sp = 0;
    assert!(call(&mut env, &ecl, &mut task, SYS_LASER_OMEGA, &[lz, 47332]).is_ok());
    assert_eq!(env.m.inner.lasers.item(i).omega, -18204);
    assert_eq!(env.w.body.diag.contract_viol, cv0);
}

#[test]
fn lz_readers_return_current_geometry_and_zero_when_stale() {
    let (mut env, ecl) = fresh();
    let mut task = Task::default();
    let a = laser_args(1, Fx::from_int(-30), Fx::from_int(70), Angle(12345), Fx::from_int(420), Fx::from_int(8), 0, 9999, 0);
    assert!(call(&mut env, &ecl, &mut task, SYS_LASER_CREATE, &a).is_ok());
    let lz = task.stack[0];
    let i = laser_slot(lz);
    task.sp = 0;
    assert!(call(&mut env, &ecl, &mut task, SYS_LASER_START, &[lz, Fx::from_int(32).raw()]).is_ok());
    let read = |env: &mut Env, task: &mut Task, sys: u16, packed: i32| -> i32 {
        task.sp = 0;
        assert!(call(env, &ecl, task, sys, &[packed]).is_ok());
        task.stack[0]
    };
    let cv0 = env.w.body.diag.contract_viol;
    assert_eq!(read(&mut env, &mut task, SYS_LASER_X, lz), Fx::from_int(-30).raw());
    assert_eq!(read(&mut env, &mut task, SYS_LASER_Y, lz), Fx::from_int(70).raw());
    assert_eq!(read(&mut env, &mut task, SYS_LASER_ANGLE, lz), 12345);
    assert_eq!(read(&mut env, &mut task, SYS_LASER_NEAR, lz), Fx::from_int(32).raw());
    assert_eq!(read(&mut env, &mut task, SYS_LASER_FAR, lz), Fx::from_int(420).raw());
    task.sp = 0;
    assert!(call(&mut env, &ecl, &mut task, SYS_LASER_ROTATE, &[lz, 1000]).is_ok());
    assert_eq!(read(&mut env, &mut task, SYS_LASER_ANGLE, lz), 13345);
    let h = Handle { index: i as u16, generation: env.m.inner.lasers.generation(i) };
    assert!(env.m.inner.lasers.free(h));
    for sys in [SYS_LASER_X, SYS_LASER_Y, SYS_LASER_ANGLE, SYS_LASER_NEAR, SYS_LASER_FAR] {
        assert_eq!(read(&mut env, &mut task, sys, lz), 0, "syscall {sys}");
    }
    assert_eq!(read(&mut env, &mut task, SYS_LASER_X, -1), 0);
    assert_eq!(env.w.body.diag.contract_viol, cv0);
}

#[test]
fn stale_laser_handle_does_not_touch_reused_slot() {
    let (mut env, ecl) = fresh();
    let mut task = Task::default();
    let a = laser_args(1, Fx::zero(), Fx::zero(), Angle::zero(), Fx::from_int(100), Fx::from_int(16), 0, 9999, 0);
    assert!(call(&mut env, &ecl, &mut task, SYS_LASER_CREATE, &a).is_ok());
    let packed_a = task.stack[0];
    let ia = laser_slot(packed_a);
    let gen_a = env.m.inner.lasers.generation(ia);
    assert!(env.m.inner.lasers.free(Handle { index: ia as u16, generation: gen_a }));
    task.sp = 0;
    let b = laser_args(2, Fx::zero(), Fx::zero(), Angle(1000), Fx::from_int(200), Fx::from_int(8), 0, 9999, 0);
    assert!(call(&mut env, &ecl, &mut task, SYS_LASER_CREATE, &b).is_ok());
    let packed_b = task.stack[0];
    let ib = laser_slot(packed_b);
    assert_eq!(ib, ia);
    assert_ne!(env.m.inner.lasers.generation(ib), gen_a);
    let angle_b = env.m.inner.lasers.item(ib).angle;
    let cv0 = env.w.body.diag.contract_viol;
    task.sp = 0;
    assert!(call(&mut env, &ecl, &mut task, SYS_LASER_ROTATE, &[packed_a, 1234]).is_ok());
    assert_eq!(env.m.inner.lasers.item(ib).angle, angle_b);
    assert_eq!(env.w.body.diag.contract_viol, cv0 + 1);
    task.sp = 0;
    assert!(call(&mut env, &ecl, &mut task, SYS_LASER_ALIVE, &[packed_a]).is_ok());
    assert_eq!(task.stack[0], 0);
    task.sp = 0;
    assert!(call(&mut env, &ecl, &mut task, SYS_LASER_ALIVE, &[packed_b]).is_ok());
    assert_eq!(task.stack[0], 1);
    assert_eq!(env.w.body.diag.contract_viol, cv0 + 1);
}

#[test]
fn lz_anchor_follows_enemy_then_detaches_with_neg1() {
    let (mut env, ecl) = fresh();
    let e = env.m.inner.spawn_enemy(0, 100, 5);
    let mut task = enemy_task(e);
    let a = laser_args(0, Fx::zero(), Fx::zero(), Angle::zero(), Fx::from_int(500), Fx::from_int(16), 0, 9999, 0);
    assert!(call(&mut env, &ecl, &mut task, SYS_LASER_CREATE, &a).is_ok());
    let lz = task.stack[0];
    let i = laser_slot(lz);
    task.sp = 0;
    assert!(call(&mut env, &ecl, &mut task, SYS_SELF_ENEMY, &[]).is_ok());
    let self_enemy = task.stack[0];
    task.sp = 0;
    assert!(call(&mut env, &ecl, &mut task, SYS_LASER_ANCHOR, &[lz, self_enemy, 0, Fx::from_int(8).raw()]).is_ok());
    assert_eq!(env.m.inner.lasers.item(i).anchor, Some(e));
    assert_eq!(env.m.inner.lasers.item(i).ox, Fx::zero());
    assert_eq!(env.m.inner.lasers.item(i).oy, Fx::from_int(108));
    task.sp = 0;
    assert!(call(&mut env, &ecl, &mut task, SYS_LASER_ANCHOR, &[lz, -1, 0, 0]).is_ok());
    assert_eq!(env.m.inner.lasers.item(i).anchor, None);
    assert_eq!(env.m.inner.lasers.item(i).ox, Fx::zero());
}

#[test]
fn lz_anchor_stale_enemy_is_noop_and_counted() {
    let (mut env, ecl) = fresh();
    let e = env.m.inner.spawn_enemy(0, 100, 5);
    let mut task = Task::default();
    let a = laser_args(0, Fx::zero(), Fx::zero(), Angle::zero(), Fx::from_int(500), Fx::from_int(16), 0, 9999, 0);
    assert!(call(&mut env, &ecl, &mut task, SYS_LASER_CREATE, &a).is_ok());
    let lz = task.stack[0];
    let i = laser_slot(lz);
    let live = pack_handle(e);
    task.sp = 0;
    assert!(call(&mut env, &ecl, &mut task, SYS_LASER_ANCHOR, &[lz, live, 0, 0]).is_ok());
    assert_eq!(env.m.inner.lasers.item(i).anchor, Some(e));
    assert!(env.m.inner.enemies.free(e));
    let cv0 = env.w.body.diag.contract_viol;
    task.sp = 0;
    assert!(call(&mut env, &ecl, &mut task, SYS_LASER_ANCHOR, &[lz, live, 0, 0]).is_ok());
    assert_eq!(env.w.body.diag.contract_viol, cv0 + 1);
    assert_eq!(env.m.inner.lasers.item(i).anchor, Some(e));
}

#[test]
fn lz_anchor_survives_enemy_generation_above_15_bits() {
    let (mut env, ecl) = fresh();
    env.m.inner.enemies.set_generation(0, 0xF00C);
    let e = env.m.inner.spawn_enemy(0, 100, 5);
    assert_eq!(e.generation, 0xF00D);
    let mut task = Task::default();
    let a = laser_args(0, Fx::zero(), Fx::zero(), Angle::zero(), Fx::from_int(500), Fx::from_int(16), 0, 9999, 0);
    assert!(call(&mut env, &ecl, &mut task, SYS_LASER_CREATE, &a).is_ok());
    let lz = task.stack[0];
    let i = laser_slot(lz);
    let packed = pack_handle(Handle { index: e.index, generation: 0xF00D });
    assert_eq!(packed >> 16, 0x700D);
    task.sp = 0;
    assert!(call(&mut env, &ecl, &mut task, SYS_LASER_ANCHOR, &[lz, packed, 0, 0]).is_ok());
    assert_eq!(env.m.inner.lasers.item(i).anchor, Some(Handle { index: e.index, generation: 0xF00D }));
}

// ── fuzz smoke: random 64-word images through the load gate ──────────────

/// Permuted congruential generator (PCG32, XSH-RR output).
struct Pcg32 {
    state: u64,
    inc: u64,
}

impl Pcg32 {
    fn new(seed: u64, seq: u64) -> Pcg32 {
        let mut r = Pcg32 { state: 0, inc: (seq << 1) | 1 };
        r.next_u32();
        r.state = r.state.wrapping_add(seed);
        r.next_u32();
        r
    }

    fn next_u32(&mut self) -> u32 {
        let old = self.state;
        self.state = old.wrapping_mul(6364136223846793005).wrapping_add(self.inc);
        let xorshifted = (((old >> 18) ^ old) >> 27) as u32;
        let rot = (old >> 59) as u32;
        xorshifted.rotate_right(rot)
    }
}

const SAFE_ARITY0: &[u8] = &[
    OP_END, OP_WAIT, OP_RET, OP_DUP, OP_POP, OP_ADD, OP_SUB, OP_MUL, OP_DIV, OP_MOD, OP_NEG, OP_MULF,
    OP_DIVF, OP_SINB, OP_COSB, OP_EQ, OP_NE, OP_LT, OP_LE, OP_GT, OP_GE, OP_KILL_SELF, OP_KILL_CHILDREN,
];
const SAFE_ARITY1_WITH_SYS: &[u8] = &[OP_PUSHI, OP_PUSHL, OP_POPL, OP_SYS];
const SAFE_ARITY1_NO_SYS: &[u8] = &[OP_PUSHI, OP_PUSHL, OP_POPL];
const SAFE_SYSCALLS: &[u16] = &[SYS_FRAME, SYS_SELF_X, SYS_SELF_HP, SYS_RAND_RANGE, SYS_GET_VAR];
const ALLOWED_RUNTIME_FAULTS: [u8; 6] =
    [FAULT_PC_OOB, FAULT_STACK, FAULT_BUDGET, FAULT_DIV_ZERO, FAULT_CALL_DEPTH, FAULT_BAD_OP];

fn biased_code(rng: &mut Pcg32, strip_effects: bool) -> Vec<u32> {
    let arity1 = if strip_effects { SAFE_ARITY1_NO_SYS } else { SAFE_ARITY1_WITH_SYS };
    let mut code = Vec::with_capacity(64);
    while code.len() < 64 {
        let remaining = 64 - code.len();
        let use_arity1 = remaining >= 2 && rng.next_u32() % 2 == 0;
        let o = if use_arity1 {
            arity1[(rng.next_u32() as usize) % arity1.len()]
        } else {
            SAFE_ARITY0[(rng.next_u32() as usize) % SAFE_ARITY0.len()]
        };
        code.push(o as u32);
        if o == OP_PUSHI {
            code.push(rng.next_u32());
        } else if o == OP_PUSHL || o == OP_POPL {
            code.push(rng.next_u32() % LOCALS as u32);
        } else if o == OP_SYS {
            code.push(SAFE_SYSCALLS[(rng.next_u32() as usize) % SAFE_SYSCALLS.len()] as u32);
        }
    }
    code
}

fn raw_random_code(rng: &mut Pcg32, strip_effects: bool) -> Vec<u32> {
    let mut code = Vec::with_capacity(64);
    for _ in 0..64 {
        let mut w = rng.next_u32();
        if strip_effects {
            let o = (w & 0xFF) as u8;
            if o == OP_SYS || o == OP_SPAWN {
                w = (w & !0xFF) | OP_POP as u32;
            }
        }
        code.push(w);
    }
    code
}

fn random_image(rng: &mut Pcg32, strip_effects: bool, biased: bool) -> Option<EclImage> {
    let code = if biased { biased_code(rng, strip_effects) } else { raw_random_code(rng, strip_effects) };
    EclImage::try_from_parts(ImageParts {
        code,
        subs: vec![SubInit::new(0, SubKind::Root, vec![])],
        entries: vec![],
        root: Some(0),
        marks: vec![],
        content_hash: 0,
    })
    .ok()
}

fn assert_faults_are_allowed(events: &[Event]) {
    for e in events {
        if e.kind == EVT_TASK_FAULT {
            let code = e.data[0] as u8;
            assert!(ALLOWED_RUNTIME_FAULTS.contains(&code), "fault code {code} should have been stopped at load time");
        }
    }
}

#[test]
fn fuzz_random_code_never_panics() {
    let mut rng = Pcg32::new(0xF0_22_5E_ED, 0x1);
    const ITERATIONS: u64 = 256;
    let mut rejected = 0u32;
    let mut accepted = 0u32;
    for i in 0..ITERATIONS {
        let biased = i % 2 == 0;
        let img = match random_image(&mut rng, false, biased) {
            Some(img) => img,
            None => {
                rejected += 1;
                continue;
            }
        };
        accepted += 1;
        let mut env = test_world();
        env.w.spawn_sub_internal(&img, img.root().unwrap(), &[], (OWNER_STAGE, 0, 0));
        for f in 1..61u32 {
            env.w.body.frame = f;
            run_pass(&mut env, &img);
            assert_faults_are_allowed(&env.m.inner.events);
        }
    }
    let min_substantial = (ITERATIONS / 20) as u32;
    assert!(rejected >= min_substantial, "only {rejected}/{ITERATIONS} images rejected");
    assert!(accepted >= min_substantial, "only {accepted}/{ITERATIONS} images accepted");
}

#[test]
fn fuzz_stripped_code_cannot_touch_world_body() {
    let empty = EclImage::empty();
    let mut rng = Pcg32::new(0xF0_22_5E_EE, 0x2);
    const ITERATIONS: u64 = 128;
    let mut rejected = 0u32;
    let mut accepted = 0u32;
    for i in 0..ITERATIONS {
        let biased = i % 2 == 0;
        let img = match random_image(&mut rng, true, biased) {
            Some(img) => img,
            None => {
                rejected += 1;
                continue;
            }
        };
        accepted += 1;
        let mut a = test_world();
        a.w.spawn_sub_internal(&img, img.root().unwrap(), &[], (OWNER_STAGE, 0, 0));
        let mut b = test_world();
        for f in 1..61u32 {
            a.w.body.frame = f;
            b.w.body.frame = f;
            run_pass(&mut a, &img);
            run_pass(&mut b, &empty);
            assert_faults_are_allowed(&a.m.inner.events);
        }
        let mut ba = a.w.body;
        let mut bb = b.w.body;
        ba.diag.task_faults = 0;
        bb.diag.task_faults = 0;
        assert_eq!(ba.checksum(), bb.checksum(), "image {i} touched the world body");
        assert_eq!(a.m.inner.rng_draws, b.m.inner.rng_draws, "image {i} drew from the world stream");
        assert_eq!(a.m.inner.globals, b.m.inner.globals, "image {i} wrote globals");
        assert_eq!(a.m.inner.bullets.iter_alive().len(), b.m.inner.bullets.iter_alive().len(), "image {i} made bullets");
        assert_eq!(a.m.inner.enemies.iter_alive().len(), b.m.inner.enemies.iter_alive().len(), "image {i}");
        assert_eq!(a.m.inner.items.len(), b.m.inner.items.len(), "image {i}");
        assert_eq!(a.m.inner.fields.len(), b.m.inner.fields.len(), "image {i}");
        assert_eq!(a.m.inner.reqs.len(), b.m.inner.reqs.len(), "image {i}");
    }
    let min_substantial = (ITERATIONS / 20) as u32;
    assert!(rejected >= min_substantial, "only {rejected}/{ITERATIONS} images rejected");
    assert!(accepted >= min_substantial, "only {accepted}/{ITERATIONS} images accepted");
}

#[test]
fn run_tasks_reports_each_slot_and_the_fault_event() {
    let image = root_only_image(op(OP_POP));
    let mut env = test_world();
    env.w.start_main(&image).unwrap();
    env.w.body.frame = 1;
    let outs = run_tasks(&mut env.w.tasks, &mut env.w.body, &image, &env.tables, &mut env.m);
    assert_eq!(outs.len(), TASK_CAP);
    assert_eq!(outs[0], Some(SlotOutcome::Faulted(FAULT_STACK)));
    assert!(outs[1..].iter().all(|o| o.is_none()));
    assert_eq!(env.m.inner.events.len(), 1);
    assert_eq!(env.m.inner.events[0].kind, EVT_TASK_FAULT);
    assert_eq!(env.m.inner.events[0].data, [FAULT_STACK as i32, 0]);
}

#[test]
fn kill_all_enemies_bad_mode_is_refused_before_the_world() {
    let (mut env, ecl) = fresh();
    let eh = env.m.inner.spawn_enemy(0, 0, 100);
    let mut task = enemy_task(eh);
    let viol0 = env.w.body.diag.contract_viol;
    assert!(call(&mut env, &ecl, &mut task, SYS_KILL_ALL_ENEMIES, &[7]).is_ok());
    assert_eq!(task.sp, 0);
    assert_eq!(env.w.body.diag.contract_viol, viol0 + 1);
    assert_eq!(env.w.body.last_status, STATUS_BAD_ARGS);
    assert!(env.m.inner.kill_alls.is_empty(), "a bad mode never reaches the world");
}

#[test]
fn kill_all_enemies_spares_the_calling_enemy() {
    let (mut env, ecl) = fresh();
    let eh = env.m.inner.spawn_enemy(0, 0, 100);
    let mut task = enemy_task(eh);
    assert!(call(&mut env, &ecl, &mut task, SYS_KILL_ALL_ENEMIES, &[0]).is_ok());
    assert!(call(&mut env, &ecl, &mut task, SYS_KILL_ALL_ENEMIES, &[1]).is_ok());
    let mut stage = Task { owner_kind: OWNER_STAGE, ..Task::default() };
    assert!(call(&mut env, &ecl, &mut stage, SYS_KILL_ALL_ENEMIES, &[1]).is_ok());
    assert_eq!(env.m.inner.kill_alls, vec![(Some(eh), false), (Some(eh), true), (None, true)]);
}
