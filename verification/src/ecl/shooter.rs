//! Per-task shooter slots: stored firing parameter sets. A script resets a
//! numbered slot, configures it field by field, then fires it; changing one
//! field and firing again gives the next wave.
use vstd::prelude::*;
use crate::checksum::{Checksum, Fnv1a64};
use crate::math::{Angle, Fx};

verus! {

/// Shooter slots per task; scripts use slot ids `0..SHOOTERS_PER_TASK`.
pub const SHOOTERS_PER_TASK: usize = 4;

/// `flags` bit: `angle0` is an offset from the direction to the player.
pub const SH_AIMED: u8 = 1;

/// `flags` bit: the `n_angle` bullets split the full circle evenly and
/// `angle_step` becomes a per-layer offset; otherwise a fan centred on the
/// base direction.
pub const SH_RING: u8 = 2;

/// `flags` bit: `off_x/off_y` are absolute coordinates, not owner-relative.
pub const SH_ABS_OFFSET: u8 = 4;

/// `task_script` value meaning "no task attached to fired bullets".
pub const SH_NO_TASK: u16 = 0xFFFF;

/// One stored firing parameter set.
#[derive(Clone, Copy, PartialEq, Eq, Debug, Structural)]
pub struct ShooterSlot {
    pub off_x: Fx,
    pub off_y: Fx,
    /// Radius of the polar offset; always added to `off_x/off_y`.
    pub polar_r: Fx,
    /// Distance each bullet is pushed out along its own angle at birth.
    pub dist: Fx,
    pub speed0: Fx,
    pub speed_step: Fx,
    /// Folded appearance id (shape × colour stride + colour).
    pub appearance: u16,
    pub polar_ang: Angle,
    pub angle0: Angle,
    pub angle_step: Angle,
    /// Start of the xform range in the owning task's locals.
    pub xform_off: u16,
    /// `SH_NO_TASK` = none.
    pub task_script: u16,
    /// Request id emitted after firing; 0 = none.
    pub on_fire_req: u16,
    pub n_angle: u8,
    pub n_speed: u8,
    /// 0 = no xform.
    pub xform_cnt: u8,
    pub flags: u8,
}

/// The reset state of a shooter: everything zero except a 1×1 grid (a reset
/// shooter fires exactly one bullet) and no attached task.
pub open spec fn default_shooter() -> ShooterSlot {
    ShooterSlot {
        off_x: Fx(0),
        off_y: Fx(0),
        polar_r: Fx(0),
        dist: Fx(0),
        speed0: Fx(0),
        speed_step: Fx(0),
        appearance: 0,
        polar_ang: Angle(0),
        angle0: Angle(0),
        angle_step: Angle(0),
        xform_off: 0,
        task_script: SH_NO_TASK,
        on_fire_req: 0,
        n_angle: 1,
        n_speed: 1,
        xform_cnt: 0,
        flags: 0,
    }
}

impl Default for ShooterSlot {
    fn default() -> (r: Self)
        ensures
            r == default_shooter(),
    {
        ShooterSlot {
            off_x: Fx(0),
            off_y: Fx(0),
            polar_r: Fx(0),
            dist: Fx(0),
            speed0: Fx(0),
            speed_step: Fx(0),
            appearance: 0,
            polar_ang: Angle(0),
            angle0: Angle(0),
            angle_step: Angle(0),
            xform_off: 0,
            task_script: SH_NO_TASK,
            on_fire_req: 0,
            n_angle: 1,
            n_speed: 1,
            xform_cnt: 0,
            flags: 0,
        }
    }
}

impl Checksum for ShooterSlot {
    open spec fn checksum_bytes(&self) -> Seq<u8> {
        self.off_x.checksum_bytes() + self.off_y.checksum_bytes() + self.polar_r.checksum_bytes() + self.dist.checksum_bytes() + self.speed0.checksum_bytes() + self.speed_step.checksum_bytes() + self.appearance.checksum_bytes() + self.polar_ang.checksum_bytes() + self.angle0.checksum_bytes() + self.angle_step.checksum_bytes() + self.xform_off.checksum_bytes() + self.task_script.checksum_bytes() + self.on_fire_req.checksum_bytes() + self.n_angle.checksum_bytes() + self.n_speed.checksum_bytes() + self.xform_cnt.checksum_bytes() + self.flags.checksum_bytes()
    }

    fn hash_into(&self, h: &mut Fnv1a64) {
        let ghost s0 = h@;
        self.off_x.hash_into(h);
        self.off_y.hash_into(h);
        proof { crate::checksum::lemma_fold_concat(s0, self.off_x.checksum_bytes(), self.off_y.checksum_bytes()); }
        self.polar_r.hash_into(h);
        proof { crate::checksum::lemma_fold_concat(s0, self.off_x.checksum_bytes() + self.off_y.checksum_bytes(), self.polar_r.checksum_bytes()); }
        self.dist.hash_into(h);
        proof { crate::checksum::lemma_fold_concat(s0, self.off_x.checksum_bytes() + self.off_y.checksum_bytes() + self.polar_r.checksum_bytes(), self.dist.checksum_bytes()); }
        self.speed0.hash_into(h);
        proof { crate::checksum::lemma_fold_concat(s0, self.off_x.checksum_bytes() + self.off_y.checksum_bytes() + self.polar_r.checksum_bytes() + self.dist.checksum_bytes(), self.speed0.checksum_bytes()); }
        self.speed_step.hash_into(h);
        proof { crate::checksum::lemma_fold_concat(s0, self.off_x.checksum_bytes() + self.off_y.checksum_bytes() + self.polar_r.checksum_bytes() + self.dist.checksum_bytes() + self.speed0.checksum_bytes(), self.speed_step.checksum_bytes()); }
        self.appearance.hash_into(h);
        proof { crate::checksum::lemma_fold_concat(s0, self.off_x.checksum_bytes() + self.off_y.checksum_bytes() + self.polar_r.checksum_bytes() + self.dist.checksum_bytes() + self.speed0.checksum_bytes() + self.speed_step.checksum_bytes(), self.appearance.checksum_bytes()); }
        self.polar_ang.hash_into(h);
        proof { crate::checksum::lemma_fold_concat(s0, self.off_x.checksum_bytes() + self.off_y.checksum_bytes() + self.polar_r.checksum_bytes() + self.dist.checksum_bytes() + self.speed0.checksum_bytes() + self.speed_step.checksum_bytes() + self.appearance.checksum_bytes(), self.polar_ang.checksum_bytes()); }
        self.angle0.hash_into(h);
        proof { crate::checksum::lemma_fold_concat(s0, self.off_x.checksum_bytes() + self.off_y.checksum_bytes() + self.polar_r.checksum_bytes() + self.dist.checksum_bytes() + self.speed0.checksum_bytes() + self.speed_step.checksum_bytes() + self.appearance.checksum_bytes() + self.polar_ang.checksum_bytes(), self.angle0.checksum_bytes()); }
        self.angle_step.hash_into(h);
        proof { crate::checksum::lemma_fold_concat(s0, self.off_x.checksum_bytes() + self.off_y.checksum_bytes() + self.polar_r.checksum_bytes() + self.dist.checksum_bytes() + self.speed0.checksum_bytes() + self.speed_step.checksum_bytes() + self.appearance.checksum_bytes() + self.polar_ang.checksum_bytes() + self.angle0.checksum_bytes(), self.angle_step.checksum_bytes()); }
        self.xform_off.hash_into(h);
        proof { crate::checksum::lemma_fold_concat(s0, self.off_x.checksum_bytes() + self.off_y.checksum_bytes() + self.polar_r.checksum_bytes() + self.dist.checksum_bytes() + self.speed0.checksum_bytes() + self.speed_step.checksum_bytes() + self.appearance.checksum_bytes() + self.polar_ang.checksum_bytes() + self.angle0.checksum_bytes() + self.angle_step.checksum_bytes(), self.xform_off.checksum_bytes()); }
        self.task_script.hash_into(h);
        proof { crate::checksum::lemma_fold_concat(s0, self.off_x.checksum_bytes() + self.off_y.checksum_bytes() + self.polar_r.checksum_bytes() + self.dist.checksum_bytes() + self.speed0.checksum_bytes() + self.speed_step.checksum_bytes() + self.appearance.checksum_bytes() + self.polar_ang.checksum_bytes() + self.angle0.checksum_bytes() + self.angle_step.checksum_bytes() + self.xform_off.checksum_bytes(), self.task_script.checksum_bytes()); }
        self.on_fire_req.hash_into(h);
        proof { crate::checksum::lemma_fold_concat(s0, self.off_x.checksum_bytes() + self.off_y.checksum_bytes() + self.polar_r.checksum_bytes() + self.dist.checksum_bytes() + self.speed0.checksum_bytes() + self.speed_step.checksum_bytes() + self.appearance.checksum_bytes() + self.polar_ang.checksum_bytes() + self.angle0.checksum_bytes() + self.angle_step.checksum_bytes() + self.xform_off.checksum_bytes() + self.task_script.checksum_bytes(), self.on_fire_req.checksum_bytes()); }
        self.n_angle.hash_into(h);
        proof { crate::checksum::lemma_fold_concat(s0, self.off_x.checksum_bytes() + self.off_y.checksum_bytes() + self.polar_r.checksum_bytes() + self.dist.checksum_bytes() + self.speed0.checksum_bytes() + self.speed_step.checksum_bytes() + self.appearance.checksum_bytes() + self.polar_ang.checksum_bytes() + self.angle0.checksum_bytes() + self.angle_step.checksum_bytes() + self.xform_off.checksum_bytes() + self.task_script.checksum_bytes() + self.on_fire_req.checksum_bytes(), self.n_angle.checksum_bytes()); }
        self.n_speed.hash_into(h);
        proof { crate::checksum::lemma_fold_concat(s0, self.off_x.checksum_bytes() + self.off_y.checksum_bytes() + self.polar_r.checksum_bytes() + self.dist.checksum_bytes() + self.speed0.checksum_bytes() + self.speed_step.checksum_bytes() + self.appearance.checksum_bytes() + self.polar_ang.checksum_bytes() + self.angle0.checksum_bytes() + self.angle_step.checksum_bytes() + self.xform_off.checksum_bytes() + self.task_script.checksum_bytes() + self.on_fire_req.checksum_bytes() + self.n_angle.checksum_bytes(), self.n_speed.checksum_bytes()); }
        self.xform_cnt.hash_into(h);
        proof { crate::checksum::lemma_fold_concat(s0, self.off_x.checksum_bytes() + self.off_y.checksum_bytes() + self.polar_r.checksum_bytes() + self.dist.checksum_bytes() + self.speed0.checksum_bytes() + self.speed_step.checksum_bytes() + self.appearance.checksum_bytes() + self.polar_ang.checksum_bytes() + self.angle0.checksum_bytes() + self.angle_step.checksum_bytes() + self.xform_off.checksum_bytes() + self.task_script.checksum_bytes() + self.on_fire_req.checksum_bytes() + self.n_angle.checksum_bytes() + self.n_speed.checksum_bytes(), self.xform_cnt.checksum_bytes()); }
        self.flags.hash_into(h);
        proof { crate::checksum::lemma_fold_concat(s0, self.off_x.checksum_bytes() + self.off_y.checksum_bytes() + self.polar_r.checksum_bytes() + self.dist.checksum_bytes() + self.speed0.checksum_bytes() + self.speed_step.checksum_bytes() + self.appearance.checksum_bytes() + self.polar_ang.checksum_bytes() + self.angle0.checksum_bytes() + self.angle_step.checksum_bytes() + self.xform_off.checksum_bytes() + self.task_script.checksum_bytes() + self.on_fire_req.checksum_bytes() + self.n_angle.checksum_bytes() + self.n_speed.checksum_bytes() + self.xform_cnt.checksum_bytes(), self.flags.checksum_bytes()); }
    }
}

} // verus!
