//! Bullet vocabulary shared by scripts and the world: flag bits, the
//! creation record, and the transform-program slot a bullet can carry.
use vstd::prelude::*;
use crate::checksum::{Checksum, Fnv1a64};
use crate::math::{Angle, Fx};

verus! {

/// `flags` bit: removed by a clearing field this frame.
pub const BULLET_CLEARED: u8 = 1;
/// `flags` bit: continuous polar effect (angular velocity / acceleration).
pub const BULLET_POLAR_FX: u8 = 2;
/// `flags` bit: continuous Cartesian effect (gravity).
pub const BULLET_CART_FX: u8 = 4;
/// Shift of the remaining-bounce count inside `flags`.
pub const BULLET_BOUNCE_SHIFT: u32 = 3;
/// Mask of the remaining-bounce count inside `flags`.
pub const BULLET_BOUNCE_MASK: u8 = 0x18;

/// Bullet pool capacity.
pub const BULLET_CAP: u32 = 8192;

/// Most transform slots one bullet may carry.
pub const XFORM_MAX: usize = 16;

/// `transform_head` of a bullet without a transform program.
pub const XFORM_NONE: u16 = 0xFFFF;

/// One transform-program step: run `op` with `args` after `wait` frames.
#[derive(Clone, Copy, Debug)]
pub struct XformSlot {
    pub wait: u16,
    pub op: u8,
    pub pad: u8,
    pub args: [i32; 2],
}

/// What a script asks the world to create when it fires one bullet.
#[derive(Clone, Copy, Debug, PartialEq, Eq, Structural)]
pub struct BulletSpawn {
    pub x: Fx,
    pub y: Fx,
    pub vx: Fx,
    pub vy: Fx,
    pub speed: Fx,
    pub angle: Angle,
    pub sprite: u16,
    pub radius: Fx,
    pub born_frame: u32,
}

impl Checksum for BulletSpawn {
    open spec fn checksum_bytes(&self) -> Seq<u8> {
        self.x.checksum_bytes() + self.y.checksum_bytes() + self.vx.checksum_bytes() + self.vy.checksum_bytes() + self.speed.checksum_bytes() + self.angle.checksum_bytes() + self.sprite.checksum_bytes() + self.radius.checksum_bytes() + self.born_frame.checksum_bytes()
    }

    fn hash_into(&self, h: &mut Fnv1a64) {
        let ghost s0 = h@;
        self.x.hash_into(h);
        self.y.hash_into(h);
        proof { crate::checksum::lemma_fold_concat(s0, self.x.checksum_bytes(), self.y.checksum_bytes()); }
        self.vx.hash_into(h);
        proof { crate::checksum::lemma_fold_concat(s0, self.x.checksum_bytes() + self.y.checksum_bytes(), self.vx.checksum_bytes()); }
        self.vy.hash_into(h);
        proof { crate::checksum::lemma_fold_concat(s0, self.x.checksum_bytes() + self.y.checksum_bytes() + self.vx.checksum_bytes(), self.vy.checksum_bytes()); }
        self.speed.hash_into(h);
        proof { crate::checksum::lemma_fold_concat(s0, self.x.checksum_bytes() + self.y.checksum_bytes() + self.vx.checksum_bytes() + self.vy.checksum_bytes(), self.speed.checksum_bytes()); }
        self.angle.hash_into(h);
        proof { crate::checksum::lemma_fold_concat(s0, self.x.checksum_bytes() + self.y.checksum_bytes() + self.vx.checksum_bytes() + self.vy.checksum_bytes() + self.speed.checksum_bytes(), self.angle.checksum_bytes()); }
        self.sprite.hash_into(h);
        proof { crate::checksum::lemma_fold_concat(s0, self.x.checksum_bytes() + self.y.checksum_bytes() + self.vx.checksum_bytes() + self.vy.checksum_bytes() + self.speed.checksum_bytes() + self.angle.checksum_bytes(), self.sprite.checksum_bytes()); }
        self.radius.hash_into(h);
        proof { crate::checksum::lemma_fold_concat(s0, self.x.checksum_bytes() + self.y.checksum_bytes() + self.vx.checksum_bytes() + self.vy.checksum_bytes() + self.speed.checksum_bytes() + self.angle.checksum_bytes() + self.sprite.checksum_bytes(), self.radius.checksum_bytes()); }
        self.born_frame.hash_into(h);
        proof { crate::checksum::lemma_fold_concat(s0, self.x.checksum_bytes() + self.y.checksum_bytes() + self.vx.checksum_bytes() + self.vy.checksum_bytes() + self.speed.checksum_bytes() + self.angle.checksum_bytes() + self.sprite.checksum_bytes() + self.radius.checksum_bytes(), self.born_frame.checksum_bytes()); }
    }
}

} // verus!
