//! Enemy vocabulary shared by scripts and the world: flag bits, kill modes,
//! the spawn record, and the packed enemy number scripts hold (index plus
//! the low 15 bits of the generation, so a reused slot is told apart).
use vstd::prelude::*;
use crate::math::Fx;
use crate::pool::Handle;

verus! {

/// `flags` bit: dying; the slot is reclaimed at the end of the frame.
pub const ENEMY_DYING: u8 = 1;
/// `flags` bit: the body does not collide with players.
pub const ENEMY_NO_BODY: u8 = 2;
/// `flags` bit: exempt from a script's kill-all.
pub const ENEMY_KILLALL_EXEMPT: u8 = 4;

/// Enemy pool capacity.
pub const ENEMY_CAP: usize = 256;

/// Velocity interpolation in polar space.
pub const VEL_SPACE_POLAR: u8 = 0;
/// Velocity interpolation in Cartesian space.
pub const VEL_SPACE_CART: u8 = 1;

/// Kill-all mode: remove silently.
pub const KILL_SILENT: u8 = 0;
/// Kill-all mode: run the full death effect.
pub const KILL_DIE: u8 = 1;

/// Number of item types (length of an enemy's pending-drop counts).
pub const ITEM_TYPE_COUNT: usize = 5;

/// What a script asks the world to create when it spawns an enemy.
#[derive(Clone, Copy, Debug)]
pub struct EnemySpawn {
    pub x: Fx,
    pub y: Fx,
    pub hp: i32,
    pub hp_max: i32,
    pub radius: Fx,
    pub hurtbox: Fx,
    pub sprite: u16,
    pub score: u16,
    /// Pending drops per item type, expanded from the drop table at spawn.
    pub drop_count: [u8; ITEM_TYPE_COUNT],
    /// Frame the animation state was last written (the spawn frame).
    pub anm_state_frame: u32,
}

/// The packed enemy number of `h`: `(generation mod 2^15) * 2^16 + index`,
/// always non-negative.
pub open spec fn spec_pack_handle(h: Handle) -> i32 {
    ((h.generation as int % 32768) * 65536 + h.index as int) as i32
}

/// Packs an enemy handle into the number scripts hold.
pub fn pack_handle(h: Handle) -> (r: i32)
    ensures
        r == spec_pack_handle(h),
        r >= 0,
        r as int == (h.generation as int % 32768) * 65536 + h.index as int,
{
    let gen = h.generation;
    let g: u16 = gen & 0x7FFF;
    assert(g == gen % 32768) by (bit_vector)
        requires
            g == gen & 0x7FFF,
    ;
    (g as i32) * 65536 + (h.index as i32)
}

/// The slot index a non-negative packed number names.
pub open spec fn packed_index(packed: i32) -> int {
    packed as int % 65536
}

/// The generation bits a non-negative packed number carries.
pub open spec fn packed_generation(packed: i32) -> int {
    (packed as int / 65536) % 32768
}

/// Splits a non-negative packed number into (index, generation bits).
pub fn unpack_handle(packed: i32) -> (r: (usize, u16))
    requires
        packed >= 0,
    ensures
        r.0 as int == packed_index(packed),
        r.1 as int == packed_generation(packed),
        r.0 < 65536,
        r.1 < 32768,
{
    let p = packed as u32;
    let idx = p % 65536;
    let g = (p / 65536) % 32768;
    (idx as usize, g as u16)
}

} // verus!
