//! The boss bulletin board: typed slots that scripts write and the UI reads.
//! The world itself never interprets them (a dangling `enemy` handle is the
//! reader's concern). An all-zero slot is valid: `active == 0` means no boss.
use vstd::prelude::*;
use crate::math::Fx;
use crate::pool::Handle;

verus! {

/// Number of boss slots (two bosses on screen at most).
pub const MAX_BOSSES: usize = 2;

/// One boss bulletin slot.
#[derive(Clone, Copy, PartialEq, Eq, Debug, Structural)]
pub struct BossUiSlot {
    /// Which enemy is the boss (a stale handle is the reader's concern).
    pub enemy: Handle,
    /// Health-bar ratio.
    pub hp_ratio: Fx,
    /// Current spell card id.
    pub spell_id: u16,
    /// Countdown frames (the script decrements it).
    pub timer_frames: u16,
    /// Phases left (the stars under the bar).
    pub phase_left: u8,
    /// 0 = no boss.
    pub active: u8,
}

impl Default for BossUiSlot {
    fn default() -> (r: BossUiSlot)
        ensures
            r == (BossUiSlot {
                enemy: Handle::spec_null(),
                hp_ratio: Fx(0),
                spell_id: 0,
                timer_frames: 0,
                phase_left: 0,
                active: 0,
            }),
    {
        BossUiSlot {
            enemy: Handle::null(),
            hp_ratio: Fx(0),
            spell_id: 0,
            timer_frames: 0,
            phase_left: 0,
            active: 0,
        }
    }
}

} // verus!
