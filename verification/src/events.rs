//! World event records: pure per-frame output, cleared at the start of each
//! frame and regenerated deterministically on replay.
use vstd::prelude::*;
use crate::math::Fx;

verus! {

/// An enemy died.
pub const EVT_ENEMY_DIED: u8 = 1;
/// A player died.
pub const EVT_PLAYER_DIED: u8 = 2;
/// A clearing field removed bullets this frame (one record per field per frame).
pub const EVT_FIELD_CLEARED: u8 = 3;
/// An item was picked up.
pub const EVT_ITEM_PICKED: u8 = 4;
/// A script task was killed by a deterministic fault:
/// `a_index` = task pool index, `a_gen` = 0, `data = [fault code, script]`.
pub const EVT_TASK_FAULT: u8 = 5;
/// A spell card was declared.
pub const EVT_SPELL_DECLARED: u8 = 6;
/// A spell card was captured.
pub const EVT_SPELL_CAPTURED: u8 = 7;
/// A spell card failed.
pub const EVT_SPELL_FAILED: u8 = 8;
/// A player shot hit an enemy.
pub const EVT_SHOT_HIT_ENEMY: u8 = 9;
/// A script declared the stage finished: `data = [stage, 0]`.
pub const EVT_STAGE_CLEARED: u8 = 10;

/// `Vanished::reason`: the bullet's life ran out.
pub const VANISH_LIFE: u8 = 1;
/// `Vanished::reason`: the bullet was removed by a clearing field.
pub const VANISH_CLEARED: u8 = 2;

/// Last position and look of one enemy bullet reclaimed this frame, for the
/// presentation layer's fade-out.
#[derive(Clone, Copy, Debug, PartialEq, Eq, Structural)]
pub struct Vanished {
    pub x: Fx,
    pub y: Fx,
    pub sprite: u16,
    /// `VANISH_LIFE` or `VANISH_CLEARED`.
    pub reason: u8,
    pub pad: u8,
}

impl Default for Vanished {
    fn default() -> (r: Vanished)
        ensures
            r == (Vanished { x: Fx(0), y: Fx(0), sprite: 0, reason: 0, pad: 0 }),
    {
        Vanished { x: Fx(0), y: Fx(0), sprite: 0, reason: 0, pad: 0 }
    }
}

/// One world event: `a_index/a_gen` name the entity concerned.
#[derive(Clone, Copy, Debug)]
pub struct Event {
    pub kind: u8,
    pub a_index: u16,
    pub a_gen: u16,
    pub x: Fx,
    pub y: Fx,
    pub data: [i32; 2],
}

impl Default for Event {
    fn default() -> (r: Event)
        ensures
            r.kind == 0 && r.a_index == 0 && r.a_gen == 0 && r.x == Fx(0) && r.y == Fx(0),
            r.data@ == seq![0i32, 0i32],
    {
        let r = Event { kind: 0, a_index: 0, a_gen: 0, x: Fx(0), y: Fx(0), data: [0, 0] };
        assert(r.data@ =~= seq![0i32, 0i32]);
        r
    }
}

} // verus!
