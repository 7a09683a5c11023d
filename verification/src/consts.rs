//! The single registry of engine constants visible to scripts: structural
//! VM/ABI facts and (currently none) table-symbol names. Each constant keeps
//! its Rust type for engine code and is also listed for the script compiler
//! as a typed `i32`.
use vstd::prelude::*;
use crate::ecl::image::EclValueType;

verus! {

/// One named constant injected into the `.ecl` compiler (script side is
/// always `i32`).
#[derive(Clone, Copy, Debug)]
pub struct EngineConst {
    pub name: &'static str,
    pub ty: EclValueType,
    pub value: i32,
}

impl EngineConst {
    /// A registry row.
    pub fn new(name: &'static str, ty: EclValueType, value: i32) -> (r: Self)
        ensures
            r.name == name,
            r.ty == ty,
            r.value == value,
    {
        EngineConst { name, ty, value }
    }
}

pub const GVAR_RANK: u16 = 0;
pub const GLOBALS_SYS_SEGMENT: u16 = 16;
pub const REQ_ENEMY_DEATH: u16 = 1;
pub const REQ_SPELL_DECLARE: u16 = 2;
pub const REQ_SPELL_RESULT: u16 = 3;
/// Retired compatibility slot: stage end is now the `stage_clear` builtin.
pub const REQ_STAGE_CLEAR: u16 = 4;
pub const REQ_BGM: u16 = 5;
pub const REQ_BG: u16 = 6;
pub const REQ_BG_PHASE: u16 = 7;
pub const REQ_FX_AT: u16 = 8;
pub const REQ_FX_ATTACHED: u16 = 9;
pub const REQ_SCRIPT_BASE: u16 = 64;
pub const ITEM_POWER: u8 = 0;
pub const ITEM_POINT: u8 = 1;
pub const ITEM_LIFE_PIECE: u8 = 2;
pub const ITEM_BOMB_PIECE: u8 = 3;
pub const ITEM_STAR: u8 = 4;
/// Number of item types (the frozen item numbering).
pub const ITEM_TYPE_COUNT: usize = 5;
pub const RANK_EASY: i32 = 0;
pub const RANK_NORMAL: i32 = 1;
pub const RANK_HARD: i32 = 2;
pub const RANK_LUNATIC: i32 = 3;
/// Reserved slot for Extra, not a fifth difficulty.
pub const RANK_EXTRA: i32 = 4;
/// Shooter slots per task (the legal upper bound of an `sh_*` slot id).
pub const SHOOTERS_PER_TASK: usize = crate::ecl::shooter::SHOOTERS_PER_TASK;
/// Fixed length of a time stop, in frames.
pub const TIMESTOP_FRAMES: u16 = 180;

/// Structural constants (VM/ABI facts, independent of any data table), in
/// registration order.
pub open spec fn structural_rows() -> Seq<(i32, EclValueType)> {
    seq![
        (0, EclValueType::Int), (16, EclValueType::Int), (1, EclValueType::Int),
        (2, EclValueType::Int), (3, EclValueType::Int), (4, EclValueType::Int),
        (5, EclValueType::Int), (6, EclValueType::Int), (7, EclValueType::Int),
        (8, EclValueType::Int), (9, EclValueType::Int), (64, EclValueType::Int),
        (0, EclValueType::Int), (1, EclValueType::Int), (2, EclValueType::Int),
        (3, EclValueType::Int), (4, EclValueType::Int), (0, EclValueType::Int),
        (1, EclValueType::Int), (2, EclValueType::Int), (3, EclValueType::Int),
        (4, EclValueType::Int), (4, EclValueType::Int), (180, EclValueType::Int),
    ]
}

/// The values and types of a registry list.
pub open spec fn rows_of(v: Seq<EngineConst>) -> Seq<(i32, EclValueType)> {
    v.map_values(|c: EngineConst| (c.value, c.ty))
}

fn push_int(v: &mut Vec<EngineConst>, name: &'static str, value: i32)
    ensures
        final(v)@ == old(v)@.push(EngineConst { name, ty: EclValueType::Int, value }),
{
    v.push(EngineConst::new(name, EclValueType::Int, value));
}

/// ① Structural constants.
pub fn engine_structural() -> (r: Vec<EngineConst>)
    ensures
        rows_of(r@) == structural_rows(),
{
    let mut v: Vec<EngineConst> = Vec::new();
    push_int(&mut v, "GVAR_RANK", GVAR_RANK as i32);
    push_int(&mut v, "GLOBALS_SYS_SEGMENT", GLOBALS_SYS_SEGMENT as i32);
    push_int(&mut v, "REQ_ENEMY_DEATH", REQ_ENEMY_DEATH as i32);
    push_int(&mut v, "REQ_SPELL_DECLARE", REQ_SPELL_DECLARE as i32);
    push_int(&mut v, "REQ_SPELL_RESULT", REQ_SPELL_RESULT as i32);
    push_int(&mut v, "REQ_STAGE_CLEAR", REQ_STAGE_CLEAR as i32);
    push_int(&mut v, "REQ_BGM", REQ_BGM as i32);
    push_int(&mut v, "REQ_BG", REQ_BG as i32);
    push_int(&mut v, "REQ_BG_PHASE", REQ_BG_PHASE as i32);
    push_int(&mut v, "REQ_FX_AT", REQ_FX_AT as i32);
    push_int(&mut v, "REQ_FX_ATTACHED", REQ_FX_ATTACHED as i32);
    push_int(&mut v, "REQ_SCRIPT_BASE", REQ_SCRIPT_BASE as i32);
    push_int(&mut v, "ITEM_POWER", ITEM_POWER as i32);
    push_int(&mut v, "ITEM_POINT", ITEM_POINT as i32);
    push_int(&mut v, "ITEM_LIFE_PIECE", ITEM_LIFE_PIECE as i32);
    push_int(&mut v, "ITEM_BOMB_PIECE", ITEM_BOMB_PIECE as i32);
    push_int(&mut v, "ITEM_STAR", ITEM_STAR as i32);
    push_int(&mut v, "RANK_EASY", RANK_EASY);
    push_int(&mut v, "RANK_NORMAL", RANK_NORMAL);
    push_int(&mut v, "RANK_HARD", RANK_HARD);
    push_int(&mut v, "RANK_LUNATIC", RANK_LUNATIC);
    push_int(&mut v, "RANK_EXTRA", RANK_EXTRA);
    push_int(&mut v, "SHOOTERS_PER_TASK", SHOOTERS_PER_TASK as i32);
    push_int(&mut v, "TIMESTOP_FRAMES", TIMESTOP_FRAMES as i32);
    assert(rows_of(v@) =~= structural_rows());
    v
}

/// ② Table-symbol vocabulary (names of loadable table rows). Empty: shape
/// and colour names belong to content packs.
pub fn table_symbols() -> (r: Vec<EngineConst>)
    ensures
        r@.len() == 0,
{
    Vec::new()
}

/// Every script-visible engine constant: ① followed by ②.
pub fn engine_consts() -> (r: Vec<EngineConst>)
    ensures
        rows_of(r@) == structural_rows(),
{
    let mut v = engine_structural();
    let mut t = table_symbols();
    v.append(&mut t);
    assert(rows_of(v@) =~= structural_rows());
    v
}

} // verus!
