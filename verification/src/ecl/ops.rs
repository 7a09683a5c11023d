//! Opcode numbers (frozen: the tens digit is the family), operand arity and
//! the set of opcodes the decoder knows.
use vstd::prelude::*;

verus! {

// 0x: control
pub const OP_END: u8 = 0;
pub const OP_WAIT: u8 = 1;
pub const OP_JMP: u8 = 2;
pub const OP_JZ: u8 = 3;
pub const OP_CALL: u8 = 4;
pub const OP_RET: u8 = 5;

// 1x: stack
pub const OP_PUSHI: u8 = 10;
pub const OP_PUSHL: u8 = 11;
pub const OP_POPL: u8 = 12;
pub const OP_DUP: u8 = 13;
pub const OP_POP: u8 = 14;

// 2x: integer arithmetic
pub const OP_ADD: u8 = 20;
pub const OP_SUB: u8 = 21;
pub const OP_MUL: u8 = 22;
pub const OP_DIV: u8 = 23;
pub const OP_MOD: u8 = 24;
pub const OP_NEG: u8 = 25;

// 3x: fixed point / angles
pub const OP_MULF: u8 = 30;
pub const OP_DIVF: u8 = 31;
pub const OP_SINB: u8 = 32;
pub const OP_COSB: u8 = 33;

// 4x: comparison
pub const OP_EQ: u8 = 40;
pub const OP_NE: u8 = 41;
pub const OP_LT: u8 = 42;
pub const OP_LE: u8 = 43;
pub const OP_GT: u8 = 44;
pub const OP_GE: u8 = 45;

// 5x: tasks
pub const OP_SPAWN: u8 = 50;
pub const OP_KILL_SELF: u8 = 51;
pub const OP_KILL_CHILDREN: u8 = 52;

// 6x: syscall
pub const OP_SYS: u8 = 60;

/// Number of inline operand words that follow an opcode's head word:
/// JMP/JZ/CALL/PUSHI/PUSHL/POPL/SYS take one, SPAWN takes two (script id and
/// argument count), every other value takes none.
pub open spec fn spec_arity(op: u8) -> u8 {
    if op == OP_JMP || op == OP_JZ || op == OP_CALL || op == OP_PUSHI || op == OP_PUSHL
        || op == OP_POPL || op == OP_SYS {
        1
    } else if op == OP_SPAWN {
        2
    } else {
        0
    }
}

/// Operand word count of `op`, defined on the whole `u8` domain.
pub fn arity(op: u8) -> (a: u8)
    ensures
        a == spec_arity(op),
{
    if op == OP_JMP || op == OP_JZ || op == OP_CALL || op == OP_PUSHI || op == OP_PUSHL
        || op == OP_POPL || op == OP_SYS {
        1
    } else if op == OP_SPAWN {
        2
    } else {
        0
    }
}

/// The opcodes the decoder knows (looked up, not range-compared: the
/// numbering has gaps between families).
pub open spec fn spec_op_implemented(op: u8) -> bool {
    ||| 0 <= op <= 5
    ||| 10 <= op <= 14
    ||| 20 <= op <= 25
    ||| 30 <= op <= 33
    ||| 40 <= op <= 45
    ||| 50 <= op <= 52
    ||| op == 60
}

/// Whether `op` is one of the 31 implemented opcodes.
pub fn op_implemented(op: u8) -> (b: bool)
    ensures
        b == spec_op_implemented(op),
{
    op <= 5 || (10 <= op && op <= 14) || (20 <= op && op <= 25) || (30 <= op && op <= 33) || (40
        <= op && op <= 45) || (50 <= op && op <= 52) || op == 60
}

} // verus!
