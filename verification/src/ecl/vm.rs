//! The single-task interpreter and the per-frame scheduler.
//!
//! An instruction is one head word (opcode in the low 8 bits) followed by
//! `spec_arity(op)` operand words. Each fetched instruction costs one unit
//! of the task's per-frame budget (`TASK_BUDGET`) and one of the frame's
//! shared budget; running out of either is a fault. `WAIT` yields, `END`
//! (and `KILL_SELF`) finishes, anything malformed faults deterministically.
//!
//! The meaning of every instruction that does not reach the world is given
//! by `step_spec`, and `run_spec` chains steps the way `exec` does, so the
//! contract of `exec` pins down its result exactly for every program that
//! runs to a stop without a world call.
use vstd::prelude::*;
use crate::ecl::image::{EclImage, RuntimeSubMeta, SubId, SubKind};
use crate::ecl::ops::{
    arity, op_implemented, spec_arity, spec_op_implemented, OP_ADD, OP_CALL, OP_COSB, OP_DIV,
    OP_DIVF, OP_DUP, OP_END, OP_EQ, OP_GE, OP_GT, OP_JMP, OP_JZ, OP_KILL_CHILDREN, OP_KILL_SELF,
    OP_LE, OP_LT, OP_MOD, OP_MUL, OP_MULF, OP_NE, OP_NEG, OP_POP, OP_POPL, OP_PUSHI, OP_PUSHL,
    OP_RET, OP_SINB, OP_SPAWN, OP_SUB, OP_SYS, OP_WAIT,
};
use crate::ecl::task::{
    task_wf, Task, TaskPool, CALL_DEPTH, EVAL_DEPTH, LOCALS, OWNER_BULLET, OWNER_ENEMY,
    OWNER_STAGE, TASK_CAP,
};
use crate::ecl::syscall::dispatch;
use crate::boss::MAX_BOSSES;
use crate::events::{Event, EVT_TASK_FAULT};
use crate::math::{Angle, Fx};
use crate::world::{Recorder, WorldCall, WorldRead, SpellView, WorldBody, WorldTables, Simulation, POOL_TASK};
use crate::pool::Handle;

verus! {

/// Per-task instruction budget per frame.
pub const TASK_BUDGET: u32 = 1024;
/// Instruction budget shared by all tasks in one frame, spent in pool order.
pub const GLOBAL_BUDGET: u32 = 65536;

/// Unknown opcode, bad operand (local index, script number, call target),
/// or a syscall refusing its caller.
pub const FAULT_BAD_OP: u8 = 0;
/// `pc` outside the code, or an instruction whose operands run past it.
pub const FAULT_PC_OOB: u8 = 1;
/// Evaluation stack overflow or underflow.
pub const FAULT_STACK: u8 = 2;
/// Instruction budget exhausted (the task's or the frame's).
pub const FAULT_BUDGET: u8 = 3;
/// Division by zero (`DIV`, `MOD`, `DIVF`).
pub const FAULT_DIV_ZERO: u8 = 4;
/// `CALL` with a full call stack, or `RET` with an empty one.
pub const FAULT_CALL_DEPTH: u8 = 5;
/// Retired: no path produces it any more; the number is never reused.
pub const FAULT_UNIMPLEMENTED: u8 = 6;

/// How one `exec` run ended.
#[derive(Clone, Copy, Debug, PartialEq, Eq, Structural)]
pub enum Exec {
    /// `WAIT`: the task sleeps and resumes at the next instruction.
    Yield,
    /// `END` or `KILL_SELF`: the task is finished.
    End,
    /// A deterministic fault with its code.
    Fault(u8),
}

/// The interpreter-visible part of a task.
pub struct VmState {
    pub pc: u32,
    pub wait: u16,
    pub sp: u8,
    pub csp: u8,
    pub stack: Seq<i32>,
    pub calls: Seq<u32>,
    pub locals: Seq<i32>,
}

/// The interpreter-visible part of `t`.
pub open spec fn vm_state(t: Task) -> VmState {
    VmState {
        pc: t.pc,
        wait: t.wait,
        sp: t.sp,
        csp: t.csp,
        stack: t.stack@,
        calls: t.calls@,
        locals: t.locals@,
    }
}

/// `a` and `b` agree on everything the interpreter never writes.
pub open spec fn same_identity(a: Task, b: Task) -> bool {
    &&& a.script == b.script
    &&& a.born_frame == b.born_frame
    &&& a.owner_kind == b.owner_kind
    &&& a.owner_index == b.owner_index
    &&& a.owner_gen == b.owner_gen
    &&& a.parent == b.parent
    &&& a.spell_bound == b.spell_bound
    &&& a.spell_epoch == b.spell_epoch
}

/// The outcome of one instruction that does not reach the world.
pub enum Step {
    /// Continue with this state.
    Next(VmState),
    /// Stop with this result in this state.
    Stop(Exec, VmState),
    /// The instruction needs the world, the task pool or trigonometry.
    Effect,
}

/// `s` with `v` pushed and the pc moved to `next`; overflow faults.
pub open spec fn push_step(s: VmState, v: i32, next: u32) -> Step {
    if s.sp as int >= EVAL_DEPTH {
        Step::Stop(Exec::Fault(FAULT_STACK), s)
    } else {
        Step::Next(VmState { pc: next, sp: (s.sp + 1) as u8, stack: s.stack.update(s.sp as int, v), ..s })
    }
}

/// Quotient truncated toward zero, wrapping (`i32::MIN / -1 == i32::MIN`).
pub open spec fn wrapping_div(a: i32, b: i32) -> i32 {
    if b == -1 {
        vstd::wrapping::i32_specs::wrapping_sub(0, a)
    } else {
        match a.checked_div(b) {
            Some(q) => q,
            None => 0,
        }
    }
}

/// Remainder of the truncated division, wrapping (`x % -1 == 0`).
pub open spec fn wrapping_rem(a: i32, b: i32) -> i32 {
    if b == -1 {
        0
    } else {
        match a.checked_rem(b) {
            Some(r) => r,
            None => 0,
        }
    }
}

/// Q16.16 product: the exact product shifted right by 16 (floor), low 32 bits.
pub open spec fn mulf(a: i32, b: i32) -> i32 {
    ((a as int * b as int) / 65536) as i32
}

/// Q16.16 quotient: `a * 2^16` divided by `b`, truncated toward zero, low 32 bits.
pub open spec fn divf(a: i32, b: i32) -> i32 {
    match ((a as int * 65536) as i64).checked_div(b as i64) {
        Some(q) => q as i32,
        None => 0,
    }
}

/// The binary opcodes: two operands popped, one result pushed.
pub open spec fn is_binary(op: u8) -> bool {
    ||| OP_ADD <= op <= OP_MOD
    ||| op == OP_MULF
    ||| op == OP_DIVF
    ||| OP_EQ <= op <= OP_GE
}

/// The result of binary opcode `op` on `a` (deeper) and `b` (top);
/// `None` is a division by zero.
pub open spec fn binop_value(op: u8, a: i32, b: i32) -> Option<i32> {
    if op == OP_ADD {
        Some(vstd::wrapping::i32_specs::wrapping_add(a, b))
    } else if op == OP_SUB {
        Some(vstd::wrapping::i32_specs::wrapping_sub(a, b))
    } else if op == OP_MUL {
        Some(vstd::wrapping::i32_specs::wrapping_mul(a, b))
    } else if op == OP_DIV {
        if b == 0 { None } else { Some(wrapping_div(a, b)) }
    } else if op == OP_MOD {
        if b == 0 { None } else { Some(wrapping_rem(a, b)) }
    } else if op == OP_MULF {
        Some(mulf(a, b))
    } else if op == OP_DIVF {
        if b == 0 { None } else { Some(divf(a, b)) }
    } else if op == OP_EQ {
        Some(if a == b { 1i32 } else { 0i32 })
    } else if op == OP_NE {
        Some(if a != b { 1i32 } else { 0i32 })
    } else if op == OP_LT {
        Some(if a < b { 1i32 } else { 0i32 })
    } else if op == OP_LE {
        Some(if a <= b { 1i32 } else { 0i32 })
    } else if op == OP_GT {
        Some(if a > b { 1i32 } else { 0i32 })
    } else {
        Some(if a >= b { 1i32 } else { 0i32 })
    }
}

/// A binary opcode: both pops happen before the result is known, so an
/// underflow on the second pop leaves the first one done.
pub open spec fn binary_step(s: VmState, op: u8, next: u32) -> Step {
    if s.sp == 0 {
        Step::Stop(Exec::Fault(FAULT_STACK), s)
    } else if s.sp == 1 {
        Step::Stop(Exec::Fault(FAULT_STACK), VmState { sp: 0, ..s })
    } else {
        let a = s.stack[s.sp - 2];
        let b = s.stack[s.sp - 1];
        match binop_value(op, a, b) {
            None => Step::Stop(Exec::Fault(FAULT_DIV_ZERO), VmState { sp: (s.sp - 2) as u8, ..s }),
            Some(v) => Step::Next(
                VmState { pc: next, sp: (s.sp - 1) as u8, stack: s.stack.update(s.sp - 2, v), ..s },
            ),
        }
    }
}

/// A control-flow or stack opcode with operand `opnd` (0 when it has none).
pub open spec fn flow_step(s: VmState, op: u8, opnd: u32, next: u32, subs: Seq<RuntimeSubMeta>) -> Step {
    if op == OP_END || op == OP_KILL_SELF {
        Step::Stop(Exec::End, s)
    } else if op == OP_WAIT {
        if s.sp == 0 {
            Step::Stop(Exec::Fault(FAULT_STACK), s)
        } else {
            Step::Stop(
                Exec::Yield,
                VmState { pc: next, sp: (s.sp - 1) as u8, wait: s.stack[s.sp - 1] as u16, ..s },
            )
        }
    } else if op == OP_JMP {
        Step::Next(VmState { pc: opnd, ..s })
    } else if op == OP_JZ {
        if s.sp == 0 {
            Step::Stop(Exec::Fault(FAULT_STACK), s)
        } else {
            Step::Next(
                VmState {
                    pc: if s.stack[s.sp - 1] == 0 { opnd } else { next },
                    sp: (s.sp - 1) as u8,
                    ..s
                },
            )
        }
    } else if op == OP_CALL {
        if s.csp as int >= CALL_DEPTH {
            Step::Stop(Exec::Fault(FAULT_CALL_DEPTH), s)
        } else if opnd >= subs.len() || subs[opnd as int].kind != SubKind::CallOnly {
            Step::Stop(Exec::Fault(FAULT_BAD_OP), s)
        } else {
            Step::Next(
                VmState {
                    pc: subs[opnd as int].code_entry,
                    csp: (s.csp + 1) as u8,
                    calls: s.calls.update(s.csp as int, next),
                    ..s
                },
            )
        }
    } else if op == OP_RET {
        if s.csp == 0 {
            Step::Stop(Exec::Fault(FAULT_CALL_DEPTH), s)
        } else {
            Step::Next(VmState { pc: s.calls[s.csp - 1], csp: (s.csp - 1) as u8, ..s })
        }
    } else if op == OP_PUSHI {
        push_step(s, opnd as i32, next)
    } else if op == OP_PUSHL {
        if opnd as int >= LOCALS {
            Step::Stop(Exec::Fault(FAULT_BAD_OP), s)
        } else {
            push_step(s, s.locals[opnd as int], next)
        }
    } else if op == OP_POPL {
        if opnd as int >= LOCALS {
            Step::Stop(Exec::Fault(FAULT_BAD_OP), s)
        } else if s.sp == 0 {
            Step::Stop(Exec::Fault(FAULT_STACK), s)
        } else {
            Step::Next(
                VmState {
                    pc: next,
                    sp: (s.sp - 1) as u8,
                    locals: s.locals.update(opnd as int, s.stack[s.sp - 1]),
                    ..s
                },
            )
        }
    } else if op == OP_DUP {
        if s.sp == 0 {
            Step::Stop(Exec::Fault(FAULT_STACK), s)
        } else {
            push_step(s, s.stack[s.sp - 1], next)
        }
    } else if op == OP_POP {
        if s.sp == 0 {
            Step::Stop(Exec::Fault(FAULT_STACK), s)
        } else {
            Step::Next(VmState { pc: next, sp: (s.sp - 1) as u8, ..s })
        }
    } else if op == OP_NEG {
        if s.sp == 0 {
            Step::Stop(Exec::Fault(FAULT_STACK), s)
        } else {
            Step::Next(
                VmState {
                    pc: next,
                    stack: s.stack.update(
                        s.sp - 1,
                        vstd::wrapping::i32_specs::wrapping_sub(0, s.stack[s.sp - 1]),
                    ),
                    ..s
                },
            )
        }
    } else {
        Step::Stop(Exec::Fault(FAULT_BAD_OP), s)
    }
}

/// The opcodes that reach the world, the task pool or trigonometry.
pub open spec fn is_effect(op: u8) -> bool {
    op == OP_SINB || op == OP_COSB || op == OP_SPAWN || op == OP_KILL_CHILDREN || op == OP_SYS
}

/// The opcode of the instruction at `pc`.
pub open spec fn op_at(code: Seq<u32>, pc: int) -> u8 {
    (code[pc] % 256) as u8
}

/// One instruction from state `s`: fetch, decode, execute.
pub open spec fn step_spec(s: VmState, code: Seq<u32>, subs: Seq<RuntimeSubMeta>) -> Step {
    let pc = s.pc as int;
    if pc >= code.len() {
        Step::Stop(Exec::Fault(FAULT_PC_OOB), s)
    } else {
        let op = op_at(code, pc);
        if !spec_op_implemented(op) {
            Step::Stop(Exec::Fault(FAULT_BAD_OP), s)
        } else if pc + 1 + spec_arity(op) > code.len() {
            Step::Stop(Exec::Fault(FAULT_PC_OOB), s)
        } else if is_effect(op) {
            Step::Effect
        } else {
            let next = (pc + 1 + spec_arity(op)) as u32;
            let opnd = if spec_arity(op) > 0 { code[pc + 1] } else { 0u32 };
            if is_binary(op) {
                binary_step(s, op, next)
            } else {
                flow_step(s, op, opnd, next, subs)
            }
        }
    }
}

/// What `exec` does from state `s` after `count` instructions with `budget`
/// frame budget left: the result, the final state and the budget left, or
/// `None` when it reaches an instruction that needs the world first.
pub open spec fn run_spec(
    s: VmState,
    code: Seq<u32>,
    subs: Seq<RuntimeSubMeta>,
    count: nat,
    budget: nat,
) -> Option<(Exec, VmState, nat)>
    decreases TASK_BUDGET - count,
{
    if count >= TASK_BUDGET || budget == 0 {
        Some((Exec::Fault(FAULT_BUDGET), s, budget))
    } else {
        match step_spec(s, code, subs) {
            Step::Next(s2) => run_spec(s2, code, subs, count + 1, (budget - 1) as nat),
            Step::Stop(e, s2) => Some((e, s2, (budget - 1) as nat)),
            Step::Effect => None,
        }
    }
}

/// Code in which no word decodes to a world-touching opcode never reaches
/// the world: its whole run is described by `run_spec`, so `exec` leaves
/// the task pool, the body and the world untouched and spends only the
/// task's own budget.
pub proof fn law_effect_free_code_is_sandboxed(
    s: VmState,
    code: Seq<u32>,
    subs: Seq<RuntimeSubMeta>,
    count: nat,
    budget: nat,
)
    requires
        forall|i: int| 0 <= i < code.len() ==> !is_effect(#[trigger] op_at(code, i)),
    ensures
        run_spec(s, code, subs, count, budget) is Some,
    decreases TASK_BUDGET - count,
{
    if count < TASK_BUDGET && budget != 0 {
        if s.pc < code.len() {
            assert(!is_effect(op_at(code, s.pc as int)));
        }
        match step_spec(s, code, subs) {
            Step::Next(s2) => {
                law_effect_free_code_is_sandboxed(s2, code, subs, count + 1, (budget - 1) as nat);
            },
            _ => {},
        }
    }
}

/// What one interpreted instruction asks of the run loop.
pub enum StepOut {
    Continue,
    Done(Exec),
    /// An instruction that reaches the world: opcode, operand words (0 when
    /// absent) and the address of the next instruction.
    Effect { op: u8, opnd: u32, opnd2: u32, next: u32 },
}

/// The value of binary opcode `op` on `a` (deeper) and `b` (top).
fn binop_exec(op: u8, a: i32, b: i32) -> (r: Option<i32>)
    requires
        is_binary(op),
    ensures
        r == binop_value(op, a, b),
{
    if op == OP_ADD {
        Some(a.wrapping_add(b))
    } else if op == OP_SUB {
        Some(a.wrapping_sub(b))
    } else if op == OP_MUL {
        Some(a.wrapping_mul(b))
    } else if op == OP_DIV {
        if b == 0 {
            None
        } else if b == -1 {
            Some(0i32.wrapping_sub(a))
        } else {
            match a.checked_div(b) {
                Some(q) => Some(q),
                None => Some(0),
            }
        }
    } else if op == OP_MOD {
        if b == 0 {
            None
        } else if b == -1 {
            Some(0)
        } else {
            match a.checked_rem(b) {
                Some(q) => Some(q),
                None => Some(0),
            }
        }
    } else if op == OP_MULF {
        assert(i64::MIN <= (a as int) * (b as int) <= i64::MAX) by (nonlinear_arith)
            requires
                i32::MIN <= a <= i32::MAX,
                i32::MIN <= b <= i32::MAX,
        ;
        let p: i64 = (a as i64) * (b as i64);
        match p.checked_div_euclid(65536i64) {
            Some(q) => Some(q as i32),
            None => Some(0),
        }
    } else if op == OP_DIVF {
        if b == 0 {
            None
        } else {
            let x: i64 = (a as i64) * 65536;
            match x.checked_div(b as i64) {
                Some(q) => Some(q as i32),
                None => Some(0),
            }
        }
    } else if op == OP_EQ {
        Some(if a == b { 1i32 } else { 0i32 })
    } else if op == OP_NE {
        Some(if a != b { 1i32 } else { 0i32 })
    } else if op == OP_LT {
        Some(if a < b { 1i32 } else { 0i32 })
    } else if op == OP_LE {
        Some(if a <= b { 1i32 } else { 0i32 })
    } else if op == OP_GT {
        Some(if a > b { 1i32 } else { 0i32 })
    } else {
        Some(if a >= b { 1i32 } else { 0i32 })
    }
}

/// Runs binary opcode `op` on `task`.
fn binary_exec(task: &mut Task, op: u8, next: u32) -> (r: StepOut)
    requires
        is_binary(op),
        task_wf(*old(task)),
    ensures
        task_wf(*final(task)),
        same_identity(*old(task), *final(task)),
        match binary_step(vm_state(*old(task)), op, next) {
            Step::Next(s2) => r == StepOut::Continue && vm_state(*final(task)) == s2,
            Step::Stop(e, s2) => r == StepOut::Done(e) && vm_state(*final(task)) == s2,
            Step::Effect => false,
        },
{
    if task.sp == 0 {
        return StepOut::Done(Exec::Fault(FAULT_STACK));
    }
    task.sp = task.sp - 1;
    let b = task.stack[task.sp as usize];
    if task.sp == 0 {
        return StepOut::Done(Exec::Fault(FAULT_STACK));
    }
    task.sp = task.sp - 1;
    let a = task.stack[task.sp as usize];
    match binop_exec(op, a, b) {
        None => StepOut::Done(Exec::Fault(FAULT_DIV_ZERO)),
        Some(v) => {
            task.stack[task.sp as usize] = v;
            task.sp = task.sp + 1;
            task.pc = next;
            StepOut::Continue
        },
    }
}

/// Pushes `v` and moves to `next`, or faults on overflow.
fn push_exec(task: &mut Task, v: i32, next: u32) -> (r: StepOut)
    requires
        task_wf(*old(task)),
    ensures
        task_wf(*final(task)),
        same_identity(*old(task), *final(task)),
        match push_step(vm_state(*old(task)), v, next) {
            Step::Next(s2) => r == StepOut::Continue && vm_state(*final(task)) == s2,
            Step::Stop(e, s2) => r == StepOut::Done(e) && vm_state(*final(task)) == s2,
            Step::Effect => false,
        },
{
    if task.sp as usize >= EVAL_DEPTH {
        return StepOut::Done(Exec::Fault(FAULT_STACK));
    }
    task.stack[task.sp as usize] = v;
    task.sp = task.sp + 1;
    task.pc = next;
    StepOut::Continue
}

/// Runs a control-flow or stack opcode on `task`.
fn flow_exec(task: &mut Task, op: u8, opnd: u32, next: u32, ecl: &EclImage) -> (r: StepOut)
    requires
        task_wf(*old(task)),
    ensures
        task_wf(*final(task)),
        same_identity(*old(task), *final(task)),
        match flow_step(vm_state(*old(task)), op, opnd, next, ecl.spec_subs()) {
            Step::Next(s2) => r == StepOut::Continue && vm_state(*final(task)) == s2,
            Step::Stop(e, s2) => r == StepOut::Done(e) && vm_state(*final(task)) == s2,
            Step::Effect => false,
        },
{
    if op == OP_END || op == OP_KILL_SELF {
        StepOut::Done(Exec::End)
    } else if op == OP_WAIT {
        if task.sp == 0 {
            return StepOut::Done(Exec::Fault(FAULT_STACK));
        }
        task.sp = task.sp - 1;
        let frames = task.stack[task.sp as usize];
        task.wait = frames as u16;
        task.pc = next;
        StepOut::Done(Exec::Yield)
    } else if op == OP_JMP {
        task.pc = opnd;
        StepOut::Continue
    } else if op == OP_JZ {
        if task.sp == 0 {
            return StepOut::Done(Exec::Fault(FAULT_STACK));
        }
        task.sp = task.sp - 1;
        let v = task.stack[task.sp as usize];
        task.pc = if v == 0 { opnd } else { next };
        StepOut::Continue
    } else if op == OP_CALL {
        if task.csp as usize >= CALL_DEPTH {
            return StepOut::Done(Exec::Fault(FAULT_CALL_DEPTH));
        }
        let n = ecl.sub_count();
        if opnd > 0xFFFF {
            return StepOut::Done(Exec::Fault(FAULT_BAD_OP));
        }
        let target = match ecl.sub_id(opnd as u16) {
            Some(t) => t,
            None => {
                return StepOut::Done(Exec::Fault(FAULT_BAD_OP));
            },
        };
        let meta = match ecl.sub_meta(target) {
            Some(m) => *m,
            None => {
                return StepOut::Done(Exec::Fault(FAULT_BAD_OP));
            },
        };
        if meta.kind() != SubKind::CallOnly {
            return StepOut::Done(Exec::Fault(FAULT_BAD_OP));
        }
        task.calls[task.csp as usize] = next;
        task.csp = task.csp + 1;
        task.pc = meta.code_entry();
        StepOut::Continue
    } else if op == OP_RET {
        if task.csp == 0 {
            return StepOut::Done(Exec::Fault(FAULT_CALL_DEPTH));
        }
        task.csp = task.csp - 1;
        task.pc = task.calls[task.csp as usize];
        StepOut::Continue
    } else if op == OP_PUSHI {
        push_exec(task, opnd as i32, next)
    } else if op == OP_PUSHL {
        if opnd as usize >= LOCALS {
            return StepOut::Done(Exec::Fault(FAULT_BAD_OP));
        }
        let v = task.locals[opnd as usize];
        push_exec(task, v, next)
    } else if op == OP_POPL {
        if opnd as usize >= LOCALS {
            return StepOut::Done(Exec::Fault(FAULT_BAD_OP));
        }
        if task.sp == 0 {
            return StepOut::Done(Exec::Fault(FAULT_STACK));
        }
        task.sp = task.sp - 1;
        let v = task.stack[task.sp as usize];
        task.locals[opnd as usize] = v;
        task.pc = next;
        StepOut::Continue
    } else if op == OP_DUP {
        if task.sp == 0 {
            return StepOut::Done(Exec::Fault(FAULT_STACK));
        }
        let v = task.stack[task.sp as usize - 1];
        push_exec(task, v, next)
    } else if op == OP_POP {
        if task.sp == 0 {
            return StepOut::Done(Exec::Fault(FAULT_STACK));
        }
        task.sp = task.sp - 1;
        task.pc = next;
        StepOut::Continue
    } else if op == OP_NEG {
        if task.sp == 0 {
            return StepOut::Done(Exec::Fault(FAULT_STACK));
        }
        let i = task.sp as usize - 1;
        let a = task.stack[i];
        task.stack[i] = 0i32.wrapping_sub(a);
        task.pc = next;
        StepOut::Continue
    } else {
        StepOut::Done(Exec::Fault(FAULT_BAD_OP))
    }
}

/// Fetches, decodes and runs the instruction at `task.pc` unless it needs
/// the world, in which case the task is untouched and the decoded
/// instruction is handed back.
fn exec_pure_step(task: &mut Task, code: &[u32], ecl: &EclImage) -> (r: StepOut)
    requires
        task_wf(*old(task)),
    ensures
        task_wf(*final(task)),
        same_identity(*old(task), *final(task)),
        match step_spec(vm_state(*old(task)), code@, ecl.spec_subs()) {
            Step::Next(s2) => r == StepOut::Continue && vm_state(*final(task)) == s2,
            Step::Stop(e, s2) => r == StepOut::Done(e) && vm_state(*final(task)) == s2,
            Step::Effect => {
                &&& *final(task) == *old(task)
                &&& r matches StepOut::Effect { op, opnd, opnd2, next }
                &&& op == op_at(code@, old(task).pc as int)
                &&& is_effect(op)
                &&& next == (old(task).pc + 1 + spec_arity(op)) as u32
                &&& old(task).pc + 1 + spec_arity(op) <= code@.len()
                &&& (spec_arity(op) > 0 ==> opnd == code@[old(task).pc + 1])
                &&& (spec_arity(op) > 1 ==> opnd2 == code@[old(task).pc + 2])
                &&& (op, opnd, opnd2, next) == effect_args(code@, old(task).pc as int)
            },
        },
{
    let pc = task.pc as usize;
    if pc >= code.len() {
        return StepOut::Done(Exec::Fault(FAULT_PC_OOB));
    }
    let head = code[pc];
    let low = head & 0xFF;
    assert(low == head % 256) by (bit_vector)
        requires
            low == head & 0xFF,
    ;
    let op = low as u8;
    if !op_implemented(op) {
        return StepOut::Done(Exec::Fault(FAULT_BAD_OP));
    }
    let ar = arity(op) as usize;
    if ar > code.len() - (pc + 1) {
        return StepOut::Done(Exec::Fault(FAULT_PC_OOB));
    }
    let next = (pc + 1 + ar) as u32;
    let opnd = if ar > 0 { code[pc + 1] } else { 0u32 };
    if op == OP_SINB || op == OP_COSB || op == OP_SPAWN || op == OP_KILL_CHILDREN || op == OP_SYS {
        let opnd2 = if ar > 1 { code[pc + 2] } else { 0u32 };
        return StepOut::Effect { op, opnd, opnd2, next };
    }
    if (OP_ADD <= op && op <= OP_MOD) || op == OP_MULF || op == OP_DIVF || (OP_EQ <= op && op <= OP_GE) {
        binary_exec(task, op, next)
    } else {
        flow_exec(task, op, opnd, next, ecl)
    }
}

/// A `SINB` (or `COSB`) on top-of-stack word `word` asked the world one
/// question, from `rd0` to `rd1`: the sine (cosine) of the binary angle in
/// the word's low 16 bits; the new top is the raw answer.
pub open spec fn trig_read(op: u8, word: i32, rd0: Seq<WorldRead>, rd1: Seq<WorldRead>, top: i32) -> bool {
    let a = Angle((word as u32 & 0xFFFFu32) as u16);
    rd1 == rd0.push(if op == OP_SINB { WorldRead::Sin(a, Fx(top)) } else { WorldRead::Cos(a, Fx(top)) })
}

/// The binary angle of the low 16 bits of `a`.
fn angle_of(a: i32) -> (r: Angle)
    ensures
        r.0 == (a as u32 & 0xFFFFu32) as u16,
{
    Angle((a as u32 & 0xFFFF) as u16)
}

/// One world-touching instruction `op` (operands `opnd`, `opnd2`, next
/// instruction at `next`) run by slot `self_index` in frame `frame`: task
/// `t0`, pool `p` and body `b0` become `t1`, `q` and `b1`, with outcome `r`.
/// `SINB`/`COSB` replace the top of the stack with the world's sine or
/// cosine; `KILL_CHILDREN` kills the slot's descendants; `SPAWN` is
/// `spawn_done` after its checks; `SYS` is `dispatch_step` of the syscall,
/// then the next instruction (or the syscall's fault).
pub open spec fn effect_step(
    t0: Task,
    t1: Task,
    p: TaskPool,
    q: TaskPool,
    b0: WorldBody,
    b1: WorldBody,
    op: u8,
    opnd: u32,
    opnd2: u32,
    next: u32,
    r: StepOut,
    subs: Seq<RuntimeSubMeta>,
    tables: WorldTables,
    self_index: u16,
    frame: u32,
) -> bool {
    &&& task_wf(t1)
    &&& same_identity(t0, t1)
    &&& !(r is Effect)
    &&& b1.frame == b0.frame
    &&& r is Continue ==> t1.pc == next
    &&& r matches StepOut::Done(e) ==> e == Exec::Fault(FAULT_BAD_OP) || e == Exec::Fault(FAULT_STACK)
    &&& ((op == OP_SINB || op == OP_COSB) && t0.sp == 0 ==> {
        &&& r == StepOut::Done(Exec::Fault(FAULT_STACK))
        &&& t1 == t0
        &&& q == p
        &&& b1 == b0
    })
    &&& ((op == OP_SINB || op == OP_COSB) && t0.sp > 0 ==> {
        &&& r is Continue
        &&& t1 == Task { pc: next, stack: t1.stack, ..t0 }
        &&& forall|j: int| 0 <= j < EVAL_DEPTH && j != t0.sp - 1
            ==> #[trigger] t1.stack@[j] == t0.stack@[j]
        &&& q == p
        &&& b1 == b0
    })
    &&& (op == OP_KILL_CHILDREN ==> {
        &&& r is Continue
        &&& t1 == Task { pc: next, ..t0 }
        &&& forall|k: int| #[trigger] q.spec_alive(k) == (p.spec_alive(k)
            && !p.killed_as_child((self_index + 1) as u16, k))
        &&& b1 == b0
    })
    &&& (op == OP_SPAWN && opnd > 0xFFFF ==> r == StepOut::Done(Exec::Fault(FAULT_BAD_OP)) && q == p && t1 == t0
        && b1 == b0)
    &&& (op == OP_SPAWN && opnd <= 0xFFFF && opnd2 as int > LOCALS ==> r == StepOut::Done(Exec::Fault(FAULT_STACK))
        && q == p && t1 == t0 && b1 == b0)
    &&& (op == OP_SPAWN && opnd <= 0xFFFF && opnd2 as int <= LOCALS
        && !crate::ecl::syscall::spawnable(subs, opnd as i32, opnd2 as int)
        ==> r == StepOut::Done(Exec::Fault(FAULT_BAD_OP)) && q == p && b1 == b0 && t1 == t0)
    &&& (op == OP_SPAWN && opnd <= 0xFFFF && opnd2 as int <= LOCALS
        && crate::ecl::syscall::spawnable(subs, opnd as i32, opnd2 as int)
        && t0.sp < opnd2 ==> r == StepOut::Done(Exec::Fault(FAULT_STACK)) && q == p && b1 == b0 && t1 == t0)
    &&& (op == OP_SPAWN && opnd <= 0xFFFF && opnd2 as int <= LOCALS
        && crate::ecl::syscall::spawnable(subs, opnd as i32, opnd2 as int)
        && t0.sp >= opnd2 && t0.sp - opnd2 < EVAL_DEPTH ==> spawn_done(t0, t1, p, q, b0, b1, r,
        subs[opnd as int].code_entry, opnd as u16, opnd2 as int, self_index, frame, next))
    &&& (op == OP_SYS && !crate::ecl::syscall::spec_syscall_implemented(opnd as u16) ==> r == StepOut::Done(Exec::Fault(FAULT_BAD_OP)))
    &&& (op == OP_SYS ==> exists|tm: Task, res: Result<(), u8>| {
        &&& #[trigger] crate::ecl::syscall::dispatch_step(opnd as u16, t0, tm, p, q, b0, b1, res, subs, tables, self_index, frame)
        &&& res is Ok ==> r == StepOut::Continue && t1 == (Task { pc: next, ..tm })
        &&& res matches Err(c) ==> r == StepOut::Done(Exec::Fault(c)) && t1 == tm
    })
}

/// Runs an instruction that reaches the world, the task pool or
/// trigonometry: `SINB`/`COSB`, `SPAWN`, `KILL_CHILDREN` or `SYS`.
fn effect_exec<P: Simulation>(
    task: &mut Task,
    op: u8,
    opnd: u32,
    opnd2: u32,
    next: u32,
    tasks: &mut TaskPool,
    ecl: &EclImage,
    tables: &WorldTables,
    body: &mut WorldBody,
    sim: &mut Recorder<P>,
    self_index: u16,
    frame: u32,
) -> (r: StepOut)
    requires
        task_wf(*old(task)),
        is_effect(op),
        self_index < TASK_CAP,
    ensures
        old(sim).calls().is_prefix_of(final(sim).calls()),
        old(sim).reads().is_prefix_of(final(sim).reads()),
        task_wf(*final(task)),
        same_identity(*old(task), *final(task)),
        !(r is Effect),
        final(body).frame == old(body).frame,
        r is Continue ==> final(task).pc == next,
        r matches StepOut::Done(e) ==> e == Exec::Fault(FAULT_BAD_OP) || e == Exec::Fault(FAULT_STACK),
        op != OP_SYS && op != OP_SPAWN ==> final(sim).calls() == old(sim).calls(),
        (op == OP_SINB || op == OP_COSB) && old(task).sp > 0 ==> trig_read(op, old(task).stack@[old(task).sp - 1],
            old(sim).reads(), final(sim).reads(), final(task).stack@[old(task).sp - 1]),
        effect_step(*old(task), *final(task), *old(tasks), *final(tasks), *old(body), *final(body), op, opnd, opnd2,
            next, r, ecl.spec_subs(), *tables, self_index, frame),
{
    if op == OP_SINB || op == OP_COSB {
        if task.sp == 0 {
            return StepOut::Done(Exec::Fault(FAULT_STACK));
        }
        let i = task.sp as usize - 1;
        let a = angle_of(task.stack[i]);
        let v = if op == OP_SINB { sim.sin(a) } else { sim.cos(a) };
        task.stack[i] = v.raw();
        task.pc = next;
        proof {
            assert(trig_read(op, old(task).stack@[old(task).sp - 1], old(sim).reads(), sim.reads(), v.0));
        }
        StepOut::Continue
    } else if op == OP_SPAWN {
        spawn_exec(task, opnd, opnd2, next, tasks, ecl, body, self_index, frame)
    } else if op == OP_KILL_CHILDREN {
        tasks.kill_children(self_index + 1);
        task.pc = next;
        StepOut::Continue
    } else {
        let res = dispatch(opnd as u16, task, tasks, ecl, tables, body, sim, self_index, frame);
        let ghost tm = *task;
        let r = match res {
            Ok(()) => {
                task.pc = next;
                StepOut::Continue
            },
            Err(code) => StepOut::Done(Exec::Fault(code)),
        };
        proof {
            assert(crate::ecl::syscall::dispatch_step(opnd as u16, *old(task), tm, *old(tasks), *tasks, *old(body),
                *body, res, ecl.spec_subs(), *tables, self_index, frame));
        }
        r
    }
}

/// A successful `SPAWN` of sub `sub` (entry `pc`) with the top `argc`
/// values of `t0` as arguments: the arguments are popped; a child takes the
/// lowest free slot with those values in its first locals (declaration
/// order), the rest zero, parent stamp `self_index + 1`, born at `frame`,
/// and the parent's owner and spell binding, and its index is pushed; with
/// the pool full, -1 is pushed and the full pool counted.
pub open spec fn spawn_done(
    t0: Task,
    t1: Task,
    p: TaskPool,
    q: TaskPool,
    b0: WorldBody,
    b1: WorldBody,
    r: StepOut,
    pc: u32,
    sub: u16,
    argc: int,
    self_index: u16,
    frame: u32,
    next: u32,
) -> bool {
    let base = t0.sp - argc;
    let args = t0.stack@.subrange(base, t0.sp as int);
    let v = t1.stack@[base];
    &&& r is Continue
    &&& t1 == Task { pc: next, sp: (base + 1) as u8, stack: t1.stack, ..t0 }
    &&& t1.stack@ == t0.stack@.update(base, v)
    &&& v == -1 ==> {
        &&& forall|j: int| 0 <= j < TASK_CAP ==> #[trigger] p.spec_alive(j)
        &&& q == p
        &&& b1.diag.pool_full@ == b0.diag.pool_full@.update(
            POOL_TASK as int,
            vstd::wrapping::u32_specs::wrapping_add(b0.diag.pool_full@[POOL_TASK as int], 1),
        )
        &&& b1.frame == b0.frame
    }
    &&& v != -1 ==> {
        &&& 0 <= v < TASK_CAP
        &&& !p.spec_alive(v as int)
        &&& forall|j: int| 0 <= j < v ==> #[trigger] p.spec_alive(j)
        &&& forall|j: int| #[trigger] q.spec_alive(j) == (p.spec_alive(j) || j == v)
        &&& q.spec_slot(v as int) == (Task {
            locals: q.spec_slot(v as int).locals,
            spell_bound: t0.spell_bound,
            spell_epoch: t0.spell_epoch,
            ..crate::ecl::task::fresh_task(q.spec_slot(v as int).script, pc, (t0.owner_kind, t0.owner_index, t0.owner_gen), (self_index + 1) as u16, frame)
        })
        &&& q.spec_slot(v as int).script@ == sub
        &&& q.spec_slot(v as int).locals@ == args + Seq::new((LOCALS - argc) as nat, |k: int| 0i32)
        &&& forall|j: int| 0 <= j < TASK_CAP && j != v ==> #[trigger] q.spec_slot(j) == p.spec_slot(j)
        &&& b1 == b0
    }
}

/// `SPAWN script argc`: the checks come first (argument count within the
/// locals, script exists, is an async sub declaring exactly `argc`
/// parameters, enough values on the stack); only then are the arguments
/// popped (pushed in declaration order, they land in the child's locals in
/// declaration order) and the child spawned, inheriting the owner and the
/// spell binding, with parent stamp `self_index + 1` and born this frame.
/// The child's index is pushed, or -1 when the pool is full.
fn spawn_exec(
    task: &mut Task,
    opnd: u32,
    argc_word: u32,
    next: u32,
    tasks: &mut TaskPool,
    ecl: &EclImage,
    body: &mut WorldBody,
    self_index: u16,
    frame: u32,
) -> (r: StepOut)
    requires
        task_wf(*old(task)),
        self_index < TASK_CAP,
    ensures
        task_wf(*final(task)),
        same_identity(*old(task), *final(task)),
        !(r is Effect),
        final(body).frame == old(body).frame,
        r is Continue ==> final(task).pc == next,
        r matches StepOut::Done(e) ==> e == Exec::Fault(FAULT_BAD_OP) || e == Exec::Fault(FAULT_STACK),
        opnd > 0xFFFF ==> r == StepOut::Done(Exec::Fault(FAULT_BAD_OP)) && *final(tasks) == *old(tasks)
            && *final(task) == *old(task) && *final(body) == *old(body),
        opnd <= 0xFFFF && argc_word as int > LOCALS ==> r == StepOut::Done(Exec::Fault(FAULT_STACK))
            && *final(tasks) == *old(tasks) && *final(task) == *old(task) && *final(body) == *old(body),
        opnd <= 0xFFFF && argc_word as int <= LOCALS && !crate::ecl::syscall::spawnable(ecl.spec_subs(), opnd as i32, argc_word as int)
            ==> r == StepOut::Done(Exec::Fault(FAULT_BAD_OP)) && *final(tasks) == *old(tasks)
            && *final(body) == *old(body) && *final(task) == *old(task),
        opnd <= 0xFFFF && argc_word as int <= LOCALS && crate::ecl::syscall::spawnable(ecl.spec_subs(), opnd as i32, argc_word as int)
            && old(task).sp < argc_word ==> r == StepOut::Done(Exec::Fault(FAULT_STACK)) && *final(tasks) == *old(tasks)
            && *final(body) == *old(body) && *final(task) == *old(task),
        opnd <= 0xFFFF && argc_word as int <= LOCALS && crate::ecl::syscall::spawnable(ecl.spec_subs(), opnd as i32, argc_word as int)
            && old(task).sp >= argc_word && old(task).sp - argc_word < EVAL_DEPTH ==> spawn_done(
            *old(task), *final(task), *old(tasks), *final(tasks), *old(body), *final(body), r,
            ecl.spec_subs()[opnd as int].code_entry, opnd as u16, argc_word as int, self_index, frame, next),
{
    if opnd > 0xFFFF {
        return StepOut::Done(Exec::Fault(FAULT_BAD_OP));
    }
    if argc_word as usize > LOCALS {
        return StepOut::Done(Exec::Fault(FAULT_STACK));
    }
    let argc = argc_word as usize;
    let script = match ecl.sub_id(opnd as u16) {
        Some(s) => s,
        None => {
            return StepOut::Done(Exec::Fault(FAULT_BAD_OP));
        },
    };
    let meta = match ecl.sub_meta(script) {
        Some(m) => *m,
        None => {
            return StepOut::Done(Exec::Fault(FAULT_BAD_OP));
        },
    };
    if meta.kind() != SubKind::Async {
        return StepOut::Done(Exec::Fault(FAULT_BAD_OP));
    }
    match ecl.param_types(script) {
        Some(params) => {
            if params.len() != argc {
                return StepOut::Done(Exec::Fault(FAULT_BAD_OP));
            }
        },
        None => {
            return StepOut::Done(Exec::Fault(FAULT_BAD_OP));
        },
    }
    if (task.sp as usize) < argc {
        return StepOut::Done(Exec::Fault(FAULT_STACK));
    }
    let base = task.sp as usize - argc;
    let mut args: Vec<i32> = Vec::new();
    let mut k: usize = 0;
    while k < argc
        invariant
            k <= argc,
            base + argc == task.sp,
            task.sp as int <= EVAL_DEPTH,
            args@ == task.stack@.subrange(base as int, (base + k) as int),
        decreases argc - k,
    {
        args.push(task.stack[base + k]);
        proof {
            assert(args@ =~= task.stack@.subrange(base as int, (base + k + 1) as int));
        }
        k += 1;
    }
    task.sp = base as u8;
    let owner = (task.owner_kind, task.owner_index, task.owner_gen);
    let ghost p0 = *tasks;
    match tasks.spawn(script, meta.code_entry(), owner, self_index + 1, frame) {
        Some(idx) => {
            let ghost p1 = *tasks;
            tasks.write_args(idx as usize, args.as_slice());
            let mut child = *tasks.task(idx as usize);
            child.spell_bound = task.spell_bound;
            child.spell_epoch = task.spell_epoch;
            tasks.set_task(idx as usize, child);
            proof {
                let f = crate::ecl::task::fresh_task(script, meta.code_entry, owner, (self_index + 1) as u16, frame);
                assert(p1.spec_slot(idx as int) == f);
                assert(f.locals@.subrange(argc as int, LOCALS as int) =~= Seq::new((LOCALS - argc) as nat, |k: int| 0i32));
                assert(tasks.spec_slot(idx as int).locals@ == args@ + Seq::new((LOCALS - argc) as nat, |k: int| 0i32));
                assert(tasks.spec_slot(idx as int) == (Task {
                    locals: tasks.spec_slot(idx as int).locals,
                    spell_bound: task.spell_bound,
                    spell_epoch: task.spell_epoch,
                    ..crate::ecl::task::fresh_task(tasks.spec_slot(idx as int).script, meta.code_entry, owner, (self_index + 1) as u16, frame)
                }));
            }
            if task.sp as usize >= EVAL_DEPTH {
                return StepOut::Done(Exec::Fault(FAULT_STACK));
            }
            task.stack[task.sp as usize] = idx as i32;
            task.sp = task.sp + 1;
        },
        None => {
            if task.sp as usize >= EVAL_DEPTH {
                return StepOut::Done(Exec::Fault(FAULT_STACK));
            }
            task.stack[task.sp as usize] = -1;
            task.sp = task.sp + 1;
            body.count_pool_full(POOL_TASK);
        },
    }
    task.pc = next;
    StepOut::Continue
}

/// No word of `code` decodes to `SYS` or `SPAWN`, the only instructions
/// that can write the world body (the others reach at most the
/// trigonometry and the task pool).
pub open spec fn no_body_ops(code: Seq<u32>) -> bool {
    forall|i: int| 0 <= i < code.len() ==> #[trigger] op_at(code, i) != OP_SYS && op_at(code, i) != OP_SPAWN
}

/// The decoded world-touching instruction at `pc`: opcode, operand words
/// (0 when absent) and the address of the next instruction.
pub open spec fn effect_args(code: Seq<u32>, pc: int) -> (u8, u32, u32, u32) {
    let op = op_at(code, pc);
    let n = spec_arity(op) as int;
    (op, if n > 0 { code[pc + 1] } else { 0u32 }, if n > 1 { code[pc + 2] } else { 0u32 }, (pc + 1 + n) as u32)
}

/// One instruction of a run that goes on: configuration `a` (task, pool,
/// body, frame budget) becomes `b`. One unit of budget is spent; an
/// instruction that stays inside the task is `step_spec`, a world-touching
/// one is `effect_step` and continues.
pub open spec fn exec_step(
    a: (Task, TaskPool, WorldBody, u32),
    b: (Task, TaskPool, WorldBody, u32),
    code: Seq<u32>,
    subs: Seq<RuntimeSubMeta>,
    tables: WorldTables,
    self_index: u16,
    frame: u32,
) -> bool {
    &&& a.3 > 0
    &&& b.3 == a.3 - 1
    &&& match step_spec(vm_state(a.0), code, subs) {
        Step::Next(s2) => vm_state(b.0) == s2 && same_identity(a.0, b.0) && b.1 == a.1 && b.2 == a.2,
        Step::Stop(_, _) => false,
        Step::Effect => {
            let e = effect_args(code, a.0.pc as int);
            effect_step(a.0, b.0, a.1, b.1, a.2, b.2, e.0, e.1, e.2, e.3, StepOut::Continue, subs, tables, self_index, frame)
        },
    }
}

/// The last instruction of a run from configuration `a` after `count`
/// instructions, ending in `z` with result `r`: the task's own budget or the
/// frame budget is spent (nothing changes), or the instruction stops inside
/// the task (`step_spec`), or a world-touching instruction ends it.
pub open spec fn exec_end(
    a: (Task, TaskPool, WorldBody, u32),
    z: (Task, TaskPool, WorldBody, u32),
    r: Exec,
    count: int,
    code: Seq<u32>,
    subs: Seq<RuntimeSubMeta>,
    tables: WorldTables,
    self_index: u16,
    frame: u32,
) -> bool {
    if count >= TASK_BUDGET || a.3 == 0 {
        r == Exec::Fault(FAULT_BUDGET) && z == a
    } else {
        &&& z.3 == a.3 - 1
        &&& match step_spec(vm_state(a.0), code, subs) {
            Step::Next(_) => false,
            Step::Stop(e, s2) => r == e && vm_state(z.0) == s2 && same_identity(a.0, z.0) && z.1 == a.1
                && z.2 == a.2,
            Step::Effect => {
                let e = effect_args(code, a.0.pc as int);
                effect_step(a.0, z.0, a.1, z.1, a.2, z.2, e.0, e.1, e.2, e.3, StepOut::Done(r), subs, tables, self_index, frame)
            },
        }
    }
}

/// Step `k` of the run recorded in `trace`.
pub open spec fn run_step_at(
    trace: Seq<(Task, TaskPool, WorldBody, u32)>,
    k: int,
    code: Seq<u32>,
    subs: Seq<RuntimeSubMeta>,
    tables: WorldTables,
    self_index: u16,
    frame: u32,
) -> bool {
    exec_step(trace[k], trace[k + 1], code, subs, tables, self_index, frame)
}

/// `trace` is a whole run from configuration `c0` to `c1` with result `r`:
/// at most `TASK_BUDGET` instructions that go on, then the one that ends
/// the run.
pub open spec fn is_run(
    trace: Seq<(Task, TaskPool, WorldBody, u32)>,
    c0: (Task, TaskPool, WorldBody, u32),
    c1: (Task, TaskPool, WorldBody, u32),
    r: Exec,
    code: Seq<u32>,
    subs: Seq<RuntimeSubMeta>,
    tables: WorldTables,
    self_index: u16,
    frame: u32,
) -> bool {
    &&& 1 <= trace.len() <= TASK_BUDGET + 1
    &&& trace[0] == c0
    &&& forall|k: int| 0 <= k < trace.len() - 1 ==> #[trigger] run_step_at(trace, k, code, subs, tables, self_index, frame)
    &&& exec_end(trace[trace.len() - 1], c1, r, trace.len() - 1, code, subs, tables, self_index, frame)
}

/// The instruction a run decodes at configuration `c` is neither `SYS` nor
/// `SPAWN`.
pub open spec fn decodes_no_body_op(c: (Task, TaskPool, WorldBody, u32), code: Seq<u32>) -> bool {
    op_at(code, c.0.pc as int) != OP_SYS && op_at(code, c.0.pc as int) != OP_SPAWN
}

/// A run in which no instruction the interpreter actually decodes is `SYS`
/// or `SPAWN` leaves the world body as it was: the other instructions reach
/// at most the trigonometry and the task pool, whatever words lie
/// elsewhere in the code.
pub proof fn law_run_without_sys_or_spawn_keeps_body(
    trace: Seq<(Task, TaskPool, WorldBody, u32)>,
    c0: (Task, TaskPool, WorldBody, u32),
    c1: (Task, TaskPool, WorldBody, u32),
    r: Exec,
    code: Seq<u32>,
    subs: Seq<RuntimeSubMeta>,
    tables: WorldTables,
    self_index: u16,
    frame: u32,
)
    requires
        is_run(trace, c0, c1, r, code, subs, tables, self_index, frame),
        forall|k: int| 0 <= k < trace.len() ==> #[trigger] decodes_no_body_op(trace[k], code),
    ensures
        c1.2 == c0.2,
{
    lemma_prefix_keeps_body(trace, code, subs, tables, self_index, frame, trace.len() - 1);
    let a = trace[trace.len() - 1];
    assert(decodes_no_body_op(a, code));
}

proof fn lemma_prefix_keeps_body(
    trace: Seq<(Task, TaskPool, WorldBody, u32)>,
    code: Seq<u32>,
    subs: Seq<RuntimeSubMeta>,
    tables: WorldTables,
    self_index: u16,
    frame: u32,
    n: int,
)
    requires
        0 <= n < trace.len(),
        forall|k: int| 0 <= k < trace.len() - 1 ==> #[trigger] run_step_at(trace, k, code, subs, tables, self_index, frame),
        forall|k: int| 0 <= k < trace.len() ==> #[trigger] decodes_no_body_op(trace[k], code),
    ensures
        trace[n].2 == trace[0].2,
    decreases n,
{
    if n > 0 {
        lemma_prefix_keeps_body(trace, code, subs, tables, self_index, frame, n - 1);
        assert(run_step_at(trace, n - 1, code, subs, tables, self_index, frame));
        assert(decodes_no_body_op(trace[n - 1], code));
    }
}

/// Interprets `task` from its `pc` until it yields (`WAIT`), finishes
/// (`END`/`KILL_SELF`) or faults. `code` is the code being run (normally
/// the image's), `budget` the frame's shared budget (one unit per fetched
/// instruction), `self_index` the task's pool slot and `frame` the current
/// frame (both stamped on children). The task's own per-run budget is
/// `TASK_BUDGET` instructions; instruction `TASK_BUDGET + 1` (or any
/// instruction fetched with `*budget == 0`) faults with `FAULT_BUDGET`.
///
/// For every run that stops without a world call the result, the final
/// interpreter state and the budget left are those of `run_spec`, and
/// nothing else changes.
pub fn exec<P: Simulation>(
    task: &mut Task,
    code: &[u32],
    budget: &mut u32,
    tasks: &mut TaskPool,
    ecl: &EclImage,
    tables: &WorldTables,
    body: &mut WorldBody,
    sim: &mut Recorder<P>,
    self_index: u16,
    frame: u32,
) -> (r: Exec)
    requires
        task_wf(*old(task)),
        self_index < TASK_CAP,
    ensures
        old(sim).calls().is_prefix_of(final(sim).calls()),
        old(sim).reads().is_prefix_of(final(sim).reads()),
        task_wf(*final(task)),
        same_identity(*old(task), *final(task)),
        *final(budget) <= *old(budget),
        *old(budget) - *final(budget) <= TASK_BUDGET,
        final(body).frame == old(body).frame,
        run_spec(vm_state(*old(task)), code@, ecl.spec_subs(), 0, *old(budget) as nat) matches Some(
            res,
        ) ==> {
            &&& r == res.0
            &&& vm_state(*final(task)) == res.1
            &&& *final(budget) == res.2
            &&& *final(tasks) == *old(tasks)
            &&& *final(body) == *old(body)
            &&& *final(sim) == *old(sim)
        },
        r matches Exec::Fault(c) ==> c != FAULT_UNIMPLEMENTED && c <= FAULT_CALL_DEPTH,
        no_body_ops(code@) ==> *final(body) == *old(body),
        exists|trace: Seq<(Task, TaskPool, WorldBody, u32)>| #[trigger] is_run(trace,
            (*old(task), *old(tasks), *old(body), *old(budget)),
            (*final(task), *final(tasks), *final(body), *final(budget)), r, code@, ecl.spec_subs(), *tables, self_index, frame)
            && ((forall|k: int| 0 <= k < trace.len() ==> #[trigger] decodes_no_body_op(trace[k], code@))
                ==> final(sim).calls() == old(sim).calls()),
{
    let mut count: u32 = 0;
    let ghost mut pure = true;
    let ghost c0 = (*task, *tasks, *body, *budget);
    let ghost mut trace: Seq<(Task, TaskPool, WorldBody, u32)> = seq![c0];
    loop
        invariant
            count <= TASK_BUDGET,
            task_wf(*task),
            self_index < TASK_CAP,
            same_identity(*old(task), *task),
            *budget <= *old(budget),
            *old(budget) - *budget == count,
            body.frame == old(body).frame,
            pure ==> run_spec(vm_state(*old(task)), code@, ecl.spec_subs(), 0, *old(budget) as nat)
                == run_spec(vm_state(*task), code@, ecl.spec_subs(), count as nat, *budget as nat),
            pure ==> *tasks == *old(tasks) && *body == *old(body) && *sim == *old(sim),
            !pure ==> run_spec(vm_state(*old(task)), code@, ecl.spec_subs(), 0, *old(budget) as nat) is None,
            no_body_ops(code@) ==> *body == *old(body),
            old(sim).calls().is_prefix_of(sim.calls()),
            old(sim).reads().is_prefix_of(sim.reads()),
            trace.len() == count + 1,
            trace[0] == c0,
            c0 == (*old(task), *old(tasks), *old(body), *old(budget)),
            trace[count as int] == (*task, *tasks, *body, *budget),
            forall|k: int| 0 <= k < count ==> #[trigger] run_step_at(trace, k, code@, ecl.spec_subs(), *tables, self_index, frame),
            (forall|k: int| 0 <= k < count ==> #[trigger] decodes_no_body_op(trace[k], code@))
                ==> sim.calls() == old(sim).calls(),
        decreases TASK_BUDGET - count,
    {
        let ghost a = (*task, *tasks, *body, *budget);
        if count >= TASK_BUDGET || *budget == 0 {
            proof {
                assert(is_run(trace, c0, a, Exec::Fault(FAULT_BUDGET), code@, ecl.spec_subs(), *tables, self_index, frame));
            }
            return Exec::Fault(FAULT_BUDGET);
        }
        count = count + 1;
        *budget = *budget - 1;
        let ghost calls_before = sim.calls();
        match exec_pure_step(task, code, ecl) {
            StepOut::Continue => {},
            StepOut::Done(e) => {
                proof {
                    assert(is_run(trace, c0, (*task, *tasks, *body, *budget), e, code@, ecl.spec_subs(), *tables, self_index, frame));
                }
                return e;
            },
            StepOut::Effect { op, opnd, opnd2, next } => {
                proof {
                    pure = false;
                }
                match effect_exec(task, op, opnd, opnd2, next, tasks, ecl, tables, body, sim, self_index, frame) {
                    StepOut::Done(e) => {
                        proof {
                            if forall|k: int| 0 <= k < trace.len() ==> #[trigger] decodes_no_body_op(trace[k], code@) {
                                assert(decodes_no_body_op(trace[count - 1], code@));
                            }
                            assert(is_run(trace, c0, (*task, *tasks, *body, *budget), e, code@, ecl.spec_subs(), *tables, self_index, frame));
                        }
                        return e;
                    },
                    _ => {},
                }
                proof {
                    assert(trace[count - 1].0.pc == a.0.pc);
                    assert(decodes_no_body_op(trace[count - 1], code@) ==> sim.calls() == calls_before);
                }
            },
        }
        proof {
            let next_trace = trace.push((*task, *tasks, *body, *budget));
            assert(decodes_no_body_op(trace[count - 1], code@) ==> sim.calls() == calls_before);
            if forall|k: int| 0 <= k < count ==> #[trigger] decodes_no_body_op(next_trace[k], code@) {
                assert(decodes_no_body_op(next_trace[count - 1], code@));
                assert forall|k: int| 0 <= k < count - 1 implies #[trigger] decodes_no_body_op(trace[k], code@) by {
                    assert(decodes_no_body_op(next_trace[k], code@));
                }
                assert(calls_before == old(sim).calls());
            }
            assert(run_step_at(next_trace, count - 1, code@, ecl.spec_subs(), *tables, self_index, frame));
            assert forall|k: int| 0 <= k < count implies #[trigger] run_step_at(next_trace, k, code@, ecl.spec_subs(), *tables, self_index, frame) by {
                if k < count - 1 {
                    assert(run_step_at(trace, k, code@, ecl.spec_subs(), *tables, self_index, frame));
                    assert(next_trace[k] == trace[k] && next_trace[k + 1] == trace[k + 1]);
                }
            }
            trace = next_trace;
        }
    }
}

/// What the scheduler does with a live task before letting it run.
#[derive(Clone, Copy, Debug, PartialEq, Eq, Structural)]
pub enum Gate {
    /// Its owner or its spell card is gone: killed quietly (no fault).
    Kill,
    /// Born this frame, or the frame's budget is spent: left as it is.
    Skip,
    /// Still waiting: one frame of the wait is used up.
    Sleep,
    /// It runs.
    Run,
}

/// The scheduling gates, in order: owner alive (stage tasks always pass),
/// bound spell slot still the one bound to, not born this frame, not still
/// waiting (a task that yielded with `wait == n` runs again `n` frames
/// later, so it sleeps while more than one frame is left), frame budget
/// left.
pub open spec fn gate_spec(t: Task, frame: u32, owner_alive: bool, spell_live: bool, budget: u32) -> Gate {
    if t.owner_kind != OWNER_STAGE && !owner_alive {
        Gate::Kill
    } else if t.spell_bound != 0 && !spell_live {
        Gate::Kill
    } else if t.born_frame == frame {
        Gate::Skip
    } else if t.wait > 1 {
        Gate::Sleep
    } else if budget == 0 {
        Gate::Skip
    } else {
        Gate::Run
    }
}

/// Applies the scheduling gates to task `t`.
pub fn gate(t: &Task, frame: u32, owner_alive: bool, spell_live: bool, budget: u32) -> (r: Gate)
    ensures
        r == gate_spec(*t, frame, owner_alive, spell_live, budget),
{
    if t.owner_kind != OWNER_STAGE && !owner_alive {
        Gate::Kill
    } else if t.spell_bound != 0 && !spell_live {
        Gate::Kill
    } else if t.born_frame == frame {
        Gate::Skip
    } else if t.wait > 1 {
        Gate::Sleep
    } else if budget == 0 {
        Gate::Skip
    } else {
        Gate::Run
    }
}

/// What happened to one pool slot in a scheduling pass.
#[derive(Clone, Copy, Debug, PartialEq, Eq, Structural)]
pub enum SlotOutcome {
    Killed,
    Skipped,
    Slept,
    Yielded,
    Ended,
    Faulted(u8),
}

/// The outcome recorded for a run that ended with `e`.
pub open spec fn outcome_of(e: Exec) -> SlotOutcome {
    match e {
        Exec::Yield => SlotOutcome::Yielded,
        Exec::End => SlotOutcome::Ended,
        Exec::Fault(c) => SlotOutcome::Faulted(c),
    }
}

/// `task_faults` after `n` more faults.
pub open spec fn faults_plus(body: WorldBody, n: u32) -> u32 {
    vstd::wrapping::u32_specs::wrapping_add(body.diag.task_faults, n)
}

/// Slot `i` of `t0` scheduled once, given whether its owner is alive and
/// whether its spell binding holds, with `g0` budget left: the pool, the
/// body and the budget become `t1`, `b1` and `g1`, and the outcome is `r`.
pub open spec fn slot_run(
    t0: TaskPool,
    t1: TaskPool,
    b0: WorldBody,
    b1: WorldBody,
    g0: u32,
    g1: u32,
    i: int,
    owner_alive: bool,
    spell_live: bool,
    ecl: EclImage,
    frame: u32,
    r: SlotOutcome,
) -> bool {
    &&& b1.frame == b0.frame
    &&& {
        let t = t0.spec_slot(i as int);
        match gate_spec(t, frame, owner_alive, spell_live, g0) {
            Gate::Kill => {
                &&& r == SlotOutcome::Killed
                &&& TaskPool::after_kill(t0, t1, i as int)
                &&& b1 == b0
                &&& g1 == g0
            },
            Gate::Skip => {
                &&& r == SlotOutcome::Skipped
                &&& t1 == t0
                &&& b1 == b0
                &&& g1 == g0
            },
            Gate::Sleep => {
                &&& r == SlotOutcome::Slept
                &&& forall|j: int| #[trigger] t1.spec_alive(j) == t0.spec_alive(j)
                &&& t1.spec_slot(i as int) == (Task { wait: (t.wait - 1) as u16, ..t })
                &&& forall|j: int| 0 <= j < TASK_CAP && j != i ==> #[trigger] t1.spec_slot(j)
                    == t0.spec_slot(j)
                &&& b1 == b0
                &&& g1 == g0
            },
            Gate::Run => {
                &&& g1 <= g0
                &&& g0 - g1 <= TASK_BUDGET
                &&& t.script@ >= ecl.spec_subs().len() ==> {
                    &&& r == SlotOutcome::Faulted(FAULT_BAD_OP)
                    &&& TaskPool::after_kill(t0, t1, i as int)
                    &&& b1.diag.task_faults == faults_plus(b0, 1)
                    &&& g1 == g0
                }
                &&& t.script@ < ecl.spec_subs().len() ==> (run_spec(vm_state(Task { wait: 0, ..t }), ecl.spec_code(), ecl.spec_subs(), 0, g0 as nat) matches Some(res) ==> {
                    &&& r == outcome_of(res.0)
                    &&& g1 == res.2
                    &&& vm_state(t1.spec_slot(i as int)) == res.1
                    &&& t1.spec_alive(i as int) == (res.0 == Exec::Yield)
                    &&& b1.diag.task_faults == (if res.0 is Fault { faults_plus(b0, 1) } else { b0.diag.task_faults })
                })
            },
        }
    }
}

/// Schedules live slot `i` once: applies the gates (given whether its owner
/// is alive and whether its spell binding still holds), then runs it with
/// its last frame of waiting (if any) used up. A run
/// that yields is written back; one that ends or faults is written back and
/// killed, and a fault counts in `task_faults`. A task whose script is no
/// longer in the image faults with `FAULT_BAD_OP` without running.
pub fn run_slot<P: Simulation>(
    tasks: &mut TaskPool,
    i: usize,
    owner_alive: bool,
    spell_live: bool,
    budget: &mut u32,
    ecl: &EclImage,
    tables: &WorldTables,
    body: &mut WorldBody,
    sim: &mut Recorder<P>,
    frame: u32,
) -> (r: SlotOutcome)
    requires
        i < TASK_CAP,
        old(tasks).spec_alive(i as int),
    ensures
        old(sim).calls().is_prefix_of(final(sim).calls()),
        old(sim).reads().is_prefix_of(final(sim).reads()),
        slot_run(*old(tasks), *final(tasks), *old(body), *final(body), *old(budget), *final(budget), i as int, owner_alive, spell_live, *ecl, frame, r),
        (r is Killed || r is Skipped || r is Slept) ==> *final(sim) == *old(sim),
{
    let t0 = *tasks.task(i);
    match gate(&t0, frame, owner_alive, spell_live, *budget) {
        Gate::Kill => {
            tasks.kill(i);
            SlotOutcome::Killed
        },
        Gate::Skip => SlotOutcome::Skipped,
        Gate::Sleep => {
            let mut t = t0;
            t.wait = t.wait - 1;
            tasks.set_task(i, t);
            SlotOutcome::Slept
        },
        Gate::Run => {
            if ecl.sub_meta(t0.script).is_none() {
                tasks.kill(i);
                body.diag.task_faults = body.diag.task_faults.wrapping_add(1);
                return SlotOutcome::Faulted(FAULT_BAD_OP);
            }
            let mut t = t0;
            t.wait = 0;
            let e = exec(&mut t, ecl.code(), budget, tasks, ecl, tables, body, sim, i as u16, frame);
            let ghost mid = *tasks;
            tasks.set_task(i, t);
            match e {
                Exec::Yield => SlotOutcome::Yielded,
                Exec::End => {
                    tasks.kill(i);
                    SlotOutcome::Ended
                },
                Exec::Fault(c) => {
                    tasks.kill(i);
                    body.diag.task_faults = body.diag.task_faults.wrapping_add(1);
                    SlotOutcome::Faulted(c)
                },
            }
        },
    }
}

/// The `EVT_TASK_FAULT` record of slot `task_index` faulting with `code`
/// while running `script`.
pub fn fault_event(task_index: u16, code: u8, script: SubId) -> (r: Event)
    ensures
        r.kind == EVT_TASK_FAULT,
        r.a_index == task_index,
        r.a_gen == 0,
        r.x == Fx(0) && r.y == Fx(0),
        r.data@ == seq![code as i32, script@ as i32],
{
    let r = Event {
        kind: EVT_TASK_FAULT,
        a_index: task_index,
        a_gen: 0,
        x: Fx(0),
        y: Fx(0),
        data: [code as i32, script.get() as i32],
    };
    assert(r.data@ =~= seq![code as i32, script@ as i32]);
    r
}

/// Whether `t`'s owner is alive when the world answers `answer` for the
/// generation of the owner's slot (`None`: unoccupied): stage tasks always
/// are; an enemy or bullet owner when the slot holds the stamped
/// generation; an unknown owner kind never is.
pub open spec fn owner_alive_given(t: Task, answer: Option<u16>) -> bool {
    if t.owner_kind == OWNER_STAGE {
        true
    } else if t.owner_kind == OWNER_ENEMY || t.owner_kind == OWNER_BULLET {
        answer == Some(t.owner_gen)
    } else {
        false
    }
}

/// Whether `t`'s spell binding holds when the world shows its bound spell
/// slot as `v`: unbound, or a slot in range that is active and still
/// carries the epoch stamped at binding time.
pub open spec fn spell_live_given(t: Task, v: SpellView) -> bool {
    if t.spell_bound == 0 {
        true
    } else if t.spell_bound as int > MAX_BOSSES {
        false
    } else {
        v.active && v.epoch == t.spell_epoch
    }
}

/// The question asked about `t`'s owner, answered `answer`: the
/// generation of the owner's slot for an enemy or bullet owner, nothing
/// for any other owner kind.
pub open spec fn owner_query(t: Task, answer: Option<u16>) -> Seq<WorldRead> {
    if t.owner_kind == OWNER_ENEMY {
        seq![WorldRead::EnemyGeneration(t.owner_index as usize, answer)]
    } else if t.owner_kind == OWNER_BULLET {
        seq![WorldRead::BulletGeneration(t.owner_index as usize, answer)]
    } else {
        Seq::empty()
    }
}

/// The question asked about `t`'s spell binding, answered `v`: the state
/// of the bound spell slot for a binding in range, nothing otherwise.
pub open spec fn spell_query(t: Task, v: SpellView) -> Seq<WorldRead> {
    if 1 <= t.spell_bound <= MAX_BOSSES {
        seq![WorldRead::Spell((t.spell_bound - 1) as usize, v)]
    } else {
        Seq::empty()
    }
}

/// Whether `t`'s owner is still the entity it was born for
/// (`owner_alive_given` of the world's answer for the owner's slot).
fn owner_alive<P: Simulation>(t: &Task, sim: &mut Recorder<P>) -> (r: bool)
    ensures
        final(sim).calls() == old(sim).calls(),
        old(sim).reads().is_prefix_of(final(sim).reads()),
        t.owner_kind == OWNER_STAGE ==> r,
        t.owner_kind != OWNER_STAGE && t.owner_kind != OWNER_ENEMY && t.owner_kind != OWNER_BULLET ==> !r,
        exists|answer: Option<u16>| r == #[trigger] owner_alive_given(*t, answer)
            && final(sim).reads() == old(sim).reads() + owner_query(*t, answer),
{
    let answer = if t.owner_kind == OWNER_ENEMY {
        sim.enemy_generation(t.owner_index as usize)
    } else if t.owner_kind == OWNER_BULLET {
        sim.bullet_generation(t.owner_index as usize)
    } else {
        None
    };
    let r = if t.owner_kind == OWNER_STAGE {
        true
    } else if t.owner_kind == OWNER_ENEMY || t.owner_kind == OWNER_BULLET {
        match answer {
            Some(g) => g == t.owner_gen,
            None => false,
        }
    } else {
        false
    };
    proof {
        assert(r == owner_alive_given(*t, answer));
        assert(sim.reads() =~= old(sim).reads() + owner_query(*t, answer));
    }
    r
}

/// Whether `t`'s spell binding still holds (`spell_live_given` of the
/// world's view of the bound slot).
fn spell_live<P: Simulation>(t: &Task, sim: &mut Recorder<P>) -> (r: bool)
    ensures
        final(sim).calls() == old(sim).calls(),
        old(sim).reads().is_prefix_of(final(sim).reads()),
        t.spell_bound == 0 ==> r,
        t.spell_bound as int > MAX_BOSSES ==> !r,
        exists|v: SpellView| r == #[trigger] spell_live_given(*t, v)
            && final(sim).reads() == old(sim).reads() + spell_query(*t, v),
{
    let none = SpellView { active: false, epoch: 0, boss: Handle { index: 0, generation: 0 } };
    if t.spell_bound == 0 {
        proof {
            assert(spell_live_given(*t, none));
            assert(sim.reads() =~= old(sim).reads() + spell_query(*t, none));
        }
        true
    } else {
        let s = t.spell_bound as usize - 1;
        if s >= MAX_BOSSES {
            proof {
                assert(!spell_live_given(*t, none));
                assert(sim.reads() =~= old(sim).reads() + spell_query(*t, none));
            }
            false
        } else {
            let v = sim.spell(s);
            let r = v.active && v.epoch == t.spell_epoch;
            proof {
                assert(r == spell_live_given(*t, v));
                assert(sim.reads() =~= old(sim).reads() + spell_query(*t, v));
            }
            r
        }
    }
}

/// Step `k` of a scheduling pass recorded in `trace` (pool, body, budget
/// before and after slot `k`): a dead slot changes nothing; a live one is
/// scheduled once as `slot_run` says, with its owner's liveness and its
/// spell binding decided by `owner_alive_given` and `spell_live_given` from
/// the world's answers about that slot's owner and spell card. Those two
/// questions, with these very answers, open the questions the slot's turn
/// asked of the world (`reads`); an empty slot asks nothing.
pub open spec fn pass_step(
    trace: Seq<(TaskPool, WorldBody, u32)>,
    reads: Seq<Seq<WorldRead>>,
    outs: Seq<Option<SlotOutcome>>,
    k: int,
    ecl: EclImage,
    frame: u32,
) -> bool {
    let a = trace[k];
    let b = trace[k + 1];
    if !a.0.spec_alive(k) {
        b == a && outs[k] is None && reads[k].len() == 0
    } else {
        &&& outs[k] is Some
        &&& exists|ans: Option<u16>, v: SpellView|
            (owner_query(a.0.spec_slot(k), ans) + spell_query(a.0.spec_slot(k), v)).is_prefix_of(reads[k])
            && #[trigger] slot_run(a.0, b.0, a.1, b.1, a.2, b.2, k, owner_alive_given(a.0.spec_slot(k), ans),
                spell_live_given(a.0.spec_slot(k), v), ecl, frame, outs[k]->Some_0)
    }
}

/// `trace` is a whole scheduling pass from `(t0, b0)` to `(t1, b1)`: it
/// starts with a fresh `GLOBAL_BUDGET` and takes every slot once, in
/// ascending order.
pub open spec fn is_pass(
    trace: Seq<(TaskPool, WorldBody, u32)>,
    reads: Seq<Seq<WorldRead>>,
    outs: Seq<Option<SlotOutcome>>,
    t0: TaskPool,
    b0: WorldBody,
    t1: TaskPool,
    b1: WorldBody,
    ecl: EclImage,
    frame: u32,
) -> bool {
    &&& trace.len() == TASK_CAP + 1
    &&& outs.len() == TASK_CAP
    &&& reads.len() == TASK_CAP
    &&& trace[0] == (t0, b0, GLOBAL_BUDGET)
    &&& trace[TASK_CAP as int].0 == t1
    &&& trace[TASK_CAP as int].1 == b1
    &&& forall|k: int| 0 <= k < TASK_CAP ==> #[trigger] pass_step(trace, reads, outs, k, ecl, frame)
}

/// `e` is the `EVT_TASK_FAULT` record of slot `i` faulting with `code`
/// while running `script`.
pub open spec fn is_fault_event(e: Event, i: int, code: u8, script: SubId) -> bool {
    &&& e.kind == EVT_TASK_FAULT
    &&& e.a_index == i
    &&& e.a_gen == 0
    &&& e.x == Fx(0)
    &&& e.y == Fx(0)
    &&& e.data@ == seq![code as i32, script@ as i32]
}

/// How many questions open a live slot's turn for task `t` (`owner_query`
/// and `spell_query`).
pub open spec fn opening_len(t: Task) -> int {
    (if t.owner_kind == OWNER_ENEMY || t.owner_kind == OWNER_BULLET { 1int } else { 0int })
        + (if 1 <= t.spell_bound <= MAX_BOSSES { 1int } else { 0int })
}

/// For a task `t` owned by an enemy, the question that follows the opening
/// ones in its slot's turn (`rseg`) asks the owner's main-task record, and
/// the world answers `m`.
pub open spec fn main_seen(rseg: Seq<WorldRead>, t: Task, m: u32) -> bool {
    t.owner_kind == OWNER_ENEMY ==> opening_len(t) < rseg.len()
        && rseg[opening_len(t)] == WorldRead::EnemyMainTask(t.owner_index as usize, m)
}

/// The world calls slot `k` made in a pass (`seg`), given the questions its
/// turn asked (`rseg`), its outcome and the task `t` it held when its turn
/// came: none for an empty slot or one that was killed, skipped or put to
/// sleep; a faulted one's calls end with its fault event. When the task is
/// its enemy owner's main task (the world's answer `m` names slot `k`), an
/// end closes with clearing the record and marking the owner dying, and a
/// fault clears the record just before the fault event.
pub open spec fn slot_calls(seg: Seq<WorldCall>, rseg: Seq<WorldRead>, out: Option<SlotOutcome>, k: int, t: Task) -> bool {
    let n = seg.len();
    let idx = t.owner_index as usize;
    match out {
        None => n == 0,
        Some(o) => match o {
            SlotOutcome::Killed => n == 0,
            SlotOutcome::Skipped => n == 0,
            SlotOutcome::Slept => n == 0,
            SlotOutcome::Faulted(c) => {
                &&& n >= 1
                &&& seg.last() matches WorldCall::PushEvent(e) && is_fault_event(e, k, c, t.script)
                &&& exists|m: u32| #[trigger] main_seen(rseg, t, m) && (t.owner_kind == OWNER_ENEMY && m == k + 1
                    ==> n >= 2 && seg[n - 2] == WorldCall::SetEnemyMainTask(idx, 0))
            },
            SlotOutcome::Ended => exists|m: u32| #[trigger] main_seen(rseg, t, m) && (t.owner_kind == OWNER_ENEMY && m == k + 1
                ==> n >= 2 && seg[n - 2] == WorldCall::SetEnemyMainTask(idx, 0) && seg[n - 1] == WorldCall::MarkEnemyDying(idx)),
            SlotOutcome::Yielded => true,
        },
    }
}

/// The world calls of a whole pass: `c1` is `c0` followed by each slot's
/// calls in slot order, each as `slot_calls` says.
pub open spec fn pass_calls(
    segs: Seq<Seq<WorldCall>>,
    reads: Seq<Seq<WorldRead>>,
    outs: Seq<Option<SlotOutcome>>,
    trace: Seq<(TaskPool, WorldBody, u32)>,
    c0: Seq<WorldCall>,
    c1: Seq<WorldCall>,
) -> bool {
    &&& segs.len() == TASK_CAP
    &&& c1 == c0 + segs.flatten()
    &&& forall|k: int| 0 <= k < TASK_CAP ==> #[trigger] slot_calls(segs[k], reads[k], outs[k], k, trace[k].0.spec_slot(k))
}

/// One scheduling pass over the task pool in ascending slot order with a
/// fresh frame budget of `GLOBAL_BUDGET`. A task whose owner or spell card
/// is gone is killed quietly; a task that faults is killed, counted and
/// reported with an `EVT_TASK_FAULT` event. When the task that ends is its
/// enemy owner's main task, the owner's main-task record is cleared, and on
/// a natural end the owner is marked dying. The pool and the body change
/// exactly as a chain of `run_slot` calls over the slots in ascending order
/// would change them (`is_pass`), and the result lists each slot's outcome
/// (`None` for a slot that was empty when its turn came): every
/// `Faulted(c)` of slot `i` is the `EVT_TASK_FAULT` event `fault_event(i,
/// c, script)` handed to the world, every `Killed` a quiet kill
/// (`pass_calls`). Whether an owner is alive, a spell binding holds and a
/// task is its owner's main task are the world's answers to the questions
/// each slot's turn opens with, recorded in `reads()`.
pub fn run_tasks<P: Simulation>(tasks: &mut TaskPool, body: &mut WorldBody, ecl: &EclImage, tables: &WorldTables, sim: &mut Recorder<P>) -> (r: Vec<Option<SlotOutcome>>)
    ensures
        old(sim).calls().is_prefix_of(final(sim).calls()),
        old(sim).reads().is_prefix_of(final(sim).reads()),
        final(body).frame == old(body).frame,
        exists|trace: Seq<(TaskPool, WorldBody, u32)>, reads: Seq<Seq<WorldRead>>, segs: Seq<Seq<WorldCall>>|
            #[trigger] is_pass(trace, reads, r@, *old(tasks), *old(body), *final(tasks), *final(body), *ecl, old(body).frame)
            && #[trigger] pass_calls(segs, reads, r@, trace, old(sim).calls(), final(sim).calls())
            && final(sim).reads() == old(sim).reads() + reads.flatten(),
{
    let mut outs: Vec<Option<SlotOutcome>> = Vec::new();
    let ghost c_init = sim.calls();
    let ghost mut segs: Seq<Seq<WorldCall>> = Seq::empty();
    let ghost r_init = sim.reads();
    let ghost mut rsegs: Seq<Seq<WorldRead>> = Seq::empty();
    let frame = body.frame;
    let mut budget: u32 = GLOBAL_BUDGET;
    let mut i: usize = 0;
    let ghost t_init = *tasks;
    let ghost b_init = *body;
    let ghost mut trace: Seq<(TaskPool, WorldBody, u32)> = seq![(*tasks, *body, budget)];
    while i < TASK_CAP
        invariant
            i <= TASK_CAP,
            body.frame == frame,
            frame == b_init.frame,
            trace.len() == i + 1,
            trace[0] == (t_init, b_init, GLOBAL_BUDGET),
            trace[i as int] == (*tasks, *body, budget),
            outs@.len() == i,
            forall|k: int| 0 <= k < i ==> #[trigger] pass_step(trace, rsegs, outs@, k, *ecl, frame),
            rsegs.len() == i,
            sim.reads() == r_init + rsegs.flatten(),
            segs.len() == i,
            sim.calls() == c_init + segs.flatten(),
            forall|k: int| 0 <= k < i ==> #[trigger] slot_calls(segs[k], rsegs[k], outs@[k], k, trace[k].0.spec_slot(k)),
        decreases TASK_CAP - i,
    {
        let ghost pre = (*tasks, *body, budget);
        let ghost outs0 = outs@;
        let ghost c_slot = sim.calls();
        let ghost r_slot = sim.reads();
        let ghost rsegs0 = rsegs;
        let ghost mut opening: Seq<WorldRead> = Seq::empty();
        if tasks.is_alive(i) {
            let t = *tasks.task(i);
            let alive = owner_alive(&t, sim);
            let ghost ans = choose|x: Option<u16>| alive == owner_alive_given(t, x)
                && sim.reads() == r_slot + owner_query(t, x);
            let ghost r_mid = sim.reads();
            let live = spell_live(&t, sim);
            let ghost view = choose|x: SpellView| live == spell_live_given(t, x)
                && sim.reads() == r_mid + spell_query(t, x);
            proof {
                opening = owner_query(t, ans) + spell_query(t, view);
                assert(sim.reads() =~= r_slot + opening);
            }
            let ghost r_open = sim.reads();
            let mut is_main = false;
            let ghost mut m: u32 = 0;
            if t.owner_kind == OWNER_ENEMY {
                let mm = sim.enemy_main_task(t.owner_index as usize);
                proof {
                    m = mm;
                }
                is_main = mm == i as u32 + 1;
            }
            let ghost r_main = sim.reads();
            assert(r_open.is_prefix_of(sim.reads()));
            assert(c_slot.is_prefix_of(sim.calls()));
            let ghost r_pre = sim.reads();
            let ghost c_pre = sim.calls();
            let out = run_slot(tasks, i, alive, live, &mut budget, ecl, tables, body, sim, frame);
            let ghost r_post = sim.reads();
            let ghost c_run = sim.calls();
            assert(c_run.len() >= c_slot.len()) by {
                assert(c_pre.is_prefix_of(c_run));
            }
            assert(r_main.is_prefix_of(r_post)) by {
                assert(r_pre.is_prefix_of(r_post));
            }
            assert(r_open.is_prefix_of(r_post)) by {
                assert(r_pre.is_prefix_of(r_post));
                assert(r_open =~= r_post.subrange(0, r_open.len() as int)) by {
                    assert(r_open =~= r_pre.subrange(0, r_open.len() as int));
                    assert(r_pre =~= r_post.subrange(0, r_pre.len() as int));
                }
            }
            match out {
                SlotOutcome::Ended => {
                    if is_main {
                        sim.set_enemy_main_task(t.owner_index as usize, 0);
                        sim.mark_enemy_dying(t.owner_index as usize);
                    }
                },
                SlotOutcome::Faulted(code) => {
                    if is_main {
                        sim.set_enemy_main_task(t.owner_index as usize, 0);
                    }
                    sim.push_event(fault_event(i as u16, code, t.script));
                },
                _ => {},
            }
            outs.push(Some(out));
            proof {
                assert(sim.reads() == r_post);
                assert(r_open.is_prefix_of(sim.reads()));
                let rseg = sim.reads().subrange(r_slot.len() as int, sim.reads().len() as int);
                assert(opening.is_prefix_of(rseg)) by {
                    assert(r_open == r_slot + opening);
                    assert(r_open =~= sim.reads().subrange(0, r_open.len() as int));
                    assert forall|k: int| 0 <= k < opening.len() implies rseg[k] == opening[k] by {
                        assert(rseg[k] == sim.reads()[r_slot.len() + k]);
                        assert(r_open[r_slot.len() + k] == opening[k]);
                    }
                    assert(opening =~= rseg.subrange(0, opening.len() as int));
                }
                let next = trace.push((*tasks, *body, budget));
                let a = next[i as int];
                let b = next[i as int + 1];
                assert(a.0.spec_alive(i as int));
                assert(a.0.spec_slot(i as int) == t);
                assert(alive == owner_alive_given(a.0.spec_slot(i as int), ans));
                assert(live == spell_live_given(a.0.spec_slot(i as int), view));
                assert(outs@[i as int] == Some(out));
                assert(slot_run(a.0, b.0, a.1, b.1, a.2, b.2, i as int, owner_alive_given(a.0.spec_slot(i as int), ans),
                    spell_live_given(a.0.spec_slot(i as int), view), *ecl, frame, outs@[i as int]->Some_0));
                assert(pass_step(next, rsegs0.push(rseg), outs@, i as int, *ecl, frame));
                assert(opening.len() == opening_len(t));
                if t.owner_kind == OWNER_ENEMY {
                    assert(r_main == r_open.push(WorldRead::EnemyMainTask(t.owner_index as usize, m)));
                    assert(r_main =~= sim.reads().subrange(0, r_main.len() as int));
                    assert(rseg[opening_len(t)] == sim.reads()[r_slot.len() + opening_len(t)]);
                    assert(sim.reads()[r_slot.len() + opening_len(t)] == r_main[r_open.len() as int]);
                }
                assert(main_seen(rseg, t, m));
                assert(is_main == (t.owner_kind == OWNER_ENEMY && m == i + 1));
                let seg = sim.calls().subrange(c_slot.len() as int, sim.calls().len() as int);
                assert(slot_calls(seg, rseg, outs@[i as int], i as int, t));
            }
        } else {
            outs.push(None);
        }
        proof {
            let rseg = sim.reads().subrange(r_slot.len() as int, sim.reads().len() as int);
            assert(sim.reads() =~= r_slot + rseg);
            rsegs0.lemma_flatten_push(rseg);
            rsegs = rsegs0.push(rseg);
        }
        proof {
            let seg = sim.calls().subrange(c_slot.len() as int, sim.calls().len() as int);
            assert(sim.calls() =~= c_slot + seg);
            let rseg = sim.reads().subrange(r_slot.len() as int, sim.reads().len() as int);
            assert(rsegs[i as int] == rseg);
            assert(slot_calls(seg, rseg, outs@[i as int], i as int, pre.0.spec_slot(i as int)));
            let segs2 = segs.push(seg);
            segs.lemma_flatten_push(seg);
            assert forall|k: int| 0 <= k < i + 1 implies #[trigger] slot_calls(segs2[k], rsegs[k], outs@[k], k,
                trace.push((*tasks, *body, budget))[k].0.spec_slot(k)) by {
                if k < i {
                    assert(slot_calls(segs[k], rsegs0[k], outs0[k], k, trace[k].0.spec_slot(k)));
                    assert(outs@[k] == outs0[k]);
                    assert(rsegs[k] == rsegs0[k]);
                }
            }
            segs = segs2;
        }
        proof {
            let next = trace.push((*tasks, *body, budget));
            assert(next[i as int] == pre && next[i + 1] == (*tasks, *body, budget));
            if !pre.0.spec_alive(i as int) {
                assert(pass_step(next, rsegs, outs@, i as int, *ecl, frame));
            }
            assert forall|k: int| 0 <= k < i + 1 implies #[trigger] pass_step(next, rsegs, outs@, k, *ecl, frame) by {
                if k < i {
                    assert(pass_step(trace, rsegs0, outs0, k, *ecl, frame));
                    assert(rsegs[k] == rsegs0[k]);
                    assert(next[k] == trace[k] && next[k + 1] == trace[k + 1]);
                    assert(outs@[k] == outs0[k]);
                } else {
                    assert(next[k] == pre && next[k + 1] == (*tasks, *body, budget));
                }
            }
            trace = next;
        }
        i += 1;
    }
    proof {
        assert(is_pass(trace, rsegs, outs@, t_init, b_init, *tasks, *body, *ecl, frame));
        assert(pass_calls(segs, rsegs, outs@, trace, c_init, sim.calls()));
    }
    outs
}

} // verus!
