//! The CHIP-8 interpreter: processor state, instruction decoding, and the
//! single-step transition.
//!
//! [`Processor::step`] fetches one big-endian 16-bit opcode at the program
//! counter, advances the counter by two, and executes exactly one
//! instruction. Its whole effect — on processor state, framebuffer, timers
//! and result — is pinned down by [`step_spec`], one case per instruction.
//!
//! Conditions the reference platform has no way to recover from are
//! reported as [`Fault`] values instead of being allowed to bring the
//! machine down: a return on an empty call stack, an opcode outside the
//! documented set, the unassigned `0NNN` system-call family, and a memory
//! operand that runs past the 4096-byte address space. A register value
//! used as a key number is checked against the 16-key range rather than
//! reinterpreted blindly, and a value of 16 or more never matches any key.

use vstd::prelude::*;

use crate::framebuffer::{draw_applied, draw_collides, Framebuffer};
use crate::input::{key_down, InputReceiver, Key};
use crate::timers::Timers;
use rand::Rng;

verus! {

/// Size of the byte-addressable memory.
pub const MEMORY_SIZE: usize = 4096;
/// First address of the program image.
pub const PROGRAM_START: u16 = 0x200;
/// First address of the built-in font table.
pub const FONT_BASE: u16 = 0x50;

/// The 80-byte font table: sixteen glyphs of five rows each, for the hex
/// digits 0 through F.
pub open spec fn font_seq() -> Seq<u8> {
    seq![
        0xF0u8, 0x90, 0x90, 0x90, 0xF0,
        0x20, 0x60, 0x20, 0x20, 0x70,
        0xF0, 0x10, 0xF0, 0x80, 0xF0,
        0xF0, 0x10, 0xF0, 0x10, 0xF0,
        0x90, 0x90, 0xF0, 0x10, 0x10,
        0xF0, 0x80, 0xF0, 0x10, 0xF0,
        0xF0, 0x80, 0xF0, 0x90, 0xF0,
        0xF0, 0x10, 0x20, 0x40, 0x40,
        0xF0, 0x90, 0xF0, 0x90, 0xF0,
        0xF0, 0x90, 0xF0, 0x10, 0xF0,
        0xF0, 0x90, 0xF0, 0x90, 0x90,
        0xE0, 0x90, 0xE0, 0x90, 0xE0,
        0xF0, 0x80, 0x80, 0x80, 0xF0,
        0xE0, 0x90, 0x90, 0x90, 0xE0,
        0xF0, 0x80, 0xF0, 0x80, 0xF0,
        0xF0, 0x80, 0xF0, 0x80, 0x80,
    ]
}

/// Build the font table as a vector equal to [`font_seq`].
fn font_table() -> (v: Vec<u8>)
    ensures
        v@ == font_seq(),
{
    let mut v: Vec<u8> = Vec::new();
    v.push(0xF0);
    v.push(0x90);
    v.push(0x90);
    v.push(0x90);
    v.push(0xF0);
    v.push(0x20);
    v.push(0x60);
    v.push(0x20);
    v.push(0x20);
    v.push(0x70);
    v.push(0xF0);
    v.push(0x10);
    v.push(0xF0);
    v.push(0x80);
    v.push(0xF0);
    v.push(0xF0);
    v.push(0x10);
    v.push(0xF0);
    v.push(0x10);
    v.push(0xF0);
    v.push(0x90);
    v.push(0x90);
    v.push(0xF0);
    v.push(0x10);
    v.push(0x10);
    v.push(0xF0);
    v.push(0x80);
    v.push(0xF0);
    v.push(0x10);
    v.push(0xF0);
    v.push(0xF0);
    v.push(0x80);
    v.push(0xF0);
    v.push(0x90);
    v.push(0xF0);
    v.push(0xF0);
    v.push(0x10);
    v.push(0x20);
    v.push(0x40);
    v.push(0x40);
    v.push(0xF0);
    v.push(0x90);
    v.push(0xF0);
    v.push(0x90);
    v.push(0xF0);
    v.push(0xF0);
    v.push(0x90);
    v.push(0xF0);
    v.push(0x10);
    v.push(0xF0);
    v.push(0xF0);
    v.push(0x90);
    v.push(0xF0);
    v.push(0x90);
    v.push(0x90);
    v.push(0xE0);
    v.push(0x90);
    v.push(0xE0);
    v.push(0x90);
    v.push(0xE0);
    v.push(0xF0);
    v.push(0x80);
    v.push(0x80);
    v.push(0x80);
    v.push(0xF0);
    v.push(0xE0);
    v.push(0x90);
    v.push(0x90);
    v.push(0x90);
    v.push(0xE0);
    v.push(0xF0);
    v.push(0x80);
    v.push(0xF0);
    v.push(0x80);
    v.push(0xF0);
    v.push(0xF0);
    v.push(0x80);
    v.push(0xF0);
    v.push(0x80);
    v.push(0x80);
    assert(v@ =~= font_seq());
    v
}

/// A condition the machine cannot recover from.
#[derive(Clone, Copy, Debug, PartialEq, Eq, Structural)]
pub enum Fault {
    /// The program counter leaves no room to fetch a two-byte opcode.
    FetchOutOfBounds,
    /// A return was executed with an empty call stack.
    StackUnderflow,
    /// A `0NNN` system call other than clear-screen or return.
    UnimplementedCall,
    /// An opcode outside the documented instruction set.
    UnknownOpcode,
    /// A memory operand runs past the end of the address space.
    MemoryOutOfBounds,
}

/// What the caller must do after a successful step.
#[derive(Clone, Copy, Debug, PartialEq, Eq, Structural)]
pub enum Action {
    /// Keep stepping at the usual cadence.
    Next,
    /// Block until a mapped key is pressed, then hand that key to
    /// [`Processor::store_key`] with the carried register number.
    WaitKey { x: u8 },
}

/// A decoded instruction.
#[derive(Clone, Copy, Debug, PartialEq, Eq, Structural)]
pub enum Instr {
    Cls,
    Ret,
    Sys,
    Jump { nnn: u16 },
    Call { nnn: u16 },
    SkipEqImm { x: u8, nn: u8 },
    SkipNeImm { x: u8, nn: u8 },
    SkipEqReg { x: u8, y: u8 },
    SetImm { x: u8, nn: u8 },
    AddImm { x: u8, nn: u8 },
    Copy { x: u8, y: u8 },
    Or { x: u8, y: u8 },
    And { x: u8, y: u8 },
    Xor { x: u8, y: u8 },
    AddReg { x: u8, y: u8 },
    SubReg { x: u8, y: u8 },
    Shr { x: u8 },
    SubFrom { x: u8, y: u8 },
    Shl { x: u8 },
    SkipNeReg { x: u8, y: u8 },
    SetIndex { nnn: u16 },
    JumpV0 { nnn: u16 },
    Rand { x: u8, nn: u8 },
    Draw { x: u8, y: u8, n: u8 },
    SkipKey { x: u8 },
    SkipNoKey { x: u8 },
    GetDelay { x: u8 },
    WaitKey { x: u8 },
    SetDelay { x: u8 },
    SetSound { x: u8 },
    AddIndex { x: u8 },
    FontIndex { x: u8 },
    StoreBcd { x: u8 },
    StoreRegs { x: u8 },
    LoadRegs { x: u8 },
    Unknown,
}

/// The X nibble of an opcode: bits 8 through 11.
pub open spec fn op_x(op: u16) -> u8 {
    ((op / 0x100) % 0x10) as u8
}

/// The Y nibble of an opcode: bits 4 through 7.
pub open spec fn op_y(op: u16) -> u8 {
    ((op / 0x10) % 0x10) as u8
}

/// The low byte of an opcode.
pub open spec fn op_nn(op: u16) -> u8 {
    (op % 0x100) as u8
}

/// The low twelve bits of an opcode: an address.
pub open spec fn op_nnn(op: u16) -> u16 {
    op % 0x1000
}

/// The low nibble of an opcode.
pub open spec fn op_n(op: u16) -> u8 {
    (op % 0x10) as u8
}

/// Decode one opcode. Every opcode outside the documented set decodes to
/// `Unknown`, and the `0NNN` family beyond 00E0/00EE to `Sys`.
pub open spec fn decode(op: u16) -> Instr {
    let top = op / 0x1000;
    if top == 0x0 {
        if op == 0x00E0 {
            Instr::Cls
        } else if op == 0x00EE {
            Instr::Ret
        } else {
            Instr::Sys
        }
    } else if top == 0x1 {
        Instr::Jump { nnn: op_nnn(op) }
    } else if top == 0x2 {
        Instr::Call { nnn: op_nnn(op) }
    } else if top == 0x3 {
        Instr::SkipEqImm { x: op_x(op), nn: op_nn(op) }
    } else if top == 0x4 {
        Instr::SkipNeImm { x: op_x(op), nn: op_nn(op) }
    } else if top == 0x5 {
        if op % 0x10 == 0 {
            Instr::SkipEqReg { x: op_x(op), y: op_y(op) }
        } else {
            Instr::Unknown
        }
    } else if top == 0x6 {
        Instr::SetImm { x: op_x(op), nn: op_nn(op) }
    } else if top == 0x7 {
        Instr::AddImm { x: op_x(op), nn: op_nn(op) }
    } else if top == 0x8 {
        let low = op % 0x10;
        if low == 0x0 {
            Instr::Copy { x: op_x(op), y: op_y(op) }
        } else if low == 0x1 {
            Instr::Or { x: op_x(op), y: op_y(op) }
        } else if low == 0x2 {
            Instr::And { x: op_x(op), y: op_y(op) }
        } else if low == 0x3 {
            Instr::Xor { x: op_x(op), y: op_y(op) }
        } else if low == 0x4 {
            Instr::AddReg { x: op_x(op), y: op_y(op) }
        } else if low == 0x5 {
            Instr::SubReg { x: op_x(op), y: op_y(op) }
        } else if low == 0x6 {
            Instr::Shr { x: op_x(op) }
        } else if low == 0x7 {
            Instr::SubFrom { x: op_x(op), y: op_y(op) }
        } else if low == 0xE {
            Instr::Shl { x: op_x(op) }
        } else {
            Instr::Unknown
        }
    } else if top == 0x9 {
        if op % 0x10 == 0 {
            Instr::SkipNeReg { x: op_x(op), y: op_y(op) }
        } else {
            Instr::Unknown
        }
    } else if top == 0xA {
        Instr::SetIndex { nnn: op_nnn(op) }
    } else if top == 0xB {
        Instr::JumpV0 { nnn: op_nnn(op) }
    } else if top == 0xC {
        Instr::Rand { x: op_x(op), nn: op_nn(op) }
    } else if top == 0xD {
        Instr::Draw { x: op_x(op), y: op_y(op), n: op_n(op) }
    } else if top == 0xE {
        let low = op % 0x100;
        if low == 0x9E {
            Instr::SkipKey { x: op_x(op) }
        } else if low == 0xA1 {
            Instr::SkipNoKey { x: op_x(op) }
        } else {
            Instr::Unknown
        }
    } else {
        let low = op % 0x100;
        if low == 0x07 {
            Instr::GetDelay { x: op_x(op) }
        } else if low == 0x0A {
            Instr::WaitKey { x: op_x(op) }
        } else if low == 0x15 {
            Instr::SetDelay { x: op_x(op) }
        } else if low == 0x18 {
            Instr::SetSound { x: op_x(op) }
        } else if low == 0x1E {
            Instr::AddIndex { x: op_x(op) }
        } else if low == 0x29 {
            Instr::FontIndex { x: op_x(op) }
        } else if low == 0x33 {
            Instr::StoreBcd { x: op_x(op) }
        } else if low == 0x55 {
            Instr::StoreRegs { x: op_x(op) }
        } else if low == 0x65 {
            Instr::LoadRegs { x: op_x(op) }
        } else {
            Instr::Unknown
        }
    }
}

/// Field bounds every decoded instruction satisfies.
pub open spec fn instr_wf(i: Instr) -> bool {
    match i {
        Instr::Jump { nnn } => nnn < 0x1000,
        Instr::Call { nnn } => nnn < 0x1000,
        Instr::SkipEqImm { x, nn } => x < 16,
        Instr::SkipNeImm { x, nn } => x < 16,
        Instr::SkipEqReg { x, y } => x < 16 && y < 16,
        Instr::SetImm { x, nn } => x < 16,
        Instr::AddImm { x, nn } => x < 16,
        Instr::Copy { x, y } => x < 16 && y < 16,
        Instr::Or { x, y } => x < 16 && y < 16,
        Instr::And { x, y } => x < 16 && y < 16,
        Instr::Xor { x, y } => x < 16 && y < 16,
        Instr::AddReg { x, y } => x < 16 && y < 16,
        Instr::SubReg { x, y } => x < 16 && y < 16,
        Instr::Shr { x } => x < 16,
        Instr::SubFrom { x, y } => x < 16 && y < 16,
        Instr::Shl { x } => x < 16,
        Instr::SkipNeReg { x, y } => x < 16 && y < 16,
        Instr::SetIndex { nnn } => nnn < 0x1000,
        Instr::JumpV0 { nnn } => nnn < 0x1000,
        Instr::Rand { x, nn } => x < 16,
        Instr::Draw { x, y, n } => x < 16 && y < 16 && n < 16,
        Instr::SkipKey { x } => x < 16,
        Instr::SkipNoKey { x } => x < 16,
        Instr::GetDelay { x } => x < 16,
        Instr::WaitKey { x } => x < 16,
        Instr::SetDelay { x } => x < 16,
        Instr::SetSound { x } => x < 16,
        Instr::AddIndex { x } => x < 16,
        Instr::FontIndex { x } => x < 16,
        Instr::StoreBcd { x } => x < 16,
        Instr::StoreRegs { x } => x < 16,
        Instr::LoadRegs { x } => x < 16,
        _ => true,
    }
}

/// Decode one opcode, executable form.
pub fn decode_op(op: u16) -> (i: Instr)
    ensures
        i == decode(op),
        instr_wf(i),
{
    let top = op / 0x1000;
    let x = ((op / 0x100) % 0x10) as u8;
    let y = ((op / 0x10) % 0x10) as u8;
    let nn = (op % 0x100) as u8;
    let nnn = op % 0x1000;
    let n = (op % 0x10) as u8;
    if top == 0x0 {
        if op == 0x00E0 {
            Instr::Cls
        } else if op == 0x00EE {
            Instr::Ret
        } else {
            Instr::Sys
        }
    } else if top == 0x1 {
        Instr::Jump { nnn }
    } else if top == 0x2 {
        Instr::Call { nnn }
    } else if top == 0x3 {
        Instr::SkipEqImm { x, nn }
    } else if top == 0x4 {
        Instr::SkipNeImm { x, nn }
    } else if top == 0x5 {
        if op % 0x10 == 0 {
            Instr::SkipEqReg { x, y }
        } else {
            Instr::Unknown
        }
    } else if top == 0x6 {
        Instr::SetImm { x, nn }
    } else if top == 0x7 {
        Instr::AddImm { x, nn }
    } else if top == 0x8 {
        let low = op % 0x10;
        if low == 0x0 {
            Instr::Copy { x, y }
        } else if low == 0x1 {
            Instr::Or { x, y }
        } else if low == 0x2 {
            Instr::And { x, y }
        } else if low == 0x3 {
            Instr::Xor { x, y }
        } else if low == 0x4 {
            Instr::AddReg { x, y }
        } else if low == 0x5 {
            Instr::SubReg { x, y }
        } else if low == 0x6 {
            Instr::Shr { x }
        } else if low == 0x7 {
            Instr::SubFrom { x, y }
        } else if low == 0xE {
            Instr::Shl { x }
        } else {
            Instr::Unknown
        }
    } else if top == 0x9 {
        if op % 0x10 == 0 {
            Instr::SkipNeReg { x, y }
        } else {
            Instr::Unknown
        }
    } else if top == 0xA {
        Instr::SetIndex { nnn }
    } else if top == 0xB {
        Instr::JumpV0 { nnn }
    } else if top == 0xC {
        Instr::Rand { x, nn }
    } else if top == 0xD {
        Instr::Draw { x, y, n }
    } else if top == 0xE {
        let low = op % 0x100;
        if low == 0x9E {
            Instr::SkipKey { x }
        } else if low == 0xA1 {
            Instr::SkipNoKey { x }
        } else {
            Instr::Unknown
        }
    } else {
        let low = op % 0x100;
        if low == 0x07 {
            Instr::GetDelay { x }
        } else if low == 0x0A {
            Instr::WaitKey { x }
        } else if low == 0x15 {
            Instr::SetDelay { x }
        } else if low == 0x18 {
            Instr::SetSound { x }
        } else if low == 0x1E {
            Instr::AddIndex { x }
        } else if low == 0x29 {
            Instr::FontIndex { x }
        } else if low == 0x33 {
            Instr::StoreBcd { x }
        } else if low == 0x55 {
            Instr::StoreRegs { x }
        } else if low == 0x65 {
            Instr::LoadRegs { x }
        } else {
            Instr::Unknown
        }
    }
}

/// Addition on a register, wrapping at 256.
pub open spec fn wrap_add8(a: u8, b: u8) -> u8 {
    ((a + b) % 256) as u8
}

/// Subtraction on a register, wrapping at 256.
pub open spec fn wrap_sub8(a: u8, b: u8) -> u8 {
    ((a as int - b as int + 256) % 256) as u8
}

/// A left shift by one on a register, the high bit falling off.
pub open spec fn shl8(a: u8) -> u8 {
    ((a * 2) % 256) as u8
}

/// Memory after registers 0 through `x` are copied to `base ..= base + x`.
pub open spec fn regs_dumped(mem0: Seq<u8>, mem1: Seq<u8>, regs: Seq<u8>, base: int, x: int) -> bool {
    &&& mem1.len() == mem0.len()
    &&& forall|k: int|
        0 <= k < mem0.len() ==> mem1[k] == if base <= k <= base + x {
            regs[k - base]
        } else {
            mem0[k]
        }
}

/// Registers after 0 through `x` are loaded from `base ..= base + x`.
pub open spec fn regs_loaded(r0: Seq<u8>, r1: Seq<u8>, mem: Seq<u8>, base: int, x: int) -> bool {
    &&& r1.len() == r0.len()
    &&& forall|k: int|
        0 <= k < 16 ==> r1[k] == if k <= x {
            mem[base + k]
        } else {
            r0[k]
        }
}

/// The CHIP-8 processor state. The interpreter owns it exclusively; the
/// framebuffer, timers and key state are handed to [`Processor::step`] by
/// the caller, which guards their sharing.
pub struct Processor {
    pub memory: Vec<u8>,
    pub program_counter: u16,
    pub registers: Vec<u8>,
    pub index_register: u16,
    pub stack: Vec<u16>,
}

/// The opcode a fetch at the current program counter reads: the two bytes
/// at the counter, big-endian.
pub open spec fn opcode_at(s: Processor) -> u16 {
    ((s.memory@[s.program_counter as int] as int) * 256 + (
    s.memory@[s.program_counter as int + 1] as int)) as u16
}

/// Everything but the program counter is unchanged.
pub open spec fn ctrl(pre: Processor, post: Processor, pc: int) -> bool {
    &&& post.memory@ == pre.memory@
    &&& post.registers@ == pre.registers@
    &&& post.stack@ == pre.stack@
    &&& post.index_register == pre.index_register
    &&& post.program_counter as int == pc
}

/// The program counter and the register file change; the rest stays.
pub open spec fn with_regs(pre: Processor, post: Processor, pc: int, regs: Seq<u8>) -> bool {
    &&& post.memory@ == pre.memory@
    &&& post.registers@ == regs
    &&& post.stack@ == pre.stack@
    &&& post.index_register == pre.index_register
    &&& post.program_counter as int == pc
}

/// The program counter and the index register change; the rest stays.
pub open spec fn with_index(pre: Processor, post: Processor, pc: int, idx: int) -> bool {
    &&& post.memory@ == pre.memory@
    &&& post.registers@ == pre.registers@
    &&& post.stack@ == pre.stack@
    &&& post.index_register as int == idx
    &&& post.program_counter as int == pc
}

/// The framebuffer bytes and the timers are untouched.
pub open spec fn peripherals_same(fb0: Seq<u8>, fb1: Seq<u8>, t0: Timers, t1: Timers) -> bool {
    fb1 == fb0 && t1 == t0
}

/// The whole effect of one step: given the processor before (`pre`) and
/// after (`post`), the framebuffer bytes before and after, the timers
/// before and after, the key state, and the step's result, this holds iff
/// the step behaved as the fetched instruction demands.
pub open spec fn step_spec(
    pre: Processor,
    post: Processor,
    fb0: Seq<u8>,
    fb1: Seq<u8>,
    t0: Timers,
    t1: Timers,
    keys: InputReceiver,
    r: Result<Action, Fault>,
) -> bool {
    let pc = pre.program_counter as int;
    if pc + 2 > 4096 {
        &&& r == Err::<Action, Fault>(Fault::FetchOutOfBounds)
        &&& ctrl(pre, post, pc)
        &&& peripherals_same(fb0, fb1, t0, t1)
    } else {
        let op = opcode_at(pre);
        let pc2 = pc + 2;
        let regs = pre.registers@;
        let mem = pre.memory@;
        let idx = pre.index_register as int;
        match decode(op) {
            Instr::Cls => {
                &&& r == Ok::<Action, Fault>(Action::Next)
                &&& ctrl(pre, post, pc2)
                &&& fb1.len() == 256
                &&& forall|i: int| 0 <= i < 256 ==> fb1[i] == 0
                &&& t1 == t0
            },
            Instr::Ret => {
                if pre.stack@.len() == 0 {
                    &&& r == Err::<Action, Fault>(Fault::StackUnderflow)
                    &&& ctrl(pre, post, pc2)
                    &&& peripherals_same(fb0, fb1, t0, t1)
                } else {
                    &&& r == Ok::<Action, Fault>(Action::Next)
                    &&& post.memory@ == mem
                    &&& post.registers@ == regs
                    &&& post.index_register as int == idx
                    &&& post.stack@ == pre.stack@.subrange(0, pre.stack@.len() - 1)
                    &&& post.program_counter == pre.stack@[pre.stack@.len() - 1]
                    &&& peripherals_same(fb0, fb1, t0, t1)
                }
            },
            Instr::Sys => {
                &&& r == Err::<Action, Fault>(Fault::UnimplementedCall)
                &&& ctrl(pre, post, pc2)
                &&& peripherals_same(fb0, fb1, t0, t1)
            },
            Instr::Jump { nnn } => {
                &&& r == Ok::<Action, Fault>(Action::Next)
                &&& ctrl(pre, post, nnn as int)
                &&& peripherals_same(fb0, fb1, t0, t1)
            },
            Instr::Call { nnn } => {
                &&& r == Ok::<Action, Fault>(Action::Next)
                &&& post.memory@ == mem
                &&& post.registers@ == regs
                &&& post.index_register as int == idx
                &&& post.stack@ == pre.stack@.push(pc2 as u16)
                &&& post.program_counter == nnn
                &&& peripherals_same(fb0, fb1, t0, t1)
            },
            Instr::SkipEqImm { x, nn } => {
                &&& r == Ok::<Action, Fault>(Action::Next)
                &&& ctrl(pre, post, if regs[x as int] == nn { pc2 + 2 } else { pc2 })
                &&& peripherals_same(fb0, fb1, t0, t1)
            },
            Instr::SkipNeImm { x, nn } => {
                &&& r == Ok::<Action, Fault>(Action::Next)
                &&& ctrl(pre, post, if regs[x as int] != nn { pc2 + 2 } else { pc2 })
                &&& peripherals_same(fb0, fb1, t0, t1)
            },
            Instr::SkipEqReg { x, y } => {
                &&& r == Ok::<Action, Fault>(Action::Next)
                &&& ctrl(pre, post, if regs[x as int] == regs[y as int] { pc2 + 2 } else { pc2 })
                &&& peripherals_same(fb0, fb1, t0, t1)
            },
            Instr::SetImm { x, nn } => {
                &&& r == Ok::<Action, Fault>(Action::Next)
                &&& with_regs(pre, post, pc2, regs.update(x as int, nn))
                &&& peripherals_same(fb0, fb1, t0, t1)
            },
            Instr::AddImm { x, nn } => {
                &&& r == Ok::<Action, Fault>(Action::Next)
                &&& with_regs(pre, post, pc2, regs.update(x as int, wrap_add8(regs[x as int], nn)))
                &&& peripherals_same(fb0, fb1, t0, t1)
            },
            Instr::Copy { x, y } => {
                &&& r == Ok::<Action, Fault>(Action::Next)
                &&& with_regs(pre, post, pc2, regs.update(x as int, regs[y as int]))
                &&& peripherals_same(fb0, fb1, t0, t1)
            },
            Instr::Or { x, y } => {
                &&& r == Ok::<Action, Fault>(Action::Next)
                &&& with_regs(pre, post, pc2, regs.update(x as int, regs[x as int] | regs[y as int]))
                &&& peripherals_same(fb0, fb1, t0, t1)
            },
            Instr::And { x, y } => {
                &&& r == Ok::<Action, Fault>(Action::Next)
                &&& with_regs(pre, post, pc2, regs.update(x as int, regs[x as int] & regs[y as int]))
                &&& peripherals_same(fb0, fb1, t0, t1)
            },
            Instr::Xor { x, y } => {
                &&& r == Ok::<Action, Fault>(Action::Next)
                &&& with_regs(pre, post, pc2, regs.update(x as int, regs[x as int] ^ regs[y as int]))
                &&& peripherals_same(fb0, fb1, t0, t1)
            },
            Instr::AddReg { x, y } => {
                // The carry flag is computed from the values before the
                // instruction, written to VF, and only then is the sum
                // formed from the register file as it then stands.
                let carry: u8 = if regs[x as int] + regs[y as int] > 255 { 1 } else { 0 };
                let mid = regs.update(15, carry);
                &&& r == Ok::<Action, Fault>(Action::Next)
                &&& with_regs(pre, post, pc2, mid.update(x as int, wrap_add8(mid[x as int], mid[y as int])))
                &&& peripherals_same(fb0, fb1, t0, t1)
            },
            Instr::SubReg { x, y } => {
                let no_borrow: u8 = if regs[x as int] >= regs[y as int] { 1 } else { 0 };
                let mid = regs.update(15, no_borrow);
                &&& r == Ok::<Action, Fault>(Action::Next)
                &&& with_regs(pre, post, pc2, mid.update(x as int, wrap_sub8(mid[x as int], mid[y as int])))
                &&& peripherals_same(fb0, fb1, t0, t1)
            },
            Instr::Shr { x } => {
                let low_bit: u8 = (regs[x as int] % 2) as u8;
                let mid = regs.update(15, low_bit);
                &&& r == Ok::<Action, Fault>(Action::Next)
                &&& with_regs(pre, post, pc2, mid.update(x as int, (mid[x as int] / 2) as u8))
                &&& peripherals_same(fb0, fb1, t0, t1)
            },
            Instr::SubFrom { x, y } => {
                let no_borrow: u8 = if regs[y as int] >= regs[x as int] { 1 } else { 0 };
                let mid = regs.update(15, no_borrow);
                &&& r == Ok::<Action, Fault>(Action::Next)
                &&& with_regs(pre, post, pc2, mid.update(x as int, wrap_sub8(mid[y as int], mid[x as int])))
                &&& peripherals_same(fb0, fb1, t0, t1)
            },
            Instr::Shl { x } => {
                // The flag is the pre-shift high bit, normalized to 0 or 1.
                let high_bit: u8 = if regs[x as int] >= 128 { 1 } else { 0 };
                let mid = regs.update(15, high_bit);
                &&& r == Ok::<Action, Fault>(Action::Next)
                &&& with_regs(pre, post, pc2, mid.update(x as int, shl8(mid[x as int])))
                &&& peripherals_same(fb0, fb1, t0, t1)
            },
            Instr::SkipNeReg { x, y } => {
                &&& r == Ok::<Action, Fault>(Action::Next)
                &&& ctrl(pre, post, if regs[x as int] != regs[y as int] { pc2 + 2 } else { pc2 })
                &&& peripherals_same(fb0, fb1, t0, t1)
            },
            Instr::SetIndex { nnn } => {
                &&& r == Ok::<Action, Fault>(Action::Next)
                &&& with_index(pre, post, pc2, nnn as int)
                &&& peripherals_same(fb0, fb1, t0, t1)
            },
            Instr::JumpV0 { nnn } => {
                &&& r == Ok::<Action, Fault>(Action::Next)
                &&& ctrl(pre, post, regs[0] + nnn)
                &&& peripherals_same(fb0, fb1, t0, t1)
            },
            Instr::Rand { x, nn } => {
                &&& r == Ok::<Action, Fault>(Action::Next)
                &&& (exists|b: u8| post.registers@ == regs.update(x as int, b & nn))
                &&& post.memory@ == mem
                &&& post.stack@ == pre.stack@
                &&& post.index_register as int == idx
                &&& post.program_counter as int == pc2
                &&& peripherals_same(fb0, fb1, t0, t1)
            },
            Instr::Draw { x, y, n } => {
                if idx + n > 4096 {
                    &&& r == Err::<Action, Fault>(Fault::MemoryOutOfBounds)
                    &&& ctrl(pre, post, pc2)
                    &&& peripherals_same(fb0, fb1, t0, t1)
                } else {
                    let spr = mem.subrange(idx, idx + n);
                    let px = (regs[x as int] as int) % 64;
                    let py = (regs[y as int] as int) % 32;
                    let coll = draw_collides(fb0, px, py, spr);
                    &&& r == Ok::<Action, Fault>(Action::Next)
                    &&& draw_applied(fb0, fb1, px, py, spr)
                    &&& with_regs(pre, post, pc2, regs.update(15, if coll { 1u8 } else { 0u8 }))
                    &&& t1 == t0
                }
            },
            Instr::SkipKey { x } => {
                &&& r == Ok::<Action, Fault>(Action::Next)
                &&& ctrl(pre, post, if key_down(keys.key_states, regs[x as int]) { pc2 + 2 } else { pc2 })
                &&& peripherals_same(fb0, fb1, t0, t1)
            },
            Instr::SkipNoKey { x } => {
                &&& r == Ok::<Action, Fault>(Action::Next)
                &&& ctrl(pre, post, if !key_down(keys.key_states, regs[x as int]) { pc2 + 2 } else { pc2 })
                &&& peripherals_same(fb0, fb1, t0, t1)
            },
            Instr::GetDelay { x } => {
                &&& r == Ok::<Action, Fault>(Action::Next)
                &&& with_regs(pre, post, pc2, regs.update(x as int, t0.delay))
                &&& peripherals_same(fb0, fb1, t0, t1)
            },
            Instr::WaitKey { x } => {
                &&& r == Ok::<Action, Fault>(Action::WaitKey { x })
                &&& ctrl(pre, post, pc2)
                &&& peripherals_same(fb0, fb1, t0, t1)
            },
            Instr::SetDelay { x } => {
                &&& r == Ok::<Action, Fault>(Action::Next)
                &&& ctrl(pre, post, pc2)
                &&& fb1 == fb0
                &&& t1.delay == regs[x as int]
                &&& t1.sound == t0.sound
            },
            Instr::SetSound { x } => {
                &&& r == Ok::<Action, Fault>(Action::Next)
                &&& ctrl(pre, post, pc2)
                &&& fb1 == fb0
                &&& t1.sound == regs[x as int]
                &&& t1.delay == t0.delay
            },
            Instr::AddIndex { x } => {
                &&& r == Ok::<Action, Fault>(Action::Next)
                &&& with_index(pre, post, pc2, (idx + regs[x as int]) % 0x10000)
                &&& peripherals_same(fb0, fb1, t0, t1)
            },
            Instr::FontIndex { x } => {
                &&& r == Ok::<Action, Fault>(Action::Next)
                &&& with_index(pre, post, pc2, 0x50 + 5 * regs[x as int])
                &&& peripherals_same(fb0, fb1, t0, t1)
            },
            Instr::StoreBcd { x } => {
                if idx + 3 > 4096 {
                    &&& r == Err::<Action, Fault>(Fault::MemoryOutOfBounds)
                    &&& ctrl(pre, post, pc2)
                    &&& peripherals_same(fb0, fb1, t0, t1)
                } else {
                    let v = regs[x as int] as int;
                    &&& r == Ok::<Action, Fault>(Action::Next)
                    &&& post.memory@ == mem.update(idx, (v / 100) as u8).update(
                        idx + 1,
                        ((v / 10) % 10) as u8,
                    ).update(idx + 2, (v % 10) as u8)
                    &&& post.registers@ == regs
                    &&& post.stack@ == pre.stack@
                    &&& post.index_register as int == idx
                    &&& post.program_counter as int == pc2
                    &&& peripherals_same(fb0, fb1, t0, t1)
                }
            },
            Instr::StoreRegs { x } => {
                if idx + x + 1 > 4096 {
                    &&& r == Err::<Action, Fault>(Fault::MemoryOutOfBounds)
                    &&& ctrl(pre, post, pc2)
                    &&& peripherals_same(fb0, fb1, t0, t1)
                } else {
                    &&& r == Ok::<Action, Fault>(Action::Next)
                    &&& regs_dumped(mem, post.memory@, regs, idx, x as int)
                    &&& post.registers@ == regs
                    &&& post.stack@ == pre.stack@
                    &&& post.index_register as int == idx
                    &&& post.program_counter as int == pc2
                    &&& peripherals_same(fb0, fb1, t0, t1)
                }
            },
            Instr::LoadRegs { x } => {
                if idx + x + 1 > 4096 {
                    &&& r == Err::<Action, Fault>(Fault::MemoryOutOfBounds)
                    &&& ctrl(pre, post, pc2)
                    &&& peripherals_same(fb0, fb1, t0, t1)
                } else {
                    &&& r == Ok::<Action, Fault>(Action::Next)
                    &&& regs_loaded(regs, post.registers@, mem, idx, x as int)
                    &&& post.memory@ == mem
                    &&& post.stack@ == pre.stack@
                    &&& post.index_register as int == idx
                    &&& post.program_counter as int == pc2
                    &&& peripherals_same(fb0, fb1, t0, t1)
                }
            },
            Instr::Unknown => {
                &&& r == Err::<Action, Fault>(Fault::UnknownOpcode)
                &&& ctrl(pre, post, pc2)
                &&& peripherals_same(fb0, fb1, t0, t1)
            },
        }
    }
}

/// Relies on rand::Rng::gen_range over rand::thread_rng for the CXNN
/// instruction's entropy. The range is never empty, so the call does not
/// panic; nothing is promised of the byte drawn.
#[verifier::external_body]
fn random_byte() -> u8 {
    rand::thread_rng().gen_range(0..=u8::MAX)
}

impl Processor {
    /// The fixed shapes of the state: 4096 bytes of memory and 16
    /// registers.
    pub open spec fn wf(self) -> bool {
        &&& self.memory@.len() == 4096
        &&& self.registers@.len() == 16
    }

    /// A fresh machine with `program` loaded at [`PROGRAM_START`], the
    /// font table at [`FONT_BASE`], all registers zero, an empty call
    /// stack, and the program counter at the program's first byte.
    pub fn new(program: &[u8]) -> (p: Processor)
        requires
            program@.len() <= 4096 - 0x200,
        ensures
            p.wf(),
            p.program_counter == 0x200,
            p.index_register == 0,
            p.stack@.len() == 0,
            forall|i: int| 0 <= i < 16 ==> p.registers@[i] == 0,
            forall|i: int| 0 <= i < 0x50 ==> p.memory@[i] == 0,
            forall|i: int| 0x50 <= i < 0xA0 ==> p.memory@[i] == font_seq()[i - 0x50],
            forall|i: int| 0xA0 <= i < 0x200 ==> p.memory@[i] == 0,
            forall|i: int|
                0x200 <= i < 0x200 + program@.len() ==> p.memory@[i] == program@[i - 0x200],
            forall|i: int| 0x200 + program@.len() <= i < 4096 ==> p.memory@[i] == 0,
    {
        let mut memory: Vec<u8> = Vec::new();
        let mut k: usize = 0;
        while k < MEMORY_SIZE
            invariant
                k <= 4096,
                memory@.len() == k,
                forall|i: int| 0 <= i < k ==> memory@[i] == 0,
            decreases 4096 - k,
        {
            memory.push(0);
            k = k + 1;
        }
        let font = font_table();
        let mut k: usize = 0;
        while k < 80
            invariant
                k <= 80,
                font@ == font_seq(),
                memory@.len() == 4096,
                forall|i: int| 0 <= i < 0x50 ==> memory@[i] == 0,
                forall|i: int| 0x50 <= i < 0x50 + k ==> memory@[i] == font_seq()[i - 0x50],
                forall|i: int| 0x50 + k <= i < 4096 ==> memory@[i] == 0,
            decreases 80 - k,
        {
            memory.set(0x50 + k, font[k]);
            k = k + 1;
        }
        let mut k: usize = 0;
        while k < program.len()
            invariant
                k <= program@.len(),
                program@.len() <= 4096 - 0x200,
                memory@.len() == 4096,
                forall|i: int| 0 <= i < 0x50 ==> memory@[i] == 0,
                forall|i: int| 0x50 <= i < 0xA0 ==> memory@[i] == font_seq()[i - 0x50],
                forall|i: int| 0xA0 <= i < 0x200 ==> memory@[i] == 0,
                forall|i: int| 0x200 <= i < 0x200 + k ==> memory@[i] == program@[i - 0x200],
                forall|i: int| 0x200 + k <= i < 4096 ==> memory@[i] == 0,
            decreases program@.len() - k,
        {
            memory.set(0x200 + k, program[k]);
            k = k + 1;
        }
        let mut registers: Vec<u8> = Vec::new();
        let mut k: usize = 0;
        while k < 16
            invariant
                k <= 16,
                registers@.len() == k,
                forall|i: int| 0 <= i < k ==> registers@[i] == 0,
            decreases 16 - k,
        {
            registers.push(0);
            k = k + 1;
        }
        Processor {
            memory,
            program_counter: PROGRAM_START,
            registers,
            index_register: 0,
            stack: Vec::new(),
        }
    }

    /// Complete a key wait: store the pressed key's value in register `x`,
    /// as carried by [`Action::WaitKey`].
    pub fn store_key(&mut self, x: u8, key: Key)
        requires
            old(self).wf(),
            x < 16,
        ensures
            final(self).wf(),
            final(self).registers@ == old(self).registers@.update(x as int, key.spec_value()),
            final(self).memory@ == old(self).memory@,
            final(self).stack@ == old(self).stack@,
            final(self).index_register == old(self).index_register,
            final(self).program_counter == old(self).program_counter,
    {
        let v = key.value();
        self.registers.set(x as usize, v);
    }

    /// Fetch, decode and execute one instruction, as [`step_spec`] lays
    /// down case by case.
    pub fn step(&mut self, fb: &mut Framebuffer, timers: &mut Timers, keys: &InputReceiver) -> (r:
        Result<Action, Fault>)
        requires
            old(self).wf(),
            old(fb).wf(),
        ensures
            final(self).wf(),
            final(fb).wf(),
            step_spec(
                *old(self),
                *final(self),
                old(fb).pixels@,
                final(fb).pixels@,
                *old(timers),
                *final(timers),
                *keys,
                r,
            ),
    {
        let pc = self.program_counter as usize;
        if pc + 2 > MEMORY_SIZE {
            return Err(Fault::FetchOutOfBounds);
        }
        let hi = self.memory[pc];
        let lo = self.memory[pc + 1];
        let op: u16 = (hi as u16) * 256 + (lo as u16);
        assert(op == opcode_at(*old(self)));
        self.program_counter = self.program_counter + 2;
        match decode_op(op) {
            Instr::Cls => {
                fb.clear();
                Ok(Action::Next)
            },
            Instr::Ret => {
                match self.stack.pop() {
                    Some(addr) => {
                        self.program_counter = addr;
                        Ok(Action::Next)
                    },
                    None => Err(Fault::StackUnderflow),
                }
            },
            Instr::Sys => Err(Fault::UnimplementedCall),
            Instr::Jump { nnn } => {
                self.program_counter = nnn;
                Ok(Action::Next)
            },
            Instr::Call { nnn } => {
                self.stack.push(self.program_counter);
                self.program_counter = nnn;
                Ok(Action::Next)
            },
            Instr::SkipEqImm { x, nn } => {
                if self.registers[x as usize] == nn {
                    self.program_counter = self.program_counter + 2;
                }
                Ok(Action::Next)
            },
            Instr::SkipNeImm { x, nn } => {
                if self.registers[x as usize] != nn {
                    self.program_counter = self.program_counter + 2;
                }
                Ok(Action::Next)
            },
            Instr::SkipEqReg { x, y } => {
                if self.registers[x as usize] == self.registers[y as usize] {
                    self.program_counter = self.program_counter + 2;
                }
                Ok(Action::Next)
            },
            Instr::SetImm { x, nn } => {
                self.registers.set(x as usize, nn);
                Ok(Action::Next)
            },
            Instr::AddImm { x, nn } => {
                let vx = self.registers[x as usize];
                self.registers.set(x as usize, ((vx as u16 + nn as u16) % 256) as u8);
                Ok(Action::Next)
            },
            Instr::Copy { x, y } => {
                let vy = self.registers[y as usize];
                self.registers.set(x as usize, vy);
                Ok(Action::Next)
            },
            Instr::Or { x, y } => {
                let vx = self.registers[x as usize];
                let vy = self.registers[y as usize];
                self.registers.set(x as usize, vx | vy);
                Ok(Action::Next)
            },
            Instr::And { x, y } => {
                let vx = self.registers[x as usize];
                let vy = self.registers[y as usize];
                self.registers.set(x as usize, vx & vy);
                Ok(Action::Next)
            },
            Instr::Xor { x, y } => {
                let vx = self.registers[x as usize];
                let vy = self.registers[y as usize];
                self.registers.set(x as usize, vx ^ vy);
                Ok(Action::Next)
            },
            Instr::AddReg { x, y } => {
                let carry: u8 = if self.registers[x as usize] as u16 + self.registers[y
                    as usize] as u16 > 255 {
                    1
                } else {
                    0
                };
                self.registers.set(15, carry);
                let a = self.registers[x as usize];
                let b = self.registers[y as usize];
                self.registers.set(x as usize, ((a as u16 + b as u16) % 256) as u8);
                Ok(Action::Next)
            },
            Instr::SubReg { x, y } => {
                let no_borrow: u8 = if self.registers[x as usize] >= self.registers[y as usize] {
                    1
                } else {
                    0
                };
                self.registers.set(15, no_borrow);
                let a = self.registers[x as usize];
                let b = self.registers[y as usize];
                self.registers.set(x as usize, ((a as u16 + 256 - b as u16) % 256) as u8);
                Ok(Action::Next)
            },
            Instr::Shr { x } => {
                let vx = self.registers[x as usize];
                self.registers.set(15, vx % 2);
                let a = self.registers[x as usize];
                self.registers.set(x as usize, a / 2);
                Ok(Action::Next)
            },
            Instr::SubFrom { x, y } => {
                let no_borrow: u8 = if self.registers[y as usize] >= self.registers[x as usize] {
                    1
                } else {
                    0
                };
                self.registers.set(15, no_borrow);
                let a = self.registers[x as usize];
                let b = self.registers[y as usize];
                self.registers.set(x as usize, ((b as u16 + 256 - a as u16) % 256) as u8);
                Ok(Action::Next)
            },
            Instr::Shl { x } => {
                let vx = self.registers[x as usize];
                let high_bit: u8 = if vx >= 128 {
                    1
                } else {
                    0
                };
                self.registers.set(15, high_bit);
                let a = self.registers[x as usize];
                self.registers.set(x as usize, ((a as u16 * 2) % 256) as u8);
                Ok(Action::Next)
            },
            Instr::SkipNeReg { x, y } => {
                if self.registers[x as usize] != self.registers[y as usize] {
                    self.program_counter = self.program_counter + 2;
                }
                Ok(Action::Next)
            },
            Instr::SetIndex { nnn } => {
                self.index_register = nnn;
                Ok(Action::Next)
            },
            Instr::JumpV0 { nnn } => {
                self.program_counter = self.registers[0] as u16 + nnn;
                Ok(Action::Next)
            },
            Instr::Rand { x, nn } => {
                let b = random_byte();
                self.registers.set(x as usize, b & nn);
                proof {
                    assert(self.registers@ == old(self).registers@.update(x as int, b & nn));
                }
                Ok(Action::Next)
            },
            Instr::Draw { x, y, n } => {
                let base = self.index_register as usize;
                if base + n as usize > 4096 {
                    return Err(Fault::MemoryOutOfBounds);
                }
                let ghost mem0 = self.memory@;
                let mut sprite: Vec<u8> = Vec::new();
                let mut j: usize = 0;
                while j < n as usize
                    invariant
                        j <= n as usize,
                        n < 16,
                        base + n as usize <= 4096,
                        self.memory@ == mem0,
                        mem0.len() == 4096,
                        sprite@ == mem0.subrange(base as int, base as int + j as int),
                    decreases n as usize - j,
                {
                    assert(mem0.subrange(base as int, base as int + j as int + 1)
                        =~= mem0.subrange(base as int, base as int + j as int).push(
                        mem0[base as int + j as int],
                    ));
                    sprite.push(self.memory[base + j]);
                    j = j + 1;
                }
                let vx = self.registers[x as usize];
                let vy = self.registers[y as usize];
                let coll = fb.draw(vx, vy, sprite.as_slice());
                self.registers.set(15, if coll { 1 } else { 0 });
                Ok(Action::Next)
            },
            Instr::SkipKey { x } => {
                let v = self.registers[x as usize];
                if keys.is_value_pressed(v) {
                    self.program_counter = self.program_counter + 2;
                }
                Ok(Action::Next)
            },
            Instr::SkipNoKey { x } => {
                let v = self.registers[x as usize];
                if !keys.is_value_pressed(v) {
                    self.program_counter = self.program_counter + 2;
                }
                Ok(Action::Next)
            },
            Instr::GetDelay { x } => {
                let d = timers.get_delay();
                self.registers.set(x as usize, d);
                Ok(Action::Next)
            },
            Instr::WaitKey { x } => Ok(Action::WaitKey { x }),
            Instr::SetDelay { x } => {
                let vx = self.registers[x as usize];
                timers.set_delay(vx);
                Ok(Action::Next)
            },
            Instr::SetSound { x } => {
                let vx = self.registers[x as usize];
                timers.set_sound(vx);
                Ok(Action::Next)
            },
            Instr::AddIndex { x } => {
                let vx = self.registers[x as usize];
                self.index_register = ((self.index_register as u32 + vx as u32) % 0x10000) as u16;
                Ok(Action::Next)
            },
            Instr::FontIndex { x } => {
                let vx = self.registers[x as usize];
                self.index_register = FONT_BASE + 5 * vx as u16;
                Ok(Action::Next)
            },
            Instr::StoreBcd { x } => {
                let base = self.index_register as usize;
                if base + 3 > 4096 {
                    return Err(Fault::MemoryOutOfBounds);
                }
                let v = self.registers[x as usize];
                self.memory.set(base, v / 100);
                self.memory.set(base + 1, (v / 10) % 10);
                self.memory.set(base + 2, v % 10);
                Ok(Action::Next)
            },
            Instr::StoreRegs { x } => {
                let base = self.index_register as usize;
                if base + x as usize + 1 > 4096 {
                    return Err(Fault::MemoryOutOfBounds);
                }
                let ghost mem0 = self.memory@;
                let ghost regs0 = self.registers@;
                let ghost pc0 = self.program_counter;
                let ghost idx0 = self.index_register;
                let ghost stack0 = self.stack@;
                let mut j: usize = 0;
                while j <= x as usize
                    invariant
                        j <= x as usize + 1,
                        x < 16,
                        base + x as usize + 1 <= 4096,
                        self.memory@.len() == 4096,
                        self.registers@ == regs0,
                        self.program_counter == pc0,
                        self.index_register == idx0,
                        self.stack@ == stack0,
                        regs0.len() == 16,
                        mem0.len() == 4096,
                        forall|k: int|
                            0 <= k < 4096 ==> self.memory@[k] == if base <= k < base + j {
                                regs0[k - base]
                            } else {
                                mem0[k]
                            },
                    decreases x as usize + 1 - j,
                {
                    let rj = self.registers[j];
                    self.memory.set(base + j, rj);
                    j = j + 1;
                }
                Ok(Action::Next)
            },
            Instr::LoadRegs { x } => {
                let base = self.index_register as usize;
                if base + x as usize + 1 > 4096 {
                    return Err(Fault::MemoryOutOfBounds);
                }
                let ghost mem0 = self.memory@;
                let ghost regs0 = self.registers@;
                let ghost pc0 = self.program_counter;
                let ghost idx0 = self.index_register;
                let ghost stack0 = self.stack@;
                let mut j: usize = 0;
                while j <= x as usize
                    invariant
                        j <= x as usize + 1,
                        x < 16,
                        base + x as usize + 1 <= 4096,
                        self.memory@ == mem0,
                        self.program_counter == pc0,
                        self.index_register == idx0,
                        self.stack@ == stack0,
                        mem0.len() == 4096,
                        self.registers@.len() == 16,
                        regs0.len() == 16,
                        forall|k: int|
                            0 <= k < 16 ==> self.registers@[k] == if k < j {
                                mem0[base + k]
                            } else {
                                regs0[k]
                            },
                    decreases x as usize + 1 - j,
                {
                    let mj = self.memory[base + j];
                    self.registers.set(j, mj);
                    j = j + 1;
                }
                Ok(Action::Next)
            },
            Instr::Unknown => Err(Fault::UnknownOpcode),
        }
    }
}

/// True of the instructions that replace the already-advanced program
/// counter with a value of their own: jumps, calls, returns and skips.
pub open spec fn overwrites_pc(i: Instr) -> bool {
    match i {
        Instr::Ret => true,
        Instr::Jump { .. } => true,
        Instr::Call { .. } => true,
        Instr::JumpV0 { .. } => true,
        Instr::SkipEqImm { .. } => true,
        Instr::SkipNeImm { .. } => true,
        Instr::SkipEqReg { .. } => true,
        Instr::SkipNeReg { .. } => true,
        Instr::SkipKey { .. } => true,
        Instr::SkipNoKey { .. } => true,
        _ => false,
    }
}

/// True of the four-way skip family.
pub open spec fn is_skip(i: Instr) -> bool {
    match i {
        Instr::SkipEqImm { .. } => true,
        Instr::SkipNeImm { .. } => true,
        Instr::SkipEqReg { .. } => true,
        Instr::SkipNeReg { .. } => true,
        Instr::SkipKey { .. } => true,
        Instr::SkipNoKey { .. } => true,
        _ => false,
    }
}

/// A step always advances the program counter by exactly two before
/// dispatch; the fetched instruction only changes that where it is a
/// jump, call, return or skip.
pub proof fn lemma_step_advances_pc(
    pre: Processor,
    post: Processor,
    fb0: Seq<u8>,
    fb1: Seq<u8>,
    t0: Timers,
    t1: Timers,
    keys: InputReceiver,
    r: Result<Action, Fault>,
)
    requires
        step_spec(pre, post, fb0, fb1, t0, t1, keys, r),
        pre.program_counter + 2 <= 4096,
        !overwrites_pc(decode(opcode_at(pre))),
    ensures
        post.program_counter == pre.program_counter + 2,
{
}

/// A skip leaves the program counter two or four past its old value:
/// two for the fetch, two more when the test passes.
pub proof fn lemma_skip_advances_pc(
    pre: Processor,
    post: Processor,
    fb0: Seq<u8>,
    fb1: Seq<u8>,
    t0: Timers,
    t1: Timers,
    keys: InputReceiver,
    r: Result<Action, Fault>,
)
    requires
        step_spec(pre, post, fb0, fb1, t0, t1, keys, r),
        pre.program_counter + 2 <= 4096,
        is_skip(decode(opcode_at(pre))),
    ensures
        post.program_counter == pre.program_counter + 2 || post.program_counter
            == pre.program_counter + 4,
{
}

/// After 8XY4 with a destination other than VF, the flag register holds 1
/// exactly when the unsigned sum of the old operands exceeds 255.
pub proof fn lemma_add_reg_carry(
    pre: Processor,
    post: Processor,
    fb0: Seq<u8>,
    fb1: Seq<u8>,
    t0: Timers,
    t1: Timers,
    keys: InputReceiver,
    r: Result<Action, Fault>,
    x: u8,
    y: u8,
)
    requires
        step_spec(pre, post, fb0, fb1, t0, t1, keys, r),
        pre.program_counter + 2 <= 4096,
        decode(opcode_at(pre)) == (Instr::AddReg { x, y }),
        pre.wf(),
        x < 16,
        y < 16,
        x != 15,
    ensures
        post.registers@[15] == if pre.registers@[x as int] + pre.registers@[y as int] > 255 {
            1u8
        } else {
            0u8
        },
{
    let regs = pre.registers@;
    let carry: u8 = if regs[x as int] + regs[y as int] > 255 { 1u8 } else { 0u8 };
    let mid = regs.update(15, carry);
    assert(post.registers@ == mid.update(x as int, wrap_add8(mid[x as int], mid[y as int])));
    assert(post.registers@[15] == carry);
}

/// After 8XY5 with a destination other than VF, the flag register holds 1
/// exactly when no borrow occurs: the minuend Vx is at least the
/// subtrahend Vy.
pub proof fn lemma_sub_reg_no_borrow(
    pre: Processor,
    post: Processor,
    fb0: Seq<u8>,
    fb1: Seq<u8>,
    t0: Timers,
    t1: Timers,
    keys: InputReceiver,
    r: Result<Action, Fault>,
    x: u8,
    y: u8,
)
    requires
        step_spec(pre, post, fb0, fb1, t0, t1, keys, r),
        pre.program_counter + 2 <= 4096,
        decode(opcode_at(pre)) == (Instr::SubReg { x, y }),
        pre.wf(),
        x < 16,
        y < 16,
        x != 15,
    ensures
        post.registers@[15] == if pre.registers@[x as int] >= pre.registers@[y as int] {
            1u8
        } else {
            0u8
        },
{
    let regs = pre.registers@;
    let no_borrow: u8 = if regs[x as int] >= regs[y as int] { 1u8 } else { 0u8 };
    let mid = regs.update(15, no_borrow);
    assert(post.registers@ == mid.update(x as int, wrap_sub8(mid[x as int], mid[y as int])));
    assert(post.registers@[15] == no_borrow);
}

/// After 8XY7 with a destination other than VF, the flag register holds 1
/// exactly when no borrow occurs: the minuend Vy is at least the
/// subtrahend Vx.
pub proof fn lemma_sub_from_no_borrow(
    pre: Processor,
    post: Processor,
    fb0: Seq<u8>,
    fb1: Seq<u8>,
    t0: Timers,
    t1: Timers,
    keys: InputReceiver,
    r: Result<Action, Fault>,
    x: u8,
    y: u8,
)
    requires
        step_spec(pre, post, fb0, fb1, t0, t1, keys, r),
        pre.program_counter + 2 <= 4096,
        decode(opcode_at(pre)) == (Instr::SubFrom { x, y }),
        pre.wf(),
        x < 16,
        y < 16,
        x != 15,
    ensures
        post.registers@[15] == if pre.registers@[y as int] >= pre.registers@[x as int] {
            1u8
        } else {
            0u8
        },
{
    let regs = pre.registers@;
    let no_borrow: u8 = if regs[y as int] >= regs[x as int] { 1u8 } else { 0u8 };
    let mid = regs.update(15, no_borrow);
    assert(post.registers@ == mid.update(x as int, wrap_sub8(mid[y as int], mid[x as int])));
    assert(post.registers@[15] == no_borrow);
}

/// Dumping registers 0 through `x` to memory and then loading the same
/// range back restores the register file exactly.
pub proof fn lemma_dump_load_round_trip(
    mem0: Seq<u8>,
    mem1: Seq<u8>,
    regs0: Seq<u8>,
    regs1: Seq<u8>,
    base: int,
    x: int,
)
    requires
        regs0.len() == 16,
        regs1.len() == 16,
        mem0.len() == 4096,
        0 <= x < 16,
        0 <= base,
        base + x < 4096,
        regs_dumped(mem0, mem1, regs0, base, x),
        regs_loaded(regs0, regs1, mem1, base, x),
    ensures
        regs1 == regs0,
{
    assert forall|k: int| 0 <= k < 16 implies regs1[k] == regs0[k] by {
        if k <= x {
            assert(mem1[base + k] == regs0[k]);
        }
    }
    assert(regs1 =~= regs0);
}

/// An FX55 step followed by an FX65 step with the same X restores the
/// register file: the dump writes registers 0 through X to memory at the
/// index register, and the load reads the same bytes back.
pub proof fn lemma_store_load_round_trip(
    s0: Processor,
    s1: Processor,
    s2: Processor,
    fb0: Seq<u8>,
    fb1: Seq<u8>,
    fb2: Seq<u8>,
    t0: Timers,
    t1: Timers,
    t2: Timers,
    keys1: InputReceiver,
    keys2: InputReceiver,
    r1: Result<Action, Fault>,
    r2: Result<Action, Fault>,
    x: u8,
)
    requires
        s0.wf(),
        s0.program_counter + 2 <= 4096,
        s1.program_counter + 2 <= 4096,
        decode(opcode_at(s0)) == (Instr::StoreRegs { x }),
        decode(opcode_at(s1)) == (Instr::LoadRegs { x }),
        x < 16,
        step_spec(s0, s1, fb0, fb1, t0, t1, keys1, r1),
        step_spec(s1, s2, fb1, fb2, t1, t2, keys2, r2),
        r1 == Ok::<Action, Fault>(Action::Next),
        r2 == Ok::<Action, Fault>(Action::Next),
    ensures
        s2.registers@ == s0.registers@,
{
    let base = s0.index_register as int;
    assert(regs_dumped(s0.memory@, s1.memory@, s0.registers@, base, x as int));
    assert(s1.registers@ == s0.registers@);
    assert(s1.index_register == s0.index_register);
    assert(regs_loaded(s1.registers@, s2.registers@, s1.memory@, base, x as int));
    assert(s1.memory@.len() == 4096);
    lemma_dump_load_round_trip(
        s0.memory@,
        s1.memory@,
        s0.registers@,
        s2.registers@,
        base,
        x as int,
    );
}

} // verus!
