use vstd::prelude::*;

use crate::frame_buffer::FrameBuffer;
use crate::keypad::{key_down, Keypad};
use crate::sprite::{buf_after_sprite, sprite_collides};
use crate::{OFFSET, WRAP_X, WRAP_Y};

use rand::Rng;

verus! {

/// The ways a cycle can fail: the emulated program is malformed, and the
/// machine reports that instead of corrupting its state.
#[derive(Clone, Copy, Debug, PartialEq, Eq, Structural)]
pub enum CpuError {
    /// The fetched instruction word matches no documented pattern.
    InvalidOpcode,
    /// The font opcode named a character outside the hexadecimal digits.
    InvalidCharacter,
    /// A key opcode named a key outside the sixteen-key pad.
    InvalidKey,
    /// A call was made with all sixteen stack slots in use.
    StackOverflow,
    /// A return was made with no call on the stack.
    StackUnderflow,
    /// The program image does not fit in memory above the program offset.
    ProgramTooLarge,
}

/// The three things a Program Counter can do after an instruction.
#[derive(Clone, Copy, Debug, PartialEq, Eq, Structural)]
enum ProgramCounter {
    Next,
    Skip,
    Jump(usize),
}

impl ProgramCounter {
    fn skip_if(condition: bool) -> (r: ProgramCounter)
        ensures
            r == (if condition {
                ProgramCounter::Skip
            } else {
                ProgramCounter::Next
            }),
    {
        if condition {
            ProgramCounter::Skip
        } else {
            ProgramCounter::Next
        }
    }
}

/// A decoded instruction word, one variant per documented opcode pattern.
#[derive(Clone, Copy, Debug, PartialEq, Eq, Structural)]
pub enum Instr {
    /// 00E0: clear the screen.
    Cls,
    /// 00EE: return from a subroutine.
    Ret,
    /// 1nnn: jump to the program offset plus nnn.
    Jump(usize),
    /// 2nnn: call the subroutine at the program offset plus nnn.
    Call(usize),
    /// 3xkk: skip the next instruction if Vx equals kk.
    SkipEqImm(usize, u8),
    /// 4xkk: skip the next instruction if Vx differs from kk.
    SkipNeImm(usize, u8),
    /// 5xy0: skip the next instruction if Vx equals Vy.
    SkipEqReg(usize, usize),
    /// 6xkk: load kk into Vx.
    LoadImm(usize, u8),
    /// 7xkk: add kk to Vx, wrapping.
    AddImm(usize, u8),
    /// 8xy0: copy Vy into Vx.
    Move(usize, usize),
    /// 8xy1: bitwise OR of Vx and Vy into Vx.
    Or(usize, usize),
    /// 8xy2: bitwise AND of Vx and Vy into Vx.
    And(usize, usize),
    /// 8xy3: bitwise XOR of Vx and Vy into Vx.
    Xor(usize, usize),
    /// 8xy4: Vx plus Vy into Vx, VF set on carry.
    Add(usize, usize),
    /// 8xy5: Vx minus Vy into Vx, VF encodes that no borrow occurred.
    Sub(usize, usize),
    /// 8xy6: Vy shifted right into Vx, VF from the dropped bit.
    Shr(usize, usize),
    /// 8xy7: Vy minus Vx into Vx, VF encodes that no borrow occurred.
    SubN(usize, usize),
    /// 8xyE: Vy shifted left into Vx, VF from the dropped bit.
    Shl(usize, usize),
    /// 9xy0: skip the next instruction if Vx differs from Vy.
    SkipNeReg(usize, usize),
    /// Annn: load nnn into the index register.
    LoadIndex(usize),
    /// Bnnn: jump to V0 plus nnn.
    JumpV0(usize),
    /// Cxkk: a random byte AND kk into Vx.
    Random(usize, u8),
    /// Dxyn: draw the n-byte sprite at the index register at column Vx, row Vy.
    Draw(usize, usize, usize),
    /// Ex9E: skip if the key with value Vx is pressed.
    SkipKey(usize),
    /// ExA1: skip if the key with value Vx is not pressed.
    SkipNoKey(usize),
    /// Fx07: read the delay timer into Vx.
    GetDelay(usize),
    /// Fx0A: wait for a key press and store its value in Vx.
    WaitKey(usize),
    /// Fx15: load Vx into the delay timer.
    SetDelay(usize),
    /// Fx18: load Vx into the sound timer.
    SetSound(usize),
    /// Fx1E: add Vx to the index register, wrapping in the address range.
    AddIndex(usize),
    /// Fx29: point the index register at the glyph for digit Vx.
    LoadFont(usize),
    /// Fx33: store the decimal digits of Vx at I, I+1 and I+2.
    StoreBcd(usize),
    /// Fx55: store V0 through Vx to memory starting at I.
    StoreRegs(usize),
    /// Fx65: load V0 through Vx from memory starting at I.
    LoadRegs(usize),
}

/// Split an instruction word into the documented patterns: four nibbles
/// `(a, x, y, d)`, an 8-bit immediate `kk` and a 12-bit address `nnn`.
pub open spec fn spec_decode(word: u16) -> Option<Instr> {
    let a = (word >> 12) & 0xF;
    let x = ((word >> 8) & 0xF) as usize;
    let y = ((word >> 4) & 0xF) as usize;
    let d = word & 0xF;
    let kk = (word & 0xFF) as u8;
    let nnn = (word & 0xFFF) as usize;
    if word == 0x00E0 {
        Some(Instr::Cls)
    } else if word == 0x00EE {
        Some(Instr::Ret)
    } else if a == 0x1 {
        Some(Instr::Jump(nnn))
    } else if a == 0x2 {
        Some(Instr::Call(nnn))
    } else if a == 0x3 {
        Some(Instr::SkipEqImm(x, kk))
    } else if a == 0x4 {
        Some(Instr::SkipNeImm(x, kk))
    } else if a == 0x5 && d == 0x0 {
        Some(Instr::SkipEqReg(x, y))
    } else if a == 0x6 {
        Some(Instr::LoadImm(x, kk))
    } else if a == 0x7 {
        Some(Instr::AddImm(x, kk))
    } else if a == 0x8 && d == 0x0 {
        Some(Instr::Move(x, y))
    } else if a == 0x8 && d == 0x1 {
        Some(Instr::Or(x, y))
    } else if a == 0x8 && d == 0x2 {
        Some(Instr::And(x, y))
    } else if a == 0x8 && d == 0x3 {
        Some(Instr::Xor(x, y))
    } else if a == 0x8 && d == 0x4 {
        Some(Instr::Add(x, y))
    } else if a == 0x8 && d == 0x5 {
        Some(Instr::Sub(x, y))
    } else if a == 0x8 && d == 0x6 {
        Some(Instr::Shr(x, y))
    } else if a == 0x8 && d == 0x7 {
        Some(Instr::SubN(x, y))
    } else if a == 0x8 && d == 0xE {
        Some(Instr::Shl(x, y))
    } else if a == 0x9 && d == 0x0 {
        Some(Instr::SkipNeReg(x, y))
    } else if a == 0xA {
        Some(Instr::LoadIndex(nnn))
    } else if a == 0xB {
        Some(Instr::JumpV0(nnn))
    } else if a == 0xC {
        Some(Instr::Random(x, kk))
    } else if a == 0xD {
        Some(Instr::Draw(x, y, d as usize))
    } else if a == 0xE && kk == 0x9E {
        Some(Instr::SkipKey(x))
    } else if a == 0xE && kk == 0xA1 {
        Some(Instr::SkipNoKey(x))
    } else if a == 0xF && kk == 0x07 {
        Some(Instr::GetDelay(x))
    } else if a == 0xF && kk == 0x0A {
        Some(Instr::WaitKey(x))
    } else if a == 0xF && kk == 0x15 {
        Some(Instr::SetDelay(x))
    } else if a == 0xF && kk == 0x18 {
        Some(Instr::SetSound(x))
    } else if a == 0xF && kk == 0x1E {
        Some(Instr::AddIndex(x))
    } else if a == 0xF && kk == 0x29 {
        Some(Instr::LoadFont(x))
    } else if a == 0xF && kk == 0x33 {
        Some(Instr::StoreBcd(x))
    } else if a == 0xF && kk == 0x55 {
        Some(Instr::StoreRegs(x))
    } else if a == 0xF && kk == 0x65 {
        Some(Instr::LoadRegs(x))
    } else {
        None
    }
}

/// Every field of a decoded instruction is in its range: register indexes
/// below 16, addresses below 4096, sprite heights below 16.
pub open spec fn instr_fits(instr: Instr) -> bool {
    match instr {
        Instr::Cls => true,
        Instr::Ret => true,
        Instr::Jump(nnn) => nnn < 4096,
        Instr::Call(nnn) => nnn < 4096,
        Instr::SkipEqImm(x, _) => x < 16,
        Instr::SkipNeImm(x, _) => x < 16,
        Instr::SkipEqReg(x, y) => x < 16 && y < 16,
        Instr::LoadImm(x, _) => x < 16,
        Instr::AddImm(x, _) => x < 16,
        Instr::Move(x, y) => x < 16 && y < 16,
        Instr::Or(x, y) => x < 16 && y < 16,
        Instr::And(x, y) => x < 16 && y < 16,
        Instr::Xor(x, y) => x < 16 && y < 16,
        Instr::Add(x, y) => x < 16 && y < 16,
        Instr::Sub(x, y) => x < 16 && y < 16,
        Instr::Shr(x, y) => x < 16 && y < 16,
        Instr::SubN(x, y) => x < 16 && y < 16,
        Instr::Shl(x, y) => x < 16 && y < 16,
        Instr::SkipNeReg(x, y) => x < 16 && y < 16,
        Instr::LoadIndex(nnn) => nnn < 4096,
        Instr::JumpV0(nnn) => nnn < 4096,
        Instr::Random(x, _) => x < 16,
        Instr::Draw(x, y, n) => x < 16 && y < 16 && n < 16,
        Instr::SkipKey(x) => x < 16,
        Instr::SkipNoKey(x) => x < 16,
        Instr::GetDelay(x) => x < 16,
        Instr::WaitKey(x) => x < 16,
        Instr::SetDelay(x) => x < 16,
        Instr::SetSound(x) => x < 16,
        Instr::AddIndex(x) => x < 16,
        Instr::LoadFont(x) => x < 16,
        Instr::StoreBcd(x) => x < 16,
        Instr::StoreRegs(x) => x < 16,
        Instr::LoadRegs(x) => x < 16,
    }
}

/// The nibble fields of a word are below 16 and its low 12 bits below 4096.
proof fn lemma_nibbles(word: u16)
    by (bit_vector)
    ensures
        (word >> 12) & 0xF < 16,
        (word >> 8) & 0xF < 16,
        (word >> 4) & 0xF < 16,
        word & 0xF < 16,
        word & 0xFFF < 4096,
{
}

/// Decode one instruction word, or nothing for an undocumented pattern.
pub fn decode(word: u16) -> (r: Option<Instr>)
    ensures
        r == spec_decode(word),
        r matches Some(instr) ==> instr_fits(instr),
{
    proof {
        lemma_nibbles(word);
    }
    let a = (word >> 12) & 0xF;
    let x = ((word >> 8) & 0xF) as usize;
    let y = ((word >> 4) & 0xF) as usize;
    let d = word & 0xF;
    let kk = (word & 0xFF) as u8;
    let nnn = (word & 0xFFF) as usize;
    if word == 0x00E0 {
        Some(Instr::Cls)
    } else if word == 0x00EE {
        Some(Instr::Ret)
    } else if a == 0x1 {
        Some(Instr::Jump(nnn))
    } else if a == 0x2 {
        Some(Instr::Call(nnn))
    } else if a == 0x3 {
        Some(Instr::SkipEqImm(x, kk))
    } else if a == 0x4 {
        Some(Instr::SkipNeImm(x, kk))
    } else if a == 0x5 && d == 0x0 {
        Some(Instr::SkipEqReg(x, y))
    } else if a == 0x6 {
        Some(Instr::LoadImm(x, kk))
    } else if a == 0x7 {
        Some(Instr::AddImm(x, kk))
    } else if a == 0x8 && d == 0x0 {
        Some(Instr::Move(x, y))
    } else if a == 0x8 && d == 0x1 {
        Some(Instr::Or(x, y))
    } else if a == 0x8 && d == 0x2 {
        Some(Instr::And(x, y))
    } else if a == 0x8 && d == 0x3 {
        Some(Instr::Xor(x, y))
    } else if a == 0x8 && d == 0x4 {
        Some(Instr::Add(x, y))
    } else if a == 0x8 && d == 0x5 {
        Some(Instr::Sub(x, y))
    } else if a == 0x8 && d == 0x6 {
        Some(Instr::Shr(x, y))
    } else if a == 0x8 && d == 0x7 {
        Some(Instr::SubN(x, y))
    } else if a == 0x8 && d == 0xE {
        Some(Instr::Shl(x, y))
    } else if a == 0x9 && d == 0x0 {
        Some(Instr::SkipNeReg(x, y))
    } else if a == 0xA {
        Some(Instr::LoadIndex(nnn))
    } else if a == 0xB {
        Some(Instr::JumpV0(nnn))
    } else if a == 0xC {
        Some(Instr::Random(x, kk))
    } else if a == 0xD {
        Some(Instr::Draw(x, y, d as usize))
    } else if a == 0xE && kk == 0x9E {
        Some(Instr::SkipKey(x))
    } else if a == 0xE && kk == 0xA1 {
        Some(Instr::SkipNoKey(x))
    } else if a == 0xF && kk == 0x07 {
        Some(Instr::GetDelay(x))
    } else if a == 0xF && kk == 0x0A {
        Some(Instr::WaitKey(x))
    } else if a == 0xF && kk == 0x15 {
        Some(Instr::SetDelay(x))
    } else if a == 0xF && kk == 0x18 {
        Some(Instr::SetSound(x))
    } else if a == 0xF && kk == 0x1E {
        Some(Instr::AddIndex(x))
    } else if a == 0xF && kk == 0x29 {
        Some(Instr::LoadFont(x))
    } else if a == 0xF && kk == 0x33 {
        Some(Instr::StoreBcd(x))
    } else if a == 0xF && kk == 0x55 {
        Some(Instr::StoreRegs(x))
    } else if a == 0xF && kk == 0x65 {
        Some(Instr::LoadRegs(x))
    } else {
        None
    }
}

/// Unsigned 8-bit addition, wrapping on overflow.
pub open spec fn wrap_add(a: u8, b: u8) -> u8 {
    ((a + b) % 256) as u8
}

/// Unsigned 8-bit subtraction, wrapping on underflow.
pub open spec fn wrap_sub(a: u8, b: u8) -> u8 {
    if a >= b {
        (a - b) as u8
    } else {
        (a - b + 256) as u8
    }
}

/// The lowest pressed key of the mask, scanning from `k` up to 15.
pub open spec fn first_key_from(keys: u16, k: int) -> Option<u8>
    decreases 16 - k,
{
    if k < 0 || k >= 16 {
        None
    } else if key_down(keys, k as u16) {
        Some(k as u8)
    } else {
        first_key_from(keys, k + 1)
    }
}

/// The lowest pressed key of the mask, if any key is pressed at all.
pub open spec fn first_key(keys: u16) -> Option<u8> {
    first_key_from(keys, 0)
}

/// Memory after storing registers `v[0]` through `v[count - 1]` at
/// consecutive addresses from `i`, wrapping in the address range.
pub open spec fn mem_after_store(mem: Seq<u8>, v: Seq<u8>, i: int, count: int) -> Seq<u8>
    decreases count,
{
    if count <= 0 {
        mem
    } else {
        mem_after_store(mem, v, i, count - 1).update((i + count - 1) % 4096, v[count - 1])
    }
}

/// Registers after loading `v[0]` through `v[count - 1]` from consecutive
/// memory addresses from `i`, wrapping in the address range.
pub open spec fn regs_after_load(v: Seq<u8>, mem: Seq<u8>, i: int, count: int) -> Seq<u8>
    decreases count,
{
    if count <= 0 {
        v
    } else {
        regs_after_load(v, mem, i, count - 1).update(count - 1, mem[(i + count - 1) % 4096])
    }
}

/// The `n` sprite bytes read from memory at index `i`, addresses wrapping
/// in the 4096-byte address range.
pub open spec fn sprite_at(mem: Seq<u8>, i: int, n: int) -> Seq<u8> {
    Seq::new(n as nat, |k: int| mem[(i + k) % 4096])
}

/// Represents the CPU of a computer that could run Chip8 programs.
#[derive(Debug, PartialEq)]
pub struct CPU {
    /// Memory consists of 4096 bytes. 0x000 to 0x1FF is reserved for the
    /// interpreter (the font set at the front); 0x200 onwards is for the
    /// program.
    pub memory: [u8; 4096],
    /// Group of 16 8-bit registers (0x0 to 0xF). Register V[F] doubles as
    /// the flag output of the arithmetic, shift and draw opcodes.
    pub v: [u8; 16],
    /// Group of 16 registers holding the addresses of called subroutines.
    pub stack: [usize; 16],
    /// The stack pointer: the next free stack slot.
    pub sp: usize,
    /// Register used to store memory addresses; only 12 bits are used.
    pub i: usize,
    /// Address of the instruction executed next.
    pub pc: usize,
    /// 8-bit delay timer, decremented by the external tick operation.
    pub delay_timer: u8,
    /// 8-bit sound timer, decremented by the external tick operation.
    pub sound_timer: u8,
    /// The monochrome 64x32 display.
    pub screen: FrameBuffer,
    /// The sixteen-key input device.
    pub keypad: Keypad,
}

/// The memory of the two machine states is the same.
pub open spec fn same_mem(pre: CPU, post: CPU) -> bool {
    post.memory@ == pre.memory@
}

/// The registers of the two machine states are the same.
pub open spec fn same_v(pre: CPU, post: CPU) -> bool {
    post.v@ == pre.v@
}

/// The call stack and stack pointer of the two machine states are the same.
pub open spec fn same_stack(pre: CPU, post: CPU) -> bool {
    post.stack@ == pre.stack@ && post.sp == pre.sp
}

/// The index register of the two machine states is the same.
pub open spec fn same_i(pre: CPU, post: CPU) -> bool {
    post.i == pre.i
}

/// The two timers of the two machine states are the same.
pub open spec fn same_timers(pre: CPU, post: CPU) -> bool {
    post.delay_timer == pre.delay_timer && post.sound_timer == pre.sound_timer
}

/// The display of the two machine states is the same.
pub open spec fn same_screen(pre: CPU, post: CPU) -> bool {
    post.screen.buffer@ == pre.screen.buffer@ && post.screen.prev_buffer@
        == pre.screen.prev_buffer@ && post.screen.wrap_x == pre.screen.wrap_x && post.screen.wrap_y
        == pre.screen.wrap_y
}

/// The key mask of the two machine states is the same.
pub open spec fn same_keys(pre: CPU, post: CPU) -> bool {
    post.keypad.keys == pre.keypad.keys
}

/// Everything except the registers and the program counter is the same.
pub open spec fn same_env(pre: CPU, post: CPU) -> bool {
    same_mem(pre, post) && same_stack(pre, post) && same_i(pre, post) && same_timers(pre, post)
        && same_screen(pre, post) && same_keys(pre, post)
}

/// Everything except the index register and the program counter is the same.
pub open spec fn same_but_i(pre: CPU, post: CPU) -> bool {
    same_mem(pre, post) && same_v(pre, post) && same_stack(pre, post) && same_timers(pre, post)
        && same_screen(pre, post) && same_keys(pre, post)
}

/// Everything except the call stack and the program counter is the same.
pub open spec fn same_but_stack(pre: CPU, post: CPU) -> bool {
    same_mem(pre, post) && same_v(pre, post) && same_i(pre, post) && same_timers(pre, post)
        && same_screen(pre, post) && same_keys(pre, post)
}

/// Everything except memory and the program counter is the same.
pub open spec fn same_but_mem(pre: CPU, post: CPU) -> bool {
    same_v(pre, post) && same_stack(pre, post) && same_i(pre, post) && same_timers(pre, post)
        && same_screen(pre, post) && same_keys(pre, post)
}

/// Everything except the timers and the program counter is the same.
pub open spec fn same_but_timers(pre: CPU, post: CPU) -> bool {
    same_mem(pre, post) && same_v(pre, post) && same_stack(pre, post) && same_i(pre, post)
        && same_screen(pre, post) && same_keys(pre, post)
}

/// Everything except the keypad and the program counter is the same.
pub open spec fn same_but_keys(pre: CPU, post: CPU) -> bool {
    same_mem(pre, post) && same_v(pre, post) && same_stack(pre, post) && same_i(pre, post)
        && same_timers(pre, post) && same_screen(pre, post)
}

/// Everything except the display and the program counter is the same.
pub open spec fn same_but_screen(pre: CPU, post: CPU) -> bool {
    same_mem(pre, post) && same_v(pre, post) && same_stack(pre, post) && same_i(pre, post)
        && same_timers(pre, post) && same_keys(pre, post)
}

/// The two machine states agree on every observable field.
pub open spec fn same_cpu(pre: CPU, post: CPU) -> bool {
    same_env(pre, post) && same_v(pre, post) && post.pc == pre.pc
}

/// The font table: sixteen glyphs of five bytes each, the glyph for
/// hexadecimal digit `d` starting at byte `5 * d`.
pub open spec fn font_data() -> Seq<u8> {
    seq![
        0xF0u8, 0x90, 0x90, 0x90, 0xF0,
        0x20, 0x60, 0x20, 0x20, 0x70,
        0xF0, 0x10, 0xF0, 0x80, 0xF0,
        0xF0, 0x10, 0xF0, 0x10, 0xF0,
        0x90, 0x90, 0xF0, 0x10, 0x10,
        0xF0, 0x80, 0xF0, 0x10, 0xF0,
        0xF0, 0x80, 0xF0, 0x90, 0xF0,
        0xF0, 0x10, 0x20, 0x40, 0x40,
        0xF0, 0x90, 0xF0, 0x90, 0xF0,
        0xF0, 0x90, 0xF0, 0x10, 0xF0,
        0xF0, 0x90, 0xF0, 0x90, 0x90,
        0xE0, 0x90, 0xE0, 0x90, 0xE0,
        0xF0, 0x80, 0x80, 0x80, 0xF0,
        0xE0, 0x90, 0x90, 0x90, 0xE0,
        0xF0, 0x80, 0xF0, 0x80, 0xF0,
        0xF0, 0x80, 0xF0, 0x80, 0x80,
    ]
}

/// One successful instruction step: `post` is `pre` after `instr`, with
/// `rnd` the byte drawn for the random opcode and ignored by every other.
pub open spec fn step_ok(pre: CPU, post: CPU, instr: Instr, rnd: u8) -> bool {
    match instr {
        Instr::Cls => {
            &&& same_mem(pre, post)
            &&& same_v(pre, post)
            &&& same_stack(pre, post)
            &&& same_i(pre, post)
            &&& same_timers(pre, post)
            &&& same_keys(pre, post)
            &&& post.screen.buffer@ == Seq::new(32, |j: int| 0u64)
            &&& post.screen.prev_buffer@ == pre.screen.prev_buffer@
            &&& post.screen.wrap_x == pre.screen.wrap_x
            &&& post.screen.wrap_y == pre.screen.wrap_y
            &&& post.pc == pre.pc + 2
        },
        Instr::Ret => {
            &&& pre.sp > 0
            &&& same_but_stack(pre, post)
            &&& post.stack@ == pre.stack@
            &&& post.sp == pre.sp - 1
            &&& post.pc == pre.stack@[pre.sp - 1]
        },
        Instr::Jump(nnn) => {
            &&& same_env(pre, post)
            &&& same_v(pre, post)
            &&& post.pc == OFFSET + nnn
        },
        Instr::Call(nnn) => {
            &&& pre.sp < 16
            &&& same_but_stack(pre, post)
            &&& post.stack@ == pre.stack@.update(pre.sp as int, (pre.pc + 2) as usize)
            &&& post.sp == pre.sp + 1
            &&& post.pc == OFFSET + nnn
        },
        Instr::SkipEqImm(x, kk) => {
            &&& same_env(pre, post)
            &&& same_v(pre, post)
            &&& post.pc == pre.pc + (if pre.v@[x as int] == kk {
                4int
            } else {
                2int
            })
        },
        Instr::SkipNeImm(x, kk) => {
            &&& same_env(pre, post)
            &&& same_v(pre, post)
            &&& post.pc == pre.pc + (if pre.v@[x as int] != kk {
                4int
            } else {
                2int
            })
        },
        Instr::SkipEqReg(x, y) => {
            &&& same_env(pre, post)
            &&& same_v(pre, post)
            &&& post.pc == pre.pc + (if pre.v@[x as int] == pre.v@[y as int] {
                4int
            } else {
                2int
            })
        },
        Instr::LoadImm(x, kk) => {
            &&& same_env(pre, post)
            &&& post.v@ == pre.v@.update(x as int, kk)
            &&& post.pc == pre.pc + 2
        },
        Instr::AddImm(x, kk) => {
            &&& same_env(pre, post)
            &&& post.v@ == pre.v@.update(x as int, wrap_add(pre.v@[x as int], kk))
            &&& post.pc == pre.pc + 2
        },
        Instr::Move(x, y) => {
            &&& same_env(pre, post)
            &&& post.v@ == pre.v@.update(x as int, pre.v@[y as int])
            &&& post.pc == pre.pc + 2
        },
        Instr::Or(x, y) => {
            &&& same_env(pre, post)
            &&& post.v@ == pre.v@.update(x as int, pre.v@[x as int] | pre.v@[y as int])
            &&& post.pc == pre.pc + 2
        },
        Instr::And(x, y) => {
            &&& same_env(pre, post)
            &&& post.v@ == pre.v@.update(x as int, pre.v@[x as int] & pre.v@[y as int])
            &&& post.pc == pre.pc + 2
        },
        Instr::Xor(x, y) => {
            &&& same_env(pre, post)
            &&& post.v@ == pre.v@.update(x as int, pre.v@[x as int] ^ pre.v@[y as int])
            &&& post.pc == pre.pc + 2
        },
        Instr::Add(x, y) => {
            let sum = pre.v@[x as int] + pre.v@[y as int];
            let f: u8 = if sum > 255 {
                1
            } else {
                0
            };
            &&& same_env(pre, post)
            &&& post.v@ == pre.v@.update(15, f).update(x as int, (sum % 256) as u8)
            &&& post.pc == pre.pc + 2
        },
        Instr::Sub(x, y) => {
            let f: u8 = if pre.v@[x as int] > pre.v@[y as int] {
                1
            } else {
                0
            };
            let v1 = pre.v@.update(15, f);
            &&& same_env(pre, post)
            &&& post.v@ == v1.update(x as int, wrap_sub(v1[x as int], v1[y as int]))
            &&& post.pc == pre.pc + 2
        },
        Instr::Shr(x, y) => {
            let f: u8 = pre.v@[y as int] & 1;
            let v1 = pre.v@.update(15, f);
            &&& same_env(pre, post)
            &&& post.v@ == v1.update(x as int, v1[y as int] >> 1)
            &&& post.pc == pre.pc + 2
        },
        Instr::SubN(x, y) => {
            let f: u8 = if pre.v@[y as int] > pre.v@[x as int] {
                1
            } else {
                0
            };
            let v1 = pre.v@.update(15, f);
            &&& same_env(pre, post)
            &&& post.v@ == v1.update(x as int, wrap_sub(v1[y as int], v1[x as int]))
            &&& post.pc == pre.pc + 2
        },
        Instr::Shl(x, y) => {
            let f: u8 = (pre.v@[y as int] >> 7) & 1;
            let v1 = pre.v@.update(15, f);
            &&& same_env(pre, post)
            &&& post.v@ == v1.update(x as int, v1[y as int] << 1)
            &&& post.pc == pre.pc + 2
        },
        Instr::SkipNeReg(x, y) => {
            &&& same_env(pre, post)
            &&& same_v(pre, post)
            &&& post.pc == pre.pc + (if pre.v@[x as int] != pre.v@[y as int] {
                4int
            } else {
                2int
            })
        },
        Instr::LoadIndex(nnn) => {
            &&& same_but_i(pre, post)
            &&& post.i == nnn
            &&& post.pc == pre.pc + 2
        },
        Instr::JumpV0(nnn) => {
            &&& same_env(pre, post)
            &&& same_v(pre, post)
            &&& post.pc == pre.v@[0] + nnn
        },
        Instr::Random(x, kk) => {
            &&& same_env(pre, post)
            &&& post.v@ == pre.v@.update(x as int, rnd & kk)
            &&& post.pc == pre.pc + 2
        },
        Instr::Draw(x, y, n) => {
            let spr = sprite_at(pre.memory@, pre.i as int, n as int);
            let hit = sprite_collides(
                pre.screen.buffer@,
                spr,
                pre.v@[y as int] as int,
                pre.v@[x as int] as int,
                pre.screen.wrap_x,
                pre.screen.wrap_y,
            );
            &&& same_mem(pre, post)
            &&& same_stack(pre, post)
            &&& same_i(pre, post)
            &&& same_timers(pre, post)
            &&& same_keys(pre, post)
            &&& post.screen.buffer@ == buf_after_sprite(
                pre.screen.buffer@,
                spr,
                pre.v@[y as int] as int,
                pre.v@[x as int] as int,
                pre.screen.wrap_x,
                pre.screen.wrap_y,
            )
            &&& post.screen.prev_buffer@ == pre.screen.prev_buffer@
            &&& post.screen.wrap_x == pre.screen.wrap_x
            &&& post.screen.wrap_y == pre.screen.wrap_y
            &&& post.v@ == pre.v@.update(15, if hit {
                1u8
            } else {
                0u8
            })
            &&& post.pc == pre.pc + 2
        },
        Instr::SkipKey(x) => {
            &&& pre.v@[x as int] < 16
            &&& same_env(pre, post)
            &&& same_v(pre, post)
            &&& post.pc == pre.pc + (if key_down(pre.keypad.keys, pre.v@[x as int] as u16) {
                4int
            } else {
                2int
            })
        },
        Instr::SkipNoKey(x) => {
            &&& pre.v@[x as int] < 16
            &&& same_env(pre, post)
            &&& same_v(pre, post)
            &&& post.pc == pre.pc + (if !key_down(pre.keypad.keys, pre.v@[x as int] as u16) {
                4int
            } else {
                2int
            })
        },
        Instr::GetDelay(x) => {
            &&& same_env(pre, post)
            &&& post.v@ == pre.v@.update(x as int, pre.delay_timer)
            &&& post.pc == pre.pc + 2
        },
        Instr::WaitKey(x) => {
            match first_key(pre.keypad.keys) {
                Option::None => {
                    &&& same_env(pre, post)
                    &&& same_v(pre, post)
                    &&& post.pc == pre.pc
                },
                Option::Some(k) => {
                    &&& same_env(pre, post)
                    &&& post.v@ == pre.v@.update(x as int, k)
                    &&& post.pc == pre.pc + 2
                },
            }
        },
        Instr::SetDelay(x) => {
            &&& same_but_timers(pre, post)
            &&& post.delay_timer == pre.v@[x as int]
            &&& post.sound_timer == pre.sound_timer
            &&& post.pc == pre.pc + 2
        },
        Instr::SetSound(x) => {
            &&& same_but_timers(pre, post)
            &&& post.sound_timer == pre.v@[x as int]
            &&& post.delay_timer == pre.delay_timer
            &&& post.pc == pre.pc + 2
        },
        Instr::AddIndex(x) => {
            &&& same_but_i(pre, post)
            &&& post.i == (pre.i + pre.v@[x as int]) % 4096
            &&& post.pc == pre.pc + 2
        },
        Instr::LoadFont(x) => {
            &&& pre.v@[x as int] <= 15
            &&& same_but_i(pre, post)
            &&& post.i == pre.v@[x as int] * 5
            &&& post.pc == pre.pc + 2
        },
        Instr::StoreBcd(x) => {
            let d = pre.v@[x as int];
            &&& same_but_mem(pre, post)
            &&& post.memory@ == pre.memory@.update(pre.i as int, (d / 100) as u8).update(
                ((pre.i + 1) % 4096) as int,
                ((d / 10) % 10) as u8,
            ).update(((pre.i + 2) % 4096) as int, (d % 10) as u8)
            &&& post.pc == pre.pc + 2
        },
        Instr::StoreRegs(x) => {
            &&& same_but_mem(pre, post)
            &&& post.memory@ == mem_after_store(pre.memory@, pre.v@, pre.i as int, x + 1)
            &&& post.pc == pre.pc + 2
        },
        Instr::LoadRegs(x) => {
            &&& same_env(pre, post)
            &&& post.v@ == regs_after_load(pre.v@, pre.memory@, pre.i as int, x + 1)
            &&& post.pc == pre.pc + 2
        },
    }
}

/// The error, if any, that executing `instr` in state `pre` must report.
pub open spec fn step_error(pre: CPU, instr: Instr) -> Option<CpuError> {
    match instr {
        Instr::Ret => if pre.sp == 0 {
            Some(CpuError::StackUnderflow)
        } else {
            None
        },
        Instr::Call(_) => if pre.sp >= 16 {
            Some(CpuError::StackOverflow)
        } else {
            None
        },
        Instr::LoadFont(x) => if pre.v@[x as int] > 15 {
            Some(CpuError::InvalidCharacter)
        } else {
            None
        },
        Instr::SkipKey(x) => if pre.v@[x as int] >= 16 {
            Some(CpuError::InvalidKey)
        } else {
            None
        },
        Instr::SkipNoKey(x) => if pre.v@[x as int] >= 16 {
            Some(CpuError::InvalidKey)
        } else {
            None
        },
        _ => None,
    }
}

/// What executing the word `word` in state `pre` does: an undecodable word
/// or a detected bound violation leaves the state unchanged and reports the
/// error; anything else performs exactly one `step_ok` step.
pub open spec fn step_spec(pre: CPU, post: CPU, word: u16, r: Result<(), CpuError>) -> bool {
    match spec_decode(word) {
        None => r == Err::<(), CpuError>(CpuError::InvalidOpcode) && same_cpu(pre, post),
        Some(instr) => match step_error(pre, instr) {
            Some(e) => r == Err::<(), CpuError>(e) && same_cpu(pre, post),
            None => r == Ok::<(), CpuError>(()) && exists|rnd: u8| step_ok(pre, post, instr, rnd),
        },
    }
}

/// The big-endian instruction word stored at the program counter.
pub open spec fn fetched(cpu: CPU) -> u16 {
    (cpu.memory@[cpu.pc as int] * 256 + cpu.memory@[cpu.pc as int + 1]) as u16
}

/// Combining two bytes big-endian by shift and OR is plain arithmetic.
proof fn lemma_big_endian(hi: u8, lo: u8)
    by (bit_vector)
    ensures
        ((hi as u16) << 8) | (lo as u16) == hi as u16 * 256 + lo as u16,
{
}

/// Relies on rand::thread_rng and rand::Rng::gen for a uniformly random
/// byte; nothing is promised of the returned value.
#[verifier::external_body]
fn random_byte() -> u8 {
    rand::thread_rng().gen::<u8>()
}

impl CPU {
    /// Invariants that construction establishes and every operation keeps:
    /// the stack pointer stays within the sixteen slots, the index register
    /// within the 12-bit address range, and the program counter and every
    /// live stack entry below 0x1200, the least upper bound of the jump
    /// targets `OFFSET + nnn`.
    pub open spec fn wf(self) -> bool {
        &&& self.sp <= 16
        &&& self.i < 4096
        &&& self.pc < 0x1200
        &&& forall|j: int| 0 <= j < self.sp ==> self.stack@[j] < 0x1200
    }

    /// Execute one fetch-decode-execute cycle.
    pub fn cycle(&mut self) -> (r: Result<(), CpuError>)
        requires
            old(self).wf(),
            old(self).pc + 1 < 4096,
        ensures
            final(self).wf(),
            step_spec(*old(self), *final(self), fetched(*old(self)), r),
    {
        let instruction = self.get_instruction();
        self.execute_instruction(instruction)
    }

    /// Read a Vec<u8> ROM into memory at the program offset; an image that
    /// does not fit above the offset is rejected unwritten.
    pub fn load(&mut self, rom: Vec<u8>) -> (r: Result<(), CpuError>)
        requires
            old(self).wf(),
        ensures
            final(self).wf(),
            (match r {
                Ok(_) => {
                    &&& rom@.len() <= 4096 - 0x200
                    &&& forall|j: int|
                        0x200 <= j < 0x200 + rom@.len() ==> final(self).memory@[j] == rom@[j
                            - 0x200]
                    &&& forall|j: int|
                        0 <= j < 4096 && !(0x200 <= j < 0x200 + rom@.len())
                            ==> final(self).memory@[j] == old(self).memory@[j]
                    &&& same_but_mem(*old(self), *final(self))
                    &&& final(self).pc == old(self).pc
                },
                Err(e) => {
                    &&& e == CpuError::ProgramTooLarge
                    &&& rom@.len() > 4096 - 0x200
                    &&& same_cpu(*old(self), *final(self))
                },
            }),
    {
        if rom.len() > 4096 - OFFSET {
            return Err(CpuError::ProgramTooLarge);
        }
        let mut k: usize = 0;
        while k < rom.len()
            invariant
                k <= rom@.len(),
                rom@.len() <= 4096 - 0x200,
                same_but_mem(*old(self), *self),
                self.pc == old(self).pc,
                self.sp == old(self).sp,
                self.i == old(self).i,
                forall|j: int| 0x200 <= j < 0x200 + k ==> self.memory@[j] == rom@[j - 0x200],
                forall|j: int|
                    0 <= j < 4096 && !(0x200 <= j < 0x200 + k) ==> self.memory@[j] == old(
                        self,
                    ).memory@[j],
            decreases rom@.len() - k,
        {
            self.memory[OFFSET + k] = rom[k];
            k += 1;
        }
        Ok(())
    }

    /// Get the current opcode: two bytes combined big-endian.
    pub fn get_instruction(&self) -> (r: usize)
        requires
            self.pc + 1 < 4096,
        ensures
            r == fetched(*self),
            r < 0x10000,
    {
        let hi = self.memory[self.pc] as u16;
        let lo = self.memory[self.pc + 1] as u16;
        proof {
            lemma_big_endian(self.memory@[self.pc as int], self.memory@[self.pc as int + 1]);
        }
        ((hi << 8) | lo) as usize
    }

    /// Execute one instruction word: decode it, run the opcode's own state
    /// change, then apply its program-counter effect at this one site.
    pub fn execute_instruction(&mut self, instruction: usize) -> (r: Result<(), CpuError>)
        requires
            old(self).wf(),
            instruction < 0x10000,
            old(self).pc + 1 < 4096,
        ensures
            final(self).wf(),
            step_spec(*old(self), *final(self), instruction as u16, r),
    {
        let word = instruction as u16;
        let decoded = decode(word);
        let instr = match decoded {
            Some(instr) => instr,
            None => {
                return Err(CpuError::InvalidOpcode);
            },
        };

        let pc_change = match instr {
            Instr::Cls => self.opcode_00e0(),
            Instr::Ret => match self.opcode_00ee() {
                Ok(pc) => pc,
                Err(e) => {
                    return Err(e);
                },
            },
            Instr::Jump(nnn) => self.opcode_1nnn(nnn),
            Instr::Call(nnn) => match self.opcode_2nnn(nnn) {
                Ok(pc) => pc,
                Err(e) => {
                    return Err(e);
                },
            },
            Instr::SkipEqImm(x, kk) => self.opcode_3xkk(x, kk),
            Instr::SkipNeImm(x, kk) => self.opcode_4xkk(x, kk),
            Instr::SkipEqReg(x, y) => self.opcode_5xy0(x, y),
            Instr::LoadImm(x, kk) => self.opcode_6xkk(x, kk),
            Instr::AddImm(x, kk) => self.opcode_7xkk(x, kk),
            Instr::Move(x, y) => self.opcode_8xy0(x, y),
            Instr::Or(x, y) => self.opcode_8xy1(x, y),
            Instr::And(x, y) => self.opcode_8xy2(x, y),
            Instr::Xor(x, y) => self.opcode_8xy3(x, y),
            Instr::Add(x, y) => self.opcode_8xy4(x, y),
            Instr::Sub(x, y) => self.opcode_8xy5(x, y),
            Instr::Shr(x, y) => self.opcode_8xy6(x, y),
            Instr::SubN(x, y) => self.opcode_8xy7(x, y),
            Instr::Shl(x, y) => self.opcode_8xye(x, y),
            Instr::SkipNeReg(x, y) => self.opcode_9xy0(x, y),
            Instr::LoadIndex(nnn) => self.opcode_annn(nnn),
            Instr::JumpV0(nnn) => self.opcode_bnnn(nnn),
            Instr::Random(x, kk) => self.opcode_cxkk(x, kk),
            Instr::Draw(x, y, n) => self.opcode_dxyn(x, y, n),
            Instr::SkipKey(x) => match self.opcode_ex9e(x) {
                Ok(pc) => pc,
                Err(e) => {
                    return Err(e);
                },
            },
            Instr::SkipNoKey(x) => match self.opcode_exa1(x) {
                Ok(pc) => pc,
                Err(e) => {
                    return Err(e);
                },
            },
            Instr::GetDelay(x) => self.opcode_fx07(x),
            Instr::WaitKey(x) => self.opcode_fx0a(x),
            Instr::SetDelay(x) => self.opcode_fx15(x),
            Instr::SetSound(x) => self.opcode_fx18(x),
            Instr::AddIndex(x) => self.opcode_fx1e(x),
            Instr::LoadFont(x) => match self.opcode_fx29(x) {
                Ok(pc) => pc,
                Err(e) => {
                    return Err(e);
                },
            },
            Instr::StoreBcd(x) => self.opcode_fx33(x),
            Instr::StoreRegs(x) => self.opcode_fx55(x),
            Instr::LoadRegs(x) => self.opcode_fx65(x),
        };

        match pc_change {
            ProgramCounter::Next => {
                self.pc = self.pc + 2;
            },
            ProgramCounter::Skip => {
                self.pc = self.pc + 4;
            },
            ProgramCounter::Jump(addr) => {
                self.pc = addr;
            },
        }

        proof {
            let pre = *old(self);
            match instr {
                Instr::Random(x, kk) => {
                    let b = choose|b: u8| self.v@ == pre.v@.update(x as int, b & kk);
                    assert(step_ok(pre, *self, instr, b));
                },
                _ => {
                    assert(step_ok(pre, *self, instr, 0u8));
                },
            }
        }
        Ok(())
    }

    /// CLS --> Clear the screen.
    fn opcode_00e0(&mut self) -> (pc: ProgramCounter)
        ensures
            same_mem(*old(self), *final(self)),
            same_v(*old(self), *final(self)),
            same_stack(*old(self), *final(self)),
            same_i(*old(self), *final(self)),
            same_timers(*old(self), *final(self)),
            same_keys(*old(self), *final(self)),
            final(self).screen.buffer@ == Seq::new(32, |j: int| 0u64),
            final(self).screen.prev_buffer@ == old(self).screen.prev_buffer@,
            final(self).screen.wrap_x == old(self).screen.wrap_x,
            final(self).screen.wrap_y == old(self).screen.wrap_y,
            final(self).pc == old(self).pc,
            pc == ProgramCounter::Next,
    {
        self.screen.clear();
        proof {
            assert(self.screen.buffer@ =~= Seq::new(32, |j: int| 0u64));
        }
        ProgramCounter::Next
    }

    /// RET --> Exit subroutine: jump back to the address on top of the
    /// stack, or report underflow when no call is outstanding.
    fn opcode_00ee(&mut self) -> (r: Result<ProgramCounter, CpuError>)
        requires
            old(self).sp <= 16,
        ensures
            final(self).pc == old(self).pc,
            (match r {
                Ok(pc) => {
                    &&& old(self).sp > 0
                    &&& same_but_stack(*old(self), *final(self))
                    &&& final(self).stack@ == old(self).stack@
                    &&& final(self).sp == old(self).sp - 1
                    &&& pc == ProgramCounter::Jump(old(self).stack@[old(self).sp - 1])
                },
                Err(e) => {
                    &&& e == CpuError::StackUnderflow
                    &&& old(self).sp == 0
                    &&& *final(self) == *old(self)
                },
            }),
    {
        if self.sp == 0 {
            return Err(CpuError::StackUnderflow);
        }
        self.sp = self.sp - 1;
        Ok(ProgramCounter::Jump(self.stack[self.sp]))
    }

    /// JP nnn --> Jump the program counter to the given address plus the
    /// program offset.
    fn opcode_1nnn(&mut self, nnn: usize) -> (pc: ProgramCounter)
        requires
            nnn < 4096,
        ensures
            *final(self) == *old(self),
            pc == ProgramCounter::Jump((OFFSET + nnn) as usize),
    {
        ProgramCounter::Jump(OFFSET + nnn)
    }

    /// CALL nnn --> Push the return address, the instruction following the
    /// call, and jump to the given address plus the offset; overflow is
    /// reported when the stack is full.
    fn opcode_2nnn(&mut self, nnn: usize) -> (r: Result<ProgramCounter, CpuError>)
        requires
            nnn < 4096,
            old(self).pc + 1 < 4096,
        ensures
            final(self).pc == old(self).pc,
            (match r {
                Ok(pc) => {
                    &&& old(self).sp < 16
                    &&& same_but_stack(*old(self), *final(self))
                    &&& final(self).stack@ == old(self).stack@.update(
                        old(self).sp as int,
                        (old(self).pc + 2) as usize,
                    )
                    &&& final(self).sp == old(self).sp + 1
                    &&& pc == ProgramCounter::Jump((OFFSET + nnn) as usize)
                },
                Err(e) => {
                    &&& e == CpuError::StackOverflow
                    &&& old(self).sp >= 16
                    &&& *final(self) == *old(self)
                },
            }),
    {
        if self.sp >= 16 {
            return Err(CpuError::StackOverflow);
        }
        self.stack[self.sp] = self.pc + 2;
        self.sp = self.sp + 1;
        Ok(ProgramCounter::Jump(OFFSET + nnn))
    }

    /// SE Vx kk --> Skip the next instruction if Vx is equal to kk.
    fn opcode_3xkk(&mut self, x: usize, kk: u8) -> (pc: ProgramCounter)
        requires
            x < 16,
        ensures
            *final(self) == *old(self),
            pc == (if old(self).v@[x as int] == kk {
                ProgramCounter::Skip
            } else {
                ProgramCounter::Next
            }),
    {
        ProgramCounter::skip_if(self.v[x] == kk)
    }

    /// SNE Vx kk --> Skip the next instruction if Vx is not equal to kk.
    fn opcode_4xkk(&mut self, x: usize, kk: u8) -> (pc: ProgramCounter)
        requires
            x < 16,
        ensures
            *final(self) == *old(self),
            pc == (if old(self).v@[x as int] != kk {
                ProgramCounter::Skip
            } else {
                ProgramCounter::Next
            }),
    {
        ProgramCounter::skip_if(self.v[x] != kk)
    }

    /// SE Vx Vy --> Skip the next instruction if Vx is equal to Vy.
    fn opcode_5xy0(&mut self, x: usize, y: usize) -> (pc: ProgramCounter)
        requires
            x < 16,
            y < 16,
        ensures
            *final(self) == *old(self),
            pc == (if old(self).v@[x as int] == old(self).v@[y as int] {
                ProgramCounter::Skip
            } else {
                ProgramCounter::Next
            }),
    {
        ProgramCounter::skip_if(self.v[x] == self.v[y])
    }

    /// LD Vx kk --> Load kk into Vx.
    fn opcode_6xkk(&mut self, x: usize, kk: u8) -> (pc: ProgramCounter)
        requires
            x < 16,
        ensures
            same_env(*old(self), *final(self)),
            final(self).v@ == old(self).v@.update(x as int, kk),
            final(self).pc == old(self).pc,
            pc == ProgramCounter::Next,
    {
        self.v[x] = kk;
        ProgramCounter::Next
    }

    /// ADD Vx kk --> Add kk to the contents of Vx and store in Vx, wrapping.
    fn opcode_7xkk(&mut self, x: usize, kk: u8) -> (pc: ProgramCounter)
        requires
            x < 16,
        ensures
            same_env(*old(self), *final(self)),
            final(self).v@ == old(self).v@.update(x as int, wrap_add(old(self).v@[x as int], kk)),
            final(self).v@[x as int] == (old(self).v@[x as int] + kk) % 256,
            forall|j: int| 0 <= j < 16 && j != x ==> final(self).v@[j] == old(self).v@[j],
            final(self).pc == old(self).pc,
            pc == ProgramCounter::Next,
    {
        self.v[x] = self.v[x].wrapping_add(kk);
        ProgramCounter::Next
    }

    /// LD Vx Vy --> Store the value of Vy in Vx.
    fn opcode_8xy0(&mut self, x: usize, y: usize) -> (pc: ProgramCounter)
        requires
            x < 16,
            y < 16,
        ensures
            same_env(*old(self), *final(self)),
            final(self).v@ == old(self).v@.update(x as int, old(self).v@[y as int]),
            final(self).pc == old(self).pc,
            pc == ProgramCounter::Next,
    {
        self.v[x] = self.v[y];
        ProgramCounter::Next
    }

    /// OR Vx Vy --> Store the value of bitwise OR between Vx and Vy.
    fn opcode_8xy1(&mut self, x: usize, y: usize) -> (pc: ProgramCounter)
        requires
            x < 16,
            y < 16,
        ensures
            same_env(*old(self), *final(self)),
            final(self).v@ == old(self).v@.update(
                x as int,
                old(self).v@[x as int] | old(self).v@[y as int],
            ),
            final(self).pc == old(self).pc,
            pc == ProgramCounter::Next,
    {
        self.v[x] = self.v[x] | self.v[y];
        ProgramCounter::Next
    }

    /// AND Vx Vy --> Store the value of bitwise AND between Vx and Vy.
    fn opcode_8xy2(&mut self, x: usize, y: usize) -> (pc: ProgramCounter)
        requires
            x < 16,
            y < 16,
        ensures
            same_env(*old(self), *final(self)),
            final(self).v@ == old(self).v@.update(
                x as int,
                old(self).v@[x as int] & old(self).v@[y as int],
            ),
            final(self).pc == old(self).pc,
            pc == ProgramCounter::Next,
    {
        self.v[x] = self.v[x] & self.v[y];
        ProgramCounter::Next
    }

    /// XOR Vx Vy --> Store the value of bitwise XOR between Vx and Vy.
    fn opcode_8xy3(&mut self, x: usize, y: usize) -> (pc: ProgramCounter)
        requires
            x < 16,
            y < 16,
        ensures
            same_env(*old(self), *final(self)),
            final(self).v@ == old(self).v@.update(
                x as int,
                old(self).v@[x as int] ^ old(self).v@[y as int],
            ),
            final(self).pc == old(self).pc,
            pc == ProgramCounter::Next,
    {
        self.v[x] = self.v[x] ^ self.v[y];
        ProgramCounter::Next
    }

    /// ADD Vx Vy --> Add Vx and Vy, store the low byte in Vx and set VF to 1
    /// exactly on overflow.
    fn opcode_8xy4(&mut self, x: usize, y: usize) -> (pc: ProgramCounter)
        requires
            x < 16,
            y < 16,
        ensures
            same_env(*old(self), *final(self)),
            final(self).v@ == ({
                let sum = old(self).v@[x as int] + old(self).v@[y as int];
                let f: u8 = if sum > 255 {
                    1
                } else {
                    0
                };
                old(self).v@.update(15, f).update(x as int, (sum % 256) as u8)
            }),
            final(self).v@[x as int] == (old(self).v@[x as int] + old(self).v@[y as int]) % 256,
            x != 15 ==> final(self).v@[15] == (if old(self).v@[x as int] + old(self).v@[y as int]
                > 255 {
                1u8
            } else {
                0u8
            }),
            forall|j: int|
                0 <= j < 16 && j != x && j != 15 ==> final(self).v@[j] == old(self).v@[j],
            final(self).pc == old(self).pc,
            pc == ProgramCounter::Next,
    {
        let vx = self.v[x] as u16;
        let vy = self.v[y] as u16;
        let res = vx + vy;

        self.v[0xF] = if res > 255 {
            1
        } else {
            0
        };
        self.v[x] = (res % 256) as u8;

        ProgramCounter::Next
    }

    /// SUB Vx Vy --> Store the value of Vx - Vy, wrapping, and set VF to 1
    /// if Vx is greater than Vy (that is, no borrow occurred).
    fn opcode_8xy5(&mut self, x: usize, y: usize) -> (pc: ProgramCounter)
        requires
            x < 16,
            y < 16,
        ensures
            same_env(*old(self), *final(self)),
            final(self).v@ == ({
                let f: u8 = if old(self).v@[x as int] > old(self).v@[y as int] {
                    1
                } else {
                    0
                };
                let v1 = old(self).v@.update(15, f);
                v1.update(x as int, wrap_sub(v1[x as int], v1[y as int]))
            }),
            final(self).pc == old(self).pc,
            pc == ProgramCounter::Next,
    {
        self.v[0xF] = if self.v[x] > self.v[y] {
            1
        } else {
            0
        };
        self.v[x] = self.v[x].wrapping_sub(self.v[y]);
        ProgramCounter::Next
    }

    /// SHR Vx Vy --> Shift Vy one bit to the right and store the result in
    /// Vx; VF takes the bit that was shifted out.
    fn opcode_8xy6(&mut self, x: usize, y: usize) -> (pc: ProgramCounter)
        requires
            x < 16,
            y < 16,
        ensures
            same_env(*old(self), *final(self)),
            final(self).v@ == ({
                let v1 = old(self).v@.update(15, old(self).v@[y as int] & 1);
                v1.update(x as int, v1[y as int] >> 1)
            }),
            final(self).pc == old(self).pc,
            pc == ProgramCounter::Next,
    {
        self.v[0xF] = self.v[y] & 1;
        self.v[x] = self.v[y] >> 1;
        ProgramCounter::Next
    }

    /// SUBN Vx Vy --> Store the value of Vy - Vx, wrapping, and set VF to 1
    /// if Vy is greater than Vx (that is, no borrow occurred).
    fn opcode_8xy7(&mut self, x: usize, y: usize) -> (pc: ProgramCounter)
        requires
            x < 16,
            y < 16,
        ensures
            same_env(*old(self), *final(self)),
            final(self).v@ == ({
                let f: u8 = if old(self).v@[y as int] > old(self).v@[x as int] {
                    1
                } else {
                    0
                };
                let v1 = old(self).v@.update(15, f);
                v1.update(x as int, wrap_sub(v1[y as int], v1[x as int]))
            }),
            final(self).pc == old(self).pc,
            pc == ProgramCounter::Next,
    {
        self.v[0xF] = if self.v[y] > self.v[x] {
            1
        } else {
            0
        };
        self.v[x] = self.v[y].wrapping_sub(self.v[x]);
        ProgramCounter::Next
    }

    /// SHL Vx Vy --> Shift Vy one bit to the left and store the low byte in
    /// Vx; VF takes the bit that was shifted out.
    fn opcode_8xye(&mut self, x: usize, y: usize) -> (pc: ProgramCounter)
        requires
            x < 16,
            y < 16,
        ensures
            same_env(*old(self), *final(self)),
            final(self).v@ == ({
                let v1 = old(self).v@.update(15, (old(self).v@[y as int] >> 7) & 1);
                v1.update(x as int, v1[y as int] << 1)
            }),
            final(self).pc == old(self).pc,
            pc == ProgramCounter::Next,
    {
        self.v[0xF] = (self.v[y] >> 7) & 1;
        self.v[x] = self.v[y] << 1;
        ProgramCounter::Next
    }

    /// SNE Vx Vy --> Skip the next instruction if Vx != Vy.
    fn opcode_9xy0(&mut self, x: usize, y: usize) -> (pc: ProgramCounter)
        requires
            x < 16,
            y < 16,
        ensures
            *final(self) == *old(self),
            pc == (if old(self).v@[x as int] != old(self).v@[y as int] {
                ProgramCounter::Skip
            } else {
                ProgramCounter::Next
            }),
    {
        ProgramCounter::skip_if(self.v[x] != self.v[y])
    }

    /// LD I nnn --> Load nnn into the I register.
    fn opcode_annn(&mut self, nnn: usize) -> (pc: ProgramCounter)
        requires
            nnn < 4096,
        ensures
            same_but_i(*old(self), *final(self)),
            final(self).i == nnn,
            final(self).pc == old(self).pc,
            pc == ProgramCounter::Next,
    {
        self.i = nnn;
        ProgramCounter::Next
    }

    /// JP V0 nnn --> Jump to location V0 + nnn (no base offset added).
    fn opcode_bnnn(&mut self, nnn: usize) -> (pc: ProgramCounter)
        requires
            nnn < 4096,
        ensures
            *final(self) == *old(self),
            pc == ProgramCounter::Jump((old(self).v@[0] + nnn) as usize),
    {
        ProgramCounter::Jump(self.v[0] as usize + nnn)
    }

    /// RND Vx kk --> Generate a random byte, AND it with kk and store the
    /// result in Vx.
    fn opcode_cxkk(&mut self, x: usize, kk: u8) -> (pc: ProgramCounter)
        requires
            x < 16,
        ensures
            same_env(*old(self), *final(self)),
            exists|b: u8| final(self).v@ == old(self).v@.update(x as int, b & kk),
            final(self).pc == old(self).pc,
            pc == ProgramCounter::Next,
    {
        let b = random_byte();
        self.v[x] = b & kk;
        proof {
            assert(self.v@ == old(self).v@.update(x as int, b & kk));
        }
        ProgramCounter::Next
    }

    /// DRW Vx Vy n --> Draw the n-byte sprite at memory address I at column
    /// Vx, row Vy, and set VF to 1 exactly when a lit pixel went dark.
    fn opcode_dxyn(&mut self, x: usize, y: usize, n: usize) -> (pc: ProgramCounter)
        requires
            x < 16,
            y < 16,
            n < 16,
            old(self).i < 4096,
        ensures
            same_mem(*old(self), *final(self)),
            same_stack(*old(self), *final(self)),
            same_i(*old(self), *final(self)),
            same_timers(*old(self), *final(self)),
            same_keys(*old(self), *final(self)),
            final(self).screen.buffer@ == buf_after_sprite(
                old(self).screen.buffer@,
                sprite_at(old(self).memory@, old(self).i as int, n as int),
                old(self).v@[y as int] as int,
                old(self).v@[x as int] as int,
                old(self).screen.wrap_x,
                old(self).screen.wrap_y,
            ),
            final(self).screen.prev_buffer@ == old(self).screen.prev_buffer@,
            final(self).screen.wrap_x == old(self).screen.wrap_x,
            final(self).screen.wrap_y == old(self).screen.wrap_y,
            final(self).v@ == old(self).v@.update(
                15,
                if sprite_collides(
                    old(self).screen.buffer@,
                    sprite_at(old(self).memory@, old(self).i as int, n as int),
                    old(self).v@[y as int] as int,
                    old(self).v@[x as int] as int,
                    old(self).screen.wrap_x,
                    old(self).screen.wrap_y,
                ) {
                    1u8
                } else {
                    0u8
                },
            ),
            final(self).pc == old(self).pc,
            pc == ProgramCounter::Next,
    {
        let mut spr: Vec<u8> = Vec::new();
        let mut k: usize = 0;
        while k < n
            invariant
                k <= n,
                n < 16,
                *self == *old(self),
                self.i < 4096,
                spr@.len() == k,
                forall|j: int| 0 <= j < k ==> spr@[j] == self.memory@[(self.i + j) % 4096],
            decreases n - k,
        {
            spr.push(self.memory[(self.i + k) % 4096]);
            k += 1;
        }
        proof {
            assert(spr@ =~= sprite_at(old(self).memory@, old(self).i as int, n as int));
        }

        let row = self.v[y] as usize;
        let col = self.v[x] as usize;
        let collided = self.screen.draw_sprite(spr.as_slice(), row, col);
        self.v[0xF] = if collided {
            1
        } else {
            0
        };
        ProgramCounter::Next
    }

    /// SKP Vx --> Skip the next instruction if the key with value Vx is
    /// pressed; a value outside the sixteen keys is reported as an error.
    fn opcode_ex9e(&mut self, x: usize) -> (r: Result<ProgramCounter, CpuError>)
        requires
            x < 16,
        ensures
            *final(self) == *old(self),
            (match r {
                Ok(pc) => {
                    &&& old(self).v@[x as int] < 16
                    &&& pc == (if key_down(old(self).keypad.keys, old(self).v@[x as int] as u16) {
                        ProgramCounter::Skip
                    } else {
                        ProgramCounter::Next
                    })
                },
                Err(e) => {
                    &&& e == CpuError::InvalidKey
                    &&& old(self).v@[x as int] >= 16
                },
            }),
    {
        if self.v[x] >= 16 {
            return Err(CpuError::InvalidKey);
        }
        Ok(ProgramCounter::skip_if(self.keypad.is_pressed(self.v[x])))
    }

    /// SKNP Vx --> Skip the next instruction if the key with value Vx is not
    /// pressed; a value outside the sixteen keys is reported as an error.
    fn opcode_exa1(&mut self, x: usize) -> (r: Result<ProgramCounter, CpuError>)
        requires
            x < 16,
        ensures
            *final(self) == *old(self),
            (match r {
                Ok(pc) => {
                    &&& old(self).v@[x as int] < 16
                    &&& pc == (if !key_down(old(self).keypad.keys, old(self).v@[x as int] as u16) {
                        ProgramCounter::Skip
                    } else {
                        ProgramCounter::Next
                    })
                },
                Err(e) => {
                    &&& e == CpuError::InvalidKey
                    &&& old(self).v@[x as int] >= 16
                },
            }),
    {
        if self.v[x] >= 16 {
            return Err(CpuError::InvalidKey);
        }
        Ok(ProgramCounter::skip_if(!self.keypad.is_pressed(self.v[x])))
    }

    /// LD Vx DT --> The value of the delay timer is placed into Vx.
    fn opcode_fx07(&mut self, x: usize) -> (pc: ProgramCounter)
        requires
            x < 16,
        ensures
            same_env(*old(self), *final(self)),
            final(self).v@ == old(self).v@.update(x as int, old(self).delay_timer),
            final(self).pc == old(self).pc,
            pc == ProgramCounter::Next,
    {
        self.v[x] = self.delay_timer;
        ProgramCounter::Next
    }

    /// LD Vx K --> Wait for a key press and store the value of the key in
    /// Vx: with no key pressed, re-dispatch this same instruction next
    /// cycle by jumping to the unchanged program counter.
    fn opcode_fx0a(&mut self, x: usize) -> (pc: ProgramCounter)
        requires
            x < 16,
        ensures
            same_env(*old(self), *final(self)),
            final(self).pc == old(self).pc,
            (match first_key(old(self).keypad.keys) {
                Option::None => final(self).v@ == old(self).v@ && pc == ProgramCounter::Jump(
                    old(self).pc,
                ),
                Option::Some(key) => final(self).v@ == old(self).v@.update(x as int, key) && pc
                    == ProgramCounter::Next,
            }),
    {
        let mut k: u8 = 0;
        while k < 16
            invariant
                x < 16,
                k <= 16,
                *self == *old(self),
                first_key(self.keypad.keys) == first_key_from(self.keypad.keys, k as int),
            decreases 16 - k,
        {
            if self.keypad.is_pressed(k) {
                self.v[x] = k;
                return ProgramCounter::Next;
            }
            k += 1;
        }
        ProgramCounter::Jump(self.pc)
    }

    /// LD DT Vx --> Set the delay timer to the value stored in Vx.
    fn opcode_fx15(&mut self, x: usize) -> (pc: ProgramCounter)
        requires
            x < 16,
        ensures
            same_but_timers(*old(self), *final(self)),
            final(self).delay_timer == old(self).v@[x as int],
            final(self).sound_timer == old(self).sound_timer,
            final(self).pc == old(self).pc,
            pc == ProgramCounter::Next,
    {
        self.delay_timer = self.v[x];
        ProgramCounter::Next
    }

    /// LD ST Vx --> Load the value of Vx into the sound timer.
    fn opcode_fx18(&mut self, x: usize) -> (pc: ProgramCounter)
        requires
            x < 16,
        ensures
            same_but_timers(*old(self), *final(self)),
            final(self).sound_timer == old(self).v@[x as int],
            final(self).delay_timer == old(self).delay_timer,
            final(self).pc == old(self).pc,
            pc == ProgramCounter::Next,
    {
        self.sound_timer = self.v[x];
        ProgramCounter::Next
    }

    /// ADD I Vx --> Store I + Vx in the I register, wrapping within the
    /// 12-bit address range.
    fn opcode_fx1e(&mut self, x: usize) -> (pc: ProgramCounter)
        requires
            x < 16,
            old(self).i < 4096,
        ensures
            same_but_i(*old(self), *final(self)),
            final(self).i == (old(self).i + old(self).v@[x as int]) % 4096,
            final(self).pc == old(self).pc,
            pc == ProgramCounter::Next,
    {
        self.i = (self.i + self.v[x] as usize) % 4096;
        ProgramCounter::Next
    }

    /// LD F Vx --> Set I to the location of the glyph for the hexadecimal
    /// digit stored in Vx; a value above 15 is reported as an error.
    fn opcode_fx29(&mut self, x: usize) -> (r: Result<ProgramCounter, CpuError>)
        requires
            x < 16,
        ensures
            final(self).pc == old(self).pc,
            (match r {
                Ok(pc) => {
                    &&& old(self).v@[x as int] <= 15
                    &&& same_but_i(*old(self), *final(self))
                    &&& final(self).i == old(self).v@[x as int] * 5
                    &&& pc == ProgramCounter::Next
                },
                Err(e) => {
                    &&& e == CpuError::InvalidCharacter
                    &&& old(self).v@[x as int] > 15
                    &&& *final(self) == *old(self)
                },
            }),
    {
        if self.v[x] > 15 {
            return Err(CpuError::InvalidCharacter);
        }
        self.i = (self.v[x] as usize) * 5;
        Ok(ProgramCounter::Next)
    }

    /// LD B Vx --> Store the binary coded decimal representation of Vx in
    /// memory locations I, I + 1 and I + 2: hundreds, tens, units.
    fn opcode_fx33(&mut self, x: usize) -> (pc: ProgramCounter)
        requires
            x < 16,
            old(self).i < 4096,
        ensures
            same_but_mem(*old(self), *final(self)),
            final(self).memory@ == ({
                let d = old(self).v@[x as int];
                old(self).memory@.update(old(self).i as int, (d / 100) as u8).update(
                    ((old(self).i + 1) % 4096) as int,
                    ((d / 10) % 10) as u8,
                ).update(((old(self).i + 2) % 4096) as int, (d % 10) as u8)
            }),
            final(self).pc == old(self).pc,
            pc == ProgramCounter::Next,
    {
        let d = self.v[x];
        self.memory[self.i] = d / 100;
        self.memory[(self.i + 1) % 4096] = (d / 10) % 10;
        self.memory[(self.i + 2) % 4096] = d % 10;
        ProgramCounter::Next
    }

    /// LD [I] Vx --> Store registers V0 up to and including Vx in memory
    /// starting at I, addresses wrapping in the address range.
    fn opcode_fx55(&mut self, x: usize) -> (pc: ProgramCounter)
        requires
            x < 16,
            old(self).i < 4096,
        ensures
            same_but_mem(*old(self), *final(self)),
            final(self).memory@ == mem_after_store(
                old(self).memory@,
                old(self).v@,
                old(self).i as int,
                x + 1,
            ),
            final(self).pc == old(self).pc,
            pc == ProgramCounter::Next,
    {
        let mut k: usize = 0;
        while k <= x
            invariant
                x < 16,
                k <= x + 1,
                same_but_mem(*old(self), *self),
                self.i == old(self).i,
                self.i < 4096,
                self.pc == old(self).pc,
                self.memory@ == mem_after_store(
                    old(self).memory@,
                    old(self).v@,
                    old(self).i as int,
                    k as int,
                ),
            decreases x + 1 - k,
        {
            let idx = (self.i + k) % 4096;
            self.memory[idx] = self.v[k];
            k += 1;
        }
        ProgramCounter::Next
    }

    /// LD Vx [I] --> Read memory starting at I into registers V0 up to and
    /// including Vx, addresses wrapping in the address range.
    fn opcode_fx65(&mut self, x: usize) -> (pc: ProgramCounter)
        requires
            x < 16,
            old(self).i < 4096,
        ensures
            same_env(*old(self), *final(self)),
            final(self).v@ == regs_after_load(
                old(self).v@,
                old(self).memory@,
                old(self).i as int,
                x + 1,
            ),
            final(self).pc == old(self).pc,
            pc == ProgramCounter::Next,
    {
        let mut k: usize = 0;
        while k <= x
            invariant
                x < 16,
                k <= x + 1,
                same_env(*old(self), *self),
                self.i == old(self).i,
                self.i < 4096,
                self.pc == old(self).pc,
                self.v@ == regs_after_load(
                    old(self).v@,
                    old(self).memory@,
                    old(self).i as int,
                    k as int,
                ),
            decreases x + 1 - k,
        {
            let idx = (self.i + k) % 4096;
            self.v[k] = self.memory[idx];
            k += 1;
        }
        ProgramCounter::Next
    }

    /// Write the sixteen five-byte glyphs for the hexadecimal digits at the
    /// front of memory; the glyph for digit `d` starts at address `5 * d`.
    fn load_font(&mut self)
        ensures
            same_but_mem(*old(self), *final(self)),
            final(self).pc == old(self).pc,
            forall|j: int| 0 <= j < 80 ==> final(self).memory@[j] == font_data()[j],
            forall|j: int| 80 <= j < 4096 ==> final(self).memory@[j] == old(self).memory@[j],
    {
        // 0 to F. 5 bytes per character. The index in memory is the
        // character's hex value multiplied by 5.
        let font: [u8; 80] = [
            0xF0, 0x90, 0x90, 0x90, 0xF0,
            0x20, 0x60, 0x20, 0x20, 0x70,
            0xF0, 0x10, 0xF0, 0x80, 0xF0,
            0xF0, 0x10, 0xF0, 0x10, 0xF0,
            0x90, 0x90, 0xF0, 0x10, 0x10,
            0xF0, 0x80, 0xF0, 0x10, 0xF0,
            0xF0, 0x80, 0xF0, 0x90, 0xF0,
            0xF0, 0x10, 0x20, 0x40, 0x40,
            0xF0, 0x90, 0xF0, 0x90, 0xF0,
            0xF0, 0x90, 0xF0, 0x10, 0xF0,
            0xF0, 0x90, 0xF0, 0x90, 0x90,
            0xE0, 0x90, 0xE0, 0x90, 0xE0,
            0xF0, 0x80, 0x80, 0x80, 0xF0,
            0xE0, 0x90, 0x90, 0x90, 0xE0,
            0xF0, 0x80, 0xF0, 0x80, 0xF0,
            0xF0, 0x80, 0xF0, 0x80, 0x80,
        ];

        let mut k: usize = 0;
        while k < 80
            invariant
                k <= 80,
                same_but_mem(*old(self), *self),
                self.pc == old(self).pc,
                forall|j: int| 0 <= j < 80 ==> font@[j] == font_data()[j],
                forall|j: int| 0 <= j < k ==> self.memory@[j] == font@[j],
                forall|j: int| k <= j < 4096 ==> self.memory@[j] == old(self).memory@[j],
            decreases 80 - k,
        {
            self.memory[k] = font[k];
            k += 1;
        }
    }

    /// One tick of the external 60 Hz clock: each non-zero timer counts
    /// down by one, and a zero timer stays at zero.
    pub fn tick_timers(&mut self)
        ensures
            same_but_timers(*old(self), *final(self)),
            final(self).pc == old(self).pc,
            final(self).delay_timer == (if old(self).delay_timer > 0 {
                old(self).delay_timer - 1
            } else {
                0
            }),
            final(self).sound_timer == (if old(self).sound_timer > 0 {
                old(self).sound_timer - 1
            } else {
                0
            }),
    {
        if self.delay_timer > 0 {
            self.delay_timer = self.delay_timer - 1;
        }
        if self.sound_timer > 0 {
            self.sound_timer = self.sound_timer - 1;
        }
    }

    /// Reflect a host key press into the keypad: `k` becomes the one
    /// pressed key and every other key is released.
    pub fn set_key(&mut self, k: u8)
        requires
            k < 16,
        ensures
            same_but_keys(*old(self), *final(self)),
            final(self).pc == old(self).pc,
            final(self).keypad.keys == 1u16 << (k as u16),
            forall|j: u16|
                j < 16 ==> (#[trigger] key_down(final(self).keypad.keys, j) <==> j == k),
    {
        self.keypad.set_pressed(k);
    }

    /// Release every key of the keypad.
    pub fn clear_keys(&mut self)
        ensures
            same_but_keys(*old(self), *final(self)),
            final(self).pc == old(self).pc,
            final(self).keypad.keys == 0,
    {
        self.keypad.keys = 0;
    }

    /// Hand the display's frame to a renderer, each row OR-combined with
    /// the previous read's snapshot, and retain the current frame.
    pub fn get_framebuffer(&mut self) -> (buf: Vec<u64>)
        ensures
            same_but_screen(*old(self), *final(self)),
            final(self).pc == old(self).pc,
            buf@.len() == 32,
            forall|j: int|
                0 <= j < 32 ==> buf@[j] == (old(self).screen.prev_buffer@[j] | old(
                    self,
                ).screen.buffer@[j]),
            final(self).screen.buffer@ == old(self).screen.buffer@,
            final(self).screen.prev_buffer@ == old(self).screen.buffer@,
            final(self).screen.wrap_x == old(self).screen.wrap_x,
            final(self).screen.wrap_y == old(self).screen.wrap_y,
    {
        self.screen.get_buffer()
    }
}

impl Default for CPU {
    /// The machine as it powers up: font in low memory, the rest of memory
    /// zeroed, registers and timers zeroed, the stack empty, and the
    /// program counter at the program offset.
    fn default() -> (cpu: Self)
        ensures
            cpu.wf(),
            forall|j: int| 0 <= j < 80 ==> cpu.memory@[j] == font_data()[j],
            forall|j: int| 80 <= j < 4096 ==> cpu.memory@[j] == 0,
            forall|j: int| 0 <= j < 16 ==> cpu.v@[j] == 0,
            forall|j: int| 0 <= j < 16 ==> cpu.stack@[j] == usize::MAX,
            cpu.sp == 0,
            cpu.i == 0,
            cpu.pc == 0x200,
            cpu.delay_timer == 0,
            cpu.sound_timer == 0,
            cpu.screen.wrap_x == WRAP_X,
            cpu.screen.wrap_y == WRAP_Y,
            forall|j: int| 0 <= j < 32 ==> cpu.screen.buffer@[j] == 0,
            forall|j: int| 0 <= j < 32 ==> cpu.screen.prev_buffer@[j] == 0,
            cpu.keypad.keys == 0,
    {
        let mut cpu = CPU {
            memory: [0u8; 4096],
            v: [0u8; 16],
            sp: 0,
            stack: [usize::MAX; 16],
            i: 0,
            pc: OFFSET,
            delay_timer: 0,
            sound_timer: 0,
            screen: FrameBuffer::new(WRAP_X, WRAP_Y),
            keypad: Keypad::new(),
        };

        cpu.load_font();
        cpu
    }
}

} // verus!
