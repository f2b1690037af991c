use vstd::prelude::*;

use crate::machine::{Fault, Outcome};

verus! {

/// Bytes of addressable memory.
pub const MEMORY_SIZE: usize = 4096;

/// Address at which programs are loaded and execution starts.
pub const PROGRAM_START: usize = 0x200;

/// Largest program image that fits between `PROGRAM_START` and the end of memory.
pub const MAX_PROGRAM_LEN: usize = 3584;

/// Pixels per display row.
pub const DISPLAY_WIDTH: usize = 64;

/// Cells of the framebuffer: 64 columns by 32 rows.
pub const DISPLAY_SIZE: usize = 2048;

/// Depth of the call stack.
pub const STACK_DEPTH: usize = 16;

/// The flags register `vF`.
pub const FLAG: usize = 15;

/// The mathematical view of a machine.
#[verifier::ext_equal]
pub struct MachineState {
    pub index: int,
    pub pc: int,
    pub opcode: u16,
    pub v: Seq<u8>,
    pub memory: Seq<u8>,
    pub display: Seq<u8>,
    pub draw_flag: bool,
    pub delay_timer: u8,
    pub sound_timer: u8,
    pub stack: Seq<usize>,
    pub sp: int,
    pub keys: Seq<bool>,
}

/// The 80-byte glyph table for the hex digits 0 to F, five rows of each.
pub open spec fn font() -> Seq<u8> {
    seq![
        0xF0u8, 0x90, 0x90, 0x90, 0xF0,
        0x20, 0x60, 0x20, 0x20, 0x70,
        0xF0, 0x10, 0xF0, 0x80, 0xF0,
        0xF0, 0x10, 0xF0, 0x10, 0xF0,
        0x90, 0x90, 0xF0, 0x10, 0x10,
        0xF0, 0x80, 0xF0, 0x10, 0xF0,
        0xF0, 0x80, 0xF0, 0x90, 0xF0,
        0xF0, 0x10, 0x20, 0x40, 0x40,
        0xF0, 0x90, 0xF0, 0x90, 0xF0,
        0xF0, 0x90, 0xF0, 0x10, 0xF0,
        0xF0, 0x90, 0xF0, 0x90, 0x90,
        0xE0, 0x90, 0xE0, 0x90, 0xE0,
        0xF0, 0x80, 0x80, 0x80, 0xF0,
        0xE0, 0x90, 0x90, 0x90, 0xE0,
        0xF0, 0x80, 0xF0, 0x80, 0xF0,
        0xF0, 0x80, 0xF0, 0x80, 0x80,
    ]
}

// ---------------------------------------------------------------------------
// Decoding an instruction word

/// The top nibble: which family of operations.
pub open spec fn family(op: u16) -> int {
    op as int / 4096
}

/// The second nibble: register `x`.
pub open spec fn reg_x(op: u16) -> int {
    (op as int / 256) % 16
}

/// The third nibble: register `y`.
pub open spec fn reg_y(op: u16) -> int {
    (op as int / 16) % 16
}

/// The bottom nibble `n`.
pub open spec fn nibble(op: u16) -> int {
    op as int % 16
}

/// The bottom byte `kk`.
pub open spec fn byte_kk(op: u16) -> u8 {
    (op as int % 256) as u8
}

/// The bottom twelve bits `nnn`, an address.
pub open spec fn addr_nnn(op: u16) -> int {
    op as int % 4096
}

/// Whether `op` is one of the machine's defined operations.
pub open spec fn recognized(op: u16) -> bool {
    let f = family(op);
    let n = nibble(op);
    let kk = byte_kk(op);
    if f == 0 {
        op == 0x00E0 || op == 0x00EE
    } else if f == 5 || f == 9 {
        n == 0
    } else if f == 8 {
        n <= 7 || n == 0xE
    } else if f == 0xE {
        kk == 0x9E || kk == 0xA1
    } else if f == 0xF {
        kk == 0x07 || kk == 0x0A || kk == 0x15 || kk == 0x18 || kk == 0x1E || kk == 0x29
            || kk == 0x33 || kk == 0x55 || kk == 0x65
    } else {
        true
    }
}

/// The big-endian instruction word at `pc`.
pub open spec fn fetch(memory: Seq<u8>, pc: int) -> u16 {
    (memory[pc] as int * 256 + memory[pc + 1] as int) as u16
}

// ---------------------------------------------------------------------------
// Well-formedness

impl MachineState {
    /// The shape of every field, and the invariants the engine keeps: the stack
    /// pointer stays within the stack, every saved return address is a memory
    /// address, and every pixel is 0 or 1.
    pub open spec fn wf(self) -> bool {
        &&& self.v.len() == 16
        &&& self.memory.len() == MEMORY_SIZE
        &&& self.display.len() == DISPLAY_SIZE
        &&& self.stack.len() == STACK_DEPTH
        &&& self.keys.len() == 16
        &&& 0 <= self.index <= usize::MAX
        &&& 0 <= self.pc <= usize::MAX
        &&& 0 <= self.sp <= STACK_DEPTH
        &&& forall|k: int| 0 <= k < self.sp ==> #[trigger] self.stack[k] < MEMORY_SIZE
        &&& forall|p: int| 0 <= p < DISPLAY_SIZE ==> #[trigger] self.display[p] <= 1
    }
}

// ---------------------------------------------------------------------------
// Effects of single operations; `s.pc` is the address of the instruction and
// `s.opcode` the instruction itself.

/// `data` written over `mem` from address `at` on.
pub open spec fn write_block(mem: Seq<u8>, at: int, data: Seq<u8>) -> Seq<u8> {
    Seq::new(mem.len(), |a: int| if at <= a < at + data.len() { data[a - at] } else { mem[a] })
}

/// Go on with the next instruction.
pub open spec fn advance(s: MachineState) -> MachineState {
    MachineState { pc: s.pc + 2, ..s }
}

/// Skip the next instruction when `cond` holds.
pub open spec fn skip_if(s: MachineState, cond: bool) -> MachineState {
    MachineState { pc: if cond { s.pc + 4 } else { s.pc + 2 }, ..s }
}

/// Set register `x` and go on.
pub open spec fn set_reg(s: MachineState, x: int, val: u8) -> MachineState {
    MachineState { v: s.v.update(x, val), pc: s.pc + 2, ..s }
}

/// The register file after an `8xyn` arithmetic or logic operation.
pub open spec fn alu(v: Seq<u8>, x: int, y: int, n: int) -> Seq<u8> {
    let vx = v[x] as int;
    let vy = v[y] as int;
    if n == 0 {
        v.update(x, v[y])
    } else if n == 1 {
        v.update(x, v[x] | v[y])
    } else if n == 2 {
        v.update(x, v[x] & v[y])
    } else if n == 3 {
        v.update(x, v[x] ^ v[y])
    } else if n == 4 {
        let carry = if vx + vy > 255 { 1u8 } else { 0u8 };
        v.update(x, ((vx + vy) % 256) as u8).update(FLAG as int, carry)
    } else if n == 5 {
        let no_borrow = if vx > vy { 1u8 } else { 0u8 };
        v.update(x, ((vx - vy + 256) % 256) as u8).update(FLAG as int, no_borrow)
    } else if n == 6 {
        let w = v.update(FLAG as int, (vx % 2) as u8);
        w.update(x, (w[x] / 2) as u8)
    } else if n == 7 {
        let no_borrow = if vy > vx { 1u8 } else { 0u8 };
        v.update(x, ((vy - vx + 256) % 256) as u8).update(FLAG as int, no_borrow)
    } else {
        let w = v.update(FLAG as int, (vx / 128) as u8);
        w.update(x, ((w[x] as int * 2) % 256) as u8)
    }
}

/// The lowest pressed key from `k` on, or 16 when none is.
pub open spec fn first_pressed(keys: Seq<bool>, k: int) -> int
    decreases 16 - k,
{
    if k >= 16 {
        16
    } else if keys[k] {
        k
    } else {
        first_pressed(keys, k + 1)
    }
}

/// Whether column `col` (0 is the leftmost) of a sprite row is set.
pub open spec fn sprite_bit(row: u8, col: int) -> bool {
    row & (0x80u8 >> (col as u8)) != 0
}

/// Framebuffer cell that column `col` of row `row` of a sprite drawn at `(vx, vy)`
/// lands on: no wrapping and no clipping.
pub open spec fn pixel_pos(vx: u8, vy: u8, row: int, col: int) -> int {
    (vy as int + row) * 64 + vx as int + col
}

/// Whether a set bit of the sprite lands on cell `p`.
pub open spec fn sprite_hits(s: MachineState, vx: u8, vy: u8, n: int, p: int) -> bool {
    let q = p - (vy as int * 64 + vx as int);
    &&& q >= 0
    &&& q / 64 < n
    &&& q % 64 < 8
    &&& sprite_bit(s.memory[s.index + q / 64], q % 64)
}

/// Whether some set bit of the sprite falls outside the framebuffer.
pub open spec fn sprite_off_screen(s: MachineState, vx: u8, vy: u8, n: int) -> bool {
    exists|row: int, col: int|
        0 <= row < n && 0 <= col < 8 && #[trigger] sprite_bit(s.memory[s.index + row], col)
            && pixel_pos(vx, vy, row, col) >= DISPLAY_SIZE
}

/// Whether some set bit of the sprite lands on a lit pixel.
pub open spec fn sprite_collides(s: MachineState, vx: u8, vy: u8, n: int) -> bool {
    exists|row: int, col: int|
        0 <= row < n && 0 <= col < 8 && #[trigger] sprite_bit(s.memory[s.index + row], col)
            && s.display[pixel_pos(vx, vy, row, col)] == 1
}

/// `Dxyn`: XOR the `n`-row sprite at `index` onto the display at `(vx, vy)`, with
/// `vF` telling whether a lit pixel went dark.
pub open spec fn draw(s: MachineState) -> Result<MachineState, Fault> {
    let vx = s.v[reg_x(s.opcode)];
    let vy = s.v[reg_y(s.opcode)];
    let n = nibble(s.opcode);
    if n > 0 && s.index + n > MEMORY_SIZE {
        Err(Fault::MemoryOutOfRange)
    } else if sprite_off_screen(s, vx, vy, n) {
        Err(Fault::DisplayOutOfRange)
    } else {
        Ok(MachineState {
            display: Seq::new(
                DISPLAY_SIZE as nat,
                |p: int| if sprite_hits(s, vx, vy, n, p) { s.display[p] ^ 1u8 } else { s.display[p] },
            ),
            v: s.v.update(FLAG as int, if sprite_collides(s, vx, vy, n) { 1u8 } else { 0u8 }),
            draw_flag: true,
            pc: s.pc + 2,
            ..s
        })
    }
}

/// The three decimal digits of `b`, most significant first.
pub open spec fn decimal_digits(b: u8) -> Seq<u8> {
    seq![b / 100, (b % 100) / 10, b % 10]
}

/// The `Fxkk` operations.
pub open spec fn misc(s: MachineState) -> Result<MachineState, Fault> {
    let x = reg_x(s.opcode);
    let vx = s.v[x];
    let kk = byte_kk(s.opcode);
    if kk == 0x07 {
        Ok(set_reg(s, x, s.delay_timer))
    } else if kk == 0x0A {
        let k = first_pressed(s.keys, 0);
        if k < 16 {
            Ok(set_reg(s, x, k as u8))
        } else {
            Ok(s)
        }
    } else if kk == 0x15 {
        Ok(MachineState { delay_timer: vx, pc: s.pc + 2, ..s })
    } else if kk == 0x18 {
        Ok(MachineState { sound_timer: vx, pc: s.pc + 2, ..s })
    } else if kk == 0x1E {
        if s.index + vx > usize::MAX {
            Err(Fault::IndexOverflow)
        } else {
            Ok(MachineState { index: s.index + vx, pc: s.pc + 2, ..s })
        }
    } else if kk == 0x29 {
        Ok(MachineState { index: vx * 5, pc: s.pc + 2, ..s })
    } else if kk == 0x33 {
        if s.index + 3 > MEMORY_SIZE {
            Err(Fault::MemoryOutOfRange)
        } else {
            let memory = write_block(s.memory, s.index, decimal_digits(vx));
            Ok(MachineState { memory, pc: s.pc + 2, ..s })
        }
    } else if kk == 0x55 {
        if s.index + x + 1 > MEMORY_SIZE {
            Err(Fault::MemoryOutOfRange)
        } else {
            let memory = write_block(s.memory, s.index, s.v.subrange(0, x + 1));
            Ok(MachineState { memory, pc: s.pc + 2, ..s })
        }
    } else {
        if s.index + x + 1 > MEMORY_SIZE {
            Err(Fault::MemoryOutOfRange)
        } else {
            Ok(MachineState {
                v: Seq::new(16, |r: int| if r <= x { s.memory[s.index + r] } else { s.v[r] }),
                pc: s.pc + 2,
                ..s
            })
        }
    }
}

/// The effect of the recognized instruction `s.opcode` at `s.pc`, before the timers
/// tick; `random` is the byte that `Cxkk` masks.
pub open spec fn effect(s: MachineState, random: u8) -> Result<MachineState, Fault> {
    let op = s.opcode;
    let f = family(op);
    let x = reg_x(op);
    let y = reg_y(op);
    let kk = byte_kk(op);
    let nnn = addr_nnn(op);
    if f == 0 {
        if op == 0x00E0 {
            Ok(MachineState {
                display: Seq::new(DISPLAY_SIZE as nat, |p: int| 0u8),
                draw_flag: true,
                pc: s.pc + 2,
                ..s
            })
        } else if s.sp == 0 {
            Err(Fault::StackUnderflow)
        } else {
            Ok(MachineState { sp: s.sp - 1, pc: s.stack[s.sp - 1] + 2, ..s })
        }
    } else if f == 1 {
        Ok(MachineState { pc: nnn, ..s })
    } else if f == 2 {
        if s.sp >= STACK_DEPTH {
            Err(Fault::StackOverflow)
        } else {
            let stack = s.stack.update(s.sp, s.pc as usize);
            Ok(MachineState { stack, sp: s.sp + 1, pc: nnn, ..s })
        }
    } else if f == 3 {
        Ok(skip_if(s, s.v[x] == kk))
    } else if f == 4 {
        Ok(skip_if(s, s.v[x] != kk))
    } else if f == 5 {
        Ok(skip_if(s, s.v[x] == s.v[y]))
    } else if f == 6 {
        Ok(set_reg(s, x, kk))
    } else if f == 7 {
        Ok(set_reg(s, x, ((s.v[x] + kk) % 256) as u8))
    } else if f == 8 {
        Ok(MachineState { v: alu(s.v, x, y, nibble(op)), pc: s.pc + 2, ..s })
    } else if f == 9 {
        Ok(skip_if(s, s.v[x] != s.v[y]))
    } else if f == 0xA {
        Ok(MachineState { index: nnn, pc: s.pc + 2, ..s })
    } else if f == 0xB {
        Ok(MachineState { pc: nnn + s.v[0], ..s })
    } else if f == 0xC {
        Ok(set_reg(s, x, random & kk))
    } else if f == 0xD {
        draw(s)
    } else if f == 0xE {
        if s.v[x] >= 16 {
            Err(Fault::KeyOutOfRange)
        } else {
            Ok(skip_if(s, s.keys[s.v[x] as int] == (kk == 0x9E)))
        }
    } else {
        misc(s)
    }
}

/// Both timers count down by one unless already at zero.
pub open spec fn tick(s: MachineState) -> MachineState {
    MachineState {
        delay_timer: if s.delay_timer > 0 { (s.delay_timer - 1) as u8 } else { 0 },
        sound_timer: if s.sound_timer > 0 { (s.sound_timer - 1) as u8 } else { 0 },
        ..s
    }
}

/// One instruction cycle: fetch at `pc`, decode, execute, tick the timers. A fault
/// leaves the machine as it was; an unrecognized instruction is skipped and reported.
pub open spec fn next(s: MachineState, random: u8) -> Result<(MachineState, Outcome), Fault> {
    if s.pc + 1 >= MEMORY_SIZE {
        Err(Fault::PcOutOfRange)
    } else {
        let op = fetch(s.memory, s.pc);
        let s1 = MachineState { opcode: op, ..s };
        if !recognized(op) {
            Ok((tick(advance(s1)), Outcome::Unrecognized { opcode: op, address: s.pc as usize }))
        } else {
            match effect(s1, random) {
                Ok(t) => Ok((tick(t), Outcome::Executed)),
                Err(f) => Err(f),
            }
        }
    }
}

/// Whether the instruction at `pc` is `Fx15`, the one that loads the delay timer.
pub open spec fn loads_delay(s: MachineState) -> bool {
    let op = fetch(s.memory, s.pc);
    family(op) == 0xF && byte_kk(op) == 0x15
}

/// Whether a cycle's result `r` and the machine after it, `after`, are what `expected`
/// says of the machine `before`: the new state on success, the old one on a fault.
pub open spec fn cycle_matches(
    before: MachineState,
    after: MachineState,
    r: Result<Outcome, Fault>,
    expected: Result<(MachineState, Outcome), Fault>,
) -> bool {
    match expected {
        Ok((t, o)) => r == Ok::<Outcome, Fault>(o) && after == t,
        Err(f) => r == Err::<Outcome, Fault>(f) && after == before,
    }
}

/// The same for one operation, whose result carries no outcome.
pub open spec fn effect_matches(
    before: MachineState,
    after: MachineState,
    r: Result<(), Fault>,
    expected: Result<MachineState, Fault>,
) -> bool {
    match expected {
        Ok(t) => r == Ok::<(), Fault>(()) && after == t,
        Err(f) => r == Err::<(), Fault>(f) && after == before,
    }
}

} // verus!
