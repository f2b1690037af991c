use vstd::prelude::*;

use crate::model::{
    addr_nnn, alu, byte_kk, cycle_matches, decimal_digits, effect, effect_matches, family, fetch,
    first_pressed, font, next, nibble, pixel_pos, recognized, reg_x, reg_y, sprite_bit,
    sprite_collides, sprite_hits, sprite_off_screen, tick, write_block, MachineState, DISPLAY_SIZE,
    DISPLAY_WIDTH, FLAG, MAX_PROGRAM_LEN, MEMORY_SIZE, PROGRAM_START, STACK_DEPTH,
};

verus! {

/// Why a cycle or a load could not be carried out. The machine is left as it was.
#[derive(Clone, Copy, Debug, PartialEq, Eq, Structural)]
pub enum Fault {
    /// The program image does not fit between the program start and the end of memory.
    ProgramTooLarge,
    /// The instruction word at `pc` would be read past the end of memory.
    PcOutOfRange,
    /// `00EE` with an empty call stack.
    StackUnderflow,
    /// `2nnn` with a full call stack.
    StackOverflow,
    /// The instruction reads or writes memory past its end.
    MemoryOutOfRange,
    /// A sprite pixel falls past the end of the framebuffer.
    DisplayOutOfRange,
    /// `Ex9E` or `ExA1` with `vx` naming no key.
    KeyOutOfRange,
    /// `Fx1E` would carry the index register past the largest address.
    IndexOverflow,
}

/// What a completed cycle reports.
#[derive(Clone, Copy, Debug, PartialEq, Eq, Structural)]
pub enum Outcome {
    /// The instruction was executed.
    Executed,
    /// The instruction word at `address` is not a defined operation; it was skipped.
    Unrecognized { opcode: u16, address: usize },
}

/// Whether cell `p` is hit by a set sprite bit at a (row, column) before `(row, col)`.
spec fn drawn_before(s: MachineState, vx: u8, vy: u8, n: int, p: int, row: int, col: int) -> bool {
    let q = p - (vy as int * 64 + vx as int);
    sprite_hits(s, vx, vy, n, p) && (q / 64 < row || (q / 64 == row && q % 64 < col))
}

/// Whether a set sprite bit before `(row, col)` lands on a lit pixel.
spec fn collides_before(s: MachineState, vx: u8, vy: u8, row: int, col: int) -> bool {
    exists|r: int, c: int|
        0 <= r && 0 <= c < 8 && (r < row || (r == row && c < col)) && #[trigger] sprite_bit(
            s.memory[s.index + r],
            c,
        ) && s.display[pixel_pos(vx, vy, r, c)] == 1
}

/// The registers after the first `k` of them were loaded from memory at the index
/// register.
spec fn regs_loaded(s: MachineState, k: int) -> Seq<u8> {
    Seq::new(16, |r: int| if r < k { s.memory[s.index + r] } else { s.v[r] })
}

/// Sprite bit `(r, c)` lands on the cell whose offset from the sprite's origin is `r * 64 + c`.
proof fn lemma_cell_offset(r: int, c: int)
    requires
        0 <= r,
        0 <= c < 64,
    ensures
        (r * 64 + c) / 64 == r,
        (r * 64 + c) % 64 == c,
{
    vstd::arithmetic::div_mod::lemma_fundamental_div_mod_converse(r * 64 + c, 64, r, c);
}

/// Every offset splits into its row and column.
proof fn lemma_offset_split(q: int)
    requires
        0 <= q,
    ensures
        q == (q / 64) * 64 + q % 64,
        0 <= q % 64 < 64,
        0 <= q / 64,
{
    vstd::arithmetic::div_mod::lemma_fundamental_div_mod(q, 64);
}

/// Relies on `rand::random::<u8>`: a byte from the thread-local generator. Nothing is
/// known of its value.
#[verifier::external_body]
fn random_byte() -> (r: u8) {
    rand::random::<u8>()
}

/// A bare CHIP-8 machine.
pub struct Chip8 {
    /// index register
    pub i: usize,
    /// program counter
    pub pc: usize,
    /// the instruction word of the latest cycle
    pub opcode: u16,
    /// registers `v0` to `vF`
    pub v: [u8; 16],
    /// memory
    pub memory: [u8; 4096],
    /// framebuffer, row-major, one cell per pixel
    pub display: [u8; 2048],
    /// set whenever the framebuffer changed; the host clears it
    pub draw_flag: bool,
    /// delay timer
    pub delay_timer: u8,
    /// sound timer
    pub sound_timer: u8,
    /// call stack of return addresses
    pub stack: [usize; 16],
    /// stack pointer: the next free slot
    pub sp: usize,
    /// key pressed -> true
    pub key: [bool; 16],
}

impl View for Chip8 {
    type V = MachineState;

    open spec fn view(&self) -> MachineState {
        MachineState {
            index: self.i as int,
            pc: self.pc as int,
            opcode: self.opcode,
            v: self.v@,
            memory: self.memory@,
            display: self.display@,
            draw_flag: self.draw_flag,
            delay_timer: self.delay_timer,
            sound_timer: self.sound_timer,
            stack: self.stack@,
            sp: self.sp as int,
            keys: self.key@,
        }
    }
}

impl Chip8 {
    /// The invariants that every cycle keeps.
    pub open spec fn wf(&self) -> bool {
        self@.wf()
    }

    /// A machine with all state cleared, the font table at address 0, and both
    /// `pc` and the index register at the program start.
    pub fn new() -> (r: Chip8)
        ensures
            r.wf(),
            r@.index == PROGRAM_START,
            r@.pc == PROGRAM_START,
            r@.opcode == 0,
            r@.v == Seq::new(16, |k: int| 0u8),
            r@.memory == font() + Seq::new((MEMORY_SIZE - 80) as nat, |a: int| 0u8),
            r@.display == Seq::new(DISPLAY_SIZE as nat, |p: int| 0u8),
            !r@.draw_flag,
            r@.delay_timer == 0,
            r@.sound_timer == 0,
            r@.stack == Seq::new(STACK_DEPTH as nat, |k: int| 0usize),
            r@.sp == 0,
            r@.keys == Seq::new(16, |k: int| false),
    {
        let fontset: [u8; 80] = [
            0xF0, 0x90, 0x90, 0x90, 0xF0,  // 0
            0x20, 0x60, 0x20, 0x20, 0x70,  // 1
            0xF0, 0x10, 0xF0, 0x80, 0xF0,  // 2
            0xF0, 0x10, 0xF0, 0x10, 0xF0,  // 3
            0x90, 0x90, 0xF0, 0x10, 0x10,  // 4
            0xF0, 0x80, 0xF0, 0x10, 0xF0,  // 5
            0xF0, 0x80, 0xF0, 0x90, 0xF0,  // 6
            0xF0, 0x10, 0x20, 0x40, 0x40,  // 7
            0xF0, 0x90, 0xF0, 0x90, 0xF0,  // 8
            0xF0, 0x90, 0xF0, 0x10, 0xF0,  // 9
            0xF0, 0x90, 0xF0, 0x90, 0x90,  // A
            0xE0, 0x90, 0xE0, 0x90, 0xE0,  // B
            0xF0, 0x80, 0x80, 0x80, 0xF0,  // C
            0xE0, 0x90, 0x90, 0x90, 0xE0,  // D
            0xF0, 0x80, 0xF0, 0x80, 0xF0,  // E
            0xF0, 0x80, 0xF0, 0x80, 0x80,  // F
        ];
        assert(fontset@ == font());
        let mut memory = [0u8; 4096];
        let ghost zeros = memory@;
        for k in 0..80
            invariant
                fontset@ == font(),
                zeros == Seq::new(MEMORY_SIZE as nat, |a: int| 0u8),
                memory@ == font().subrange(0, k as int) + zeros.subrange(k as int, MEMORY_SIZE as int),
        {
            memory[k] = fontset[k];
            assert(memory@ =~= font().subrange(0, k + 1) + zeros.subrange(k + 1, MEMORY_SIZE as int));
        }
        assert(memory@ =~= font() + Seq::new((MEMORY_SIZE - 80) as nat, |a: int| 0u8));
        let chip8 = Chip8 {
            i: PROGRAM_START,
            pc: PROGRAM_START,
            opcode: 0,
            v: [0; 16],
            memory,
            display: [0; 2048],
            draw_flag: false,
            delay_timer: 0,
            sound_timer: 0,
            stack: [0; 16],
            sp: 0,
            key: [false; 16],
        };
        assert(chip8@.display =~= Seq::new(DISPLAY_SIZE as nat, |p: int| 0u8));
        assert(chip8@.v =~= Seq::new(16, |k: int| 0u8));
        assert(chip8@.stack =~= Seq::new(STACK_DEPTH as nat, |k: int| 0usize));
        assert(chip8@.keys =~= Seq::new(16, |k: int| false));
        chip8
    }

    /// The `nnn` field of the current instruction.
    fn op_nnn(&self) -> (r: u16)
        ensures
            r as int == addr_nnn(self.opcode),
    {
        let op = self.opcode;
        assert(op & 0x0FFF == op % 4096) by (bit_vector);
        op & 0x0FFF
    }

    /// The `kk` field of the current instruction.
    fn op_kk(&self) -> (r: u8)
        ensures
            r == byte_kk(self.opcode),
    {
        let op = self.opcode;
        assert(op & 0x00FF == op % 256) by (bit_vector);
        (op & 0x00FF) as u8
    }

    /// The `x` field of the current instruction.
    fn op_x(&self) -> (r: usize)
        ensures
            r as int == reg_x(self.opcode),
            r < 16,
    {
        let op = self.opcode;
        assert((op & 0x0F00) >> 8 == (op / 256) % 16) by (bit_vector);
        ((op & 0x0F00) >> 8) as usize
    }

    /// The `y` field of the current instruction.
    fn op_y(&self) -> (r: usize)
        ensures
            r as int == reg_y(self.opcode),
            r < 16,
    {
        let op = self.opcode;
        assert((op & 0x00F0) >> 4 == (op / 16) % 16) by (bit_vector);
        ((op & 0x00F0) >> 4) as usize
    }

    /// The `n` field of the current instruction.
    fn op_n(&self) -> (r: u8)
        ensures
            r as int == nibble(self.opcode),
    {
        let op = self.opcode;
        assert(op & 0x000F == op % 16) by (bit_vector);
        (op & 0x000F) as u8
    }

    /// `8xyn`: arithmetic and logic between `vx` and `vy`.
    #[verifier::rlimit(40)]
    fn op_8xxx(&mut self)
        requires
            old(self).pc < MEMORY_SIZE - 1,
            family(old(self).opcode) == 8,
            recognized(old(self).opcode),
        ensures
            effect(old(self)@, 0) == Ok::<MachineState, Fault>(final(self)@),
    {
        let x = self.op_x();
        let y = self.op_y();
        let n = self.op_n();
        let ghost v0 = self.v@;
        if n == 0x0 {
            self.v[x] = self.v[y];
        } else if n == 0x1 {
            self.v[x] = self.v[x] | self.v[y];
        } else if n == 0x2 {
            self.v[x] = self.v[x] & self.v[y];
        } else if n == 0x3 {
            self.v[x] = self.v[x] ^ self.v[y];
        } else if n == 0x4 {
            match self.v[x].checked_add(self.v[y]) {
                Some(sum) => {
                    self.v[x] = sum;
                    self.v[FLAG] = 0;
                },
                None => {
                    self.v[x] = self.v[x].wrapping_add(self.v[y]);
                    self.v[FLAG] = 1;
                },
            }
        } else if n == 0x5 {
            if self.v[x] > self.v[y] {
                self.v[x] = self.v[x] - self.v[y];
                self.v[FLAG] = 1;
            } else {
                self.v[x] = self.v[x].wrapping_sub(self.v[y]);
                self.v[FLAG] = 0;
            }
        } else if n == 0x6 {
            self.v[FLAG] = self.v[x] % 2;
            self.v[x] = self.v[x] / 2;
        } else if n == 0x7 {
            if self.v[y] > self.v[x] {
                self.v[x] = self.v[y] - self.v[x];
                self.v[FLAG] = 1;
            } else {
                self.v[x] = self.v[y].wrapping_sub(self.v[x]);
                self.v[FLAG] = 0;
            }
        } else {
            let vx = self.v[x];
            assert(vx >> 7 == vx / 128) by (bit_vector);
            self.v[FLAG] = vx >> 7;
            self.v[x] = self.v[x].wrapping_mul(2);
        }
        assert(self.v@ =~= alu(v0, x as int, y as int, n as int));
        self.pc = self.pc + 2;
    }

    /// `Fxkk`: timers, key wait, index arithmetic and block moves.
    #[allow(non_snake_case)]
    fn op_Fxxx(&mut self) -> (r: Result<(), Fault>)
        requires
            old(self).pc < MEMORY_SIZE - 1,
            family(old(self).opcode) == 0xF,
            recognized(old(self).opcode),
        ensures
            effect_matches(old(self)@, final(self)@, r, effect(old(self)@, 0)),
    {
        let ghost s = self@;
        let x = self.op_x();
        let kk = self.op_kk();
        if kk == 0x07 {
            self.v[x] = self.delay_timer;
            self.pc = self.pc + 2;
        } else if kk == 0x0A {
            let mut k: usize = 0;
            while k < 16 && !self.key[k]
                invariant
                    0 <= k <= 16,
                    self@ == s,
                    first_pressed(s.keys, 0) == first_pressed(s.keys, k as int),
                decreases 16 - k,
            {
                k = k + 1;
            }
            if k < 16 {
                self.v[x] = k as u8;
                self.pc = self.pc + 2;
            }
        } else if kk == 0x15 {
            self.delay_timer = self.v[x];
            self.pc = self.pc + 2;
        } else if kk == 0x18 {
            self.sound_timer = self.v[x];
            self.pc = self.pc + 2;
        } else if kk == 0x1E {
            match self.i.checked_add(self.v[x] as usize) {
                Some(i) => {
                    self.i = i;
                    self.pc = self.pc + 2;
                },
                None => {
                    return Err(Fault::IndexOverflow);
                },
            }
        } else if kk == 0x29 {
            self.i = self.v[x] as usize * 5;
            self.pc = self.pc + 2;
        } else if kk == 0x33 {
            if self.i > MEMORY_SIZE - 3 {
                return Err(Fault::MemoryOutOfRange);
            }
            let vx = self.v[x];
            let i = self.i;
            self.memory[i] = vx / 100;
            self.memory[i + 1] = (vx % 100) / 10;
            self.memory[i + 2] = vx % 10;
            self.pc = self.pc + 2;
            assert(self@.memory =~= write_block(s.memory, s.index, decimal_digits(vx)));
        } else if kk == 0x55 {
            if self.i > MEMORY_SIZE - 1 - x {
                return Err(Fault::MemoryOutOfRange);
            }
            let i = self.i;
            for k in 0..x + 1
                invariant
                    self.i == i,
                    s.index == i,
                    x < 16,
                    i + x + 1 <= MEMORY_SIZE,
                    self@ == (MachineState {
                        memory: write_block(s.memory, s.index, s.v.subrange(0, k as int)),
                        ..s
                    }),
            {
                self.memory[i + k] = self.v[k];
                assert(self@ =~= (MachineState {
                    memory: write_block(s.memory, s.index, s.v.subrange(0, k + 1)),
                    ..s
                }));
            }
            self.pc = self.pc + 2;
        } else {
            if self.i > MEMORY_SIZE - 1 - x {
                return Err(Fault::MemoryOutOfRange);
            }
            let i = self.i;
            for k in 0..x + 1
                invariant
                    self.i == i,
                    s.index == i,
                    x < 16,
                    i + x + 1 <= MEMORY_SIZE,
                    self@ == (MachineState { v: regs_loaded(s, k as int), ..s }),
            {
                self.v[k] = self.memory[i + k];
                assert(self@ =~= (MachineState { v: regs_loaded(s, k + 1), ..s }));
            }
            assert(self@.v =~= regs_loaded(s, x + 1));
            self.pc = self.pc + 2;
        }
        assert(self@ =~= effect(s, 0)->Ok_0);
        Ok(())
    }

    /// `Dxyn`: XOR an `n`-row sprite from memory at the index register onto the
    /// framebuffer at `(vx, vy)`; `vF` tells whether a lit pixel went dark.
    #[allow(non_snake_case)]
    #[verifier::rlimit(60)]
    fn op_Dxxx(&mut self) -> (r: Result<(), Fault>)
        requires
            old(self).pc < MEMORY_SIZE - 1,
            family(old(self).opcode) == 0xD,
        ensures
            effect_matches(old(self)@, final(self)@, r, effect(old(self)@, 0)),
    {
        let ghost s = self@;
        let vx = self.v[self.op_x()];
        let vy = self.v[self.op_y()];
        let n = self.op_n() as usize;
        let i = self.i;
        if n > 0 && i > MEMORY_SIZE - n {
            return Err(Fault::MemoryOutOfRange);
        }
        // every set bit must land on the framebuffer
        let mut row: usize = 0;
        while row < n
            invariant
                s == old(self)@,
                family(s.opcode) == 0xD,
                self@ == s,
                s.index == i,
                vx == s.v[reg_x(s.opcode)],
                vy == s.v[reg_y(s.opcode)],
                n == nibble(s.opcode),
                n < 16,
                n > 0 ==> i + n <= MEMORY_SIZE,
                row <= n,
                forall|r: int, c: int|
                    0 <= r < row && 0 <= c < 8 && #[trigger] sprite_bit(s.memory[s.index + r], c)
                        ==> pixel_pos(vx, vy, r, c) < DISPLAY_SIZE,
            decreases n - row,
        {
            let bits = self.memory[i + row];
            let mut col: usize = 0;
            while col < 8
                invariant
                    s == old(self)@,
                    family(s.opcode) == 0xD,
                family(s.opcode) == 0xD,
                    self@ == s,
                    s.index == i,
                    vx == s.v[reg_x(s.opcode)],
                    vy == s.v[reg_y(s.opcode)],
                    n == nibble(s.opcode),
                vx == s.v[reg_x(s.opcode)],
                vy == s.v[reg_y(s.opcode)],
                n == nibble(s.opcode),
                    row < n,
                    i + n <= MEMORY_SIZE,
                    bits == s.memory[s.index + row],
                    col <= 8,
                    forall|r: int, c: int|
                        0 <= r < row && 0 <= c < 8 && #[trigger] sprite_bit(s.memory[s.index + r], c)
                            ==> pixel_pos(vx, vy, r, c) < DISPLAY_SIZE,
                    forall|c: int|
                        0 <= c < col && #[trigger] sprite_bit(s.memory[s.index + row], c)
                            ==> pixel_pos(vx, vy, row as int, c) < DISPLAY_SIZE,
                decreases 8 - col,
            {
                if bits & (0x80u8 >> (col as u8)) != 0 && (vy as usize + row) * DISPLAY_WIDTH + vx as usize + col
                    >= DISPLAY_SIZE {
                    assert(sprite_bit(s.memory[s.index + row], col as int));
                    return Err(Fault::DisplayOutOfRange);
                }
                col = col + 1;
            }
            row = row + 1;
        }
        assert(!sprite_off_screen(s, vx, vy, n as int));
        let mut collided = false;
        let mut row: usize = 0;
        while row < n
            invariant
                s.index == i,
                vx == s.v[reg_x(s.opcode)],
                vy == s.v[reg_y(s.opcode)],
                n == nibble(s.opcode),
                n < 16,
                n > 0 ==> i + n <= MEMORY_SIZE,
                row <= n,
                !sprite_off_screen(s, vx, vy, n as int),
                self@ == (MachineState {
                    display: Seq::new(
                        DISPLAY_SIZE as nat,
                        |p: int|
                            if drawn_before(s, vx, vy, n as int, p, row as int, 0) {
                                s.display[p] ^ 1u8
                            } else {
                                s.display[p]
                            },
                    ),
                    ..s
                }),
                collided == collides_before(s, vx, vy, row as int, 0),
            decreases n - row,
        {
            let bits = self.memory[i + row];
            let mut col: usize = 0;
            while col < 8
                invariant
                    s.index == i,
                    vx == s.v[reg_x(s.opcode)],
                    vy == s.v[reg_y(s.opcode)],
                    n == nibble(s.opcode),
                vx == s.v[reg_x(s.opcode)],
                vy == s.v[reg_y(s.opcode)],
                n == nibble(s.opcode),
                    row < n,
                    i + n <= MEMORY_SIZE,
                    bits == s.memory[s.index + row],
                    col <= 8,
                    !sprite_off_screen(s, vx, vy, n as int),
                    self@ == (MachineState {
                        display: Seq::new(
                            DISPLAY_SIZE as nat,
                            |p: int|
                                if drawn_before(s, vx, vy, n as int, p, row as int, col as int) {
                                    s.display[p] ^ 1u8
                                } else {
                                    s.display[p]
                                },
                        ),
                        ..s
                    }),
                    collided == collides_before(s, vx, vy, row as int, col as int),
                decreases 8 - col,
            {
                let ghost before = self@.display;
                let ghost was = collided;
                if bits & (0x80u8 >> (col as u8)) != 0 {
                    assert(sprite_bit(s.memory[s.index + row], col as int));
                    let pos = (vy as usize + row) * DISPLAY_WIDTH + vx as usize + col;
                    proof {
                        lemma_cell_offset(row as int, col as int);
                        assert(!drawn_before(s, vx, vy, n as int, pos as int, row as int, col as int));
                    }
                    if self.display[pos] == 1 {
                        collided = true;
                    }
                    self.display[pos] = self.display[pos] ^ 1;
                }
                proof {
                    assert forall|p: int| 0 <= p < DISPLAY_SIZE implies
                        drawn_before(s, vx, vy, n as int, p, row as int, col + 1)
                            == (drawn_before(s, vx, vy, n as int, p, row as int, col as int)
                                || p == pixel_pos(vx, vy, row as int, col as int) && sprite_bit(
                                s.memory[s.index + row],
                                col as int,
                            )) by {
                        let q = p - (vy as int * 64 + vx as int);
                        if q >= 0 {
                            lemma_offset_split(q);
                        }
                        lemma_cell_offset(row as int, col as int);
                    }
                    assert(self@.display =~= Seq::new(
                        DISPLAY_SIZE as nat,
                        |p: int|
                            if drawn_before(s, vx, vy, n as int, p, row as int, col + 1) {
                                s.display[p] ^ 1u8
                            } else {
                                s.display[p]
                            },
                    ));
                    if collides_before(s, vx, vy, row as int, col + 1) {
                        let (r, c) = choose|r: int, c: int|
                            0 <= r && 0 <= c < 8 && (r < row || (r == row && c < col + 1))
                                && #[trigger] sprite_bit(s.memory[s.index + r], c)
                                && s.display[pixel_pos(vx, vy, r, c)] == 1;
                        if !(r == row && c == col) {
                            assert(collides_before(s, vx, vy, row as int, col as int));
                        }
                    }
                    if collides_before(s, vx, vy, row as int, col as int) {
                        let (r, c) = choose|r: int, c: int|
                            0 <= r && 0 <= c < 8 && (r < row || (r == row && c < col))
                                && #[trigger] sprite_bit(s.memory[s.index + r], c)
                                && s.display[pixel_pos(vx, vy, r, c)] == 1;
                        assert(collides_before(s, vx, vy, row as int, col + 1));
                    }
                }
                col = col + 1;
            }
            proof {
                assert forall|p: int| 0 <= p < DISPLAY_SIZE implies
                    drawn_before(s, vx, vy, n as int, p, row as int, 8)
                        == drawn_before(s, vx, vy, n as int, p, row + 1, 0) by {
                    let q = p - (vy as int * 64 + vx as int);
                    if q >= 0 {
                        lemma_offset_split(q);
                    }
                }
                assert(self@.display =~= Seq::new(
                    DISPLAY_SIZE as nat,
                    |p: int|
                        if drawn_before(s, vx, vy, n as int, p, row + 1, 0) {
                            s.display[p] ^ 1u8
                        } else {
                            s.display[p]
                        },
                ));
                if collides_before(s, vx, vy, row as int, 8) {
                    let (r, c) = choose|r: int, c: int|
                        0 <= r && 0 <= c < 8 && (r < row || (r == row && c < 8))
                            && #[trigger] sprite_bit(s.memory[s.index + r], c)
                            && s.display[pixel_pos(vx, vy, r, c)] == 1;
                    assert(collides_before(s, vx, vy, row + 1, 0));
                }
                if collides_before(s, vx, vy, row + 1, 0) {
                    let (r, c) = choose|r: int, c: int|
                        0 <= r && 0 <= c < 8 && (r < row + 1 || (r == row + 1 && c < 0))
                            && #[trigger] sprite_bit(s.memory[s.index + r], c)
                            && s.display[pixel_pos(vx, vy, r, c)] == 1;
                    assert(collides_before(s, vx, vy, row as int, 8));
                }
            }
            row = row + 1;
        }
        self.v[FLAG] = if collided { 1 } else { 0 };
        self.draw_flag = true;
        self.pc = self.pc + 2;
        proof {
            assert forall|p: int| 0 <= p < DISPLAY_SIZE implies
                drawn_before(s, vx, vy, n as int, p, n as int, 0)
                    == sprite_hits(s, vx, vy, n as int, p) by {}
            if collided {
                let (r, c) = choose|r: int, c: int|
                    0 <= r && 0 <= c < 8 && (r < n || (r == n && c < 0))
                        && #[trigger] sprite_bit(s.memory[s.index + r], c)
                        && s.display[pixel_pos(vx, vy, r, c)] == 1;
                assert(sprite_collides(s, vx, vy, n as int));
            }
            if sprite_collides(s, vx, vy, n as int) {
                let (r, c) = choose|r: int, c: int|
                    0 <= r < n && 0 <= c < 8 && #[trigger] sprite_bit(s.memory[s.index + r], c)
                        && s.display[pixel_pos(vx, vy, r, c)] == 1;
                assert(collides_before(s, vx, vy, n as int, 0));
            }
            assert(self@ =~= effect(s, 0)->Ok_0);
        }
        Ok(())
    }

    /// The instruction family, the top nibble of the current instruction.
    fn op_family(&self) -> (r: u16)
        ensures
            r as int == family(self.opcode),
    {
        let op = self.opcode;
        assert(op >> 12 == op / 4096) by (bit_vector);
        op >> 12
    }

    /// Whether the current instruction is a defined operation.
    fn op_recognized(&self) -> (r: bool)
        ensures
            r == recognized(self.opcode),
    {
        let f = self.op_family();
        let n = self.op_n();
        let kk = self.op_kk();
        if f == 0 {
            self.opcode == 0x00E0 || self.opcode == 0x00EE
        } else if f == 5 || f == 9 {
            n == 0
        } else if f == 8 {
            n <= 7 || n == 0xE
        } else if f == 0xE {
            kk == 0x9E || kk == 0xA1
        } else if f == 0xF {
            kk == 0x07 || kk == 0x0A || kk == 0x15 || kk == 0x18 || kk == 0x1E || kk == 0x29
                || kk == 0x33 || kk == 0x55 || kk == 0x65
        } else {
            true
        }
    }

    /// `00E0` clears the framebuffer; `00EE` returns from a subroutine.
    fn op_0xxx(&mut self) -> (r: Result<(), Fault>)
        requires
            old(self).wf(),
            old(self).pc < MEMORY_SIZE - 1,
            family(old(self).opcode) == 0,
            recognized(old(self).opcode),
        ensures
            effect_matches(old(self)@, final(self)@, r, effect(old(self)@, 0)),
    {
        let ghost s = self@;
        if self.opcode == 0x00E0 {
            for p in 0..DISPLAY_SIZE
                invariant
                    self@ == (MachineState {
                        display: Seq::new(DISPLAY_SIZE as nat, |q: int| if q < p { 0u8 } else { s.display[q] }),
                        ..s
                    }),
            {
                self.display[p] = 0;
                assert(self@.display =~= Seq::new(
                    DISPLAY_SIZE as nat,
                    |q: int| if q < p + 1 { 0u8 } else { s.display[q] },
                ));
            }
            self.draw_flag = true;
            self.pc = self.pc + 2;
            assert(self@ =~= effect(s, 0)->Ok_0);
        } else {
            if self.sp == 0 {
                return Err(Fault::StackUnderflow);
            }
            self.sp = self.sp - 1;
            self.pc = self.stack[self.sp] + 2;
        }
        Ok(())
    }

    /// `1nnn`: jump to `nnn`.
    fn op_1xxx(&mut self)
        requires
            family(old(self).opcode) == 1,
        ensures
            effect(old(self)@, 0) == Ok::<MachineState, Fault>(final(self)@),
    {
        self.pc = self.op_nnn() as usize;
    }

    /// `2nnn`: call the subroutine at `nnn`.
    fn op_2xxx(&mut self) -> (r: Result<(), Fault>)
        requires
            family(old(self).opcode) == 2,
            old(self).sp <= STACK_DEPTH,
        ensures
            effect_matches(old(self)@, final(self)@, r, effect(old(self)@, 0)),
    {
        if self.sp >= STACK_DEPTH {
            return Err(Fault::StackOverflow);
        }
        self.stack[self.sp] = self.pc;
        self.sp = self.sp + 1;
        self.pc = self.op_nnn() as usize;
        Ok(())
    }

    /// `3xkk`: skip the next instruction if `vx == kk`.
    fn op_3xxx(&mut self)
        requires
            old(self).pc < MEMORY_SIZE - 1,
            family(old(self).opcode) == 3,
        ensures
            effect(old(self)@, 0) == Ok::<MachineState, Fault>(final(self)@),
    {
        if self.v[self.op_x()] == self.op_kk() {
            self.pc = self.pc + 2;
        }
        self.pc = self.pc + 2;
    }

    /// `4xkk`: skip the next instruction if `vx != kk`.
    fn op_4xxx(&mut self)
        requires
            old(self).pc < MEMORY_SIZE - 1,
            family(old(self).opcode) == 4,
        ensures
            effect(old(self)@, 0) == Ok::<MachineState, Fault>(final(self)@),
    {
        if self.v[self.op_x()] != self.op_kk() {
            self.pc = self.pc + 2;
        }
        self.pc = self.pc + 2;
    }

    /// `5xy0`: skip the next instruction if `vx == vy`.
    fn op_5xxx(&mut self)
        requires
            old(self).pc < MEMORY_SIZE - 1,
            family(old(self).opcode) == 5,
        ensures
            effect(old(self)@, 0) == Ok::<MachineState, Fault>(final(self)@),
    {
        if self.v[self.op_x()] == self.v[self.op_y()] {
            self.pc = self.pc + 2;
        }
        self.pc = self.pc + 2;
    }

    /// `6xkk`: `vx := kk`.
    fn op_6xxx(&mut self)
        requires
            old(self).pc < MEMORY_SIZE - 1,
            family(old(self).opcode) == 6,
        ensures
            effect(old(self)@, 0) == Ok::<MachineState, Fault>(final(self)@),
    {
        let x = self.op_x();
        self.v[x] = self.op_kk();
        self.pc = self.pc + 2;
    }

    /// `7xkk`: `vx := vx + kk`, wrapping.
    fn op_7xxx(&mut self)
        requires
            old(self).pc < MEMORY_SIZE - 1,
            family(old(self).opcode) == 7,
        ensures
            effect(old(self)@, 0) == Ok::<MachineState, Fault>(final(self)@),
    {
        let x = self.op_x();
        self.v[x] = self.v[x].wrapping_add(self.op_kk());
        self.pc = self.pc + 2;
    }

    /// `9xy0`: skip the next instruction if `vx != vy`.
    fn op_9xxx(&mut self)
        requires
            old(self).pc < MEMORY_SIZE - 1,
            family(old(self).opcode) == 9,
        ensures
            effect(old(self)@, 0) == Ok::<MachineState, Fault>(final(self)@),
    {
        if self.v[self.op_x()] != self.v[self.op_y()] {
            self.pc = self.pc + 2;
        }
        self.pc = self.pc + 2;
    }

    /// `Annn`: `index := nnn`.
    #[allow(non_snake_case)]
    fn op_Axxx(&mut self)
        requires
            old(self).pc < MEMORY_SIZE - 1,
            family(old(self).opcode) == 0xA,
        ensures
            effect(old(self)@, 0) == Ok::<MachineState, Fault>(final(self)@),
    {
        self.i = self.op_nnn() as usize;
        self.pc = self.pc + 2;
    }

    /// `Bnnn`: jump to `nnn + v0`.
    #[allow(non_snake_case)]
    fn op_Bxxx(&mut self)
        requires
            family(old(self).opcode) == 0xB,
        ensures
            effect(old(self)@, 0) == Ok::<MachineState, Fault>(final(self)@),
    {
        self.pc = self.op_nnn() as usize + self.v[0] as usize;
    }

    /// `Cxkk`: `vx := random & kk`.
    #[allow(non_snake_case)]
    fn op_Cxxx(&mut self, random: u8)
        requires
            old(self).pc < MEMORY_SIZE - 1,
            family(old(self).opcode) == 0xC,
        ensures
            effect(old(self)@, random) == Ok::<MachineState, Fault>(final(self)@),
    {
        let x = self.op_x();
        self.v[x] = random & self.op_kk();
        self.pc = self.pc + 2;
    }

    /// `Ex9E` / `ExA1`: skip the next instruction if key `vx` is / is not pressed.
    #[allow(non_snake_case)]
    fn op_Exxx(&mut self) -> (r: Result<(), Fault>)
        requires
            old(self).pc < MEMORY_SIZE - 1,
            family(old(self).opcode) == 0xE,
            recognized(old(self).opcode),
        ensures
            effect_matches(old(self)@, final(self)@, r, effect(old(self)@, 0)),
    {
        let k = self.v[self.op_x()];
        if k >= 16 {
            return Err(Fault::KeyOutOfRange);
        }
        if self.key[k as usize] == (self.op_kk() == 0x9E) {
            self.pc = self.pc + 2;
        }
        self.pc = self.pc + 2;
        Ok(())
    }

    /// One instruction cycle, with `random` as the byte that `Cxkk` masks: fetch the
    /// instruction at `pc`, execute it, and tick both timers. On a fault the machine
    /// is left as it was; an unrecognized instruction is skipped and reported.
    pub fn step_with(&mut self, random: u8) -> (r: Result<Outcome, Fault>)
        requires
            old(self).wf(),
        ensures
            cycle_matches(old(self)@, final(self)@, r, next(old(self)@, random)),
            final(self).wf(),
    {
        if self.pc >= MEMORY_SIZE - 1 {
            return Err(Fault::PcOutOfRange);
        }
        let ghost s = self@;
        let saved = self.opcode;
        let hi = self.memory[self.pc];
        let lo = self.memory[self.pc + 1];
        assert((hi as u16) << 8 | (lo as u16) == (hi as int * 256 + lo as int) as u16) by (bit_vector);
        self.opcode = (hi as u16) << 8 | (lo as u16);
        let ghost s1 = self@;
        assert(s1 == (MachineState { opcode: fetch(s.memory, s.pc), ..s }));
        if !self.op_recognized() {
            let address = self.pc;
            self.pc = self.pc + 2;
            self.tick_timers();
            proof {
                crate::laws::step_preserves_wf(s, random);
            }
            return Ok(Outcome::Unrecognized { opcode: self.opcode, address });
        }
        let f = self.op_family();
        let done = if f == 0x0 {
            self.op_0xxx()
        } else if f == 0x1 {
            self.op_1xxx();
            Ok(())
        } else if f == 0x2 {
            self.op_2xxx()
        } else if f == 0x3 {
            self.op_3xxx();
            Ok(())
        } else if f == 0x4 {
            self.op_4xxx();
            Ok(())
        } else if f == 0x5 {
            self.op_5xxx();
            Ok(())
        } else if f == 0x6 {
            self.op_6xxx();
            Ok(())
        } else if f == 0x7 {
            self.op_7xxx();
            Ok(())
        } else if f == 0x8 {
            self.op_8xxx();
            Ok(())
        } else if f == 0x9 {
            self.op_9xxx();
            Ok(())
        } else if f == 0xA {
            self.op_Axxx();
            Ok(())
        } else if f == 0xB {
            self.op_Bxxx();
            Ok(())
        } else if f == 0xC {
            self.op_Cxxx(random);
            Ok(())
        } else if f == 0xD {
            self.op_Dxxx()
        } else if f == 0xE {
            self.op_Exxx()
        } else {
            self.op_Fxxx()
        };
        proof {
            assert(effect_matches(s1, self@, done, effect(s1, random)));
        }
        if let Err(fault) = done {
            self.opcode = saved;
            assert(self@ =~= s);
            return Err(fault);
        }
        self.tick_timers();
        proof {
            crate::laws::step_preserves_wf(s, random);
        }
        Ok(Outcome::Executed)
    }

    /// Both timers count down by one unless already at zero.
    fn tick_timers(&mut self)
        ensures
            final(self)@ == tick(old(self)@),
    {
        if self.sound_timer > 0 {
            self.sound_timer = self.sound_timer - 1;
        }
        if self.delay_timer > 0 {
            self.delay_timer = self.delay_timer - 1;
        }
    }

    /// One instruction cycle; the byte that `Cxkk` masks comes from the thread-local
    /// random generator. Whatever byte that is, the cycle is the one `step_with`
    /// performs with it.
    pub fn update(&mut self) -> (r: Result<Outcome, Fault>)
        requires
            old(self).wf(),
        ensures
            final(self).wf(),
            exists|b: u8| cycle_matches(old(self)@, final(self)@, r, #[trigger] next(old(self)@, b)),
    {
        let b: u8 = if self.pc < MEMORY_SIZE - 1 && self.memory[self.pc] / 16 == 0xC {
            random_byte()
        } else {
            0
        };
        let r = self.step_with(b);
        assert(cycle_matches(old(self)@, self@, r, next(old(self)@, b)));
        r
    }

    /// Copies a program image into memory from the program start on, leaving all
    /// other state alone. An image longer than `MAX_PROGRAM_LEN` is refused and
    /// nothing is written.
    pub fn load(&mut self, program: &[u8]) -> (r: Result<(), Fault>)
        ensures
            program@.len() > MAX_PROGRAM_LEN ==> r == Err::<(), Fault>(Fault::ProgramTooLarge)
                && final(self)@ == old(self)@,
            program@.len() <= MAX_PROGRAM_LEN ==> r == Ok::<(), Fault>(()) && final(self)@ == (
            MachineState {
                memory: write_block(old(self)@.memory, PROGRAM_START as int, program@),
                ..old(self)@
            }),
            old(self).wf() ==> final(self).wf(),
    {
        let len_prog = program.len();
        if len_prog > MAX_PROGRAM_LEN {
            return Err(Fault::ProgramTooLarge);
        }
        let ghost s = self@;
        for k in 0..len_prog
            invariant
                len_prog == program@.len(),
                len_prog <= MAX_PROGRAM_LEN,
                self@ == (MachineState {
                    memory: write_block(s.memory, PROGRAM_START as int, program@.subrange(0, k as int)),
                    ..s
                }),
        {
            self.memory[k + PROGRAM_START] = program[k];
            assert(self@.memory =~= write_block(
                s.memory,
                PROGRAM_START as int,
                program@.subrange(0, k + 1),
            ));
        }
        assert(program@.subrange(0, len_prog as int) =~= program@);
        Ok(())
    }

    /// Read-only view of the framebuffer.
    pub fn get_display(&self) -> (r: &[u8; 2048])
        ensures
            r@ == self@.display,
    {
        &self.display
    }

    /// Whether the machine is sounding: the sound timer is running.
    pub fn get_sound(&self) -> (r: bool)
        ensures
            r == (self.sound_timer > 0),
    {
        self.sound_timer > 0
    }
}

} // verus!
