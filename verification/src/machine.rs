//! The machine state and its fetch-decode-execute cycle.

use crate::display::{
    blank_grid, get_empty_grid, lemma_mask_prefix_clear, lemma_mask_prefix_edge,
    lemma_mask_prefix_end, lemma_mask_prefix_set, lemma_mask_prefix_start, sprite_bit,
    sprite_mask, sprite_mask_prefix,
};
use crate::instruction::{decode_spec, opcode_of, Instruction, Operation};
use vstd::prelude::*;

verus! {

/// Addressable bytes of memory.
pub const MEMORY_SIZE: usize = 4096;

/// Where a program is loaded and where execution starts.
pub const PROGRAM_START: usize = 0x200;

/// General-purpose registers.
pub const REGISTER_COUNT: usize = 16;

/// The register that doubles as the collision flag.
pub const FLAG_REGISTER: usize = 0xF;

/// The mathematical model of a machine: what a `Chip8State` holds.
pub struct Machine {
    /// 32 row words, the leftmost pixel in the most significant bit.
    pub display: Seq<u64>,
    /// 4096 bytes.
    pub memory: Seq<u8>,
    /// 16 registers.
    pub v: Seq<u8>,
    /// The program counter.
    pub pc: u16,
    /// The index register.
    pub i: u16,
}

impl Machine {
    /// The three banks have their fixed sizes.
    pub open spec fn wf(self) -> bool {
        &&& self.display.len() == 32
        &&& self.memory.len() == 4096
        &&& self.v.len() == 16
    }

    /// A machine at creation: everything zero, the screen blank, the program
    /// counter at the program start.
    pub open spec fn initial() -> Machine {
        Machine {
            display: blank_grid(),
            memory: Seq::new(4096, |a: int| 0u8),
            v: Seq::new(16, |k: int| 0u8),
            pc: 0x200,
            i: 0,
        }
    }

    /// Whether a program of `len` bytes fits between the program start and the
    /// end of memory.
    pub open spec fn rom_fits(len: nat) -> bool {
        0x200 + len <= 4096
    }

    /// The machine with `rom` copied to the program start and nothing else
    /// changed.
    pub open spec fn with_rom(self, rom: Seq<u8>) -> Machine {
        Machine {
            memory: Seq::new(
                4096,
                |a: int|
                    if 0x200 <= a < 0x200 + rom.len() {
                        rom[a - 0x200]
                    } else {
                        self.memory[a]
                    },
            ),
            ..self
        }
    }

    /// Whether both bytes of the instruction at `pc` lie in memory.
    pub open spec fn can_fetch(self) -> bool {
        self.pc + 1 < 4096
    }

    /// The opcode at `pc`.
    pub open spec fn fetched(self) -> u16 {
        opcode_of(self.memory[self.pc as int], self.memory[self.pc + 1])
    }

    /// The machine with the program counter moved past one instruction.
    pub open spec fn advanced(self) -> Machine {
        Machine { pc: (self.pc + 2) as u16, ..self }
    }

    /// The column of a sprite's leftmost pixel: `v[x]` wrapped to the screen.
    pub open spec fn x_start(self, x: u8) -> u8 {
        self.v[x as int] & 63
    }

    /// The row of a sprite's topmost pixel: `v[y]` wrapped to the screen.
    pub open spec fn y_start(self, y: u8) -> u8 {
        self.v[y as int] & 31
    }

    /// How many rows of an `n`-row sprite land on the screen: those above the
    /// lower edge.
    pub open spec fn rows_drawn(self, y: u8, n: u8) -> int {
        if n <= 32 - self.y_start(y) {
            n as int
        } else {
            32 - self.y_start(y)
        }
    }

    /// How many sprite bytes a draw reads: one for each row drawn, and one
    /// more where the sprite passes the lower edge, read before the edge is
    /// noticed.
    pub open spec fn rows_read(self, y: u8, n: u8) -> int {
        if n <= 32 - self.y_start(y) {
            n as int
        } else {
            33 - self.y_start(y)
        }
    }

    /// Whether every sprite byte that a draw reads lies in memory.
    pub open spec fn sprite_in_bounds(self, y: u8, n: u8) -> bool {
        self.i + self.rows_read(y, n) <= 4096
    }

    /// The first address outside memory that an access starting at `start`
    /// and running upward reaches.
    pub open spec fn fault_address(start: u16) -> usize {
        if start >= 4096 {
            start as usize
        } else {
            4096
        }
    }

    /// The pixels that row `row` of the sprite at `i` covers.
    pub open spec fn sprite_row(self, x: u8, row: int) -> u64 {
        sprite_mask(self.memory[self.i + row], self.x_start(x))
    }

    /// Whether row `row` of the sprite has a set pixel where the screen has
    /// one already.
    pub open spec fn row_collides(self, x: u8, y: u8, row: int) -> bool {
        self.display[self.y_start(y) + row] & self.sprite_row(x, row) != 0
    }

    /// Whether any of the first `rows` rows of the sprite collides.
    pub open spec fn collides_within(self, x: u8, y: u8, rows: int) -> bool {
        exists|row: int| 0 <= row < rows && #[trigger] self.row_collides(x, y, row)
    }

    /// Whether any row of the sprite that lands on the screen collides.
    pub open spec fn collides(self, x: u8, y: u8, n: u8) -> bool {
        self.collides_within(x, y, self.rows_drawn(y, n))
    }

    /// The screen after the first `rows` rows of the sprite are drawn by XOR.
    pub open spec fn display_after(self, x: u8, y: u8, rows: int) -> Seq<u64> {
        Seq::new(
            32,
            |r: int|
                if self.y_start(y) <= r < self.y_start(y) + rows {
                    self.display[r] ^ self.sprite_row(x, r - self.y_start(y))
                } else {
                    self.display[r]
                },
        )
    }

    /// Whether the sprite has a set pixel that lands on screen pixel
    /// `(px, py)`: the pixel lies in a row that is drawn, not left of the
    /// sprite, and within its eight columns.
    pub open spec fn sprite_covers(self, x: u8, y: u8, n: u8, px: int, py: int) -> bool {
        &&& 0 <= py - self.y_start(y) < self.rows_drawn(y, n)
        &&& 0 <= px < 64
        &&& sprite_bit(self.memory[self.i + (py - self.y_start(y))], px - self.x_start(x))
    }

    /// Whether any row of the sprite that lands on the screen has a set pixel
    /// left of the right edge.
    pub open spec fn sprite_visible(self, x: u8, y: u8, n: u8) -> bool {
        exists|row: int| 0 <= row < self.rows_drawn(y, n) && #[trigger] self.sprite_row(x, row) != 0
    }

    /// The machine after the sprite is drawn: the rows on the screen XORed
    /// with the sprite, the flag register 1 on a collision and 0 otherwise.
    pub open spec fn drawn(self, x: u8, y: u8, n: u8) -> Machine {
        Machine {
            display: self.display_after(x, y, self.rows_drawn(y, n)),
            v: self.v.update(
                15,
                if self.collides(x, y, n) {
                    1u8
                } else {
                    0u8
                },
            ),
            ..self
        }
    }

    /// Whether an operation can run without reaching outside memory.
    pub open spec fn can_execute(self, op: Operation) -> bool {
        match op {
            Operation::DrawSprite { x, y, n } => self.sprite_in_bounds(y, n),
            _ => true,
        }
    }

    /// Whether an operation is a skip whose condition holds, so that it moves
    /// the program counter.
    pub open spec fn takes_skip(self, op: Operation) -> bool {
        match op {
            Operation::SkipIfEqual { x, nn } => self.v[x as int] == nn,
            Operation::SkipIfNotEqual { x, nn } => self.v[x as int] != nn,
            _ => false,
        }
    }

    /// Whether the program counter leaves room for the skip that an
    /// operation takes: the counter has 16 bits.
    pub open spec fn has_room_for(self, op: Operation) -> bool {
        self.takes_skip(op) ==> self.pc + 2 <= 0xFFFF
    }

    /// The machine after an operation. Clear-screen and jump are recognised
    /// and change nothing; neither does an unknown opcode.
    pub open spec fn executed(self, op: Operation) -> Machine {
        match op {
            Operation::ClearScreen => self,
            Operation::Jump { nnn } => self,
            Operation::SkipIfEqual { x, nn } => if self.takes_skip(op) {
                self.advanced()
            } else {
                self
            },
            Operation::SkipIfNotEqual { x, nn } => if self.takes_skip(op) {
                self.advanced()
            } else {
                self
            },
            Operation::LoadImmediate { x, nn } => Machine { v: self.v.update(x as int, nn), ..self },
            Operation::AddImmediate { x, nn } => Machine {
                v: self.v.update(x as int, ((self.v[x as int] + nn) % 256) as u8),
                ..self
            },
            Operation::CopyRegister { x, y } => Machine {
                v: self.v.update(x as int, self.v[y as int]),
                ..self
            },
            Operation::LoadIndex { nnn } => Machine { i: nnn, ..self },
            Operation::DrawSprite { x, y, n } => self.drawn(x, y, n),
            Operation::Unknown { opcode } => self,
        }
    }

    /// Whether a whole cycle can run: the fetch and the operation fetched.
    pub open spec fn can_cycle(self) -> bool {
        self.can_fetch() && self.advanced().can_execute(decode_spec(self.fetched()))
    }

    /// The machine after one cycle: the program counter advanced, then the
    /// operation at the old program counter executed.
    pub open spec fn cycled(self) -> Machine {
        self.advanced().executed(decode_spec(self.fetched()))
    }
}

/// What a completed step reports.
#[derive(Clone, Copy, Debug, PartialEq, Eq, Structural)]
pub enum Outcome {
    /// An operation of the dispatch table ran.
    Executed,
    /// The opcode is not in the dispatch table; nothing was done.
    UnknownOpcode { opcode: u16 },
}

/// What an operation reports when it has run.
pub open spec fn outcome_of(op: Operation) -> Outcome {
    match op {
        Operation::Unknown { opcode } => Outcome::UnknownOpcode { opcode },
        _ => Outcome::Executed,
    }
}

/// An access outside the 4096 bytes of memory; `address` is the first such
/// address that the step would have read.
#[derive(Clone, Copy, Debug, PartialEq, Eq, Structural)]
pub struct MemoryBoundsError {
    pub address: usize,
}

/// A program too long for the memory above the program start.
#[derive(Clone, Copy, Debug, PartialEq, Eq, Structural)]
pub struct LoadError {
    pub rom_len: usize,
}

/// The whole mutable state of the virtual machine.
#[derive(Debug)]
pub struct Chip8State {
    display: Vec<u64>,
    memory: Vec<u8>,
    v: Vec<u8>,
    pc: u16,
    i: u16,
}

impl View for Chip8State {
    type V = Machine;

    closed spec fn view(&self) -> Machine {
        Machine {
            display: self.display@,
            memory: self.memory@,
            v: self.v@,
            pc: self.pc,
            i: self.i,
        }
    }
}

impl Clone for Chip8State {
    /// A machine of its own in the same state.
    fn clone(&self) -> (copy: Self)
        ensures
            copy@ == self@,
    {
        let copy = Chip8State {
            display: self.display.clone(),
            memory: self.memory.clone(),
            v: self.v.clone(),
            pc: self.pc,
            i: self.i,
        };
        assert(copy.display@ =~= self.display@);
        assert(copy.memory@ =~= self.memory@);
        assert(copy.v@ =~= self.v@);
        copy
    }
}

impl Chip8State {
    /// The invariant of the type: the banks have their fixed sizes.
    pub open spec fn wf(&self) -> bool {
        self@.wf()
    }

    /// A machine with zeroed memory and registers, a blank screen, and the
    /// program counter at the program start.
    pub fn new() -> (state: Self)
        ensures
            state.wf(),
            state@ == Machine::initial(),
    {
        let state = Chip8State {
            display: get_empty_grid(),
            memory: vec![0u8; MEMORY_SIZE],
            v: vec![0u8; REGISTER_COUNT],
            pc: PROGRAM_START as u16,
            i: 0,
        };
        assert(state.memory@ =~= Machine::initial().memory);
        assert(state.v@ =~= Machine::initial().v);
        state
    }

    /// XORs one sprite byte into row `y`, pixel by pixel from column
    /// `x_start`, stopping at the right edge; raises the flag when a pixel
    /// that was lit is toggled.
    fn draw_row(&mut self, y: usize, sprite_byte: u8, x_start: u8)
        requires
            old(self).wf(),
            y < 32,
            x_start < 64,
        ensures
            final(self)@ == (Machine {
                display: old(self)@.display.update(
                    y as int,
                    old(self)@.display[y as int] ^ sprite_mask(sprite_byte, x_start),
                ),
                v: if old(self)@.display[y as int] & sprite_mask(sprite_byte, x_start) != 0 {
                    old(self)@.v.update(15, 1u8)
                } else {
                    old(self)@.v
                },
                ..old(self)@
            }),
    {
        let ghost before = self@;
        let ghost row0 = self.display@[y as int];
        proof {
            lemma_mask_prefix_start(sprite_byte, x_start);
            lemma_mask_prefix_end(sprite_byte, x_start);
            assert(row0 ^ 0 == row0) by (bit_vector);
            assert(row0 & 0 == 0) by (bit_vector);
            assert(self.display@ =~= before.display.update(y as int, row0 ^ 0));
        }
        let mut bit: u8 = 0;
        while bit < 8
            invariant_except_break
                bit <= 8,
                self.display@ == before.display.update(
                    y as int,
                    row0 ^ sprite_mask_prefix(sprite_byte, x_start, bit),
                ),
                self.v@ == if row0 & sprite_mask_prefix(sprite_byte, x_start, bit) != 0 {
                    before.v.update(15, 1u8)
                } else {
                    before.v
                },
            invariant
                before.wf(),
                row0 == before.display[y as int],
                y < 32,
                x_start < 64,
                sprite_mask_prefix(sprite_byte, x_start, 8) == sprite_mask(sprite_byte, x_start),
                self.memory@ == before.memory,
                self.pc == before.pc,
                self.i == before.i,
            ensures
                self.display@ == before.display.update(
                    y as int,
                    row0 ^ sprite_mask(sprite_byte, x_start),
                ),
                self.v@ == if row0 & sprite_mask(sprite_byte, x_start) != 0 {
                    before.v.update(15, 1u8)
                } else {
                    before.v
                },
            decreases 8 - bit,
        {
            let x: u8 = x_start + bit;
            if x >= 64 {
                proof {
                    lemma_mask_prefix_edge(sprite_byte, x_start, bit);
                }
                break ;
            }
            let pos: u8 = 63 - x;
            let shift: u8 = 7 - bit;
            let mask: u64 = 1u64 << pos;
            let sprite_pixel: bool = ((sprite_byte >> shift) & 1) != 0;
            if sprite_pixel {
                proof {
                    lemma_mask_prefix_set(
                        sprite_byte,
                        x_start,
                        bit,
                        shift,
                        (bit + 1) as u8,
                        pos,
                        row0,
                    );
                }
                let screen_pixel: bool = (self.display[y] & mask) != 0;
                if screen_pixel {
                    self.v[FLAG_REGISTER] = 1;
                }
                self.display[y] = self.display[y] ^ mask;
                assert(self.display@ =~= before.display.update(
                    y as int,
                    row0 ^ sprite_mask_prefix(sprite_byte, x_start, (bit + 1) as u8),
                ));
                assert(self.v@ =~= if row0 & sprite_mask_prefix(
                    sprite_byte,
                    x_start,
                    (bit + 1) as u8,
                ) != 0 {
                    before.v.update(15, 1u8)
                } else {
                    before.v
                });
            } else {
                proof {
                    lemma_mask_prefix_clear(sprite_byte, x_start, bit, shift, (bit + 1) as u8);
                }
            }
            bit += 1;
        }
    }

    /// Draws the `n`-row sprite at `i` with its top left pixel at
    /// `(v[x] mod 64, v[y] mod 32)`, truncated at the right and lower edges.
    /// Fails, changing nothing, when a sprite byte to be read lies outside
    /// memory.
    fn draw_sprite(&mut self, x: u8, y: u8, n: u8) -> (r: Result<(), MemoryBoundsError>)
        requires
            old(self).wf(),
            x < 16,
            y < 16,
            n < 16,
        ensures
            final(self).wf(),
            old(self)@.sprite_in_bounds(y, n) ==> r == Ok::<(), MemoryBoundsError>(())
                && final(self)@ == old(self)@.drawn(x, y, n),
            !old(self)@.sprite_in_bounds(y, n) ==> r == Err::<(), MemoryBoundsError>(
                MemoryBoundsError { address: Machine::fault_address(old(self)@.i) },
            ) && final(self)@ == old(self)@,
    {
        let ghost before = self@;
        let vx: u8 = self.v[x as usize];
        let vy: u8 = self.v[y as usize];
        let x_start: u8 = vx & 63;
        let y_start: u8 = vy & 31;
        assert(vx & 63 < 64) by (bit_vector);
        assert(vy & 31 < 32) by (bit_vector);
        let rows_read: usize = if n <= 32 - y_start {
            n as usize
        } else {
            (33 - y_start) as usize
        };
        let base: usize = self.i as usize;
        if base + rows_read > MEMORY_SIZE {
            let address: usize = if base >= MEMORY_SIZE {
                base
            } else {
                MEMORY_SIZE
            };
            return Err(MemoryBoundsError { address });
        }
        self.v[FLAG_REGISTER] = 0;
        assert(self.display@ =~= before.display_after(x, y, 0));
        let mut row: u8 = 0;
        while row < n
            invariant_except_break
                row <= n,
                row <= 32 - y_start,
            invariant
                before.wf(),
                x < 16,
                y < 16,
                n < 16,
                x_start == before.x_start(x),
                y_start == before.y_start(y),
                x_start < 64,
                y_start < 32,
                before.sprite_in_bounds(y, n),
                base == before.i,
                row <= before.rows_drawn(y, n),
                self.memory@ == before.memory,
                self.pc == before.pc,
                self.i == before.i,
                self.display@ == before.display_after(x, y, row as int),
                self.v@ == before.v.update(
                    15,
                    if before.collides_within(x, y, row as int) {
                        1u8
                    } else {
                        0u8
                    },
                ),
            ensures
                row == before.rows_drawn(y, n),
            decreases n - row,
        {
            let sprite_byte: u8 = self.memory[base + row as usize];
            let line: u8 = y_start + row;
            if line >= 32 {
                break ;
            }
            let ghost flag = before.collides_within(x, y, row as int);
            self.draw_row(line as usize, sprite_byte, x_start);
            proof {
                assert(before.display_after(x, y, row as int)[line as int]
                    == before.display[line as int]);
                assert(before.sprite_row(x, row as int) == sprite_mask(sprite_byte, x_start));
                let hit = before.row_collides(x, y, row as int);
                assert(before.collides_within(x, y, row + 1) == (flag || hit)) by {
                    if before.collides_within(x, y, row + 1) {
                        let w = choose|w: int|
                            0 <= w < row + 1 && #[trigger] before.row_collides(x, y, w);
                        if w < row {
                            assert(before.collides_within(x, y, row as int));
                        }
                    }
                }
                assert(self.display@ =~= before.display_after(x, y, row + 1));
                assert(self.v@ =~= before.v.update(
                    15,
                    if flag || hit {
                        1u8
                    } else {
                        0u8
                    },
                ));
            }
            row += 1;
        }
        Ok(())
    }

    /// Runs one operation on the machine as it stands after the fetch.
    ///
    /// A skip that is taken moves the program counter on by 2, so the
    /// counter must leave room for that. A draw that would read outside
    /// memory fails and changes nothing.
    pub fn execute(&mut self, op: Operation) -> (r: Result<Outcome, MemoryBoundsError>)
        requires
            old(self).wf(),
            op.wf(),
            old(self)@.has_room_for(op),
        ensures
            final(self).wf(),
            old(self)@.can_execute(op) ==> r == Ok::<Outcome, MemoryBoundsError>(outcome_of(op))
                && final(self)@ == old(self)@.executed(op),
            !old(self)@.can_execute(op) ==> r == Err::<Outcome, MemoryBoundsError>(
                MemoryBoundsError { address: Machine::fault_address(old(self)@.i) },
            ) && final(self)@ == old(self)@,
    {
        match op {
            Operation::ClearScreen => Ok(Outcome::Executed),
            Operation::Jump { nnn } => Ok(Outcome::Executed),
            Operation::SkipIfEqual { x, nn } => {
                if self.v[x as usize] == nn {
                    self.pc += 2;
                }
                Ok(Outcome::Executed)
            },
            Operation::SkipIfNotEqual { x, nn } => {
                if self.v[x as usize] != nn {
                    self.pc += 2;
                }
                Ok(Outcome::Executed)
            },
            Operation::LoadImmediate { x, nn } => {
                self.v[x as usize] = nn;
                Ok(Outcome::Executed)
            },
            Operation::AddImmediate { x, nn } => {
                let sum: u8 = self.v[x as usize].wrapping_add(nn);
                self.v[x as usize] = sum;
                Ok(Outcome::Executed)
            },
            Operation::CopyRegister { x, y } => {
                let value: u8 = self.v[y as usize];
                self.v[x as usize] = value;
                Ok(Outcome::Executed)
            },
            Operation::LoadIndex { nnn } => {
                self.i = nnn;
                Ok(Outcome::Executed)
            },
            Operation::DrawSprite { x, y, n } => {
                match self.draw_sprite(x, y, n) {
                    Ok(()) => Ok(Outcome::Executed),
                    Err(e) => Err(e),
                }
            },
            Operation::Unknown { opcode } => Ok(Outcome::UnknownOpcode { opcode }),
        }
    }

    /// Decodes an instruction and runs the operation it selects, on the
    /// machine as it stands after the fetch. The requirement and the failure
    /// are those of `execute`.
    pub fn decode_and_execute(&mut self, inst: Instruction) -> (r: Result<
        Outcome,
        MemoryBoundsError,
    >)
        requires
            old(self).wf(),
            old(self)@.has_room_for(decode_spec(inst@)),
        ensures
            final(self).wf(),
            old(self)@.can_execute(decode_spec(inst@)) ==> r == Ok::<Outcome, MemoryBoundsError>(
                outcome_of(decode_spec(inst@)),
            ) && final(self)@ == old(self)@.executed(decode_spec(inst@)),
            !old(self)@.can_execute(decode_spec(inst@)) ==> r == Err::<Outcome, MemoryBoundsError>(
                MemoryBoundsError { address: Machine::fault_address(old(self)@.i) },
            ) && final(self)@ == old(self)@,
    {
        let op: Operation = inst.decode();
        self.execute(op)
    }

    /// One whole step: fetch the instruction at `pc`, advance `pc` by 2, and
    /// execute. The step is atomic: when the fetch or the operation would
    /// reach outside memory, it fails and the machine is as it was.
    pub fn cycle(&mut self) -> (r: Result<Outcome, MemoryBoundsError>)
        requires
            old(self).wf(),
        ensures
            final(self).wf(),
            old(self)@.can_cycle() ==> r == Ok::<Outcome, MemoryBoundsError>(
                outcome_of(decode_spec(old(self)@.fetched())),
            ) && final(self)@ == old(self)@.cycled(),
            !old(self)@.can_fetch() ==> r == Err::<Outcome, MemoryBoundsError>(
                MemoryBoundsError { address: Machine::fault_address(old(self)@.pc) },
            ) && final(self)@ == old(self)@,
            old(self)@.can_fetch() && !old(self)@.can_cycle() ==> r == Err::<
                Outcome,
                MemoryBoundsError,
            >(MemoryBoundsError { address: Machine::fault_address(old(self)@.i) }) && final(self)@
                == old(self)@,
    {
        let pc: usize = self.pc as usize;
        if pc + 1 >= MEMORY_SIZE {
            let address: usize = if pc >= MEMORY_SIZE {
                pc
            } else {
                MEMORY_SIZE
            };
            return Err(MemoryBoundsError { address });
        }
        let inst: Instruction = Instruction::new(self.memory[pc], self.memory[pc + 1]);
        self.pc += 2;
        let r = self.decode_and_execute(inst);
        if r.is_err() {
            self.pc -= 2;
        }
        r
    }

    /// Copies a program into memory at the program start. A program that
    /// does not fit is rejected and nothing is copied.
    pub fn load_rom(&mut self, rom: &[u8]) -> (r: Result<(), LoadError>)
        requires
            old(self).wf(),
        ensures
            final(self).wf(),
            Machine::rom_fits(rom@.len()) ==> r == Ok::<(), LoadError>(()) && final(self)@ == old(
                self,
            )@.with_rom(rom@),
            !Machine::rom_fits(rom@.len()) ==> r == Err::<(), LoadError>(
                LoadError { rom_len: rom.len() },
            ) && final(self)@ == old(self)@,
    {
        let ghost before = self@;
        let len: usize = rom.len();
        if len > MEMORY_SIZE - PROGRAM_START {
            return Err(LoadError { rom_len: len });
        }
        let mut k: usize = 0;
        while k < len
            invariant
                k <= len,
                len == rom@.len(),
                len <= MEMORY_SIZE - PROGRAM_START,
                before.wf(),
                self.memory@ == before.with_rom(rom@.take(k as int)).memory,
                self.display@ == before.display,
                self.v@ == before.v,
                self.pc == before.pc,
                self.i == before.i,
            decreases len - k,
        {
            self.memory[PROGRAM_START + k] = rom[k];
            assert(self.memory@ =~= before.with_rom(rom@.take(k + 1)).memory);
            k += 1;
        }
        assert(rom@.take(len as int) =~= rom@);
        Ok(())
    }

    /// The program counter.
    pub fn pc(&self) -> (pc: u16)
        ensures
            pc == self@.pc,
    {
        self.pc
    }

    /// The index register.
    pub fn i(&self) -> (i: u16)
        ensures
            i == self@.i,
    {
        self.i
    }

    /// The 16 registers.
    pub fn v(&self) -> (v: &[u8])
        ensures
            v@ == self@.v,
    {
        self.v.as_slice()
    }

    /// The 4096 bytes of memory.
    pub fn memory(&self) -> (memory: &[u8])
        ensures
            memory@ == self@.memory,
    {
        self.memory.as_slice()
    }

    /// A snapshot of the framebuffer for a renderer: a copy, which later
    /// cycles do not touch.
    pub fn display(&self) -> (grid: Vec<u64>)
        ensures
            grid@ == self@.display,
    {
        let grid = self.display.clone();
        assert(grid@ =~= self.display@);
        grid
    }
}

} // verus!
