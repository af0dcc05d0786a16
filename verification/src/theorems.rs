//! What holds of every machine: the effect of each opcode class on a whole
//! cycle, and the pixel-level meaning of a sprite draw.

use crate::display::{
    lemma_and_pixel, lemma_row_zero, lemma_sprite_mask_pixel, lemma_xor_pixel, pixel_on,
    row_pixel,
};
use crate::instruction::{
    decode_spec, indicator_of, lemma_field_widths, n_of, nn_of, nnn_of, x_of, y_of, Operation,
};
use crate::machine::{outcome_of, Machine, Outcome};
use vstd::prelude::*;

verus! {

/// Sprite coordinates are wrapped to the screen: the start column is below
/// 64 and the start row below 32.
pub proof fn theorem_sprite_origin_on_screen(m: Machine, x: u8, y: u8)
    ensures
        m.x_start(x) < 64,
        m.y_start(y) < 32,
{
    let vx = m.v[x as int];
    let vy = m.v[y as int];
    assert(vx & 63 < 64) by (bit_vector);
    assert(vy & 31 < 32) by (bit_vector);
}

/// Skip-if-equal: a cycle on an opcode of class 3 moves the program counter
/// by 4 when `v[x]` equals the immediate and by 2 when it does not, and
/// changes nothing else.
pub proof fn theorem_skip_if_equal(m: Machine, op: u16)
    requires
        m.wf(),
        m.can_fetch(),
        m.fetched() == op,
        indicator_of(op) == 0x3,
    ensures
        m.can_cycle(),
        outcome_of(decode_spec(op)) == Outcome::Executed,
        m.v[x_of(op) as int] == nn_of(op) ==> m.cycled() == (Machine {
            pc: (m.pc + 4) as u16,
            ..m
        }),
        m.v[x_of(op) as int] != nn_of(op) ==> m.cycled() == (Machine {
            pc: (m.pc + 2) as u16,
            ..m
        }),
{
    lemma_field_widths(op);
}

/// Skip-if-not-equal: a cycle on an opcode of class 4 moves the program
/// counter by 4 when `v[x]` differs from the immediate and by 2 when it does
/// not, and changes nothing else.
pub proof fn theorem_skip_if_not_equal(m: Machine, op: u16)
    requires
        m.wf(),
        m.can_fetch(),
        m.fetched() == op,
        indicator_of(op) == 0x4,
    ensures
        m.can_cycle(),
        outcome_of(decode_spec(op)) == Outcome::Executed,
        m.v[x_of(op) as int] != nn_of(op) ==> m.cycled() == (Machine {
            pc: (m.pc + 4) as u16,
            ..m
        }),
        m.v[x_of(op) as int] == nn_of(op) ==> m.cycled() == (Machine {
            pc: (m.pc + 2) as u16,
            ..m
        }),
{
    lemma_field_widths(op);
}

/// Load immediate: a cycle on an opcode of class 6 sets `v[x]` to the
/// immediate, moves the program counter by 2 and changes nothing else.
pub proof fn theorem_load_immediate(m: Machine, op: u16)
    requires
        m.wf(),
        m.can_fetch(),
        m.fetched() == op,
        indicator_of(op) == 0x6,
    ensures
        m.can_cycle(),
        m.cycled() == (Machine {
            v: m.v.update(x_of(op) as int, nn_of(op)),
            pc: (m.pc + 2) as u16,
            ..m
        }),
        m.cycled().v[x_of(op) as int] == nn_of(op),
{
    lemma_field_widths(op);
}

/// Add immediate: a cycle on an opcode of class 7 adds the immediate to
/// `v[x]` modulo 256, and touches no other register: the flag register keeps
/// its value unless it is `v[x]` itself.
pub proof fn theorem_add_immediate_wraps(m: Machine, op: u16)
    requires
        m.wf(),
        m.can_fetch(),
        m.fetched() == op,
        indicator_of(op) == 0x7,
    ensures
        m.can_cycle(),
        m.cycled().v[x_of(op) as int] == (m.v[x_of(op) as int] + nn_of(op)) % 256,
        forall|k: int| 0 <= k < 16 && k != x_of(op) ==> m.cycled().v[k] == m.v[k],
        m.cycled().pc == m.pc + 2,
        m.cycled().i == m.i,
        m.cycled().memory == m.memory,
        m.cycled().display == m.display,
{
    lemma_field_widths(op);
}

/// Register copy: a cycle on an opcode of class 8 sets `v[x]` to `v[y]`
/// whatever the low nibble, and changes nothing else but the program counter.
pub proof fn theorem_copy_register(m: Machine, op: u16)
    requires
        m.wf(),
        m.can_fetch(),
        m.fetched() == op,
        indicator_of(op) == 0x8,
    ensures
        m.can_cycle(),
        m.cycled() == (Machine {
            v: m.v.update(x_of(op) as int, m.v[y_of(op) as int]),
            pc: (m.pc + 2) as u16,
            ..m
        }),
{
    lemma_field_widths(op);
}

/// Load index: a cycle on an opcode of class A sets `i` to the 12-bit
/// address, and changes nothing else but the program counter.
pub proof fn theorem_load_index(m: Machine, op: u16)
    requires
        m.wf(),
        m.can_fetch(),
        m.fetched() == op,
        indicator_of(op) == 0xA,
    ensures
        m.can_cycle(),
        m.cycled() == (Machine { i: nnn_of(op), pc: (m.pc + 2) as u16, ..m }),
        m.cycled().i < 0x1000,
{
    lemma_field_widths(op);
}

/// No operation of this core writes memory: a cycle leaves every byte as it
/// was, the reserved bytes below the program start among them.
pub proof fn theorem_cycle_keeps_memory(m: Machine)
    requires
        m.wf(),
    ensures
        m.cycled().memory == m.memory,
{
}

/// A program lands at the program start, byte for byte, and loading it
/// touches no other byte of memory and nothing outside memory.
pub proof fn theorem_rom_lands_at_program_start(m: Machine, rom: Seq<u8>, address: int)
    requires
        m.wf(),
        Machine::rom_fits(rom.len()),
        0 <= address < 4096,
    ensures
        m.with_rom(rom).wf(),
        0x200 <= address < 0x200 + rom.len() ==> m.with_rom(rom).memory[address] == rom[address
            - 0x200],
        address < 0x200 || address >= 0x200 + rom.len() ==> m.with_rom(rom).memory[address]
            == m.memory[address],
        m.with_rom(rom).display == m.display,
        m.with_rom(rom).v == m.v,
        m.with_rom(rom).pc == m.pc,
        m.with_rom(rom).i == m.i,
{
}

/// Whether an opcode is outside the dispatch table: its class is none of
/// 1, 3, 4, 6, 7, 8, A, D, and it is not the clear-screen word `00E0`.
pub open spec fn outside_dispatch_table(op: u16) -> bool {
    let class = indicator_of(op);
    &&& op != 0x00E0
    &&& class != 0x1
    &&& class != 0x3
    &&& class != 0x4
    &&& class != 0x6
    &&& class != 0x7
    &&& class != 0x8
    &&& class != 0xA
    &&& class != 0xD
}

/// Unknown opcodes do not stop the machine: a cycle on an opcode outside the
/// dispatch table reports the opcode, advances the program counter by 2, and
/// leaves registers, index register, memory and screen as they were.
pub proof fn theorem_unknown_opcode_continues(m: Machine, op: u16)
    requires
        m.wf(),
        m.can_fetch(),
        m.fetched() == op,
        outside_dispatch_table(op),
    ensures
        m.can_cycle(),
        outcome_of(decode_spec(op)) == (Outcome::UnknownOpcode { opcode: op }),
        m.cycled() == (Machine { pc: (m.pc + 2) as u16, ..m }),
{
    lemma_field_widths(op);
    assert(indicator_of(0x00E0) == 0) by {
        lemma_field_widths(0x00E0);
        assert((0x00E0u16 >> 12) & 0xF == 0) by (bit_vector);
    }
}

/// The stubs: a cycle on clear-screen (`00E0`) or on a jump (class 1) is
/// recognised, and only advances the program counter by 2.
pub proof fn theorem_stubs_only_advance(m: Machine, op: u16)
    requires
        m.wf(),
        m.can_fetch(),
        m.fetched() == op,
        op == 0x00E0 || indicator_of(op) == 0x1,
    ensures
        m.can_cycle(),
        outcome_of(decode_spec(op)) == Outcome::Executed,
        m.cycled() == (Machine { pc: (m.pc + 2) as u16, ..m }),
{
    lemma_field_widths(op);
    assert(indicator_of(0x00E0) == 0) by {
        lemma_field_widths(0x00E0);
        assert((0x00E0u16 >> 12) & 0xF == 0) by (bit_vector);
    }
}

/// Draw: a cycle on an opcode of class D draws the `n`-row sprite at `i` to
/// `(v[x], v[y])` and advances the program counter by 2, provided every
/// sprite byte that the draw reads lies in memory; otherwise the cycle cannot
/// run.
pub proof fn theorem_draw_sprite(m: Machine, op: u16)
    requires
        m.wf(),
        m.can_fetch(),
        m.fetched() == op,
        indicator_of(op) == 0xD,
    ensures
        m.can_cycle() == m.sprite_in_bounds(y_of(op), n_of(op)),
        outcome_of(decode_spec(op)) == Outcome::Executed,
        m.cycled() == m.advanced().drawn(x_of(op), y_of(op), n_of(op)),
        m.cycled().pc == m.pc + 2,
        m.cycled().i == m.i,
        m.cycled().memory == m.memory,
        forall|k: int| 0 <= k < 15 ==> m.cycled().v[k] == m.v[k],
{
    lemma_field_widths(op);
}

/// The banks keep their sizes through every cycle.
pub proof fn theorem_cycle_keeps_sizes(m: Machine)
    requires
        m.wf(),
    ensures
        m.cycled().wf(),
{
    lemma_field_widths(m.fetched());
}

/// A cycle leaves the program counter on an even address when it started on
/// one, 2 or 4 bytes further on.
pub proof fn theorem_cycle_keeps_alignment(m: Machine)
    requires
        m.wf(),
        m.can_fetch(),
        m.pc % 2 == 0,
    ensures
        m.cycled().pc % 2 == 0,
        m.cycled().pc == m.pc + 2 || m.cycled().pc == m.pc + 4,
{
    lemma_field_widths(m.fetched());
}

/// Sprite drawing is XOR, truncated at the edges: a draw toggles exactly the
/// screen pixels on which a set sprite pixel lands. A sprite pixel lands on
/// column `x_start + bit` and row `y_start + row` only if these are on the
/// screen; what would pass column 63 or row 31 is dropped, not wrapped.
pub proof fn theorem_draw_toggles_covered_pixels(m: Machine, x: u8, y: u8, n: u8, px: int, py: int)
    requires
        m.wf(),
    ensures
        pixel_on(m.drawn(x, y, n).display, px, py) == (pixel_on(m.display, px, py) != m.sprite_covers(
            x,
            y,
            n,
            px,
            py,
        )),
        m.sprite_covers(x, y, n, px, py) ==> {
            &&& m.x_start(x) <= px < m.x_start(x) + 8
            &&& px < 64
            &&& m.y_start(y) <= py < m.y_start(y) + n
            &&& py < 32
        },
{
    theorem_sprite_origin_on_screen(m, x, y);
    if 0 <= py < 32 {
        let row = py - m.y_start(y);
        if 0 <= row < m.rows_drawn(y, n) {
            let byte = m.memory[m.i + row];
            lemma_xor_pixel(m.display[py], m.sprite_row(x, row), px);
            lemma_sprite_mask_pixel(byte, m.x_start(x), px);
        }
    }
}

/// The collision test, pixel by pixel: a draw collides exactly when some set
/// sprite pixel lands on a screen pixel that is lit.
pub proof fn theorem_collision_is_pixel_overlap(m: Machine, x: u8, y: u8, n: u8)
    requires
        m.wf(),
    ensures
        m.collides(x, y, n) <==> exists|px: int, py: int|
            pixel_on(m.display, px, py) && #[trigger] m.sprite_covers(x, y, n, px, py),
        m.drawn(x, y, n).v[15] == if m.collides(x, y, n) {
            1u8
        } else {
            0u8
        },
{
    theorem_sprite_origin_on_screen(m, x, y);
    if m.collides(x, y, n) {
        let row = choose|row: int|
            0 <= row < m.rows_drawn(y, n) && #[trigger] m.row_collides(x, y, row);
        let py = m.y_start(y) + row;
        let both = m.display[py] & m.sprite_row(x, row);
        lemma_row_zero(both);
        let px = choose|px: int| 0 <= px < 64 && row_pixel(both, px);
        lemma_and_pixel(m.display[py], m.sprite_row(x, row), px);
        lemma_sprite_mask_pixel(m.memory[m.i + row], m.x_start(x), px);
        assert(pixel_on(m.display, px, py) && m.sprite_covers(x, y, n, px, py));
    }
    if exists|px: int, py: int|
        pixel_on(m.display, px, py) && #[trigger] m.sprite_covers(x, y, n, px, py) {
        let (px, py) = choose|px: int, py: int|
            pixel_on(m.display, px, py) && #[trigger] m.sprite_covers(x, y, n, px, py);
        let row = py - m.y_start(y);
        let both = m.display[py] & m.sprite_row(x, row);
        lemma_sprite_mask_pixel(m.memory[m.i + row], m.x_start(x), px);
        lemma_and_pixel(m.display[py], m.sprite_row(x, row), px);
        assert(row_pixel(both, px));
        lemma_row_zero(both);
        assert(m.row_collides(x, y, row));
    }
}

/// Drawing the same sprite twice at the same place restores the screen.
/// The registers that give the place must not be the flag register, which
/// the first draw overwrites.
pub proof fn theorem_draw_twice_restores(m: Machine, x: u8, y: u8, n: u8)
    requires
        m.wf(),
        x < 15,
        y < 15,
    ensures
        m.drawn(x, y, n).drawn(x, y, n).display == m.display,
        m.drawn(x, y, n).drawn(x, y, n).memory == m.memory,
        m.drawn(x, y, n).drawn(x, y, n).pc == m.pc,
        m.drawn(x, y, n).drawn(x, y, n).i == m.i,
        forall|k: int| 0 <= k < 15 ==> m.drawn(x, y, n).drawn(x, y, n).v[k] == m.v[k],
{
    theorem_sprite_origin_on_screen(m, x, y);
    let once = m.drawn(x, y, n);
    let twice = once.drawn(x, y, n);
    assert forall|r: int| 0 <= r < 32 implies twice.display[r] == m.display[r] by {
        let row = r - m.y_start(y);
        if 0 <= row < m.rows_drawn(y, n) {
            let a = m.display[r];
            let b = m.sprite_row(x, row);
            assert(once.sprite_row(x, row) == b);
            assert((a ^ b) ^ b == a) by (bit_vector);
        }
    }
    assert(twice.display =~= m.display);
}

/// Collision on the second draw: where the first draw of a sprite met no lit
/// pixel, it leaves the flag register 0, and a second draw at the same place
/// sets the flag register to 1 exactly when the sprite has a pixel on the
/// screen at all, since the first draw lit all of them.
pub proof fn theorem_second_draw_collides(m: Machine, x: u8, y: u8, n: u8)
    requires
        m.wf(),
        x < 15,
        y < 15,
        !m.collides(x, y, n),
    ensures
        m.drawn(x, y, n).v[15] == 0,
        m.drawn(x, y, n).drawn(x, y, n).v[15] == if m.sprite_visible(x, y, n) {
            1u8
        } else {
            0u8
        },
{
    theorem_sprite_origin_on_screen(m, x, y);
    let once = m.drawn(x, y, n);
    assert forall|row: int| 0 <= row < m.rows_drawn(y, n) implies (#[trigger] once.row_collides(
        x,
        y,
        row,
    ) == (m.sprite_row(x, row) != 0)) by {
        let a = m.display[m.y_start(y) + row];
        let b = m.sprite_row(x, row);
        assert(once.sprite_row(x, row) == b);
        assert(!m.row_collides(x, y, row));
        assert(a & b == 0 ==> (((a ^ b) & b != 0) == (b != 0))) by (bit_vector);
    }
    if once.collides(x, y, n) {
        let row = choose|row: int|
            0 <= row < once.rows_drawn(y, n) && #[trigger] once.row_collides(x, y, row);
        assert(m.sprite_row(x, row) != 0);
    }
    if m.sprite_visible(x, y, n) {
        let row = choose|row: int|
            0 <= row < m.rows_drawn(y, n) && #[trigger] m.sprite_row(x, row) != 0;
        assert(once.row_collides(x, y, row));
    }
}

} // verus!
