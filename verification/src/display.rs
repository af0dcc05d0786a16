//! The framebuffer: 32 rows of 64 one-bit pixels, one `u64` per row, the
//! leftmost pixel in the most significant bit.

use vstd::prelude::*;

verus! {

/// Pixels per row.
pub const DISPLAY_WIDTH: usize = 64;

/// Rows on the screen.
pub const DISPLAY_HEIGHT: usize = 32;

/// Whether column `x` of a row word is lit: bit `63 - x`.
pub open spec fn row_pixel(row: u64, x: int) -> bool {
    0 <= x < 64 && (row >> ((63 - x) as u64)) & 1 == 1
}

/// Whether pixel `(x, y)` of a grid is lit. Nothing is lit off the grid.
pub open spec fn pixel_on(grid: Seq<u64>, x: int, y: int) -> bool {
    0 <= y < grid.len() && row_pixel(grid[y], x)
}

/// The grid with every pixel off.
pub open spec fn blank_grid() -> Seq<u64> {
    Seq::new(32, |y: int| 0u64)
}

/// Whether a sprite byte has the pixel at column offset `bit` set; offset 0
/// is the most significant bit.
pub open spec fn sprite_bit(byte: u8, bit: int) -> bool {
    0 <= bit < 8 && (byte >> ((7 - bit) as u8)) & 1 == 1
}

/// The pixels of a row that a sprite byte covers when its leftmost pixel
/// stands in column `x_start`: the byte moved to the top of the word and
/// shifted right, so that what passes column 63 is dropped.
pub open spec fn sprite_mask(byte: u8, x_start: u8) -> u64 {
    ((byte as u64) << 56) >> (x_start as u64)
}

/// The part of `sprite_mask` that the first `bits` pixels of the byte make.
pub(crate) open spec fn sprite_mask_prefix(byte: u8, x_start: u8, bits: u8) -> u64 {
    (((byte as u64) << 56) & !(0xFFFF_FFFF_FFFF_FFFFu64 >> (bits as u64))) >> (x_start as u64)
}

/// Position in row-major order, the order in which a screen is scanned.
pub open spec fn scan_rank(p: (usize, usize)) -> int {
    p.1 * 64 + p.0
}

/// A sprite mask lights exactly the columns from `x_start` on, up to the
/// screen edge, at which the byte has a set bit.
pub proof fn lemma_sprite_mask_pixel(byte: u8, x_start: u8, x: int)
    requires
        x_start < 64,
    ensures
        row_pixel(sprite_mask(byte, x_start), x) == (0 <= x < 64 && sprite_bit(byte, x - x_start)),
{
    if 0 <= x < 64 {
        let c: u8 = x as u8;
        assert((((((byte as u64) << 56) >> (x_start as u64)) >> ((63 - c) as u64)) & 1 == 1) == (x_start
            <= c && c < x_start + 8 && (byte >> ((7 - (c - x_start)) as u8)) & 1 == 1))
            by (bit_vector)
            requires
                x_start < 64,
                c < 64,
        ;
    }
}

/// XOR toggles a pixel exactly where the other word has it lit.
pub proof fn lemma_xor_pixel(a: u64, b: u64, x: int)
    ensures
        row_pixel(a ^ b, x) == (row_pixel(a, x) != row_pixel(b, x)),
{
    if 0 <= x < 64 {
        let k: u64 = (63 - x) as u64;
        assert((((a ^ b) >> k) & 1 == 1) == (((a >> k) & 1 == 1) != ((b >> k) & 1 == 1)))
            by (bit_vector);
    }
}

/// A pixel lit in both words is lit in their AND.
pub proof fn lemma_and_pixel(a: u64, b: u64, x: int)
    ensures
        row_pixel(a & b, x) == (row_pixel(a, x) && row_pixel(b, x)),
{
    if 0 <= x < 64 {
        let k: u64 = (63 - x) as u64;
        assert((((a & b) >> k) & 1 == 1) == (((a >> k) & 1 == 1) && ((b >> k) & 1 == 1)))
            by (bit_vector);
    }
}

/// The column of the rightmost lit pixel among columns `0..=x`, or 0.
spec fn last_lit(row: u64, x: int) -> int
    decreases x,
{
    if x <= 0 || row_pixel(row, x) {
        x
    } else {
        last_lit(row, x - 1)
    }
}

proof fn lemma_last_lit(row: u64, x: int)
    requires
        0 <= x < 64,
        row >> ((63 - x) as u64) != 0,
    ensures
        0 <= last_lit(row, x) <= x,
        row_pixel(row, last_lit(row, x)),
    decreases x,
{
    let k: u64 = (63 - x) as u64;
    if row_pixel(row, x) {
    } else if x == 0 {
        assert((row >> k) != 0 ==> (row >> k) & 1 == 1) by (bit_vector)
            requires
                k == 63,
        ;
    } else {
        assert((row >> k) != 0 && (row >> k) & 1 != 1 ==> (row >> ((k + 1) as u64)) != 0)
            by (bit_vector)
            requires
                k < 63,
        ;
        lemma_last_lit(row, x - 1);
    }
}

/// A row word is zero exactly when none of its pixels is lit.
pub proof fn lemma_row_zero(row: u64)
    ensures
        (row != 0) <==> exists|x: int| 0 <= x < 64 && row_pixel(row, x),
{
    if row != 0 {
        assert(row >> 0 == row) by (bit_vector);
        lemma_last_lit(row, 63);
        assert(row_pixel(row, last_lit(row, 63)));
    }
    if exists|x: int| 0 <= x < 64 && row_pixel(row, x) {
        let x = choose|x: int| 0 <= x < 64 && row_pixel(row, x);
        let k: u64 = (63 - x) as u64;
        assert((row >> k) & 1 == 1 ==> row != 0) by (bit_vector);
    }
}

/// Before any pixel of the byte is drawn, nothing is covered.
pub(crate) proof fn lemma_mask_prefix_start(byte: u8, x_start: u8)
    by (bit_vector)
    ensures
        sprite_mask_prefix(byte, x_start, 0) == 0,
{
}

/// All eight pixels make the whole mask.
pub(crate) proof fn lemma_mask_prefix_end(byte: u8, x_start: u8)
    by (bit_vector)
    ensures
        sprite_mask_prefix(byte, x_start, 8) == sprite_mask(byte, x_start),
{
}

/// From the first pixel that would pass column 63 on, nothing is added: the
/// rest of the byte is dropped.
pub(crate) proof fn lemma_mask_prefix_edge(byte: u8, x_start: u8, bit: u8)
    by (bit_vector)
    requires
        x_start < 64,
        bit <= 8,
        x_start + bit >= 64,
    ensures
        sprite_mask_prefix(byte, x_start, bit) == sprite_mask(byte, x_start),
{
}

/// A clear sprite bit adds nothing to the mask.
pub(crate) proof fn lemma_mask_prefix_clear(byte: u8, x_start: u8, bit: u8, shift: u8, next: u8)
    by (bit_vector)
    requires
        x_start < 64,
        bit < 8,
        x_start + bit < 64,
        shift == 7 - bit,
        next == bit + 1,
        (byte >> shift) & 1 == 0,
    ensures
        sprite_mask_prefix(byte, x_start, next) == sprite_mask_prefix(byte, x_start, bit),
{
}

/// A set sprite bit adds its one pixel, which no earlier bit of the byte
/// covers.
pub(crate) proof fn lemma_mask_prefix_set(
    byte: u8,
    x_start: u8,
    bit: u8,
    shift: u8,
    next: u8,
    pos: u8,
    row: u64,
)
    by (bit_vector)
    requires
        x_start < 64,
        bit < 8,
        x_start + bit < 64,
        shift == 7 - bit,
        next == bit + 1,
        pos == 63 - (x_start + bit),
        (byte >> shift) & 1 != 0,
    ensures
        ((row ^ sprite_mask_prefix(byte, x_start, bit)) & (1u64 << pos) != 0) == (row & (1u64
            << pos) != 0),
        (row ^ sprite_mask_prefix(byte, x_start, bit)) ^ (1u64 << pos) == row ^ sprite_mask_prefix(
            byte,
            x_start,
            next,
        ),
        (row & sprite_mask_prefix(byte, x_start, next) != 0) == (row & sprite_mask_prefix(
            byte,
            x_start,
            bit,
        ) != 0 || row & (1u64 << pos) != 0),
{
}

/// A grid with every pixel off, as a machine has at creation.
pub fn get_empty_grid() -> (grid: Vec<u64>)
    ensures
        grid@ == blank_grid(),
{
    let mut grid: Vec<u64> = Vec::new();
    let mut y: usize = 0;
    while y < DISPLAY_HEIGHT
        invariant
            y <= DISPLAY_HEIGHT,
            grid@.len() == y,
            forall|k: int| 0 <= k < y ==> grid@[k] == 0,
        decreases DISPLAY_HEIGHT - y,
    {
        grid.push(0);
        y += 1;
    }
    assert(grid@ =~= blank_grid());
    grid
}

/// Whether pixel `(x, y)` of a framebuffer snapshot is lit.
pub fn pixel(grid: &[u64], x: usize, y: usize) -> (on: bool)
    ensures
        on == pixel_on(grid@, x as int, y as int),
{
    if x < DISPLAY_WIDTH && y < grid.len() {
        let row: u64 = grid[y];
        let shift: u64 = (63 - x) as u64;
        assert(((row >> shift) & 1 == 1) == ((row >> shift) & 1 != 0)) by (bit_vector);
        ((row >> shift) & 1) != 0
    } else {
        false
    }
}

/// The lit pixels of a framebuffer snapshot as `(x, y)` pairs, in the order
/// in which a renderer paints them: row by row, each row from the left.
pub fn lit_pixels(grid: &[u64]) -> (lit: Vec<(usize, usize)>)
    ensures
        forall|k: int| 0 <= k < lit@.len() ==> pixel_on(grid@, lit@[k].0 as int, lit@[k].1 as int),
        forall|x: int, y: int| #[trigger]
            pixel_on(grid@, x, y) ==> lit@.contains((x as usize, y as usize)),
        forall|j: int, k: int| 0 <= j < k < lit@.len() ==> scan_rank(lit@[j]) < scan_rank(lit@[k]),
{
    let mut lit: Vec<(usize, usize)> = Vec::new();
    let rows: usize = grid.len();
    let mut y: usize = 0;
    while y < rows
        invariant
            rows == grid@.len(),
            y <= rows,
            forall|k: int|
                0 <= k < lit@.len() ==> pixel_on(grid@, lit@[k].0 as int, lit@[k].1 as int),
            forall|k: int| 0 <= k < lit@.len() ==> scan_rank(#[trigger] lit@[k]) < y * 64,
            forall|px: int, py: int| #[trigger]
                pixel_on(grid@, px, py) && py < y ==> lit@.contains((px as usize, py as usize)),
            forall|j: int, k: int|
                0 <= j < k < lit@.len() ==> scan_rank(lit@[j]) < scan_rank(lit@[k]),
        decreases rows - y,
    {
        let mut x: usize = 0;
        while x < DISPLAY_WIDTH
            invariant
                rows == grid@.len(),
                y < rows,
                x <= DISPLAY_WIDTH,
                forall|k: int|
                    0 <= k < lit@.len() ==> pixel_on(grid@, lit@[k].0 as int, lit@[k].1 as int),
                forall|k: int| 0 <= k < lit@.len() ==> scan_rank(#[trigger] lit@[k]) < y * 64 + x,
                forall|px: int, py: int| #[trigger]
                    pixel_on(grid@, px, py) && (py < y || (py == y && px < x)) ==> lit@.contains(
                        (px as usize, py as usize),
                    ),
                forall|j: int, k: int|
                    0 <= j < k < lit@.len() ==> scan_rank(lit@[j]) < scan_rank(lit@[k]),
            decreases DISPLAY_WIDTH - x,
        {
            let ghost earlier = lit@;
            if pixel(grid, x, y) {
                lit.push((x, y));
                assert(lit@[earlier.len() as int] == (x, y));
            }
            proof {
                assert forall|px: int, py: int| #[trigger]
                    pixel_on(grid@, px, py) && (py < y || (py == y && px < x + 1)) implies lit@.contains(
                    (px as usize, py as usize),
                ) by {
                    if py == y && px == x {
                        assert(lit@[earlier.len() as int] == (px as usize, py as usize));
                    } else {
                        let k = earlier.index_of((px as usize, py as usize));
                        assert(lit@[k] == (px as usize, py as usize));
                    }
                }
            }
            x += 1;
        }
        y += 1;
    }
    lit
}

} // verus!
