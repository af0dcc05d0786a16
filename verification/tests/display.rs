use chip8::display::{get_empty_grid, lit_pixels, pixel, DISPLAY_HEIGHT, DISPLAY_WIDTH};

#[test]
fn empty_grid_has_32_blank_rows() {
    let grid = get_empty_grid();
    assert_eq!(grid.len(), 32);
    assert_eq!(grid, vec![0u64; 32]);
    assert_eq!(DISPLAY_WIDTH, 64);
    assert_eq!(DISPLAY_HEIGHT, 32);
}

#[test]
fn empty_grid_has_no_lit_pixel() {
    let grid = get_empty_grid();
    assert!(lit_pixels(&grid).is_empty());
    assert!(!pixel(&grid, 0, 0));
    assert!(!pixel(&grid, 63, 31));
}

#[test]
fn leftmost_pixel_is_the_most_significant_bit() {
    let mut grid = get_empty_grid();
    grid[0] = 1u64 << 63;
    grid[5] = 1;
    assert!(pixel(&grid, 0, 0));
    assert!(!pixel(&grid, 1, 0));
    assert!(!pixel(&grid, 63, 0));
    assert!(pixel(&grid, 63, 5));
    assert!(!pixel(&grid, 0, 5));
    assert!(!pixel(&grid, 62, 5));
}

#[test]
fn pixel_x_is_bit_63_minus_x() {
    let mut grid = get_empty_grid();
    grid[7] = 1u64 << (63 - 20);
    let mut x: usize = 0;
    while x < 64 {
        assert_eq!(pixel(&grid, x, 7), x == 20);
        x += 1;
    }
}

#[test]
fn nothing_is_lit_off_the_grid() {
    let grid = vec![u64::MAX; 32];
    assert!(pixel(&grid, 63, 31));
    assert!(!pixel(&grid, 64, 0));
    assert!(!pixel(&grid, 0, 32));
    assert!(!pixel(&grid, usize::MAX, usize::MAX));
}

#[test]
fn lit_pixels_come_row_by_row_from_the_left() {
    let mut grid = get_empty_grid();
    grid[3] = (1u64 << 63) | (1u64 << 61) | 1;
    grid[1] = 1u64 << (63 - 10);
    grid[31] = 1u64 << (63 - 63);
    assert_eq!(
        lit_pixels(&grid),
        vec![(10, 1), (0, 3), (2, 3), (63, 3), (63, 31)]
    );
}

#[test]
fn lit_pixels_of_a_full_row() {
    let mut grid = get_empty_grid();
    grid[2] = u64::MAX;
    let lit = lit_pixels(&grid);
    assert_eq!(lit.len(), 64);
    let mut x: usize = 0;
    while x < 64 {
        assert_eq!(lit[x], (x, 2));
        x += 1;
    }
}

#[test]
fn lit_pixels_agree_with_pixel() {
    let mut grid = get_empty_grid();
    grid[0] = 0xDEAD_BEEF_0123_4567;
    grid[17] = 0x8000_0000_0000_0001;
    grid[31] = 0x0F0F_0F0F_F0F0_F0F0;
    let lit = lit_pixels(&grid);
    let mut count: usize = 0;
    let mut y: usize = 0;
    while y < 32 {
        let mut x: usize = 0;
        while x < 64 {
            if pixel(&grid, x, y) {
                assert_eq!(lit[count], (x, y));
                count += 1;
            }
            x += 1;
        }
        y += 1;
    }
    assert_eq!(count, lit.len());
}

#[test]
fn lit_pixels_of_a_short_grid() {
    let grid: Vec<u64> = vec![1u64 << 63, 0, 1u64 << 62];
    assert_eq!(lit_pixels(&grid), vec![(0, 0), (1, 2)]);
    let none: Vec<u64> = Vec::new();
    assert!(lit_pixels(&none).is_empty());
}
