use qr_lib::QrRaw;
use qr_lib::QrVersion;

fn version(n: u8) -> QrVersion {
    QrVersion::try_from(n).unwrap()
}

fn count_set(grid: &QrRaw) -> usize {
    let side = grid.side_length();
    let mut count: usize = 0;
    for y in 0..side {
        for x in 0..side {
            if grid.get_unchecked(x, y) {
                count += 1;
            }
        }
    }
    count
}

#[test]
fn new_grid_is_light_everywhere() {
    let grid = QrRaw::new(version(1));
    assert_eq!(grid.side_length(), 21);
    assert_eq!(grid.version().to_u8(), 1);
    for y in 0..21 {
        for x in 0..21 {
            assert_eq!(grid.get(x, y), Some(false));
            assert!(!grid.get_unchecked(x, y));
        }
    }
}

#[test]
fn new_grid_has_the_side_of_its_version() {
    let grid = QrRaw::new(version(40));
    assert_eq!(grid.side_length(), 177);
    assert_eq!(grid.get(176, 176), Some(false));
    assert_eq!(grid.get(177, 176), None);
}

#[test]
fn get_outside_the_grid_is_none() {
    let grid = QrRaw::new(version(1));
    assert_eq!(grid.get(21, 0), None);
    assert_eq!(grid.get(0, 21), None);
    assert_eq!(grid.get(21, 21), None);
    assert_eq!(grid.get(usize::MAX, usize::MAX), None);
    assert_eq!(grid.get(20, 20), Some(false));
}

#[test]
fn set_changes_one_module() {
    let mut grid = QrRaw::new(version(2));
    grid.set(3, 7, true);
    assert_eq!(grid.get(3, 7), Some(true));
    assert!(grid.get_unchecked(3, 7));
    assert_eq!(grid.get(7, 3), Some(false));
    assert_eq!(count_set(&grid), 1);
    grid.set(3, 7, false);
    assert_eq!(count_set(&grid), 0);
}

#[test]
fn index_is_row_major() {
    let grid = QrRaw::new(version(1));
    assert_eq!(grid.to_index(0, 0), 0);
    assert_eq!(grid.to_index(3, 2), 45);
    assert_eq!(grid.to_index(20, 20), 440);
    assert_eq!(grid.to_coords(45), (3, 2));
    assert_eq!(grid.to_coords(440), (20, 20));
}

#[test]
fn index_and_coords_undo_each_other() {
    let grid = QrRaw::new(version(3));
    let side = grid.side_length();
    for y in 0..side {
        for x in 0..side {
            assert_eq!(grid.to_coords(grid.to_index(x, y)), (x, y));
        }
    }
    for index in 0..side * side {
        let (x, y) = grid.to_coords(index);
        assert_eq!(grid.to_index(x, y), index);
    }
}

#[test]
fn horizontal_line_covers_both_ends() {
    let mut grid = QrRaw::new(version(1));
    grid.draw_horizontal_line(2, 5, 9, true);
    for y in 0..21 {
        for x in 0..21 {
            assert_eq!(grid.get_unchecked(x, y), y == 9 && (2..=5).contains(&x));
        }
    }
}

#[test]
fn vertical_line_covers_both_ends() {
    let mut grid = QrRaw::new(version(1));
    grid.draw_vertical_line(4, 18, 20, true);
    for y in 0..21 {
        for x in 0..21 {
            assert_eq!(grid.get_unchecked(x, y), x == 4 && (18..=20).contains(&y));
        }
    }
}

#[test]
fn backward_line_draws_nothing() {
    let mut grid = QrRaw::new(version(1));
    grid.draw_horizontal_line(5, 4, 9, true);
    grid.draw_vertical_line(5, 1, 0, true);
    assert_eq!(count_set(&grid), 0);
}

#[test]
fn square_draws_its_outline_only() {
    let mut grid = QrRaw::new(version(1));
    grid.draw_square(2, 3, 5, true);
    for y in 0..21 {
        for x in 0..21 {
            let inside = (2..7).contains(&x) && (3..8).contains(&y);
            let edge = x == 2 || x == 6 || y == 3 || y == 7;
            assert_eq!(grid.get_unchecked(x, y), inside && edge);
        }
    }
    assert_eq!(count_set(&grid), 16);
}

#[test]
fn square_of_size_zero_draws_nothing() {
    let mut grid = QrRaw::new(version(1));
    grid.draw_square(4, 4, 0, true);
    assert_eq!(count_set(&grid), 0);
}

#[test]
fn small_squares() {
    let mut grid = QrRaw::new(version(1));
    grid.draw_square(0, 0, 1, true);
    assert_eq!(count_set(&grid), 1);
    assert!(grid.get_unchecked(0, 0));
    grid.draw_square(10, 10, 2, true);
    assert_eq!(count_set(&grid), 5);
    grid.draw_square(14, 14, 7, true);
    assert_eq!(count_set(&grid), 5 + 24);
    assert!(grid.get_unchecked(20, 20));
    assert!(!grid.get_unchecked(15, 15));
}

#[test]
fn drawing_light_clears_modules() {
    let mut grid = QrRaw::new(version(1));
    grid.draw_square(0, 0, 7, true);
    grid.draw_horizontal_line(0, 6, 0, false);
    assert_eq!(count_set(&grid), 24 - 7);
}
