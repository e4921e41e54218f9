use png_decoder::png::adam7::{reduced_size, Pass};
use png_decoder::png::InterlaceMethod;

#[test]
fn the_seven_passes() {
    let method = InterlaceMethod::Adam7;
    assert_eq!(method.pass_count(), 7);
    let table = [
        (0, 0, 8, 8),
        (4, 0, 8, 8),
        (0, 4, 4, 8),
        (2, 0, 4, 4),
        (0, 2, 2, 4),
        (1, 0, 2, 2),
        (0, 1, 1, 2),
    ];
    for (p, (start_col, start_row, col_step, row_step)) in table.into_iter().enumerate() {
        assert_eq!(method.pass_geometry(p), Pass { start_col, start_row, col_step, row_step });
    }
    assert_eq!(InterlaceMethod::NoInterlace.pass_count(), 1);
    assert_eq!(
        InterlaceMethod::NoInterlace.pass_geometry(0),
        Pass { start_col: 0, start_row: 0, col_step: 1, row_step: 1 }
    );
}

#[test]
fn sizes_of_the_passes() {
    assert_eq!(reduced_size(0, 0, 8), 0);
    assert_eq!(reduced_size(1, 0, 8), 1);
    assert_eq!(reduced_size(8, 0, 8), 1);
    assert_eq!(reduced_size(9, 0, 8), 2);
    assert_eq!(reduced_size(4, 4, 8), 0);
    assert_eq!(reduced_size(5, 4, 8), 1);
    assert_eq!(reduced_size(12, 4, 8), 1);
    assert_eq!(reduced_size(13, 4, 8), 2);
    assert_eq!(reduced_size(7, 1, 2), 3);
    assert_eq!(reduced_size(7, 0, 1), 7);
    assert_eq!(reduced_size(7, 0, 0), 0);
    assert_eq!(reduced_size(u32::MAX, 0, 1), u32::MAX);
    assert_eq!(reduced_size(u32::MAX, 0, 8), 0x2000_0000);
    let pass = InterlaceMethod::Adam7.pass_geometry(3);
    assert_eq!(pass.column_count(7), 2);
    assert_eq!(pass.row_count(7), 2);
    let pass = InterlaceMethod::Adam7.pass_geometry(6);
    assert_eq!(pass.column_count(5), 5);
    assert_eq!(pass.row_count(5), 2);
    assert_eq!(pass.row_count(1), 0);
}

#[test]
fn the_pass_of_each_pixel_of_a_tile() {
    let tile: [[usize; 8]; 8] = [
        [1, 6, 4, 6, 2, 6, 4, 6],
        [7, 7, 7, 7, 7, 7, 7, 7],
        [5, 6, 5, 6, 5, 6, 5, 6],
        [7, 7, 7, 7, 7, 7, 7, 7],
        [3, 6, 4, 6, 3, 6, 4, 6],
        [7, 7, 7, 7, 7, 7, 7, 7],
        [5, 6, 5, 6, 5, 6, 5, 6],
        [7, 7, 7, 7, 7, 7, 7, 7],
    ];
    for y in 0..24u32 {
        for x in 0..24u32 {
            assert_eq!(
                InterlaceMethod::Adam7.pass_of_pixel(x, y) + 1,
                tile[(y % 8) as usize][(x % 8) as usize]
            );
            assert_eq!(InterlaceMethod::NoInterlace.pass_of_pixel(x, y), 0);
        }
    }
}

fn covered_exactly_once(method: InterlaceMethod, width: u32, height: u32) {
    let mut hits = vec![0u32; (width * height) as usize];
    for p in 0..method.pass_count() {
        let pass = method.pass_geometry(p);
        for i in 0..pass.row_count(height) {
            for j in 0..pass.column_count(width) {
                let x = pass.start_col + j * pass.col_step;
                let y = pass.start_row + i * pass.row_step;
                assert!(x < width && y < height);
                assert_eq!(method.pass_of_pixel(x, y), p);
                hits[(y * width + x) as usize] += 1;
            }
        }
    }
    assert!(hits.iter().all(|n| *n == 1), "{}x{}", width, height);
}

#[test]
fn the_passes_cover_every_pixel_exactly_once() {
    for width in 0..20 {
        for height in 0..20 {
            covered_exactly_once(InterlaceMethod::Adam7, width, height);
            covered_exactly_once(InterlaceMethod::NoInterlace, width, height);
        }
    }
    covered_exactly_once(InterlaceMethod::Adam7, 33, 65);
    covered_exactly_once(InterlaceMethod::Adam7, 1, 100);
    covered_exactly_once(InterlaceMethod::Adam7, 100, 1);
}
