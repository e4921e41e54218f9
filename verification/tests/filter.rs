use png_decoder::encoders::EncoderError;
use png_decoder::png::filter::{
    filter_scanline, paeth, reconstruct_block, unfilter_scanline, MAX_FILTER_TYPE,
};

#[test]
fn paeth_picks_the_nearest() {
    assert_eq!(paeth(0, 0, 0), 0);
    assert_eq!(paeth(10, 20, 30), 10); // p = 0: a is nearest
    assert_eq!(paeth(0, 20, 0), 20); // p = 20
    assert_eq!(paeth(10, 40, 20), 40); // p = 30: b and c equally near, b first
    assert_eq!(paeth(50, 60, 55), 55); // p = 55
    assert_eq!(paeth(255, 255, 0), 255);
    assert_eq!(paeth(100, 100, 100), 100);
    assert_eq!(paeth(3, 1, 2), 2); // p = 2: c is nearest
    assert_eq!(paeth(2, 1, 3), 1); // p = 0: b is nearest
    assert_eq!(paeth(10, 5, 7), 7);
}

#[test]
fn paeth_ties_go_to_left_then_above() {
    // Left and upper left equally near: left.
    assert_eq!(paeth(40, 10, 20), 40);
    // Above and upper left equally near: above.
    assert_eq!(paeth(10, 40, 20), 40);
    // All three equally near: left.
    assert_eq!(paeth(7, 7, 7), 7);
}

#[test]
fn filters_are_undone() {
    // None
    assert_eq!(unfilter_scanline(0, &[1, 2, 3], &[9, 9, 9], 1).unwrap(), vec![1, 2, 3]);
    // Sub
    assert_eq!(unfilter_scanline(1, &[10, 10, 10], &[], 1).unwrap(), vec![10, 20, 30]);
    assert_eq!(unfilter_scanline(1, &[10, 10, 10, 1], &[], 2).unwrap(), vec![10, 10, 20, 11]);
    assert_eq!(unfilter_scanline(1, &[200, 100], &[], 1).unwrap(), vec![200, 44]);
    // Up
    assert_eq!(unfilter_scanline(2, &[1, 2, 3], &[10, 20, 30], 1).unwrap(), vec![11, 22, 33]);
    assert_eq!(unfilter_scanline(2, &[1, 2, 3], &[], 1).unwrap(), vec![1, 2, 3]);
    assert_eq!(unfilter_scanline(2, &[1, 2], &[255, 254], 1).unwrap(), vec![0, 0]);
    // Average
    assert_eq!(unfilter_scanline(3, &[0, 5], &[20, 40], 1).unwrap(), vec![10, 30]);
    assert_eq!(unfilter_scanline(3, &[10, 5], &[], 1).unwrap(), vec![10, 10]);
    assert_eq!(unfilter_scanline(3, &[0, 1], &[255, 255], 1).unwrap(), vec![127, 192]);
    // Paeth
    assert_eq!(unfilter_scanline(4, &[246, 246], &[20, 40], 1).unwrap(), vec![10, 30]);
    assert_eq!(unfilter_scanline(4, &[7, 1, 1], &[], 1).unwrap(), vec![7, 8, 9]);
}

#[test]
fn filters_are_applied() {
    assert_eq!(filter_scanline(0, &[1, 2, 3], &[9, 9, 9], 1).unwrap(), vec![1, 2, 3]);
    assert_eq!(filter_scanline(1, &[10, 20, 30], &[], 1).unwrap(), vec![10, 10, 10]);
    assert_eq!(filter_scanline(1, &[200, 44], &[], 1).unwrap(), vec![200, 100]);
    assert_eq!(filter_scanline(2, &[11, 22, 33], &[10, 20, 30], 1).unwrap(), vec![1, 2, 3]);
    assert_eq!(filter_scanline(3, &[10, 30], &[20, 40], 1).unwrap(), vec![0, 5]);
    assert_eq!(filter_scanline(4, &[10, 30], &[20, 40], 1).unwrap(), vec![246, 246]);
}

#[test]
fn defilter_round_trip() {
    let raw: Vec<u8> = vec![0, 255, 1, 254, 17, 17, 200, 3, 90, 128, 127, 64, 33, 250, 5, 77];
    let prior: Vec<u8> = vec![9, 0, 255, 13, 240, 100, 100, 1, 2, 3, 200, 180, 0, 0, 255, 31];
    for filter in 0..=MAX_FILTER_TYPE {
        for stride in [1usize, 2, 3, 4, 6, 8] {
            let line = filter_scanline(filter, &raw, &prior, stride).unwrap();
            assert_eq!(line.len(), raw.len());
            assert_eq!(unfilter_scanline(filter, &line, &prior, stride).unwrap(), raw);
            let first = filter_scanline(filter, &raw, &[], stride).unwrap();
            assert_eq!(unfilter_scanline(filter, &first, &[], stride).unwrap(), raw);
            // And the other way round.
            let recon = unfilter_scanline(filter, &raw, &prior, stride).unwrap();
            assert_eq!(filter_scanline(filter, &recon, &prior, stride).unwrap(), raw);
        }
    }
}

#[test]
fn a_filter_type_that_there_is_not_is_refused() {
    for filter in [5u8, 6, 100, 255] {
        let e = unfilter_scanline(filter, &[1, 2], &[], 1).err().unwrap();
        assert!(matches!(e, EncoderError::InvalidData(_)));
        assert_eq!(e.message(), "Invalid filter type");
        let e = filter_scanline(filter, &[1, 2], &[], 1).err().unwrap();
        assert_eq!(e.message(), "Invalid filter type");
    }
}

#[test]
fn an_empty_line_stays_empty() {
    for filter in 0..=4u8 {
        assert_eq!(unfilter_scanline(filter, &[], &[], 1).unwrap(), Vec::<u8>::new());
        assert_eq!(filter_scanline(filter, &[], &[1, 2], 3).unwrap(), Vec::<u8>::new());
    }
}

#[test]
fn a_block_is_reconstructed_line_by_line() {
    // Three lines of two bytes behind two bytes that do not belong to them.
    let data = [99u8, 99, 1, 10, 10, 2, 1, 1, 4, 0, 0];
    let block = reconstruct_block(&data, 2, 2, 3, 1).unwrap();
    assert_eq!(block, vec![vec![10, 20], vec![11, 21], vec![11, 21]]);
    assert_eq!(reconstruct_block(&data, 2, 2, 0, 1).unwrap(), Vec::<Vec<u8>>::new());
    let bad = [0u8, 1, 2, 5, 3, 4];
    let e = reconstruct_block(&bad, 0, 2, 2, 1).err().unwrap();
    assert_eq!(e.message(), "Invalid filter type");
    assert_eq!(reconstruct_block(&bad, 0, 2, 1, 1).unwrap(), vec![vec![1, 2]]);
}

#[test]
fn a_block_that_the_data_does_not_hold_is_refused() {
    let data = [0u8, 1, 2, 0, 3, 4];
    assert!(reconstruct_block(&data, 0, 2, 2, 1).is_ok());
    for (start, width, lines) in [
        (0usize, 2usize, 3usize),
        (1, 2, 2),
        (0, 3, 2),
        (7, 0, 0),
        (0, usize::MAX, 1),
        (0, 1, usize::MAX),
        (usize::MAX, usize::MAX, usize::MAX),
        (0, 6, 1),
    ] {
        let e = reconstruct_block(&data, start, width, lines, 1).err().unwrap();
        assert!(matches!(e, EncoderError::InvalidData(_)));
        assert_eq!(e.message(), "Invalid scanline length");
    }
    assert_eq!(reconstruct_block(&data, 6, 0, 0, 1).unwrap(), Vec::<Vec<u8>>::new());
    assert_eq!(reconstruct_block(&data, 0, 0, 6, 1).unwrap().len(), 6);
    // The length is looked at before the filter types.
    let bad = [9u8, 1, 2];
    assert_eq!(reconstruct_block(&bad, 0, 2, 2, 1).err().unwrap().message(), "Invalid scanline length");
    assert_eq!(reconstruct_block(&bad, 0, 2, 1, 1).err().unwrap().message(), "Invalid filter type");
}
