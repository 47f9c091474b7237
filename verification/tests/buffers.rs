use bitte_pixels::assets::{Assets, NoHandle};
use bitte_pixels::bytes::words_to_bytes;
use bitte_pixels::canvas::{dimension_uniform, dimension_words, DIMENSIONS_UNIFORM_SIZE};
use bitte_pixels::primitives::{line_strip_indices, RESTART_INDEX};
use bitte_pixels::Size;

fn words_of(bytes: &[u8]) -> Vec<u32> {
    bytes
        .chunks(4)
        .map(|word| u32::from_ne_bytes([word[0], word[1], word[2], word[3]]))
        .collect()
}

#[test]
fn words_become_four_bytes_each() {
    let bytes = words_to_bytes(&[1, 0x0102_0304, u32::MAX]);
    assert_eq!(bytes.len(), 12);
    assert_eq!(words_of(&bytes), vec![1, 0x0102_0304, u32::MAX]);
    assert_eq!(words_to_bytes(&[]), Vec::<u8>::new());
}

#[test]
fn words_lie_lowest_or_highest_byte_first() {
    let words = [0x0102_0304u32, 0xa0b0_c0d0, 7];
    let bytes = words_to_bytes(&words);
    let low: Vec<u8> = words.iter().flat_map(|word| word.to_le_bytes()).collect();
    let high: Vec<u8> = words.iter().flat_map(|word| word.to_be_bytes()).collect();
    assert_eq!(low[..4], [4, 3, 2, 1]);
    assert_eq!(high[..4], [1, 2, 3, 4]);
    assert!(bytes == low || bytes == high);
}

#[test]
fn dimension_uniform_is_the_words_in_one_byte_order() {
    let bytes = dimension_uniform(&Size { width: 0x0102_0304, height: 0x0a0b_0c0d });
    let low = vec![4u8, 3, 2, 1, 0x0d, 0x0c, 0x0b, 0x0a, 0, 0, 0, 0, 0, 0, 0, 0];
    let high = vec![1u8, 2, 3, 4, 0x0a, 0x0b, 0x0c, 0x0d, 0, 0, 0, 0, 0, 0, 0, 0];
    assert!(bytes == low || bytes == high);
}

#[test]
fn dimension_uniform_holds_width_height_and_filling() {
    let size = Size { width: 240, height: 135 };
    assert_eq!(dimension_words(&size), [240, 135, 0, 0]);
    let bytes = dimension_uniform(&size);
    assert_eq!(bytes.len(), DIMENSIONS_UNIFORM_SIZE);
    assert_eq!(bytes.len(), 16);
    assert_eq!(words_of(&bytes), vec![240, 135, 0, 0]);
}

#[test]
fn strips_are_counted_through_and_ended() {
    assert_eq!(
        line_strip_indices(&[3, 2]),
        Some(vec![0, 1, 2, RESTART_INDEX, 3, 4, RESTART_INDEX])
    );
    assert_eq!(RESTART_INDEX, u32::MAX);
}

#[test]
fn empty_strip_is_a_lone_restart() {
    assert_eq!(line_strip_indices(&[]), Some(Vec::new()));
    assert_eq!(line_strip_indices(&[0]), Some(vec![RESTART_INDEX]));
    assert_eq!(
        line_strip_indices(&[1, 0, 1]),
        Some(vec![0, RESTART_INDEX, RESTART_INDEX, 1, RESTART_INDEX])
    );
}

#[test]
fn more_points_than_indices_are_refused() {
    assert_eq!(line_strip_indices(&[usize::MAX]), None);
    assert_eq!(line_strip_indices(&[2, usize::MAX - 1]), None);
    assert_eq!(line_strip_indices(&[2, u32::MAX as usize - 1, 0]), None);
}

#[test]
fn unit_assets_hold_nothing() {
    let assets = <() as Assets>::init().expect("the unit assets always load");
    assert!(Assets::get::<u32>(&assets, NoHandle).is_none());
    assert!(Assets::get::<String>(&assets, NoHandle).is_none());
}
