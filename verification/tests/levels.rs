use opensokoban::config::{CRATE, FLOOR, GOAL, PLAYER, WALL};
use opensokoban::level::{level_loads, load_map, read_bits, try_load_map};

// Level 0: 2x1, codes 6 (player), 5 (crate): bits 110 101 -> 0b1101_0100.
// Separator 0, then level 1: 1x1, code 1 (wall): bits 001 -> 0b0010_0000.
const TWO_LEVELS: [u8; 7] = [2, 1, 0b1101_0100, 0, 1, 1, 0b0010_0000];

#[test]
fn read_bits_reads_three_bits_msb_first() {
    let bytes = [0b1011_0011u8, 0b1000_0000];
    let mut cursor = 0;
    assert_eq!(read_bits(&bytes, &mut cursor), Some(0b101));
    assert_eq!(cursor, 3);
    assert_eq!(read_bits(&bytes, &mut cursor), Some(0b100));
    assert_eq!(cursor, 6);
    assert_eq!(read_bits(&bytes, &mut cursor), Some(0b111));
    assert_eq!(cursor, 9);
}

#[test]
fn read_bits_refuses_past_the_end() {
    let bytes = [0xffu8];
    let mut cursor = 6;
    assert_eq!(read_bits(&bytes, &mut cursor), None);
    assert_eq!(cursor, 6);
    let mut at_end = 5;
    assert_eq!(read_bits(&bytes, &mut at_end), Some(7));
    assert_eq!(at_end, 8);
}

#[test]
fn load_first_level() {
    let (map, size, player) = load_map(&TWO_LEVELS, 0);
    assert_eq!(map, vec![vec![PLAYER, CRATE]]);
    assert_eq!(size, (2, 1));
    assert_eq!(player, (0, 0));
}

#[test]
fn load_level_after_separator() {
    let (map, size, player) = load_map(&TWO_LEVELS, 1);
    assert_eq!(map, vec![vec![WALL]]);
    assert_eq!(size, (1, 1));
    assert_eq!(player, (0, 0));
}

#[test]
fn load_missing_level_is_empty() {
    let (map, size, player) = load_map(&TWO_LEVELS, 2);
    assert!(map.is_empty());
    assert_eq!(size, (0, 0));
    assert_eq!(player, (0, 0));
    let (map, size, _) = load_map(&[], 0);
    assert!(map.is_empty());
    assert_eq!(size, (0, 0));
}

#[test]
fn every_code_decodes() {
    // 3x3: codes 0..=7 then 6: 000 001 010 011 100 101 110 111 110 -> 27 bits
    // bits: 000001010011100101110111110 then padding
    let bytes = [3u8, 3, 0b0000_0101, 0b0011_1001, 0b0111_0111, 0b1100_0000];
    let (map, size, player) = load_map(&bytes, 0);
    assert_eq!(size, (3, 3));
    assert_eq!(
        map,
        vec![vec![FLOOR, WALL, FLOOR], vec![GOAL, GOAL, CRATE], vec![PLAYER, FLOOR, PLAYER]]
    );
    // the last start code wins
    assert_eq!(player, (2, 2));
}

#[test]
fn record_without_separator() {
    // Level 0: 1x1 code 2 -> 0b0100_0000; level 1 follows directly: 1x2 codes 6, 3.
    let bytes = [1u8, 1, 0b0100_0000, 1, 2, 0b1100_1100];
    let (map, _, _) = load_map(&bytes, 0);
    assert_eq!(map, vec![vec![FLOOR]]);
    let (map, size, player) = load_map(&bytes, 1);
    assert_eq!(map, vec![vec![PLAYER], vec![GOAL]]);
    assert_eq!(size, (1, 2));
    assert_eq!(player, (0, 0));
}

#[test]
fn truncated_record_is_reported() {
    let bytes = [3u8, 3, 0];
    assert!(try_load_map(&bytes, 0).is_none());
    assert!(!level_loads(&bytes, 0));
    assert!(level_loads(&TWO_LEVELS, 0));
    assert!(try_load_map(&TWO_LEVELS, 5).is_some());
    // a truncated record after the wanted one does not matter
    let mut bytes = TWO_LEVELS.to_vec();
    bytes.extend_from_slice(&[0, 9, 9]);
    assert!(level_loads(&bytes, 1));
    assert!(!level_loads(&bytes, 2));
}

#[test]
fn truncation_stops_later_levels_only() {
    let bytes = [1u8, 1, 0b0100_0000, 4, 4, 1];
    assert!(level_loads(&bytes, 0));
    assert!(!level_loads(&bytes, 1));
    assert!(!level_loads(&bytes, 7));
}
