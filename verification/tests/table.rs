//! The build-time measurements decoded from their bytes.

use v2c02::table::{available, palette_as_loaded, table, table_available};
use v2c02::{DOTS_PER_LINE, LINES};

#[test]
fn the_table_is_a_little_endian_word_per_dot() {
    let mut bytes = vec![0u8; LINES * DOTS_PER_LINE * 2];
    bytes[0] = 0x34;
    bytes[1] = 0x12;
    bytes[2] = 0xff;
    let last = bytes.len() - 1;
    bytes[last] = 0x80;
    let t = table(&bytes);
    assert_eq!(t.len(), LINES * DOTS_PER_LINE);
    assert_eq!(t[0], 0x1234);
    assert_eq!(t[1], 0x00ff);
    assert_eq!(t[2], 0);
    assert_eq!(t[t.len() - 1], 0x8000);
}

#[test]
fn the_measurements_are_real_only_at_their_sizes() {
    let words = vec![0u8; LINES * DOTS_PER_LINE * 2];
    assert!(table_available(&words, &[0u8; 32]));
    assert!(!table_available(&words, &[0u8; 31]));
    assert!(!table_available(&words[1..], &[0u8; 32]));
    assert!(!table_available(&[], &[]));
}

#[test]
fn the_palette_is_the_bytes_as_measured() {
    let bytes: Vec<u8> = (0..32u8).map(|i| i * 3).collect();
    let p = palette_as_loaded(&bytes);
    assert_eq!(&p[..], &bytes[..]);
}

#[test]
fn the_netlist_is_there_when_its_blob_is() {
    assert!(!available(&[]));
    assert!(available(&[0]));
}
