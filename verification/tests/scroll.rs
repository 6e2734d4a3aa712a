//! The scroll model's increments, copies, register loads and fetch
//! addresses on concrete addresses.

use v2c02::scroll::{
    addr_hi_into_t, addr_lo_into_t, attribute_fetch_addr, attribute_fetch_shift, copy_x, copy_y,
    ctrl_into_t, inc_x, inc_y, nametable_fetch_addr, pattern_fetch_addr, scroll_x_into_t,
    scroll_y_into_t,
};

#[test]
fn the_coarse_x_increment_steps_a_column_and_wraps_into_the_next_nametable() {
    assert_eq!(inc_x(0x0000), 0x0001);
    assert_eq!(inc_x(0x241e), 0x241f);
    assert_eq!(inc_x(0x001f), 0x0400);
    assert_eq!(inc_x(0x041f), 0x0000);
    assert_eq!(inc_x(0x7bff), 0x7fe0, "fine Y, coarse Y and the vertical select stay");
}

#[test]
fn the_y_increment_steps_fine_y_then_the_tile_row() {
    assert_eq!(inc_y(0x0000), 0x1000);
    assert_eq!(inc_y(0x6000), 0x7000);
    assert_eq!(inc_y(0x7000), 0x0020, "past fine Y 7 the next row");
    assert_eq!(inc_y(0x73a0), 0x0800, "row 29 wraps into the other nametable");
    assert_eq!(inc_y(0x7ba5), 0x0005, "and back");
    assert_eq!(inc_y(0x73e0), 0x0000, "row 31 wraps in place");
    assert_eq!(inc_y(0x77df), 0x07ff, "row 30 steps to 31; the X bits stay");
}

#[test]
fn the_copies_take_their_own_bits_of_t() {
    assert_eq!(copy_x(0x7fff, 0x0000), 0x7be0);
    assert_eq!(copy_x(0x0000, 0x7fff), 0x041f);
    assert_eq!(copy_y(0x7fff, 0x0000), 0x041f);
    assert_eq!(copy_y(0x0000, 0x7fff), 0x7be0);
    assert_eq!(copy_x(0x8000, 0x0000), 0x8000, "bit 15 is v's own");
}

#[test]
fn register_writes_load_their_fields_of_t() {
    assert_eq!(ctrl_into_t(0x7fff, 0x00), 0x73ff);
    assert_eq!(ctrl_into_t(0x0000, 0xfe), 0x0800);
    assert_eq!(scroll_x_into_t(0x7fe0, 0xf8), 0x7fff);
    assert_eq!(scroll_x_into_t(0x001f, 0x07), 0x0000);
    assert_eq!(scroll_y_into_t(0x0000, 0xff), 0x73e0);
    assert_eq!(scroll_y_into_t(0x7fff, 0x00), 0x0c1f);
    assert_eq!(addr_hi_into_t(0xffaa, 0xff), 0x3faa, "two bits of the high byte are dropped, bit 14 too");
    assert_eq!(addr_lo_into_t(0x3f00, 0x42), 0x3f42);
}

#[test]
fn the_fetch_addresses_follow_v() {
    assert_eq!(nametable_fetch_addr(0x0000), 0x2000);
    assert_eq!(nametable_fetch_addr(0x7fff), 0x2fff);
    assert_eq!(nametable_fetch_addr(0x1c45), 0x2c45);
    assert_eq!(attribute_fetch_addr(0x0000), 0x23c0);
    assert_eq!(attribute_fetch_addr(0x0c00), 0x2fc0);
    assert_eq!(attribute_fetch_addr(0x03ff), 0x23ff);
    assert_eq!(attribute_fetch_addr(0x0084), 0x23c9);
    assert_eq!(attribute_fetch_shift(0x0000), 0);
    assert_eq!(attribute_fetch_shift(0x0002), 2);
    assert_eq!(attribute_fetch_shift(0x0040), 4);
    assert_eq!(attribute_fetch_shift(0x0042), 6);
    assert_eq!(pattern_fetch_addr(false, 0x00, 0), 0x0000);
    assert_eq!(pattern_fetch_addr(false, 0xff, 7), 0x0ff7);
    assert_eq!(pattern_fetch_addr(true, 0x12, 3), 0x1123);
}
