//! The rail-conflict hold list read out of chipsim.js's text.

use v2c02::holds::rail_conflict_holds;

#[test]
fn the_ids_after_each_marker_come_back_ascending_and_once() {
    let text = b"if (arrayContains(group, 1233)) x; if (arrayContains(group, 17) || arrayContains(group, 1233)) y; arrayContains(group, 9";
    assert_eq!(rail_conflict_holds(text), Some(vec![9, 17, 1233]));
}

#[test]
fn a_marker_without_digits_names_nothing() {
    assert_eq!(rail_conflict_holds(b"arrayContains(group, x) arrayContains(group,5)"), Some(vec![]));
    assert_eq!(rail_conflict_holds(b""), Some(vec![]));
}

#[test]
fn an_id_past_u32_does_not_parse() {
    assert_eq!(rail_conflict_holds(b"arrayContains(group, 4294967295)"), Some(vec![u32::MAX]));
    assert_eq!(rail_conflict_holds(b"arrayContains(group, 4294967296)"), None);
}
