//! Script statistics over character maps, and monospace detection.

use fontquant::font::{glyphs_for_primary_script_of, monospaced, primary_script_of};

#[test]
fn latin_codepoints_give_latin() {
    let cps: Vec<u32> = ('a'..='z').map(|c| c as u32).collect();
    assert_eq!(primary_script_of(&cps), "Latn");
}

#[test]
fn greek_codepoints_give_greek() {
    let cps: Vec<u32> = vec![0x3B1, 0x3B2, 0x3B3, 0x3B4, 0x3B5];
    assert_eq!(primary_script_of(&cps), "Grek");
}

#[test]
fn the_majority_script_wins() {
    let mut cps: Vec<u32> = vec![0x3B1, 0x3B2, 0x3B3];
    cps.extend(('a'..='f').map(|c| c as u32));
    assert_eq!(primary_script_of(&cps), "Latn");
}

#[test]
fn common_codepoints_alone_default_to_latin() {
    // Digits and spaces carry the common class, which is not counted.
    let cps: Vec<u32> = "0123 ,.".chars().map(|c| c as u32).collect();
    assert_eq!(primary_script_of(&cps), "Latn");
}

#[test]
fn an_empty_map_defaults_to_latin() {
    let cps: Vec<u32> = Vec::new();
    assert_eq!(primary_script_of(&cps), "Latn");
}

#[test]
fn surrogate_scalars_are_skipped() {
    let cps: Vec<u32> = vec![0xD800, 0x3B1, 0x3B2];
    assert_eq!(primary_script_of(&cps), "Grek");
}

#[test]
fn glyphs_of_the_primary_script_are_filtered() {
    // Three Latin letters, two Greek ones and a digit: the digit and the
    // Greek glyphs stay out of the Latin list.
    let entries: Vec<(u32, u32)> = vec![
        ('a' as u32, 1),
        ('b' as u32, 2),
        ('c' as u32, 3),
        (0x3B1, 4),
        (0x3B2, 5),
        ('7' as u32, 6),
    ];
    let gids = glyphs_for_primary_script_of(&entries);
    assert_eq!(gids, vec![1, 2, 3]);
}

#[test]
fn one_shared_advance_width_is_monospaced() {
    let widths = vec![600u16; 95];
    assert!(monospaced(&widths));
}

#[test]
fn several_distinct_advance_widths_are_not_monospaced() {
    let widths = vec![600u16, 300, 600, 800, 600];
    assert!(!monospaced(&widths));
}

#[test]
fn an_empty_width_list_counts_as_monospaced() {
    let widths: Vec<u16> = Vec::new();
    assert!(monospaced(&widths));
}
