use siliconsneaker2::scrub::{is_interior, scrub_index};
use siliconsneaker2::units::UNIT;

#[test]
fn scrub_middle_and_ends() {
    assert_eq!(scrub_index(500_000, 5), 2);
    assert_eq!(scrub_index(0, 5), 0);
    assert_eq!(scrub_index(UNIT as u64, 5), 4);
    assert!(is_interior(2, 5));
    assert!(!is_interior(0, 5));
    assert!(!is_interior(4, 5));
}

#[test]
fn scrub_lengths_differ() {
    assert_eq!(scrub_index(500_000, 10), 4);
    assert_eq!(scrub_index(500_000, 7), 3);
    assert_eq!(scrub_index(500_000, 0), 0);
}
