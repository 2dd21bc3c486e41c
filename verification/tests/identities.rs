//! Rendering client identities.

use five_hundred::ids::pretty_num;

#[test]
fn zero_renders_empty() {
    assert_eq!(pretty_num(0), "".to_string());
}

#[test]
fn single_digits() {
    assert_eq!(pretty_num(1), "1".to_string());
    assert_eq!(pretty_num(9), "9".to_string());
    assert_eq!(pretty_num(10), "A".to_string());
    assert_eq!(pretty_num(35), "Z".to_string());
    assert_eq!(pretty_num(36), "a".to_string());
    assert_eq!(pretty_num(61), "z".to_string());
}

#[test]
fn little_endian_digit_order() {
    // 62 is one unit in the second digit: the low digit comes first.
    assert_eq!(pretty_num(62), "01".to_string());
    assert_eq!(pretty_num(63), "11".to_string());
    assert_eq!(pretty_num(62 * 62), "001".to_string());
    assert_eq!(pretty_num(61 + 62 * 10), "zA".to_string());
}

#[test]
fn large_values_render_without_loss() {
    // 62^3 * 5 + 62 * 7 + 3 in little-endian base 62.
    let n: u128 = 5 * 62 * 62 * 62 + 7 * 62 + 3;
    assert_eq!(pretty_num(n), "3705".to_string());
}
