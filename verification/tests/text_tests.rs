use zoomer_gp::text::{append_decimal, push_char, same_text};
use zoomer_gp::util::filled;

#[test]
fn decimal_text() {
    for (n, s) in [(0usize, "0"), (7, "7"), (10, "10"), (1234, "1234"), (usize::MAX, "18446744073709551615")] {
        let mut out = String::from("x=");
        append_decimal(&mut out, n);
        assert_eq!(out, format!("x={}", s));
    }
}

#[test]
fn pushing_and_comparing_text() {
    let mut s = String::from("ab");
    push_char(&mut s, 'é');
    assert_eq!(s, "abé");
    assert!(same_text("abé", &s));
    assert!(!same_text("abe", &s));
}

#[test]
fn filled_vectors() {
    assert_eq!(filled(3u8, 4), vec![3, 3, 3, 3]);
    assert!(filled(1.0f64, 0).is_empty());
}
