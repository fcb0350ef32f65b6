use galaxy_md::text::{
    is_white_space_char, push_decimal, push_joined, push_str, trim_end_in_place, trimmed,
};

#[test]
fn whitespace_agrees_with_std() {
    for c in (0u32..=0x10ffff).filter_map(char::from_u32) {
        assert_eq!(is_white_space_char(c), c.is_whitespace(), "{:x}", c as u32);
    }
}

#[test]
fn decimal_digits() {
    for (n, s) in [
        (0u128, "0"),
        (9, "9"),
        (10, "10"),
        (1234567890, "1234567890"),
        (u128::MAX, "340282366920938463463374607431768211455"),
    ] {
        let mut out = vec!['x'];
        push_decimal(&mut out, n);
        let expected: Vec<char> = "x".chars().chain(s.chars()).collect();
        assert_eq!(out, expected);
    }
}

#[test]
fn trimming() {
    let v: Vec<char> = " \t a b \u{3000}\n".chars().collect();
    assert_eq!(trimmed(&v), vec!['a', ' ', 'b']);
    let mut w = v.clone();
    trim_end_in_place(&mut w);
    assert_eq!(w, vec![' ', '\t', ' ', 'a', ' ', 'b']);
    let blank: Vec<char> = "  ".chars().collect();
    assert_eq!(trimmed(&blank), Vec::<char>::new());
}

#[test]
fn joining_and_pushing() {
    let mut out: Vec<char> = Vec::new();
    push_str(&mut out, "é|");
    let parts = vec![vec!['a'], vec![], vec!['b', 'c']];
    push_joined(&mut out, &parts, " | ");
    let s: String = out.iter().collect();
    assert_eq!(s, "é|a |  | bc");
}
