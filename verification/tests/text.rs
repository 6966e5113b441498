use bo::text::{contains_str, push_decimal, trimmed};

#[test]
fn trim_agrees_with_std() {
    for s in ["", "  ", "a", " a ", "\t\na b\r\n", "\u{a0}x\u{3000}", "\u{200b}x", "x\u{85}"] {
        assert_eq!(trimmed(s), s.trim(), "{:?}", s);
    }
}

#[test]
fn contains_agrees_with_std() {
    for (h, n) in [("abc", "b"), ("abc", ""), ("", ""), ("", "a"), ("aab", "ab"), ("text/htm", "text/html")] {
        assert_eq!(contains_str(h, n), h.contains(n), "{:?} {:?}", h, n);
    }
}

#[test]
fn decimal_agrees_with_format() {
    for n in [0u64, 7, 10, 404, 1000, u64::MAX] {
        let mut s = String::from("#");
        push_decimal(&mut s, n);
        assert_eq!(s, format!("#{}", n));
    }
}
