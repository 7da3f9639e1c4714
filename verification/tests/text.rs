use rokf::text::{chars_of, line_spans, lines_of, push_decimal, str_eq, string_of, trim_bounds};

#[test]
fn decimal_rendering_matches_format() {
    for n in [0usize, 7, 10, 99, 100, 12345, usize::MAX] {
        let mut out = String::from("x");
        push_decimal(&mut out, n);
        assert_eq!(out, format!("x{n}"));
    }
}

#[test]
fn lines_match_str_lines() {
    for s in ["", "a", "a\n", "a\nb", "a\r\nb\r\n", "\n\n", "x\r", "\r\n", "é\nü\r\n"] {
        assert_eq!(lines_of(s), s.lines().collect::<Vec<_>>(), "{s:?}");
        let v = chars_of(s);
        assert_eq!(line_spans(&v).len(), s.lines().count());
    }
}

#[test]
fn trimming_matches_str_trim() {
    for s in ["", "  a b \t", "\u{3000}x\u{a0}", "---", " \n--- \n"] {
        let v = chars_of(s);
        let (a, b) = trim_bounds(&v, 0, v.len());
        assert_eq!(string_of(&v, a, b), s.trim());
        assert_eq!(string_of(&v, a, v.len()), s.trim_start());
    }
}

#[test]
fn string_equality() {
    assert!(str_eq("0.1", "0.1"));
    assert!(!str_eq("0.1", "0.10"));
    assert!(!str_eq("", "a"));
}
