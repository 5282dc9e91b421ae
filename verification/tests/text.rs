use glide_wm::sys::geometry::CGFloat;
use glide_wm::text::{
    decimal, decimal_i32, is_white, join_path, parse_i32, same_text, split, split_once, trim,
};

#[test]
fn splitting_matches_the_standard_library() {
    for s in ["", " ", "a", "a b", " a  b ", "\u{e9} x"] {
        let expected: Vec<String> = s.split(' ').map(|p| p.to_owned()).collect();
        assert_eq!(split(s, ' '), expected);
        assert_eq!(split(s, ' ').join(" "), s);
    }
}

#[test]
fn splitting_once_matches_the_standard_library() {
    for s in ["", ":", "a", "a:b", "a:b:c", ":b", "\u{e9}:\u{e9}"] {
        let expected = s.split_once(':').map(|(a, b)| (a.to_owned(), b.to_owned()));
        assert_eq!(split_once(s, ':'), expected);
    }
}

#[test]
fn trimming_matches_the_standard_library() {
    for s in ["", " ", "a", " a ", "\t\na b\r\n", "\u{a0}x\u{3000}", "\u{200b}x"] {
        assert_eq!(trim(s), s.trim());
    }
    for c in (0u32..0x11_0000).filter_map(char::from_u32) {
        assert_eq!(is_white(c), c.is_whitespace());
    }
}

#[test]
fn numbers_match_the_standard_library() {
    for n in [0u64, 9, 10, 12345, u64::MAX] {
        assert_eq!(decimal(n), n.to_string());
    }
    for n in [0i32, -1, 7, i32::MAX, i32::MIN] {
        assert_eq!(decimal_i32(n), n.to_string());
        assert_eq!(parse_i32(&n.to_string()), Some(n));
    }
    for s in ["", "+", "-", "+5", "-0", "007", "1a", "\u{661}", "2147483648", "-2147483649"] {
        assert_eq!(parse_i32(s), s.parse::<i32>().ok());
    }
}

#[test]
fn paths_are_joined() {
    assert_eq!(join_path("/a", "b/c"), "/a/b/c");
    assert_eq!(join_path("/a/", "b"), "/a/b");
    assert_eq!(join_path("", "b"), "b");
    assert_eq!(join_path("/a", ""), "/a/");
    assert_eq!(join_path("/a", "/x/y"), "/x/y");
    assert_eq!(join_path("", "/x"), "/x");
    assert!(same_text("a", "a"));
    assert!(!same_text("a", "A"));
}

#[test]
fn numbers_compare_as_in_hardware() {
    let values = [
        0.0,
        -0.0,
        1.0,
        -1.0,
        0.5,
        100.0,
        1e-310,
        f64::MAX,
        f64::MIN,
        f64::INFINITY,
        f64::NEG_INFINITY,
        f64::NAN,
    ];
    for a in values {
        for b in values {
            let (x, y) = (CGFloat { bits: a.to_bits() }, CGFloat { bits: b.to_bits() });
            assert_eq!(x.is_less(y), a < b);
            assert_eq!(x == y, a == b);
            assert_eq!(x.is_at_most(y), a <= b);
        }
    }
    for n in [0u64, 1, 2, 3, 100, 12345, (1 << 53) - 1] {
        assert_eq!(CGFloat::whole(n).bits, (n as f64).to_bits());
    }
}
