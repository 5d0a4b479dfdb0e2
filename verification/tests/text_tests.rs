use rumester::number::{parse_i32, parse_i64, push_decimal};
use rumester::paths::join;
use rumester::text::{
    chars_of, contains_chars, line_bounds, same_text, split_bounds, split_crlf_bounds, string_of,
    word_bounds, Sep,
};

fn pieces(chars: &Vec<char>, bounds: &[(usize, usize)]) -> Vec<String> {
    bounds.iter().map(|&(a, b)| string_of(chars, a, b)).collect()
}

const SAMPLES: &[&str] = &[
    "",
    "a",
    "\r\n",
    "v0\r\nname\r\nabc\r\n12\r\n34\r\n",
    "\r\r\n\n",
    "a\nb\n",
    "a\r\nb\rc\n\n",
    "  one two\tthree\u{3000}four\u{85} ",
    "1.2.3",
    "..",
    "x\r",
];

#[test]
fn split_matches_std() {
    for s in SAMPLES {
        let chars = chars_of(s);
        let n = chars.len();
        let dots: Vec<String> = s.split('.').map(String::from).collect();
        assert_eq!(pieces(&chars, &split_bounds(&chars, 0, n, Sep::Dot)), dots, "{:?}", s);
        let nl: Vec<String> = s.split('\n').map(String::from).collect();
        assert_eq!(pieces(&chars, &split_bounds(&chars, 0, n, Sep::Newline)), nl, "{:?}", s);
        let crlf: Vec<String> = s.split("\r\n").map(String::from).collect();
        assert_eq!(pieces(&chars, &split_crlf_bounds(&chars, 0, n)), crlf, "{:?}", s);
        let lines: Vec<String> = s.lines().map(String::from).collect();
        assert_eq!(pieces(&chars, &line_bounds(&chars, 0, n)), lines, "{:?}", s);
        let words: Vec<String> = s.split_whitespace().map(String::from).collect();
        assert_eq!(pieces(&chars, &word_bounds(&chars, 0, n)), words, "{:?}", s);
    }
}

#[test]
fn contains_matches_std() {
    let hays = ["", "abc", "xxabcxx", "ab", "aab"];
    let needles = ["", "a", "abc", "ab", "b", "zz"];
    for h in hays {
        for n in needles {
            let hc = chars_of(h);
            let nc = chars_of(n);
            assert_eq!(contains_chars(&hc, 0, hc.len(), &nc), h.contains(n), "{:?} {:?}", h, n);
        }
    }
}

#[test]
fn parse_matches_std() {
    let inputs = [
        "", "0", "-0", "+0", "+", "-", "12", "-12", "007", "1a", " 1", "1 ",
        "9223372036854775807", "9223372036854775808", "-9223372036854775808",
        "-9223372036854775809", "99999999999999999999999", "2147483647", "2147483648",
        "-2147483648", "-2147483649", "١",
    ];
    for s in inputs {
        let c = chars_of(s);
        assert_eq!(parse_i64(&c, 0, c.len()), s.parse::<i64>().ok(), "{:?}", s);
        assert_eq!(parse_i32(&c, 0, c.len()), s.parse::<i32>().ok(), "{:?}", s);
    }
}

#[test]
fn decimal_matches_display() {
    for v in [0u128, 7, 10, 99, 100, 12345, u64::MAX as u128] {
        let mut s = String::new();
        push_decimal(&mut s, v);
        assert_eq!(s, v.to_string());
    }
    let mut s = String::from("x");
    push_decimal(&mut s, u128::MAX);
    assert_eq!(s, format!("x{}", u128::MAX));
}

#[test]
fn join_matches_path_join() {
    let cases = [
        ("", "a"), ("/home", "a"), ("/home/", "a"), ("/home", "/etc"), ("/home", ""),
        ("p", "drive_c/users/"), ("p/drive_c/users/", "me"),
    ];
    for (b, r) in cases {
        let expected = std::path::Path::new(b).join(r);
        assert_eq!(join(b, r), expected.to_str().unwrap(), "{:?} {:?}", b, r);
    }
}

#[test]
fn same_text_compares_characters() {
    assert!(same_text("player", "player"));
    assert!(!same_text("player", "playe"));
    assert!(!same_text("studio", "player"));
    assert!(same_text("", ""));
}
