use rt::number::float_text;
use rt::text::{find_char, split_str, str_equal, trim_str};

#[test]
fn trim_matches_std() {
    for s in ["", "  ", "x", " x ", "\t\nx y\r", "\u{3000}a\u{85}", "\u{a0}\u{2000}b\u{200a}", "ab\u{200b}"] {
        assert_eq!(trim_str(s), s.trim());
    }
}

#[test]
fn find_first_char() {
    assert_eq!(find_char("a=b=c", '='), Some(1));
    assert_eq!(find_char("abc", '='), None);
    assert_eq!(find_char("é=1", '='), Some(1));
}

#[test]
fn split_matches_std() {
    for s in ["", ":", "a:b", "a::b:", "x"] {
        let ours: Vec<&str> = split_str(s, ':');
        let std_: Vec<&str> = s.split(':').collect();
        assert_eq!(ours, std_);
    }
}

#[test]
fn equality_of_text() {
    assert!(str_equal("abc", "abc"));
    assert!(!str_equal("abc", "abd"));
    assert!(!str_equal("ab", "abc"));
}

#[test]
fn number_text_matches_std() {
    let cases = [
        "10", "1.5", ".5", "5.", "1e3", "1E-3", "+2.5e+10", "-0", "+inf", "-Infinity", "NaN",
        "INF", "nan", "", ".", "e5", "1e", "1e+", "abc", "1.2.3", " 1", "1 ", "+", "-.", "0x10",
        "1_0", "infinit", "nana", "++1", "1e1.5",
    ];
    for s in cases {
        assert_eq!(float_text(s), s.parse::<f64>().is_ok(), "text {s:?}");
    }
}
