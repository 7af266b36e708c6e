use missioncenter::text::{
    byte_len_exec, char_at_byte_exec, chars_of, decimal_exec, find_exec, lines_exec,
    parse_uint_exec, split_exec, split_whitespace_exec, string_of, text_le_exec, trim_chars,
    trim_end_matches_exec, trim_start_matches_exec,
};

fn cs(s: &str) -> Vec<char> {
    s.chars().collect()
}

fn strs(v: Vec<Vec<char>>) -> Vec<String> {
    v.into_iter().map(|c| c.into_iter().collect()).collect()
}

#[test]
fn chars_and_string_round_trip() {
    let c = chars_of("héllo wörld");
    assert_eq!(c, cs("héllo wörld"));
    assert_eq!(string_of(&c), "héllo wörld");
}

#[test]
fn trim_removes_unicode_whitespace() {
    assert_eq!(trim_chars(&cs(" \t\u{a0}abc \n")), cs("abc"));
    assert_eq!(trim_chars(&cs("   ")), cs(""));
}

#[test]
fn find_gives_first_character_index() {
    assert_eq!(find_exec(&cs("aXbXc"), &cs("X")), Some(1));
    assert_eq!(find_exec(&cs("abc"), &cs("d")), None);
    assert_eq!(find_exec(&cs("abc"), &cs("")), Some(0));
}

#[test]
fn lines_like_str_lines() {
    let s = "one\r\ntwo\n\nthree\n";
    let expected: Vec<String> = s.lines().map(|l| l.to_string()).collect();
    assert_eq!(strs(lines_exec(&cs(s))), expected);
    assert_eq!(strs(lines_exec(&cs(""))), Vec::<String>::new());
}

#[test]
fn split_whitespace_like_std() {
    let s = "  MemTotal:   16384 kB\t";
    let expected: Vec<String> = s.split_whitespace().map(|w| w.to_string()).collect();
    assert_eq!(strs(split_whitespace_exec(&cs(s))), expected);
}

#[test]
fn split_like_std() {
    let s = "a=b==c";
    let expected: Vec<String> = s.split("=").map(|w| w.to_string()).collect();
    assert_eq!(strs(split_exec(&cs(s), &cs("="))), expected);
}

#[test]
fn parse_uint_follows_from_str_radix() {
    assert_eq!(parse_uint_exec(&cs("42"), 10, u64::MAX), Some(42));
    assert_eq!(parse_uint_exec(&cs("+7"), 10, u64::MAX), Some(7));
    assert_eq!(parse_uint_exec(&cs(""), 10, u64::MAX), None);
    assert_eq!(parse_uint_exec(&cs("+"), 10, u64::MAX), None);
    assert_eq!(parse_uint_exec(&cs("1a"), 10, u64::MAX), None);
    assert_eq!(parse_uint_exec(&cs("ff"), 16, 65535), Some(255));
    assert_eq!(parse_uint_exec(&cs("256"), 10, 255), None);
    assert_eq!(parse_uint_exec(&cs("18446744073709551616"), 10, u64::MAX), None);
}

#[test]
fn decimal_then_parse_gives_the_number_back() {
    for n in [0u64, 7, 10, 4096, u32::MAX as u64, u64::MAX] {
        let d = decimal_exec(n);
        assert_eq!(string_of(&d), n.to_string());
        assert_eq!(parse_uint_exec(&d, 10, u64::MAX), Some(n));
    }
}

#[test]
fn trim_matches_repeat() {
    assert_eq!(trim_start_matches_exec(&cs("0x0x1f"), &cs("0x")), cs("1f"));
    assert_eq!(trim_end_matches_exec(&cs("12..."), &cs(".")), cs("12"));
}

#[test]
fn byte_offsets_follow_utf8() {
    let s = "aé€😀";
    assert_eq!(byte_len_exec(&cs(s)), s.len() as u128);
    assert_eq!(char_at_byte_exec(&cs(s), 3), Some(2));
    assert_eq!(char_at_byte_exec(&cs(s), 2), None);
    assert_eq!(char_at_byte_exec(&cs(s), 10), Some(4));
    assert_eq!(char_at_byte_exec(&cs(s), 11), None);
}

#[test]
fn text_order_is_str_order() {
    let pairs = [("a", "b"), ("b", "a"), ("ab", "a"), ("", "x"), ("Zed", "apple"), ("é", "z")];
    for (a, b) in pairs {
        assert_eq!(text_le_exec(&cs(a), &cs(b)), a <= b, "{a} <= {b}");
    }
}
