use robin_hood::text::{parse_number, split, split_lines};

fn strings(v: Vec<Vec<u8>>) -> Vec<String> {
    v.into_iter().map(|b| String::from_utf8(b).unwrap()).collect()
}

#[test]
fn split_keeps_empty_pieces() {
    assert_eq!(strings(split(b"a,b,,c", b',')), vec!["a", "b", "", "c"]);
    assert_eq!(strings(split(b"", b',')), vec![""]);
    assert_eq!(strings(split(b",", b',')), vec!["", ""]);
    assert_eq!(strings(split(b"abc", b' ')), vec!["abc"]);
    assert_eq!(strings(split(b"3  3", b' ')), vec!["3", "", "3"]);
}

#[test]
fn lines_end_at_line_feeds() {
    assert_eq!(strings(split_lines(b"")), Vec::<String>::new());
    assert_eq!(strings(split_lines(b"a")), vec!["a"]);
    assert_eq!(strings(split_lines(b"a\n")), vec!["a"]);
    assert_eq!(strings(split_lines(b"a\nb")), vec!["a", "b"]);
    assert_eq!(strings(split_lines(b"a\n\nb\n")), vec!["a", "", "b"]);
    assert_eq!(strings(split_lines(b"\n")), vec![""]);
}

#[test]
fn lines_drop_a_carriage_return_before_a_line_feed() {
    assert_eq!(strings(split_lines(b"a\r\nb\r\n")), vec!["a", "b"]);
    assert_eq!(strings(split_lines(b"a\r")), vec!["a\r"]);
    assert_eq!(strings(split_lines(b"a\r\r\n")), vec!["a\r"]);
    assert_eq!(strings(split_lines(b"\r\n")), vec![""]);
}

#[test]
fn numbers_are_read_with_or_without_a_sign() {
    assert_eq!(parse_number(b"0"), Some(0));
    assert_eq!(parse_number(b"42"), Some(42));
    assert_eq!(parse_number(b"+42"), Some(42));
    assert_eq!(parse_number(b"-42"), Some(-42));
    assert_eq!(parse_number(b"007"), Some(7));
    assert_eq!(parse_number(b"-0"), Some(0));
}

#[test]
fn what_is_no_number_is_turned_down() {
    assert_eq!(parse_number(b""), None);
    assert_eq!(parse_number(b"+"), None);
    assert_eq!(parse_number(b"-"), None);
    assert_eq!(parse_number(b"1.5"), None);
    assert_eq!(parse_number(b" 1"), None);
    assert_eq!(parse_number(b"1 "), None);
    assert_eq!(parse_number(b"--1"), None);
    assert_eq!(parse_number(b"1e3"), None);
    assert_eq!(parse_number(b"x"), None);
}

#[test]
fn numbers_end_where_thirty_two_bits_end() {
    assert_eq!(parse_number(b"2147483647"), Some(i32::MAX));
    assert_eq!(parse_number(b"2147483648"), None);
    assert_eq!(parse_number(b"-2147483648"), Some(i32::MIN));
    assert_eq!(parse_number(b"-2147483649"), None);
    assert_eq!(parse_number(b"99999999999999999999999999"), None);
    assert_eq!(parse_number(b"-99999999999999999999999999"), None);
    assert_eq!(parse_number(b"00000000000000000000000001"), Some(1));
    assert_eq!(parse_number(b"9999999999x"), None);
}
