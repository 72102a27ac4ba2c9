use mousee::address::{dotted_lines, insert_ordered, Ipv4};
use mousee::text::{
    chars_of, has_line, i64_text, is_white_space, parse_i64, same_chars, trim, u8_text,
};

fn parse(s: &str) -> Option<i64> {
    parse_i64(&chars_of(s))
}

#[test]
fn white_space_is_that_of_unicode() {
    for u in 0..=0x10ffff_u32 {
        if let Some(c) = char::from_u32(u) {
            assert_eq!(is_white_space(c), c.is_whitespace(), "{u:x}");
        }
    }
}

#[test]
fn trimming_takes_both_ends() {
    for s in ["", " ", "a", " a b \n", "\u{3000}x\u{a0}", "\r\n2\t"] {
        let chars = chars_of(s);
        let trimmed: String = trim(&chars).iter().collect();
        assert_eq!(trimmed, s.trim());
    }
}

#[test]
fn numbers_are_read() {
    for s in [
        "0",
        "-0",
        "+7",
        "0042",
        "9223372036854775807",
        "-9223372036854775808",
        "9223372036854775808",
        "-9223372036854775809",
        "99999999999999999999999999999999999999999999",
        "",
        "-",
        "+",
        "--1",
        "1x",
        " 1",
        "\u{663}",
        "1_0",
    ] {
        assert_eq!(parse(s), s.parse::<i64>().ok(), "{s}");
    }
}

#[test]
fn numbers_are_written_and_read_back() {
    for n in [0, 7, -1, 10, 1700000000, i64::MAX, i64::MIN] {
        assert_eq!(i64_text(n), n.to_string());
        let line = chars_of(&format!("{}\n", i64_text(n)));
        assert_eq!(parse_i64(trim(&line)), Some(n));
    }
    for n in 0..=255_u8 {
        assert_eq!(u8_text(n), n.to_string());
    }
}

#[test]
fn lines_are_found() {
    let cases = [
        "",
        "\n",
        "a",
        "b\na",
        "b\r\n a \r\nc\n",
        "ab\n",
        "\n\na",
        "a\r",
        "a b",
    ];
    for s in cases {
        let expected = s.lines().any(|line| line.trim() == "a");
        assert_eq!(has_line(&chars_of(s), &chars_of("a")), expected, "{s:?}");
    }
    assert!(has_line(&chars_of("x\n\ny"), &[]));
    assert!(!has_line(&chars_of(""), &[]));
}

#[test]
fn rows_of_characters_are_compared() {
    assert!(same_chars(&['a', 'b'], &['a', 'b']));
    assert!(!same_chars(&['a', 'b'], &['a', 'c']));
    assert!(!same_chars(&['a'], &['a', 'c']));
}

#[test]
fn addresses_are_written_with_dots() {
    assert_eq!(Ipv4::new(192, 0, 2, 10).to_dotted(), "192.0.2.10");
    assert_eq!(Ipv4::localhost().to_dotted(), "127.0.0.1");
    assert_eq!(Ipv4::new(0, 0, 0, 255).to_dotted(), "0.0.0.255");
    assert_eq!(Ipv4::new(1, 2, 3, 4).to_bits(), 0x01020304);
}

#[test]
fn ordered_list_takes_an_address_once() {
    let mut list = Vec::new();
    for ip in [
        Ipv4::new(10, 0, 0, 2),
        Ipv4::new(192, 168, 0, 1),
        Ipv4::new(10, 0, 0, 1),
        Ipv4::new(10, 0, 0, 2),
    ] {
        insert_ordered(&mut list, ip);
    }
    assert_eq!(
        list,
        vec![
            Ipv4::new(10, 0, 0, 1),
            Ipv4::new(10, 0, 0, 2),
            Ipv4::new(192, 168, 0, 1),
        ]
    );
    assert_eq!(dotted_lines(&list), "10.0.0.1\n10.0.0.2\n192.168.0.1\n");
    assert_eq!(dotted_lines(&Vec::new()), "\n");
}
