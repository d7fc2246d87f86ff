use svggen::directive::{
    is_blank, is_blank_pair, is_blank_triple, is_digit, parse_directive, parse_index, trim,
};

#[test]
fn blank_bytes_are_the_space_and_the_controls_from_tab_to_return() {
    for byte in 0..=255u8 {
        let expected = matches!(byte, 0x09 | 0x0a | 0x0b | 0x0c | 0x0d | 0x20);
        assert_eq!(is_blank(byte), expected, "{}", byte);
    }
}

#[test]
fn digits_are_zero_to_nine() {
    for byte in 0..=255u8 {
        assert_eq!(is_digit(byte), (b'0'..=b'9').contains(&byte), "{}", byte);
    }
}

#[test]
fn white_space_of_two_and_three_bytes_is_told_by_its_encoding() {
    for code in 0x80..=0xffffu32 {
        let Some(character) = char::from_u32(code) else {
            continue;
        };
        let mut buffer = [0u8; 4];
        let encoded = character.encode_utf8(&mut buffer).as_bytes();
        let told = match encoded {
            [first, second] => is_blank_pair(*first, *second),
            [first, second, third] => is_blank_triple(*first, *second, *third),
            _ => unreachable!(),
        };
        assert_eq!(told, character.is_whitespace(), "{:x}", code);
    }
}

#[test]
fn trim_removes_the_white_space_at_both_ends_only() {
    assert_eq!(trim(b"  a b \t"), b"a b");
    assert_eq!(trim(b"\r\n\x0b\x0c x"), b"x");
    assert_eq!(trim(b"x"), b"x");
    assert_eq!(trim(b""), b"");
    assert_eq!(trim(b" \t "), b"");
    assert_eq!(trim("\u{a0}x\u{3000}".as_bytes()), b"x");
    assert_eq!(trim("\u{2003} \u{85}a\u{2028}b\u{205f}\t\u{1680}".as_bytes()), "a\u{2028}b".as_bytes());
}

#[test]
fn trim_leaves_bytes_that_only_look_like_white_space() {
    assert_eq!(trim(b"\xa0x\xa0"), b"\xa0x\xa0");
    assert_eq!(trim(b"\x85x\xc2"), b"\x85x\xc2");
    assert_eq!(trim(b"\xe2\x80x\x80\x80"), b"\xe2\x80x\x80\x80");
    assert_eq!(trim("\u{200b}x\u{feff}".as_bytes()), "\u{200b}x\u{feff}".as_bytes());
}

#[test]
fn trim_leaves_characters_of_four_bytes() {
    for code in 0x10000..=0x10ffffu32 {
        let character = char::from_u32(code).unwrap();
        let mut buffer = [0u8; 4];
        let encoded = character.encode_utf8(&mut buffer).as_bytes();
        assert!(!character.is_whitespace(), "{:x}", code);
        assert_eq!(trim(encoded), &encoded[..], "{:x}", code);
    }
}

#[test]
fn trim_agrees_with_the_standard_trim() {
    let blanks = [
        '\u{9}', '\u{a}', '\u{b}', '\u{c}', '\u{d}', '\u{20}', '\u{85}', '\u{a0}', '\u{1680}',
        '\u{2000}', '\u{2001}', '\u{2002}', '\u{2003}', '\u{2004}', '\u{2005}', '\u{2006}',
        '\u{2007}', '\u{2008}', '\u{2009}', '\u{200a}', '\u{2028}', '\u{2029}', '\u{202f}',
        '\u{205f}', '\u{3000}',
    ];
    let others = ['x', '\u{200b}', '\u{180e}', '\u{feff}', '\u{e9}', '\u{2060}', '\u{1f600}'];
    for left in blanks.iter().chain(others.iter()) {
        for right in blanks.iter().chain(others.iter()) {
            for middle in ["", "#GET 1", " ", "a\u{3000}b"] {
                let line = format!("{}{}{} {}", left, right, middle, right);
                assert_eq!(trim(line.as_bytes()), line.trim().as_bytes(), "{:?}", line);
                let line = format!("{}{}{}{}", right, middle, left, right);
                assert_eq!(trim(line.as_bytes()), line.trim().as_bytes(), "{:?}", line);
            }
        }
    }
}

#[test]
fn index_is_read_in_decimal() {
    assert_eq!(parse_index(b"0"), Some(0));
    assert_eq!(parse_index(b"7"), Some(7));
    assert_eq!(parse_index(b"42"), Some(42));
    assert_eq!(parse_index(b"1234567890"), Some(1234567890));
    assert_eq!(parse_index(b"007"), Some(7));
    assert_eq!(parse_index(b"+5"), Some(5));
}

#[test]
fn index_needs_digits_and_nothing_else() {
    for text in ["", "+", "-", "-0", "-1", "++1", "+-1", "1+", " 1", "1 ", "3abc", "a3", "0x10", "1_000", "1.0", "\u{0663}"] {
        assert_eq!(parse_index(text.as_bytes()), None, "{:?}", text);
    }
}

#[test]
fn index_agrees_with_the_standard_reading() {
    for text in ["0", "00", "+0", "+007", "65535", "4294967295", "4294967296", "18446744073709551615", "18446744073709551616", "99999999999999999999999999", "000000000000000000000000000000000001", "", "+", "12a", "-3"] {
        assert_eq!(parse_index(text.as_bytes()), text.parse::<usize>().ok(), "{:?}", text);
    }
}

#[test]
fn index_stops_at_the_largest_usize() {
    let largest = usize::MAX.to_string();
    assert_eq!(parse_index(largest.as_bytes()), Some(usize::MAX));
    let mut beyond = largest.into_bytes();
    *beyond.last_mut().unwrap() += 1;
    assert_eq!(parse_index(&beyond), None);
    beyond.push(b'0');
    assert_eq!(parse_index(&beyond), None);
}

#[test]
fn directive_gives_its_slot() {
    assert_eq!(parse_directive(b"#GET 0"), Some(0));
    assert_eq!(parse_directive(b"#GET 31"), Some(31));
    assert_eq!(parse_directive(b"   #GET 3"), Some(3));
    assert_eq!(parse_directive(b"#GET 3 \t\r"), Some(3));
    assert_eq!(parse_directive(b"#GET +3"), Some(3));
    assert_eq!(parse_directive(b"#GET 003"), Some(3));
    assert_eq!(parse_directive("\u{a0}\u{2002}#GET 8\u{3000}".as_bytes()), Some(8));
}

#[test]
fn anything_else_is_no_directive() {
    for line in ["", " ", "#GET", "#GET ", "#GET  3", "#GET 3abc", "#GET -3", "#get 3", "#GET\t3", "GET 3", "##GET 3", "a#GET 3", "#GET 3 #GET 4", "<svg>"] {
        assert_eq!(parse_directive(line.as_bytes()), None, "{:?}", line);
    }
}
