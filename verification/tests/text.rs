use browser_engine::bytes::{
    eq_bytes, eq_ignore_case, find, split_once, to_lower, trimmed, trimmed_end, trimmed_start,
};
use browser_engine::http::lex;
use browser_engine::number::{parse_hex, parse_port};

#[test]
fn lex_leaves_out_what_stands_in_angle_brackets() {
    assert_eq!(lex(b"<html><body>Hello <b>world</b>!</body></html>"), "Hello world!");
    assert_eq!(lex(b""), "");
    assert_eq!(lex(b"plain text, no markup"), "plain text, no markup");
    assert_eq!(lex(b"a > b"), "a  b");
    assert_eq!(lex(b"a < b"), "a ");
    assert_eq!(lex(b"<<a>>b"), "b");
    assert_eq!(lex(b"<a<b>c>d"), "cd");
    assert_eq!(lex(b"x<a href=\"1>2\">y"), "x2\"y");
    assert_eq!(lex(b"&lt;p&gt;"), "&lt;p&gt;");
    assert_eq!(lex(b"one\n<br>\ntwo"), "one\n\ntwo");
}

#[test]
fn lex_takes_each_byte_for_the_character_of_its_number() {
    assert_eq!(lex(b"caf\xe9"), "caf\u{e9}");
    assert_eq!(lex("é".as_bytes()), "\u{c3}\u{a9}");
    let all: Vec<u8> = (0u8..=255).collect();
    let text = lex(&all);
    let expected: String =
        (0u8..=255).filter(|b| !(0x3c..=0x3e).contains(b)).map(|b| b as char).collect();
    assert_eq!(text, expected);
}

#[test]
fn lex_of_its_own_result_changes_nothing() {
    for body in ["<p>Hello</p> world", "a<b", "a>b", "none", "<<>>", "x<y>z<w"] {
        let once = lex(body.as_bytes());
        assert!(!once.contains('<') && !once.contains('>'));
        assert_eq!(lex(once.as_bytes()), once);
    }
}

#[test]
fn lex_removes_a_tag_between_two_texts() {
    for before in ["", "intro ", "<i>it</i> ", "x>"] {
        for inner in ["", "p", "a href=\"x\"", "<<nested", "\n"] {
            for after in ["", "tail", "<b>bold</b>", "t<"] {
                let whole = format!("{}<{}>{}", before, inner, after);
                let parts = format!("{}{}", lex(before.as_bytes()), lex(after.as_bytes()));
                assert_eq!(lex(whole.as_bytes()), parts);
            }
        }
    }
}

#[test]
fn trimming_agrees_with_the_white_space_of_text() {
    let spaces = [
        "", " ", "\t", "\n", "\u{b}", "\u{c}", "\r", "\u{85}", "\u{a0}", "\u{1680}", "\u{2000}",
        "\u{2005}", "\u{200a}", "\u{2028}", "\u{2029}", "\u{202f}", "\u{205f}", "\u{3000}", " \r\n",
    ];
    let cores = [
        "", "a", "a b", "\u{200b}", "\u{e9}t\u{e9}", "\u{1681}", "\u{2010}", "\u{3001}", "\u{1f600}",
        "x\u{a0}y", "\u{84}", "\u{86}", "\u{200b}\u{2060}", "\u{1c}",
    ];
    for lead in spaces {
        for core in cores {
            for trail in spaces {
                let text = format!("{}{}{}", lead, core, trail);
                assert_eq!(trimmed(text.as_bytes()), text.trim().as_bytes(), "{:?}", text);
                assert_eq!(trimmed_start(text.as_bytes()), text.trim_start().as_bytes(), "{:?}", text);
                assert_eq!(trimmed_end(text.as_bytes()), text.trim_end().as_bytes(), "{:?}", text);
            }
        }
    }
}

#[test]
fn trimming_every_character_agrees_with_text() {
    for code in 0u32..0x3100 {
        if let Some(c) = char::from_u32(code) {
            let text = format!("{}a{}", c, c);
            assert_eq!(trimmed(text.as_bytes()), text.trim().as_bytes(), "U+{:04X}", code);
        }
    }
}

#[test]
fn splitting_and_searching() {
    assert_eq!(split_once(b"a:b:c", b':'), Some((b"a".as_slice(), b"b:c".as_slice())));
    assert_eq!(split_once(b":", b':'), Some((b"".as_slice(), b"".as_slice())));
    assert_eq!(split_once(b"abc", b':'), None);
    assert_eq!(split_once(b"", b':'), None);
    assert_eq!(find(b"hello", b'l', 0), 2);
    assert_eq!(find(b"hello", b'l', 3), 3);
    assert_eq!(find(b"hello", b'l', 4), 5);
    assert_eq!(find(b"hello", b'z', 0), 5);
    assert_eq!(find(b"", b'z', 0), 0);
}

#[test]
fn case_is_folded_for_ascii_letters_only() {
    assert_eq!(to_lower(b"Content-TYPE z[A@`{"), b"content-type z[a@`{".to_vec());
    assert_eq!(to_lower("\u{c9}".as_bytes()), "\u{c9}".as_bytes().to_vec());
    assert!(eq_ignore_case(b"Chunked", b"cHUNKED"));
    assert!(eq_ignore_case(b"", b""));
    assert!(!eq_ignore_case(b"chunked", b"chunke"));
    assert!(!eq_ignore_case(b"[", b"{"));
    assert!(!eq_ignore_case(b"@", b"`"));
    assert!(eq_bytes(b"abc", b"abc"));
    assert!(!eq_bytes(b"abc", b"abC"));
    assert!(!eq_bytes(b"abc", b"ab"));
}

#[test]
fn ports_are_read_as_numbers_of_16_bits() {
    for port in [0u16, 1, 9, 10, 80, 443, 8080, 65535] {
        assert_eq!(parse_port(port.to_string().as_bytes()), Some(port));
    }
    for text in [
        "", "+", "-", "-1", "65536", "99999999999999999999", "8o", " 80", "80 ", "0x50", "+-1", "++1",
        "1_000", "٣",
    ] {
        assert_eq!(parse_port(text.as_bytes()), text.parse::<u16>().ok(), "{:?}", text);
        assert_eq!(parse_port(text.as_bytes()), None, "{:?}", text);
    }
    assert_eq!(parse_port(b"+443"), Some(443));
    assert_eq!(parse_port(b"000000000000000000000000080"), Some(80));
}

#[test]
fn chunk_sizes_are_read_as_signed_hexadecimal_numbers() {
    assert_eq!(parse_hex(b"0"), Some(0));
    assert_eq!(parse_hex(b"ff"), Some(255));
    assert_eq!(parse_hex(b"FF"), Some(255));
    assert_eq!(parse_hex(b"+1f"), Some(31));
    assert_eq!(parse_hex(b"-1F"), Some(-31));
    assert_eq!(parse_hex(b"7fffffffffffffff"), Some(i64::MAX));
    assert_eq!(parse_hex(b"8000000000000000"), None);
    assert_eq!(parse_hex(b"-8000000000000000"), Some(i64::MIN));
    assert_eq!(parse_hex(b"-8000000000000001"), None);
    assert_eq!(parse_hex(b"00000000000000000000000000000010"), Some(16));
    for text in ["", "+", "-", "g", "0x10", "1 ", " 1", "1g", "--1", "ffffffffffffffffffffffff", "a.b"] {
        assert_eq!(parse_hex(text.as_bytes()), i64::from_str_radix(text, 16).ok(), "{:?}", text);
        assert_eq!(parse_hex(text.as_bytes()), None, "{:?}", text);
    }
    for value in [1i64, -1, 4096, -4096, 0x1234_5678_9abc_def0, -0x0fed_cba9_8765_4321] {
        let text = if value < 0 { format!("-{:x}", -value) } else { format!("{:X}", value) };
        assert_eq!(parse_hex(text.as_bytes()), Some(value));
    }
}
