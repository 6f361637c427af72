use duck::number::{parse_u16, parse_usize, IntErrorKind};
use duck::text::{is_whitespace_char, next_line, split_tokens, trim_span, Span};

fn chars(s: &str) -> Vec<char> {
    s.chars().collect()
}

fn piece(t: &[char], s: Span) -> String {
    t[s.start..s.end].iter().collect()
}

fn all_lines(t: &[char]) -> Vec<String> {
    let mut out = Vec::new();
    let mut pos = 0;
    while let Some((s, next)) = next_line(t, pos) {
        out.push(piece(t, s));
        pos = next;
    }
    out
}

const SAMPLES: &[&str] = &[
    "",
    "\n",
    "\n\n",
    "a",
    "a\n",
    "a\r\n",
    "a\r",
    "\r",
    "\r\n",
    "foo\nbar\n\r\nbaz\r",
    "  12  \n 3 4\t5 \r\n\n  ",
    "x\u{a0}y\u{3000}z \u{2028} w",
    "1 2 3\n4 5 6\n",
    "+7\n-7\n007\n",
];

#[test]
fn whitespace_matches_std_for_every_char() {
    for u in 0u32..=0x10ffff {
        if let Some(c) = char::from_u32(u) {
            assert_eq!(is_whitespace_char(c), c.is_whitespace(), "char {:?}", c);
        }
    }
}

#[test]
fn lines_match_str_lines() {
    for s in SAMPLES {
        let t = chars(s);
        let expected: Vec<String> = s.lines().map(|l| l.to_string()).collect();
        assert_eq!(all_lines(&t), expected, "text {:?}", s);
    }
}

#[test]
fn bare_carriage_return_stays_on_last_line() {
    let t = chars("foo\nbar\n\r\nbaz\r");
    assert_eq!(all_lines(&t), vec!["foo", "bar", "", "baz\r"]);
}

#[test]
fn tokens_match_split_whitespace() {
    for s in SAMPLES {
        let t = chars(s);
        let got: Vec<String> = split_tokens(&t, 0, t.len()).into_iter().map(|sp| piece(&t, sp)).collect();
        let expected: Vec<String> = s.split_whitespace().map(|w| w.to_string()).collect();
        assert_eq!(got, expected, "text {:?}", s);
    }
}

#[test]
fn tokens_of_a_middle_range() {
    let t = chars("ab cd ef");
    let spans = split_tokens(&t, 1, 7);
    assert_eq!(spans, vec![Span { start: 1, end: 2 }, Span { start: 3, end: 5 }, Span { start: 6, end: 7 }]);
}

#[test]
fn trim_matches_str_trim() {
    for s in SAMPLES {
        let t = chars(s);
        let sp = trim_span(&t, 0, t.len());
        assert_eq!(piece(&t, sp), s.trim(), "text {:?}", s);
    }
}

#[test]
fn parse_matches_str_parse() {
    let cases = [
        "", "+", "-", "0", "7", "+7", "-7", "007", "++7", "1_0", " 1", "1 ", "65535", "65536",
        "4294967295", "18446744073709551615", "18446744073709551616",
        "99999999999999999999999", "000000000000000000000000000001", "١", "12a", "70000x", "7000x0", "999999x",
        "+", "-", "x", "-0", "+-1",
    ];
    for s in cases {
        let t = chars(s);
        assert_eq!(parse_usize(&t, 0, t.len()).ok(), s.parse::<usize>().ok(), "text {:?}", s);
        assert_eq!(parse_u16(&t, 0, t.len()).ok(), s.parse::<u16>().ok(), "text {:?}", s);
        assert_eq!(
            parse_usize(&t, 0, t.len()).err().map(kind_name),
            s.parse::<usize>().err().map(|e| format!("{:?}", e.kind())),
            "text {:?}",
            s
        );
        assert_eq!(
            parse_u16(&t, 0, t.len()).err().map(kind_name),
            s.parse::<u16>().err().map(|e| format!("{:?}", e.kind())),
            "text {:?}",
            s
        );
        if let (Err(mine), Err(std_err)) = (parse_u16(&t, 0, t.len()), s.parse::<u16>()) {
            assert_eq!(mine.message(), std_err.to_string(), "text {:?}", s);
        }
    }
}

#[test]
fn parse_exact_values() {
    let t = chars("x+42y");
    assert_eq!(parse_usize(&t, 1, 4), Ok(42));
    assert_eq!(parse_u16(&t, 2, 4), Ok(42));
    assert_eq!(parse_u16(&t, 1, 5), Err(IntErrorKind::InvalidDigit));
    assert_eq!(parse_u16(&t, 1, 1), Err(IntErrorKind::Empty));
    let big: Vec<char> = "65536".chars().collect();
    assert_eq!(parse_u16(&big, 0, 5), Err(IntErrorKind::PosOverflow));
}

fn kind_name(k: IntErrorKind) -> String {
    format!("{:?}", k)
}
