use http2amcp::status::{
    first_token, is_white_space, line_status, parse_status, DEFAULT_STATUS,
    GATEWAY_FAILURE_STATUS, MULTI_BLOCK_STATUS,
};

fn chars(s: &str) -> Vec<char> {
    s.chars().collect()
}

fn token_of(line: &str) -> String {
    first_token(&chars(line)).iter().collect()
}

#[test]
fn status_constants() {
    assert_eq!(DEFAULT_STATUS, 500);
    assert_eq!(MULTI_BLOCK_STATUS, 201);
    assert_eq!(GATEWAY_FAILURE_STATUS, 502);
}

#[test]
fn white_space_is_what_std_calls_whitespace() {
    let mut seen = 0u32;
    for u in 0u32..=0x10FFFF {
        if let Some(c) = char::from_u32(u) {
            assert_eq!(is_white_space(c), c.is_whitespace(), "U+{:04X}", u);
            if is_white_space(c) {
                seen += 1;
            }
        }
    }
    assert_eq!(seen, 25);
}

#[test]
fn white_space_named_cases() {
    for c in [' ', '\t', '\n', '\r', '\u{0B}', '\u{0C}', '\u{85}', '\u{A0}', '\u{3000}'] {
        assert!(is_white_space(c), "{:?}", c);
    }
    for c in ['2', 'a', '+', '\u{0}', '\u{8}', '\u{E}', '\u{1F}', '\u{200B}', '\u{FFFD}'] {
        assert!(!is_white_space(c), "{:?}", c);
    }
}

#[test]
fn first_token_skips_leading_space_and_stops_at_space() {
    assert_eq!(token_of("200 OK"), "200");
    assert_eq!(token_of("  \t 201   OK  "), "201");
    assert_eq!(token_of("404"), "404");
    assert_eq!(token_of("ERR bad"), "ERR");
    assert_eq!(token_of(""), "");
    assert_eq!(token_of("   "), "");
    assert_eq!(token_of("200\u{A0}OK"), "200");
    assert_eq!(token_of("200\nOK"), "200");
    assert_eq!(token_of("\r200"), "200");
    assert_eq!(token_of("20\u{200B}0 OK"), "20\u{200B}0");
}

#[test]
fn first_token_agrees_with_std_split_whitespace() {
    let samples = [
        "200 OK",
        " 200 OK",
        "\t\t",
        "",
        "x",
        " x",
        "x ",
        "a\u{2003}b",
        "\u{2028}z\u{2029}",
        "\u{1680}\u{205F}q w",
        "é è",
        "\u{FFFD} 200",
    ];
    for line in samples {
        assert_eq!(token_of(line), line.split_whitespace().next().unwrap_or(""), "{:?}", line);
    }
}

#[test]
fn parse_status_reads_decimal_numbers() {
    assert_eq!(parse_status(&chars("200")), Some(200));
    assert_eq!(parse_status(&chars("0")), Some(0));
    assert_eq!(parse_status(&chars("007")), Some(7));
    assert_eq!(parse_status(&chars("+404")), Some(404));
    assert_eq!(parse_status(&chars("65535")), Some(65535));
    assert_eq!(parse_status(&chars("0000000000000000000065535")), Some(65535));
}

#[test]
fn parse_status_refuses_what_is_no_number() {
    for token in [
        "", "+", "-", "-1", "++1", "+-1", "1+", "12a", "a12", "1 2", " 12", "12 ", "0x10", "1.5",
        "１２", "٣", "65536", "70000", "99999", "655350", "4294967296", "18446744073709551616",
        "ERR", "OK",
    ] {
        assert_eq!(parse_status(&chars(token)), None, "{:?}", token);
    }
}

#[test]
fn parse_status_agrees_with_std_parse() {
    for n in 0u32..=70000 {
        for text in [format!("{}", n), format!("+{}", n), format!("00{}", n), format!("-{}", n)] {
            assert_eq!(parse_status(&chars(&text)), text.parse::<u16>().ok(), "{:?}", text);
        }
    }
    let alphabet = ['0', '9', '+', '-', ' ', 'a', '6'];
    let mut texts: Vec<String> = vec![String::new()];
    let mut from = 0;
    for _ in 0..6 {
        let upto = texts.len();
        for i in from..upto {
            for c in alphabet {
                let mut next = texts[i].clone();
                next.push(c);
                texts.push(next);
            }
        }
        from = upto;
    }
    for text in &texts {
        assert_eq!(parse_status(&chars(text)), text.parse::<u16>().ok(), "{:?}", text);
    }
}

#[test]
fn line_status_defaults_to_500() {
    assert_eq!(line_status(&chars("200 OK")), 200);
    assert_eq!(line_status(&chars("  202 PLAY OK")), 202);
    assert_eq!(line_status(&chars("ERR bad")), 500);
    assert_eq!(line_status(&chars("")), 500);
    assert_eq!(line_status(&chars("   ")), 500);
    assert_eq!(line_status(&chars("99999 too big")), 500);
    assert_eq!(line_status(&chars("201")), 201);
    assert_eq!(line_status(&chars("OK 200")), 500);
}
