use http2amcp::reply::{extract, AmcpResponse};

fn response(status_code: u16, payload: &str) -> AmcpResponse {
    AmcpResponse { status_code, payload: payload.to_string() }
}

/// Status and payload by way of std: lines split at the terminator, the first
/// token of the first line parsed, the later lines joined.
fn by_std(reply: &str) -> AmcpResponse {
    let lines: Vec<&str> = reply.split_terminator("\r\n").collect();
    let first = lines.first().copied().unwrap_or("");
    let status_code = first
        .split_whitespace()
        .next()
        .and_then(|token| token.parse::<u16>().ok())
        .unwrap_or(500);
    let payload = if lines.len() <= 1 { first.to_string() } else { lines[1..].join("\n") };
    AmcpResponse { status_code, payload }
}

#[test]
fn single_line_is_status_and_payload() {
    assert_eq!(extract("200 OK\r\n"), response(200, "200 OK"));
}

#[test]
fn single_line_without_terminator_is_status_and_payload() {
    assert_eq!(extract("200 OK"), response(200, "200 OK"));
    assert_eq!(extract("200 O"), response(200, "200 O"));
    assert_eq!(extract("20"), response(20, "20"));
}

#[test]
fn second_block_is_the_payload() {
    assert_eq!(extract("201 OK\r\n<xml/>\r\n"), response(201, "<xml/>"));
    assert_eq!(extract("201 VERSION OK\r\n2.3.2\r\n"), response(201, "2.3.2"));
}

#[test]
fn later_lines_are_joined_by_newline() {
    assert_eq!(extract("200 CLS OK\r\na\r\nb\r\nc\r\n"), response(200, "a\nb\nc"));
    assert_eq!(extract("200 CLS OK\r\na\r\nb\r\nc"), response(200, "a\nb\nc"));
    assert_eq!(extract("200 CLS OK\r\na\r\n\r\n"), response(200, "a\n"));
    assert_eq!(extract("200 CLS OK\r\n\r\n"), response(200, ""));
    assert_eq!(extract("200 CLS OK\r\n\r\nb\r\n"), response(200, "\nb"));
}

#[test]
fn empty_reply_has_default_status() {
    assert_eq!(extract(""), response(500, ""));
}

#[test]
fn malformed_status_defaults_to_500() {
    assert_eq!(extract("ERR bad\r\n"), response(500, "ERR bad"));
    assert_eq!(extract("ERR bad\r\nmore\r\nlines\r\n"), response(500, "more\nlines"));
    assert_eq!(extract("\r\n"), response(500, ""));
    assert_eq!(extract("\r\n200 OK\r\n"), response(500, "200 OK"));
    assert_eq!(extract("   \r\n"), response(500, "   "));
    assert_eq!(extract("70000 OK\r\n"), response(500, "70000 OK"));
}

#[test]
fn lone_line_feed_does_not_end_a_line() {
    assert_eq!(extract("200 OK\nmore\r\n"), response(200, "200 OK\nmore"));
    assert_eq!(extract("200 OK\r\na\nb\r\nc\r\n"), response(200, "a\nb\nc"));
    assert_eq!(extract("200 OK\rmore\r\n"), response(200, "200 OK\rmore"));
}

#[test]
fn text_outside_ascii_is_kept() {
    assert_eq!(extract("200 OK\r\nGrüße \u{1F600}\r\n"), response(200, "Grüße \u{1F600}"));
    assert_eq!(extract("200\u{A0}ÖK\r\n"), response(200, "200\u{A0}ÖK"));
}

/// The text number `index` among the texts of `length` characters over
/// `alphabet`.
fn text_number(alphabet: &[char], length: u32, index: usize) -> String {
    let mut text = String::new();
    let mut rest = index;
    for _ in 0..length {
        text.push(alphabet[rest % alphabet.len()]);
        rest /= alphabet.len();
    }
    text
}

#[test]
fn extract_agrees_with_std_on_all_short_texts() {
    let alphabet = ['\r', '\n', '2', '0', '1', ' ', 'x'];
    let mut seen = 0usize;
    for length in 0..=7u32 {
        for index in 0..alphabet.len().pow(length) {
            let text = text_number(&alphabet, length, index);
            assert_eq!(extract(&text), by_std(&text), "{:?}", text);
            seen += 1;
        }
    }
    assert_eq!(seen, 960800);
}

#[test]
fn extract_agrees_with_std_on_texts_with_signs_and_wide_space() {
    let alphabet = ['\r', '\n', '+', '-', '6', '\u{A0}', 'é', '\t'];
    for length in 0..=6u32 {
        for index in 0..alphabet.len().pow(length) {
            let text = text_number(&alphabet, length, index);
            assert_eq!(extract(&text), by_std(&text), "{:?}", text);
        }
    }
}

#[test]
fn failure_responses() {
    assert_eq!(AmcpResponse::connection_failed(), response(502, "connection failed"));
    assert_eq!(AmcpResponse::send_failed(), response(502, "send failed"));
}
