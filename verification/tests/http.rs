use http2amcp::http::{http_status, HttpReply};
use http2amcp::reply::{extract, AmcpResponse};

#[test]
fn three_digit_codes_are_kept() {
    assert_eq!(http_status(100), 100);
    assert_eq!(http_status(200), 200);
    assert_eq!(http_status(201), 201);
    assert_eq!(http_status(404), 404);
    assert_eq!(http_status(500), 500);
    assert_eq!(http_status(502), 502);
    assert_eq!(http_status(999), 999);
}

#[test]
fn other_codes_become_500() {
    assert_eq!(http_status(0), 500);
    assert_eq!(http_status(1), 500);
    assert_eq!(http_status(99), 500);
    assert_eq!(http_status(1000), 500);
    assert_eq!(http_status(2010), 500);
    assert_eq!(http_status(65535), 500);
}

#[test]
fn every_code_maps_to_itself_or_500() {
    for code in 0u16..=u16::MAX {
        let expected = if (100..1000).contains(&code) { code } else { 500 };
        assert_eq!(http_status(code), expected);
    }
}

#[test]
fn response_knows_its_http_status() {
    assert_eq!(extract("202 PLAY OK\r\n").http_status(), 202);
    assert_eq!(extract("20 PLAY OK\r\n").http_status(), 500);
    assert_eq!(extract("ERR\r\n").http_status(), 500);
    assert_eq!(AmcpResponse::connection_failed().http_status(), 502);
    let response = AmcpResponse { status_code: 7, payload: String::new() };
    assert_eq!(response.http_status(), 500);
}

#[test]
fn http_reply_carries_status_and_payload_as_plain_text() {
    assert_eq!(
        extract("201 VERSION OK\r\n2.3.2\r\n").into_http(),
        HttpReply {
            status: 201,
            content_type: "text/plain".to_string(),
            body: "2.3.2".to_string(),
        }
    );
    assert_eq!(
        extract("ERR bad\r\n").into_http(),
        HttpReply {
            status: 500,
            content_type: "text/plain".to_string(),
            body: "ERR bad".to_string(),
        }
    );
    assert_eq!(
        extract("42 odd\r\nbody\r\n").into_http(),
        HttpReply { status: 500, content_type: "text/plain".to_string(), body: "body".to_string() }
    );
    assert_eq!(
        AmcpResponse::send_failed().into_http(),
        HttpReply {
            status: 502,
            content_type: "text/plain".to_string(),
            body: "send failed".to_string(),
        }
    );
}
