use gopro_cam_tray::http::{
    parse_response, read_reply, request, status_of, Action, Address, Exchange, Stage, HTTP_PORT,
    MAX_BODY,
};

const SECOND: u128 = 1_000_000_000;

fn camera() -> Address {
    Address { a: 172, b: 24, c: 106, d: 51 }
}

fn result(a: Action) -> Result<String, String> {
    match a {
        Action::Finish(r) => r,
        _ => panic!("the exchange goes on"),
    }
}

#[test]
fn ok_response_returns_body() {
    let raw = b"HTTP/1.1 200 OK\r\nContent-Type: application/json\r\n\r\n{\"status\":2}";
    assert_eq!(parse_response(raw).unwrap(), "{\"status\":2}");
}

#[test]
fn empty_body_is_ok() {
    let raw = b"HTTP/1.1 204 No Content\r\n\r\n";
    assert_eq!(parse_response(raw).unwrap(), "");
}

#[test]
fn client_and_server_errors_are_err() {
    // The camera answers 500 when its webcam session is wedged; callers
    // must see that as Err (they only match Ok/Err).
    assert!(parse_response(b"HTTP/1.1 404 Not Found\r\n\r\nnope").is_err());
    assert!(parse_response(b"HTTP/1.1 500 Internal Server Error\r\n\r\n").is_err());
}

#[test]
fn garbage_is_err() {
    assert!(parse_response(b"").is_err());
    assert!(parse_response(b"not http at all").is_err());
    assert!(parse_response(b"HTTP/1.1 abc\r\n\r\n").is_err());
}

#[test]
fn errors_say_what_is_wrong() {
    assert_eq!(parse_response(b"").unwrap_err(), "malformed HTTP response");
    assert_eq!(parse_response(b"HTTP/1.1 200 OK\r\n\r").unwrap_err(), "malformed HTTP response");
    assert_eq!(parse_response(b"HTTP/1.1\r\n\r\n").unwrap_err(), "malformed HTTP status line");
    assert_eq!(parse_response(b"\r\n\r\nbody").unwrap_err(), "malformed HTTP status line");
    assert_eq!(
        parse_response(b"HTTP/1.1 65536 X\r\n\r\n").unwrap_err(),
        "malformed HTTP status line"
    );
    assert_eq!(parse_response(b"HTTP/1.1 404 Not Found\r\n\r\nnope").unwrap_err(), "HTTP status 404");
    assert_eq!(parse_response(b"HTTP/1.1 199 X\r\n\r\n").unwrap_err(), "HTTP status 199");
    assert_eq!(parse_response(b"HTTP/1.1 300 X\r\n\r\n").unwrap_err(), "HTTP status 300");
    assert_eq!(parse_response(b"HTTP/1.1 7 X\r\n\r\n").unwrap_err(), "HTTP status 7");
}

#[test]
fn every_success_status_hands_out_the_body() {
    for code in 200..300 {
        let raw = format!("HTTP/1.1 {code} Fine\r\n\r\nbody");
        assert_eq!(parse_response(raw.as_bytes()).unwrap(), "body");
    }
}

#[test]
fn the_first_empty_line_parts_the_response() {
    let raw = b"HTTP/1.1 200 OK\r\nA: b\r\n\r\none\r\n\r\ntwo";
    assert_eq!(parse_response(raw).unwrap(), "one\r\n\r\ntwo");
}

#[test]
fn bytes_that_are_no_text_are_replaced() {
    let raw = b"HTTP/1.1 200 OK\r\n\r\n\xC3\xA9t\xE9";
    assert_eq!(parse_response(raw).unwrap(), "\u{E9}t\u{FFFD}");
    // A header that is no text does not spoil a body that is one.
    let raw = b"HTTP/1.1 200 \xFF\r\n\r\n\xC3\xA9";
    assert_eq!(parse_response(raw).unwrap(), "\u{E9}");
    // A replacement character is a word of its own kind, and no number.
    let raw = b"HTTP/1.1 \xFF\r\n\r\n";
    assert_eq!(parse_response(raw).unwrap_err(), "malformed HTTP status line");
}

#[test]
fn the_status_is_the_second_word() {
    assert_eq!(status_of("HTTP/1.1 200 OK"), Some(200));
    assert_eq!(status_of("  HTTP/1.1\t+0204\u{A0}x"), Some(204));
    assert_eq!(status_of("HTTP/1.1\n65535"), Some(65535));
    assert_eq!(status_of("HTTP/1.1 -1"), None);
    assert_eq!(status_of("HTTP/1.1 +"), None);
    assert_eq!(status_of("200"), None);
    assert_eq!(status_of(""), None);
    // As of std.
    for head in ["a 1 2", "\u{3000}a\u{2028}12x", "a\u{200B}b 3", "x 007", "x ++1", "x 1+"] {
        let expected = head.split_whitespace().nth(1).and_then(|s| s.parse::<u16>().ok());
        assert_eq!(status_of(head), expected, "{head:?}");
    }
}

#[test]
fn a_reply_is_judged_by_its_header() {
    assert_eq!(read_reply("HTTP/1.1 200 OK", "body".to_string()), Ok("body".to_string()));
    assert_eq!(
        read_reply("HTTP/1.1 503 Busy", "body".to_string()),
        Err("HTTP status 503".to_string())
    );
}

#[test]
fn requests_close_the_connection() {
    assert_eq!(HTTP_PORT, 8080);
    assert_eq!(camera().text(), "172.24.106.51");
    assert_eq!(
        request(camera(), "/gopro/webcam/version"),
        "GET /gopro/webcam/version HTTP/1.1\r\nHost: 172.24.106.51:8080\r\nConnection: close\r\n\r\n"
    );
}

// An exchange that is ready to receive, with two seconds before the deadline.
fn receiving() -> Exchange {
    let mut e = Exchange::new(camera(), "/x", 2);
    assert!(matches!(e.begin(0), Action::Connect { within } if within == 2 * SECOND));
    match e.next(Ok(Vec::new()), SECOND / 2) {
        Action::Send { within, request: bytes } => {
            assert_eq!(within, SECOND + SECOND / 2);
            assert_eq!(bytes, request(camera(), "/x").into_bytes());
        }
        _ => panic!("the request is not sent"),
    }
    assert!(matches!(e.next(Ok(Vec::new()), SECOND), Action::Receive { within } if within == SECOND));
    assert!(e.stage == Stage::Receiving);
    e
}

#[test]
fn an_exchange_runs_to_the_end_of_the_response() {
    let mut e = receiving();
    assert!(matches!(
        e.next(Ok(b"HTTP/1.1 200 OK\r".to_vec()), SECOND + 1),
        Action::Receive { within } if within == SECOND - 1
    ));
    assert!(matches!(
        e.next(Ok(b"\n\r\n{}".to_vec()), SECOND + 2),
        Action::Receive { within } if within == SECOND - 2
    ));
    // The end of the response counts even if it is late.
    assert_eq!(result(e.next(Ok(Vec::new()), 3 * SECOND)), Ok("{}".to_string()));
}

#[test]
fn pieces_do_not_matter() {
    let raw = b"HTTP/1.1 200 OK\r\n\r\n{\"status\":2}";
    for size in 1..raw.len() {
        let mut e = receiving();
        for piece in raw.chunks(size) {
            assert!(matches!(e.next(Ok(piece.to_vec()), SECOND), Action::Receive { .. }));
        }
        assert_eq!(result(e.next(Ok(Vec::new()), SECOND)), parse_response(raw));
    }
}

#[test]
fn the_deadline_is_for_the_whole() {
    let e = Exchange::new(camera(), "/x", 4);
    assert!(matches!(e.begin(4 * SECOND - 1), Action::Connect { within: 1 }));
    assert_eq!(result(e.begin(4 * SECOND)), Err("timeout during connect".to_string()));

    let mut e = Exchange::new(camera(), "/x", 4);
    assert_eq!(
        result(e.next(Ok(Vec::new()), 5 * SECOND)),
        Err("timeout during send".to_string())
    );

    let mut e = Exchange::new(camera(), "/x", 4);
    assert!(matches!(e.next(Ok(Vec::new()), 0), Action::Send { .. }));
    assert_eq!(
        result(e.next(Ok(Vec::new()), 4 * SECOND)),
        Err("timeout during response".to_string())
    );

    let mut e = receiving();
    assert_eq!(
        result(e.next(Ok(b"x".to_vec()), 2 * SECOND)),
        Err("timeout during response".to_string())
    );
}

#[test]
fn failures_end_the_exchange() {
    let mut e = Exchange::new(camera(), "/x", 4);
    assert_eq!(
        result(e.next(Err("connection refused".to_string()), 0)),
        Err("connection refused".to_string())
    );
    let mut e = receiving();
    assert_eq!(result(e.next(Err("reset".to_string()), 0)), Err("reset".to_string()));
}

#[test]
fn a_response_may_not_be_too_large() {
    let mut e = receiving();
    assert!(matches!(e.next(Ok(vec![b'x'; MAX_BODY]), 0), Action::Receive { .. }));
    // The size counts before the deadline.
    assert_eq!(
        result(e.next(Ok(vec![b'x']), 9 * SECOND)),
        Err("response too large".to_string())
    );
}

#[test]
fn late_exchanges_fail() {
    let late = 2 * SECOND;
    let fresh = || Exchange::new(camera(), "/x", 2);
    assert!(result(fresh().begin(late)).is_err());
    assert!(result(fresh().next(Ok(Vec::new()), late)).is_err());
    let mut e = receiving();
    assert!(result(e.next(Ok(b"HTTP/1.1 200 OK\r\n\r\n".to_vec()), late)).is_err());
}
