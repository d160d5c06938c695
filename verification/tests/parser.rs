use connect_proxy::parse::{parse_connect_request, ParseError};

fn parse(bytes: &[u8]) -> Result<(Vec<u8>, u16), ParseError> {
    parse_connect_request(&bytes.to_vec()).map(|t| (t.hostname, t.port))
}

#[test]
fn parses_full_connect_request() {
    let r = parse(b"CONNECT example.com:443 HTTP/1.1\r\nHost: example.com\r\n\r\n").unwrap();
    assert_eq!(r.0, b"example.com".to_vec());
    assert_eq!(r.1, 443);
}

#[test]
fn parses_minimal_connect_request() {
    let r = parse(b"CONNECT a:80 X\n").unwrap();
    assert_eq!(r.0, b"a".to_vec());
    assert_eq!(r.1, 80);
}

#[test]
fn parses_without_line_terminator() {
    let r = parse(b"CONNECT host.example:8080 HTTP/1.1").unwrap();
    assert_eq!(r.0, b"host.example".to_vec());
    assert_eq!(r.1, 8080);
}

#[test]
fn ignores_bytes_after_first_line() {
    let r = parse(b"CONNECT one.example:1 HTTP/1.1\r\nGET elsewhere:2\r\n\r\n").unwrap();
    assert_eq!(r.0, b"one.example".to_vec());
    assert_eq!(r.1, 1);
}

#[test]
fn accepts_tabs_and_repeated_spaces_between_tokens() {
    let r = parse(b"CONNECT\t\t  example.com:443  HTTP/1.1\r\n\r\n").unwrap();
    assert_eq!(r.0, b"example.com".to_vec());
    assert_eq!(r.1, 443);
}

#[test]
fn accepts_leading_whitespace_before_method() {
    let r = parse(b"  CONNECT example.com:443 HTTP/1.1\r\n\r\n").unwrap();
    assert_eq!(r.0, b"example.com".to_vec());
    assert_eq!(r.1, 443);
}

#[test]
fn accepts_largest_port() {
    let r = parse(b"CONNECT h:65535 HTTP/1.1\r\n\r\n").unwrap();
    assert_eq!(r.1, 65535);
}

#[test]
fn accepts_leading_zeros_in_port() {
    let r = parse(b"CONNECT h:000443 HTTP/1.1\r\n\r\n").unwrap();
    assert_eq!(r.1, 443);
}

#[test]
fn rejects_empty_request() {
    assert_eq!(parse(b"").unwrap_err(), ParseError::EmptyRequest);
}

#[test]
fn rejects_wrong_method() {
    assert_eq!(
        parse(b"GET / HTTP/1.1\r\n\r\n").unwrap_err(),
        ParseError::MalformedRequest
    );
}

#[test]
fn rejects_lowercase_method() {
    assert_eq!(
        parse(b"connect example.com:443 HTTP/1.1\r\n\r\n").unwrap_err(),
        ParseError::MalformedRequest
    );
}

#[test]
fn rejects_method_with_extra_letter() {
    assert_eq!(
        parse(b"CONNECTX example.com:443 HTTP/1.1\r\n\r\n").unwrap_err(),
        ParseError::MalformedRequest
    );
}

#[test]
fn rejects_single_token_line() {
    assert_eq!(parse(b"CONNECT\r\n\r\n").unwrap_err(), ParseError::MalformedRequest);
}

#[test]
fn rejects_whitespace_only_line() {
    assert_eq!(parse(b"   \r\n").unwrap_err(), ParseError::MalformedRequest);
}

#[test]
fn rejects_empty_first_line() {
    // The CONNECT command on the second line does not count.
    assert_eq!(
        parse(b"\r\nCONNECT example.com:443 HTTP/1.1\r\n\r\n").unwrap_err(),
        ParseError::MalformedRequest
    );
}

#[test]
fn rejects_authority_without_colon() {
    assert_eq!(
        parse(b"CONNECT example.com HTTP/1.1\r\n\r\n").unwrap_err(),
        ParseError::MalformedRequest
    );
}

#[test]
fn rejects_empty_hostname() {
    assert_eq!(
        parse(b"CONNECT :443 HTTP/1.1\r\n\r\n").unwrap_err(),
        ParseError::MalformedRequest
    );
}

#[test]
fn rejects_empty_port() {
    assert_eq!(
        parse(b"CONNECT example.com: HTTP/1.1\r\n\r\n").unwrap_err(),
        ParseError::MalformedRequest
    );
}

#[test]
fn rejects_non_digit_port() {
    assert_eq!(
        parse(b"CONNECT example.com:4x3 HTTP/1.1\r\n\r\n").unwrap_err(),
        ParseError::MalformedRequest
    );
}

#[test]
fn rejects_port_above_sixteen_bits() {
    assert_eq!(
        parse(b"CONNECT example.com:65536 HTTP/1.1\r\n\r\n").unwrap_err(),
        ParseError::MalformedRequest
    );
    assert_eq!(
        parse(b"CONNECT example.com:99999999999 HTTP/1.1\r\n\r\n").unwrap_err(),
        ParseError::MalformedRequest
    );
}

#[test]
fn splits_at_first_colon() {
    // Everything after the first colon must read as one decimal port.
    assert_eq!(
        parse(b"CONNECT example.com:443:extra HTTP/1.1\r\n\r\n").unwrap_err(),
        ParseError::MalformedRequest
    );
}
