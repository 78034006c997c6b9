use gateway::http::{
    from_http_code, from_protocol, get_header_args, into_method, into_protocol, HttpCode,
    HttpError, HttpHandler, HttpMethod, HttpVersion,
};

#[test]
fn methods_are_read() {
    assert_eq!(into_method("GET"), Ok(HttpMethod::Get));
    assert_eq!(into_method("POST"), Ok(HttpMethod::Post));
    assert_eq!(into_method("PUT"), Ok(HttpMethod::Put));
    assert_eq!(into_method("DELETE"), Ok(HttpMethod::Delete));
    assert_eq!(into_method("get"), Err(HttpError::InvalidMethod));
    assert_eq!(into_method("PATCH"), Err(HttpError::InvalidMethod));
}

#[test]
fn versions_are_read_and_written() {
    assert_eq!(into_protocol("HTTP/1.0"), Ok(HttpVersion::Http1));
    assert_eq!(into_protocol("HTTP/1.1"), Ok(HttpVersion::Http11));
    assert_eq!(into_protocol("HTTP/2"), Ok(HttpVersion::Http2));
    assert_eq!(into_protocol("HTTP/2.0"), Err(HttpError::InvalidVersion));
    assert_eq!(from_protocol(HttpVersion::Http1), "HTTP/1.0");
    assert_eq!(from_protocol(HttpVersion::Http11), "HTTP/1.1");
    assert_eq!(from_protocol(HttpVersion::Http2), "HTTP/2.0");
}

#[test]
fn protocol_round_trip_but_http2() {
    for v in [HttpVersion::Http1, HttpVersion::Http11] {
        assert_eq!(into_protocol(&from_protocol(v)), Ok(v));
    }
    assert_eq!(into_protocol(&from_protocol(HttpVersion::Http2)), Err(HttpError::InvalidVersion));
}

#[test]
fn codes_are_written() {
    assert_eq!(from_http_code(HttpCode::OK), "200 OK");
    assert_eq!(from_http_code(HttpCode::InternalServerError), "500 Internal Server Error");
}

#[test]
fn request_line_is_split() {
    let (m, p, v) = get_header_args("GET /index.html HTTP/1.1").unwrap();
    assert_eq!((m, p.as_str(), v), (HttpMethod::Get, "/index.html", HttpVersion::Http11));
    let (m, p, v) = get_header_args("  DELETE\t/x   HTTP/2 extra words").unwrap();
    assert_eq!((m, p.as_str(), v), (HttpMethod::Delete, "/x", HttpVersion::Http2));
}

#[test]
fn request_line_errors() {
    assert_eq!(get_header_args("").unwrap_err(), HttpError::MissingFirstArgument);
    assert_eq!(get_header_args("   ").unwrap_err(), HttpError::MissingFirstArgument);
    assert_eq!(get_header_args("FETCH / HTTP/1.1").unwrap_err(), HttpError::InvalidMethod);
    assert_eq!(get_header_args("FETCH").unwrap_err(), HttpError::InvalidMethod);
    assert_eq!(get_header_args("GET").unwrap_err(), HttpError::MissingSecondArgument);
    assert_eq!(get_header_args("GET /").unwrap_err(), HttpError::MissingThirdArgument);
    assert_eq!(get_header_args("GET / HTTP/3").unwrap_err(), HttpError::InvalidVersion);
}

#[test]
fn error_messages() {
    assert_eq!(HttpError::InvalidMethod.message(), "Invalid HTTP metode");
    assert_eq!(HttpError::InvalidVersion.message(), "Invalid HTTP version");
    assert_eq!(HttpError::InvalidHeader.message(), "Invalid header");
    assert_eq!(HttpError::InvalidFirstInput.message(), "Invalid first input");
    assert_eq!(HttpError::MissingFirstArgument.message(), "HTTP first argument missing");
    assert_eq!(HttpError::MissingSecondArgument.message(), "HTTP second argument missing");
    assert_eq!(HttpError::MissingThirdArgument.message(), "HTTP third argument missing");
}

#[test]
fn handler_starts_from_first_line() {
    assert_eq!(HttpHandler::new(None).err(), Some(HttpError::InvalidFirstInput));
    assert_eq!(HttpHandler::new(Some("")).err(), Some(HttpError::InvalidFirstInput));
    assert_eq!(HttpHandler::new(Some("GET /\r\n")).err(), Some(HttpError::MissingThirdArgument));
    let h = HttpHandler::new(Some("POST /a HTTP/1.0\r\n")).unwrap();
    assert_eq!(h.protocol(), HttpVersion::Http1);
    assert_eq!(h.header_count(), 0);
}

#[test]
fn headers_are_read() {
    let mut h = HttpHandler::new(Some("GET / HTTP/1.1\n")).unwrap();
    assert_eq!(h.next_header(Some("Host: example.org\r\n")), Ok(true));
    assert_eq!(h.next_header(Some("X-Empty:\n")), Ok(true));
    assert_eq!(h.next_header(Some("Time: 12:30\r\n")), Ok(true));
    assert_eq!(h.header("Host").as_deref(), Some(" example.org"));
    assert_eq!(h.header("X-Empty").as_deref(), Some(""));
    assert_eq!(h.header("Time").as_deref(), Some(" 12:30"));
    assert_eq!(h.header("host"), None);
    assert_eq!(h.next_header(Some("Host:other\r\n")), Ok(true));
    assert_eq!(h.header("Host").as_deref(), Some("other"));
    assert_eq!(h.header_count(), 3);
    assert_eq!(h.next_header(Some("no colon here\r\n")), Err(HttpError::InvalidHeader));
    assert_eq!(h.next_header(Some("\r\n")), Ok(false));
    assert_eq!(h.next_header(None), Ok(false));
    assert_eq!(h.header_count(), 3);
    assert_eq!(h.header_names(), vec!["Host".to_string(), "X-Empty".to_string(), "Time".to_string()]);
}

#[test]
fn response_text_counts_bytes() {
    let h = HttpHandler::new(Some("GET / HTTP/1.1")).unwrap();
    assert_eq!(
        h.format_response(HttpCode::OK, "hello"),
        "HTTP/1.1 200 OK\n\rContent-Length: 5\n\r\n\rhello"
    );
    let body = "é✓";
    assert_eq!(
        h.format_response(HttpCode::InternalServerError, body),
        format!("HTTP/1.1 500 Internal Server Error\n\rContent-Length: {}\n\r\n\r{}", body.len(), body)
    );
    assert_eq!(h.format_response(HttpCode::OK, ""), "HTTP/1.1 200 OK\n\rContent-Length: 0\n\r\n\r");
}
