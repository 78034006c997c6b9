use gateway::proto::{content_length, header_to_str, Code, Request, Response};

#[test]
fn bad_request_response() {
    let r = Response::new("Need a method name");
    assert_eq!(r.code(), 400);
    assert_eq!(r.body_len(), 54);
    assert_eq!(r.body(), "Need a method name");
}

#[test]
fn coded_response() {
    let r = Response::with_code(Code::Conflict, "é".to_string());
    assert_eq!(r.code(), 409);
    assert_eq!(r.body_len(), 2);
    assert_eq!(r.into_body(), "é");
    assert_eq!(Code::OK.number(), 200);
    assert_eq!(Code::BadRequest.number(), 400);
    assert_eq!(Code::Unauthorized.number(), 401);
    assert_eq!(Code::NotFound.number(), 404);
    assert_eq!(Code::InternalServerError.number(), 500);
}

#[test]
fn froom_routes_module_and_method() {
    let (module, req) = Request::froom("/auth/join", None).ok().unwrap();
    assert_eq!(module, "auth");
    assert_eq!(req.method(), "join");
    assert_eq!(req.body_len(), 0);
    assert_eq!(req.body(), None);
    assert_eq!(req.username(), None);
    let (module, req) = Request::froom("/static/css/site.css", None).ok().unwrap();
    assert_eq!(module, "static");
    assert_eq!(req.method(), "css/site.css");
}

#[test]
fn froom_root_is_index() {
    let (module, req) = Request::froom("/", None).ok().unwrap();
    assert_eq!(module, "static");
    assert_eq!(req.method(), "index.html");
}

#[test]
fn froom_needs_a_method() {
    for p in ["/auth", "/auth/", "//"] {
        let r = Request::froom(p, None).err().unwrap();
        assert_eq!(r.code(), 400);
        assert_eq!(r.body(), "Need a method name", "path {:?}", p);
    }
    let (module, req) = Request::froom("//x", None).ok().unwrap();
    assert_eq!(module, "");
    assert_eq!(req.method(), "x");
}

#[test]
fn froom_reads_content_length() {
    let (_, req) = Request::froom("/auth/join", Some(b"42")).ok().unwrap();
    assert_eq!(req.body_len(), 42);
    assert_eq!(req.body().map(|s| s.as_str()), Some("lol, mdr"));
    let r = Request::froom("/auth/join", Some(b"4\x012")).err().unwrap();
    assert_eq!(r.body(), "2");
    let r = Request::froom("/auth/join", Some(b"forty")).err().unwrap();
    assert_eq!(r.body(), "3");
    let r = Request::froom("/auth", Some(b"forty")).err().unwrap();
    assert_eq!(r.body(), "Need a method name");
}

#[test]
fn header_text_is_visible_ascii() {
    assert_eq!(header_to_str(b"Bearer x\ty").as_deref(), Some("Bearer x\ty"));
    assert_eq!(header_to_str(b"a\x7fb"), None);
    assert_eq!(header_to_str("é".as_bytes()), None);
    assert_eq!(header_to_str(b""), Some(String::new()));
}

#[test]
fn content_length_values() {
    assert_eq!(content_length(None).ok(), Some(None));
    assert_eq!(content_length(Some(b"+7")).ok(), Some(Some(7)));
    assert_eq!(content_length(Some(b"18446744073709551615")).ok(), Some(Some(u64::MAX)));
    assert_eq!(content_length(Some(b"18446744073709551616")).err().unwrap().body(), "3");
    assert_eq!(content_length(Some(b" 7")).err().unwrap().body(), "3");
    assert_eq!(content_length(Some(b"\n7")).err().unwrap().body(), "2");
}

#[test]
fn content_length_reads_back_decimal() {
    for n in [0u64, 5, 54, 1000, u64::MAX] {
        let text = gateway::text::u64_to_decimal(n);
        assert_eq!(content_length(Some(text.as_bytes())).ok(), Some(Some(n)));
    }
}
