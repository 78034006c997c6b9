//! The gateway's own request and response values, and how an incoming HTTP
//! request is read into them.

use vstd::prelude::*;

use crate::text::{
    chars_of, decimal, is_digit, law_decimal_round_trip, lemma_decimal_digits, parse_u64,
    parse_u64_spec, push_char, string_from_chars,
};

verus! {

/// The status codes that the gateway answers with.
#[derive(Debug, Clone, Copy, PartialEq, Eq, Structural)]
pub enum Code {
    OK,
    BadRequest,
    Unauthorized,
    NotFound,
    Conflict,
    InternalServerError,
}

/// The number of each status code.
pub open spec fn code_number(c: Code) -> u16 {
    match c {
        Code::OK => 200,
        Code::BadRequest => 400,
        Code::Unauthorized => 401,
        Code::NotFound => 404,
        Code::Conflict => 409,
        Code::InternalServerError => 500,
    }
}

impl Code {
    /// The number of the status code.
    pub fn number(&self) -> (res: u16)
        ensures
            res == code_number(*self),
    {
        match self {
            Code::OK => 200,
            Code::BadRequest => 400,
            Code::Unauthorized => 401,
            Code::NotFound => 404,
            Code::Conflict => 409,
            Code::InternalServerError => 500,
        }
    }
}

/// A request routed to a module: the method to run, and its body.
pub struct Request {
    method: String,
    body_len: u64,
    body: Option<String>,
    username: Option<String>,
}

/// A response of a module.
pub struct Response {
    code: u16,
    body_len: u64,
    body: String,
}

impl Request {
    /// The name of the method to run.
    pub closed spec fn method_spec(&self) -> Seq<char> {
        self.method@
    }

    /// The name of the method to run.
    pub fn method(&self) -> (res: &String)
        ensures
            res@ == self.method_spec(),
    {
        &self.method
    }

    /// The declared body length.
    pub closed spec fn body_len_spec(&self) -> u64 {
        self.body_len
    }

    /// The body, if the request declared one.
    pub closed spec fn body_spec(&self) -> Option<Seq<char>> {
        match self.body {
            Some(b) => Some(b@),
            None => None,
        }
    }

    /// The user the request is made for, if known.
    pub closed spec fn username_spec(&self) -> Option<Seq<char>> {
        match self.username {
            Some(u) => Some(u@),
            None => None,
        }
    }

    /// A request for `method` with the given body.
    pub fn with_body(method: String, body: Option<String>) -> (res: Self)
        ensures
            res.method_spec() == method@,
            res.body_spec() == match body {
                Some(b) => Some(b@),
                None => None::<Seq<char>>,
            },
            res.body_len_spec() == 0,
            res.username_spec() is None,
    {
        Request { method, body_len: 0, body, username: None }
    }

    /// The declared body length.
    pub fn body_len(&self) -> (res: u64)
        ensures
            res == self.body_len_spec(),
    {
        self.body_len
    }

    /// The body, if the request declared one.
    pub fn body(&self) -> (res: Option<&String>)
        ensures
            match res {
                Some(b) => self.body_spec() == Some(b@),
                None => self.body_spec() is None,
            },
    {
        match &self.body {
            Some(b) => Some(b),
            None => None,
        }
    }

    /// The user the request is made for, if known.
    pub fn username(&self) -> (res: Option<&String>)
        ensures
            match res {
                Some(u) => self.username_spec() == Some(u@),
                None => self.username_spec() is None,
            },
    {
        match &self.username {
            Some(u) => Some(u),
            None => None,
        }
    }
}

impl Response {
    /// The status code number.
    pub closed spec fn code_spec(&self) -> u16 {
        self.code
    }

    /// The recorded body length.
    pub closed spec fn body_len_spec(&self) -> u64 {
        self.body_len
    }

    /// The body text.
    pub closed spec fn body_spec(&self) -> Seq<char> {
        self.body@
    }

    /// A "bad request" answer carrying the message `no`.
    pub fn new(no: &str) -> (res: Self)
        ensures
            res.code_spec() == 400,
            res.body_len_spec() == 54,
            res.body_spec() == no@,
    {
        Response { code: 400, body_len: 54, body: no.to_owned() }
    }

    /// An answer with status `code` and `body`, recording the body's length
    /// in bytes.
    pub fn with_code(code: Code, body: String) -> (res: Self)
        ensures
            res.code_spec() == code_number(code),
            res.body_len_spec() == vstd::utf8::encode_utf8(body@).len(),
            res.body_spec() == body@,
    {
        let len = body.as_str().as_bytes().len();
        Response { code: code.number(), body_len: len as u64, body }
    }

    /// The status code number.
    pub fn code(&self) -> (res: u16)
        ensures
            res == self.code_spec(),
    {
        self.code
    }

    /// The recorded body length.
    pub fn body_len(&self) -> (res: u64)
        ensures
            res == self.body_len_spec(),
    {
        self.body_len
    }

    /// The body text.
    pub fn body(&self) -> (res: &String)
        ensures
            res@ == self.body_spec(),
    {
        &self.body
    }

    /// The body text, taking the response apart.
    pub fn into_body(self) -> (res: String)
        ensures
            res@ == self.body_spec(),
    {
        self.body
    }
}

/// Whether a header byte may stand in a header read as text: a visible
/// ASCII character or a tab.
pub open spec fn is_visible_ascii(b: u8) -> bool {
    (32 <= b && b < 127) || b == 9
}

/// The characters that the bytes `b` stand for, one per byte.
pub open spec fn ascii_chars(b: Seq<u8>) -> Seq<char> {
    b.map_values(|x: u8| x as char)
}

/// A header value read as text: `Some` exactly when every byte is visible
/// ASCII or a tab, as `http::HeaderValue::to_str` decides.
pub fn header_to_str(value: &[u8]) -> (res: Option<String>)
    ensures
        match res {
            Some(s) => (forall|i: int| 0 <= i < value@.len() ==> is_visible_ascii(#[trigger] value@[i]))
                && s@ == ascii_chars(value@),
            None => exists|i: int| 0 <= i < value@.len() && !is_visible_ascii(#[trigger] value@[i]),
        },
{
    let mut s = String::new();
    for i in 0..value.len()
        invariant
            forall|j: int| 0 <= j < i ==> is_visible_ascii(#[trigger] value@[j]),
            s@ == ascii_chars(value@.take(i as int)),
    {
        let b = value[i];
        if !((32 <= b && b < 127) || b == 9) {
            assert(!is_visible_ascii(value@[i as int]));
            return None;
        }
        push_char(&mut s, b as char);
        assert(ascii_chars(value@.take(i + 1)) =~= ascii_chars(value@.take(i as int)).push(
            b as char,
        ));
    }
    assert(value@.take(value@.len() as int) =~= value@);
    Some(s)
}

/// `i` is where the first `'/'` of `s` stands.
pub open spec fn is_first_slash(s: Seq<char>, i: int) -> bool {
    &&& 0 <= i < s.len()
    &&& s[i] == '/'
    &&& forall|j: int| 0 <= j < i ==> s[j] != '/'
}

/// The module and method that a request path names: the path without its
/// leading character is `module/method`; the bare root names the static
/// index page. `None` when no method can be read from it.
pub open spec fn route_of(path: Seq<char>) -> Option<(Seq<char>, Seq<char>)> {
    let p = path.drop_first();
    if exists|i: int| is_first_slash(p, i) {
        let i = choose|i: int| is_first_slash(p, i);
        if i + 1 == p.len() {
            None
        } else {
            Some((p.take(i), p.skip(i + 1)))
        }
    } else if p.len() == 0 {
        Some(("static"@, "index.html"@))
    } else {
        None
    }
}

/// The placeholder body of a request that declares a length.
pub open spec fn placeholder_body() -> Seq<char> {
    "lol, mdr"@
}

/// What a `Content-Length` header gives: nothing, a length, or the message
/// of the answer that refuses it ("2" when it is not text, "3" when it is
/// not a number).
pub open spec fn content_length_of(value: Option<Seq<u8>>) -> Result<Option<u64>, Seq<char>> {
    match value {
        None => Ok(None),
        Some(v) => if !(forall|i: int| 0 <= i < v.len() ==> is_visible_ascii(#[trigger] v[i])) {
            Err("2"@)
        } else {
            match parse_u64_spec(ascii_chars(v)) {
                Some(n) => Ok(Some(n)),
                None => Err("3"@),
            }
        },
    }
}

/// Splits a request path into module and method.
fn split_route(path: &str) -> (res: Option<(String, String)>)
    requires
        path@.len() >= 1,
    ensures
        match route_of(path@) {
            Some((m, f)) => res matches Some((rm, rf)) && rm@ == m && rf@ == f,
            None => res is None,
        },
{
    let chars = chars_of(path);
    let n = chars.len();
    let ghost p = path@.drop_first();
    let mut i: usize = 1;
    while i < n
        invariant
            n == path@.len(),
            chars@ == path@,
            p == path@.drop_first(),
            1 <= i <= n,
            forall|j: int| 0 <= j < i - 1 ==> p[j] != '/',
        decreases n - i,
    {
        if chars[i] == '/' {
            let ghost k = (i - 1) as int;
            assert(p[k] == '/');
            assert(is_first_slash(p, k));
            let ghost c = choose|c: int| is_first_slash(p, c);
            assert(c == k) by {
                if c < k {
                    assert(p[c] != '/');
                } else if c > k {
                    assert(p[k] != '/');
                }
            }
            if i + 1 == n {
                return None;
            }
            let module = string_from_chars(vstd::slice::slice_subrange(chars.as_slice(), 1, i));
            let method = string_from_chars(vstd::slice::slice_subrange(chars.as_slice(), i + 1, n));
            assert(chars@.subrange(1, i as int) =~= p.take(k));
            assert(chars@.subrange(i + 1, n as int) =~= p.skip(k + 1));
            return Some((module, method));
        }
        assert(p[i - 1] == chars@[i as int]);
        i = i + 1;
    }
    assert forall|c: int| !is_first_slash(p, c) by {
        if 0 <= c < p.len() {
            assert(p[c] != '/');
        }
    }
    if n == 1 {
        Some((String::from_str("static"), String::from_str("index.html")))
    } else {
        None
    }
}

/// Reads a `Content-Length` header value.
pub fn content_length(value: Option<&[u8]>) -> (res: Result<Option<u64>, Response>)
    ensures
        match content_length_of(
            match value {
                Some(v) => Some(v@),
                None => None::<Seq<u8>>,
            },
        ) {
            Ok(n) => res == Ok::<Option<u64>, Response>(n),
            Err(msg) => res matches Err(r) && r.code_spec() == 400 && r.body_len_spec() == 54
                && r.body_spec() == msg,
        },
{
    match value {
        None => Ok(None),
        Some(v) => match header_to_str(v) {
            None => Err(Response::new("2")),
            Some(text) => {
                let chars = chars_of(text.as_str());
                match parse_u64(chars.as_slice()) {
                    Some(n) => Ok(Some(n)),
                    None => Err(Response::new("3")),
                }
            },
        },
    }
}

impl Request {
    /// Reads an incoming request: `path` is its URI path, `content_length`
    /// the raw value of its `Content-Length` header. Gives the module to
    /// route to, and the request for that module, or the answer that
    /// refuses it.
    pub fn froom(path: &str, content_length_value: Option<&[u8]>) -> (res: Result<(String, Self), Response>)
        requires
            path@.len() >= 1,
            (path@[0] as u32) < 128,
        ensures
            match route_of(path@) {
                None => res matches Err(r) && r.code_spec() == 400 && r.body_len_spec() == 54
                    && r.body_spec() == "Need a method name"@,
                Some((module, method)) => match content_length_of(
                    match content_length_value {
                        Some(v) => Some(v@),
                        None => None::<Seq<u8>>,
                    },
                ) {
                    Err(msg) => res matches Err(r) && r.code_spec() == 400 && r.body_len_spec()
                        == 54 && r.body_spec() == msg,
                    Ok(None) => res matches Ok((m, req)) && m@ == module && req.method_spec() == method
                        && req.body_len_spec() == 0 && req.body_spec() is None
                        && req.username_spec() is None,
                    Ok(Some(n)) => res matches Ok((m, req)) && m@ == module && req.method_spec()
                        == method && req.body_len_spec() == n && req.body_spec() == Some(
                        placeholder_body(),
                    ) && req.username_spec() is None,
                },
            },
    {
        let (module, method) = match split_route(path) {
            Some(r) => r,
            None => return Err(Response::new("Need a method name")),
        };
        let (body_len, body) = match content_length(content_length_value) {
            Err(r) => return Err(r),
            Ok(None) => (0u64, None),
            Ok(Some(n)) => (n, Some(String::from_str("lol, mdr"))),
        };
        Ok((module, Request { method, body_len, body, username: None }))
    }
}

/// A path `/module/method`, where the module name holds no `'/'` and the
/// method is not empty, routes to that module and method; the bare root
/// routes to the static index page.
pub proof fn law_route_round_trip(lead: char, module: Seq<char>, method: Seq<char>)
    requires
        forall|j: int| 0 <= j < module.len() ==> module[j] != '/',
        method.len() > 0,
    ensures
        route_of(seq![lead] + module + seq!['/'] + method) == Some((module, method)),
        route_of(seq![lead]) == Some(("static"@, "index.html"@)),
{
    let path = seq![lead] + module + seq!['/'] + method;
    let p = path.drop_first();
    assert(p =~= module + seq!['/'] + method);
    let i = module.len() as int;
    assert(is_first_slash(p, i));
    let c = choose|c: int| is_first_slash(p, c);
    assert(c == i) by {
        if c < i {
            assert(p[c] == module[c]);
        } else if c > i {
            assert(p[i] == '/');
        }
    }
    assert(p.take(i) =~= module);
    assert(p.skip(i + 1) =~= method);
    let root = seq![lead];
    assert(root.drop_first() =~= Seq::<char>::empty());
    assert(!(exists|k: int| is_first_slash(root.drop_first(), k)));
}

/// The bytes of an ASCII text.
pub open spec fn ascii_bytes(s: Seq<char>) -> Seq<u8> {
    s.map_values(|c: char| (c as u32) as u8)
}

/// A `Content-Length` written in decimal is read back as the same number.
pub proof fn law_content_length_round_trip(n: u64)
    ensures
        content_length_of(Some(ascii_bytes(decimal(n as nat)))) == Ok::<Option<u64>, Seq<char>>(
            Some(n),
        ),
{
    lemma_decimal_digits(n as nat);
    law_decimal_round_trip(n);
    let d = decimal(n as nat);
    let b = ascii_bytes(d);
    assert forall|i: int| 0 <= i < b.len() implies is_visible_ascii(#[trigger] b[i]) by {
        assert(is_digit(d[i]));
    }
    assert(ascii_chars(b) =~= d) by {
        assert forall|i: int| 0 <= i < d.len() implies ascii_chars(b)[i] == d[i] by {
            assert(is_digit(d[i]));
            let u = d[i] as u32;
            assert(u < 256);
            assert((u as u8) == u) by (bit_vector)
                requires
                    u < 256u32,
            ;
            vstd::utf8::char_u32_cast(d[i], u);
            assert((u as char) == d[i]);
            assert(((u as u8) as char) == d[i]);
        }
    }
}

} // verus!
