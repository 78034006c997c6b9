//! The request side of a raw HTTP/1.x connection: the request line, the
//! header lines, and the text of a response.

use vstd::prelude::*;

use crate::table::{str_eq, Table};
use crate::text::{
    chars_of, decimal, lemma_words_append_word, lemma_words_single, no_whitespace,
    split_whitespace, string_from_chars, u64_to_decimal, views_of, words,
};

verus! {

/// Where a connection stands in reading a request.
#[derive(Debug, Clone, Copy, PartialEq, Eq, Structural)]
pub enum HttpState {
    Default,
    Header,
    Body,
    Ended,
}

/// The request methods that are understood.
#[derive(Debug, Clone, Copy, PartialEq, Eq, Structural)]
pub enum HttpMethod {
    Get,
    Post,
    Put,
    Delete,
}

/// The protocol versions that are understood.
#[derive(Debug, Clone, Copy, PartialEq, Eq, Structural)]
pub enum HttpVersion {
    Http1,
    Http11,
    Http2,
}

/// The status codes that responses carry.
#[derive(Debug, Clone, Copy, PartialEq, Eq, Structural)]
pub enum HttpCode {
    InternalServerError,
    OK,
}

/// Why a request could not be read.
#[derive(Debug, Clone, Copy, PartialEq, Eq, Structural)]
pub enum HttpError {
    InvalidFirstInput,
    MissingFirstArgument,
    MissingSecondArgument,
    MissingThirdArgument,
    InvalidMethod,
    InvalidVersion,
    InvalidHeader,
}

/// The text that describes each error.
pub open spec fn error_text(e: HttpError) -> Seq<char> {
    match e {
        HttpError::InvalidFirstInput => "Invalid first input"@,
        HttpError::MissingFirstArgument => "HTTP first argument missing"@,
        HttpError::MissingSecondArgument => "HTTP second argument missing"@,
        HttpError::MissingThirdArgument => "HTTP third argument missing"@,
        HttpError::InvalidMethod => "Invalid HTTP metode"@,
        HttpError::InvalidVersion => "Invalid HTTP version"@,
        HttpError::InvalidHeader => "Invalid header"@,
    }
}

impl HttpError {
    /// The text that describes the error.
    pub fn message(&self) -> (res: String)
        ensures
            res@ == error_text(*self),
    {
        match self {
            HttpError::InvalidFirstInput => String::from_str("Invalid first input"),
            HttpError::MissingFirstArgument => String::from_str("HTTP first argument missing"),
            HttpError::MissingSecondArgument => String::from_str("HTTP second argument missing"),
            HttpError::MissingThirdArgument => String::from_str("HTTP third argument missing"),
            HttpError::InvalidMethod => String::from_str("Invalid HTTP metode"),
            HttpError::InvalidVersion => String::from_str("Invalid HTTP version"),
            HttpError::InvalidHeader => String::from_str("Invalid header"),
        }
    }
}

/// The reason phrase, with its number, of a status code.
pub open spec fn code_text(code: HttpCode) -> Seq<char> {
    match code {
        HttpCode::InternalServerError => "500 Internal Server Error"@,
        HttpCode::OK => "200 OK"@,
    }
}

/// The status line text of `code`.
pub fn from_http_code(code: HttpCode) -> (res: String)
    ensures
        res@ == code_text(code),
{
    match code {
        HttpCode::InternalServerError => String::from_str("500 Internal Server Error"),
        HttpCode::OK => String::from_str("200 OK"),
    }
}

/// The method that a request-line word names, if any.
pub open spec fn method_of(s: Seq<char>) -> Option<HttpMethod> {
    if s == "GET"@ {
        Some(HttpMethod::Get)
    } else if s == "POST"@ {
        Some(HttpMethod::Post)
    } else if s == "PUT"@ {
        Some(HttpMethod::Put)
    } else if s == "DELETE"@ {
        Some(HttpMethod::Delete)
    } else {
        None
    }
}

/// Reads a request method; only the four upper-case names are accepted.
pub fn into_method(met: &str) -> (res: Result<HttpMethod, HttpError>)
    ensures
        match method_of(met@) {
            Some(m) => res == Ok::<HttpMethod, HttpError>(m),
            None => res == Err::<HttpMethod, HttpError>(HttpError::InvalidMethod),
        },
{
    if str_eq(met, "GET") {
        Ok(HttpMethod::Get)
    } else if str_eq(met, "POST") {
        Ok(HttpMethod::Post)
    } else if str_eq(met, "PUT") {
        Ok(HttpMethod::Put)
    } else if str_eq(met, "DELETE") {
        Ok(HttpMethod::Delete)
    } else {
        Err(HttpError::InvalidMethod)
    }
}

/// The version that a request-line word names, if any.
pub open spec fn version_of(s: Seq<char>) -> Option<HttpVersion> {
    if s == "HTTP/1.0"@ {
        Some(HttpVersion::Http1)
    } else if s == "HTTP/1.1"@ {
        Some(HttpVersion::Http11)
    } else if s == "HTTP/2"@ {
        Some(HttpVersion::Http2)
    } else {
        None
    }
}

/// Reads a protocol version.
pub fn into_protocol(prot: &str) -> (res: Result<HttpVersion, HttpError>)
    ensures
        match version_of(prot@) {
            Some(v) => res == Ok::<HttpVersion, HttpError>(v),
            None => res == Err::<HttpVersion, HttpError>(HttpError::InvalidVersion),
        },
{
    if str_eq(prot, "HTTP/1.0") {
        Ok(HttpVersion::Http1)
    } else if str_eq(prot, "HTTP/1.1") {
        Ok(HttpVersion::Http11)
    } else if str_eq(prot, "HTTP/2") {
        Ok(HttpVersion::Http2)
    } else {
        Err(HttpError::InvalidVersion)
    }
}

/// The text written for a protocol version in a response.
pub open spec fn version_text(v: HttpVersion) -> Seq<char> {
    match v {
        HttpVersion::Http1 => "HTTP/1.0"@,
        HttpVersion::Http11 => "HTTP/1.1"@,
        HttpVersion::Http2 => "HTTP/2.0"@,
    }
}

/// Writes a protocol version.
pub fn from_protocol(prot: HttpVersion) -> (res: String)
    ensures
        res@ == version_text(prot),
{
    match prot {
        HttpVersion::Http1 => String::from_str("HTTP/1.0"),
        HttpVersion::Http11 => String::from_str("HTTP/1.1"),
        HttpVersion::Http2 => String::from_str("HTTP/2.0"),
    }
}

/// What the request line `s` gives: its method, path and version, or the
/// first thing wrong with it.
pub open spec fn header_args_spec(s: Seq<char>) -> Result<
    (HttpMethod, Seq<char>, HttpVersion),
    HttpError,
> {
    let w = words(s);
    if w.len() < 1 {
        Err(HttpError::MissingFirstArgument)
    } else if method_of(w[0]) is None {
        Err(HttpError::InvalidMethod)
    } else if w.len() < 2 {
        Err(HttpError::MissingSecondArgument)
    } else if w.len() < 3 {
        Err(HttpError::MissingThirdArgument)
    } else if version_of(w[2]) is None {
        Err(HttpError::InvalidVersion)
    } else {
        Ok((method_of(w[0])->0, w[1], version_of(w[2])->0))
    }
}

/// Splits a request line into method, path and version; words after the
/// third are ignored.
pub fn get_header_args(buf: &str) -> (res: Result<(HttpMethod, String, HttpVersion), HttpError>)
    ensures
        match header_args_spec(buf@) {
            Ok((m, p, v)) => res matches Ok((rm, rp, rv)) && rm == m && rp@ == p && rv == v,
            Err(e) => res == Err::<(HttpMethod, String, HttpVersion), HttpError>(e),
        },
{
    let chars = chars_of(buf);
    let w = split_whitespace(chars.as_slice());
    proof {
        assert(views_of(w@).len() == w@.len());
    }
    if w.len() < 1 {
        return Err(HttpError::MissingFirstArgument);
    }
    assert(views_of(w@)[0] == w@[0]@);
    let first = string_from_chars(w[0].as_slice());
    let method = match into_method(first.as_str()) {
        Ok(m) => m,
        Err(e) => return Err(e),
    };
    if w.len() < 2 {
        return Err(HttpError::MissingSecondArgument);
    }
    assert(views_of(w@)[1] == w@[1]@);
    let path = string_from_chars(w[1].as_slice());
    if w.len() < 3 {
        return Err(HttpError::MissingThirdArgument);
    }
    assert(views_of(w@)[2] == w@[2]@);
    let third = string_from_chars(w[2].as_slice());
    let protocol = match into_protocol(third.as_str()) {
        Ok(v) => v,
        Err(e) => return Err(e),
    };
    Ok((method, path, protocol))
}

/// A line without its trailing `"\n"`, then without its trailing `"\r"`.
pub open spec fn trim_line_end(s: Seq<char>) -> Seq<char> {
    let a = if s.len() > 0 && s.last() == '\n' {
        s.drop_last()
    } else {
        s
    };
    if a.len() > 0 && a.last() == '\r' {
        a.drop_last()
    } else {
        a
    }
}

/// The characters of `line` without its line ending.
pub fn trim_line(line: &str) -> (res: Vec<char>)
    ensures
        res@ == trim_line_end(line@),
{
    let mut v = chars_of(line);
    let n = v.len();
    if n > 0 && v[n - 1] == '\n' {
        v.pop();
    }
    let n = v.len();
    if n > 0 && v[n - 1] == '\r' {
        v.pop();
    }
    v
}

/// `i` is where the first `':'` of `s` stands.
pub open spec fn is_first_colon(s: Seq<char>, i: int) -> bool {
    &&& 0 <= i < s.len()
    &&& s[i] == ':'
    &&& forall|j: int| 0 <= j < i ==> s[j] != ':'
}

/// A header line split at its first `':'` into name and value (the value
/// keeps any space after the colon); `None` when it has no colon.
pub open spec fn split_header_spec(s: Seq<char>) -> Option<(Seq<char>, Seq<char>)> {
    if exists|i: int| is_first_colon(s, i) {
        let i = choose|i: int| is_first_colon(s, i);
        Some((s.take(i), s.skip(i + 1)))
    } else {
        None
    }
}

/// Splits a header line at its first `':'`.
pub fn split_header(line: &[char]) -> (res: Option<(String, String)>)
    ensures
        match split_header_spec(line@) {
            Some((k, v)) => res matches Some((rk, rv)) && rk@ == k && rv@ == v,
            None => res is None,
        },
{
    let n = line.len();
    let mut i: usize = 0;
    while i < n
        invariant
            n == line@.len(),
            i <= n,
            forall|j: int| 0 <= j < i ==> line@[j] != ':',
        decreases n - i,
    {
        if line[i] == ':' {
            let ghost c = choose|c: int| is_first_colon(line@, c);
            assert(is_first_colon(line@, i as int));
            assert(c == i) by {
                if c < i {
                    assert(line@[c] != ':');
                } else if c > i {
                    assert(line@[i as int] != ':');
                }
            }
            let key = string_from_chars(vstd::slice::slice_subrange(line, 0, i));
            let value = string_from_chars(vstd::slice::slice_subrange(line, i + 1, n));
            assert(line@.subrange(0, i as int) =~= line@.take(i as int));
            assert(line@.subrange(i + 1, n as int) =~= line@.skip(i + 1));
            return Some((key, value));
        }
        i = i + 1;
    }
    None
}

/// The request read so far on one connection.
pub struct HttpHandler {
    state: HttpState,
    headers: Table<String>,
    body_length: u32,
    protocol: HttpVersion,
}

/// The text of each header value, by header name.
pub open spec fn header_texts(t: Map<Seq<char>, String>) -> Map<Seq<char>, Seq<char>> {
    t.map_values(|s: String| s@)
}

impl HttpHandler {
    /// The protocol version of the request.
    pub closed spec fn protocol_spec(&self) -> HttpVersion {
        self.protocol
    }

    /// The headers read so far.
    pub closed spec fn headers_spec(&self) -> Map<Seq<char>, Seq<char>> {
        header_texts(self.headers@)
    }

    /// The declared body length.
    pub closed spec fn body_length_spec(&self) -> u32 {
        self.body_length
    }

    /// The reading state.
    pub closed spec fn state_spec(&self) -> HttpState {
        self.state
    }

    /// Starts reading a request from its first line. `first_line` is `None`
    /// where the line could not be read; an empty line means the connection
    /// gave nothing.
    pub fn new(first_line: Option<&str>) -> (res: Result<Self, HttpError>)
        ensures
            match first_line {
                None => res == Err::<Self, HttpError>(HttpError::InvalidFirstInput),
                Some(l) => if l@.len() == 0 {
                    res == Err::<Self, HttpError>(HttpError::InvalidFirstInput)
                } else {
                    match header_args_spec(trim_line_end(l@)) {
                        Ok((_m, _p, v)) => res matches Ok(h) && h.protocol_spec() == v
                            && h.headers_spec() == Map::<Seq<char>, Seq<char>>::empty()
                            && h.body_length_spec() == 0 && h.state_spec() == HttpState::Default,
                        Err(e) => res matches Err(re) && re == e,
                    }
                },
            },
    {
        let line = match first_line {
            None => return Err(HttpError::InvalidFirstInput),
            Some(l) => l,
        };
        if line.is_empty() {
            return Err(HttpError::InvalidFirstInput);
        }
        let trimmed = trim_line(line);
        let text = string_from_chars(trimmed.as_slice());
        let (_method, _path, protocol) = match get_header_args(text.as_str()) {
            Ok(args) => args,
            Err(e) => return Err(e),
        };
        let headers: Table<String> = Table::new();
        let res = HttpHandler { state: HttpState::Default, headers, body_length: 0, protocol };
        assert(header_texts(res.headers@) =~= Map::<Seq<char>, Seq<char>>::empty());
        Ok(res)
    }

    /// The protocol version of the request.
    pub fn protocol(&self) -> (res: HttpVersion)
        ensures
            res == self.protocol_spec(),
    {
        self.protocol
    }

    /// The value of header `name`, if it was sent.
    pub fn header(&self, name: &str) -> (res: Option<String>)
        ensures
            match res {
                Some(v) => self.headers_spec().dom().contains(name@) && v@
                    == self.headers_spec()[name@],
                None => !self.headers_spec().dom().contains(name@),
            },
    {
        match self.headers.get(name) {
            Some(v) => Some(v.clone()),
            None => None,
        }
    }

    /// The names of the headers read so far, each once.
    pub fn header_names(&self) -> (res: Vec<String>)
        ensures
            res@.len() == self.headers_spec().dom().len(),
            forall|i: int| 0 <= i < res@.len() ==> self.headers_spec().dom().contains(
                #[trigger] res@[i]@,
            ),
            forall|k: Seq<char>| #[trigger] self.headers_spec().dom().contains(k) ==> exists|i: int|
                0 <= i < res@.len() && #[trigger] res@[i]@ == k,
    {
        let names = self.headers.keys();
        assert(self.headers_spec().dom() =~= self.headers@.dom());
        names
    }

    /// The number of distinct headers read so far.
    pub fn header_count(&self) -> (res: usize)
        ensures
            res == self.headers_spec().dom().len(),
    {
        let n = self.headers.len();
        assert(self.headers_spec().dom() =~= self.headers@.dom());
        n
    }

    /// Takes the next header line. `line` is `None` at the end of input.
    /// Gives `Ok(true)` when a header was stored, `Ok(false)` when the
    /// headers are over (end of input or an empty line).
    pub fn next_header(&mut self, line: Option<&str>) -> (res: Result<bool, HttpError>)
        ensures
            final(self).protocol_spec() == old(self).protocol_spec(),
            final(self).body_length_spec() == old(self).body_length_spec(),
            final(self).state_spec() == old(self).state_spec(),
            match line {
                None => res == Ok::<bool, HttpError>(false) && final(self).headers_spec()
                    == old(self).headers_spec(),
                Some(l) => {
                    let t = trim_line_end(l@);
                    if t.len() == 0 {
                        res == Ok::<bool, HttpError>(false) && final(self).headers_spec()
                            == old(self).headers_spec()
                    } else {
                        match split_header_spec(t) {
                            None => res == Err::<bool, HttpError>(HttpError::InvalidHeader)
                                && final(self).headers_spec() == old(self).headers_spec(),
                            Some((k, v)) => res == Ok::<bool, HttpError>(true)
                                && final(self).headers_spec() == old(self).headers_spec().insert(
                                k,
                                v,
                            ),
                        }
                    }
                },
            },
    {
        let l = match line {
            None => return Ok(false),
            Some(l) => l,
        };
        let t = trim_line(l);
        if t.len() == 0 {
            return Ok(false);
        }
        match split_header(t.as_slice()) {
            None => Err(HttpError::InvalidHeader),
            Some((key, value)) => {
                let ghost old_headers = self.headers@;
                let ghost kv = key@;
                let ghost vv = value@;
                self.headers.insert(key, value);
                assert(header_texts(self.headers@) =~= header_texts(old_headers).insert(kv, vv));
                Ok(true)
            },
        }
    }

    /// The text of a response with status `code` and body `res`: status
    /// line, a `Content-Length` giving the body's length in bytes, then the
    /// body.
    pub fn format_response(&self, code: HttpCode, res: &str) -> (out: String)
        ensures
            out@ == response_text(self.protocol_spec(), code, res@),
    {
        let len = res.as_bytes().len();
        let mut out = from_protocol(self.protocol);
        out.append(" ");
        let code_str = from_http_code(code);
        out.append(code_str.as_str());
        out.append("\n\rContent-Length: ");
        let len_str = u64_to_decimal(len as u64);
        out.append(len_str.as_str());
        out.append("\n\r\n\r");
        out.append(res);
        assert(out@ =~= response_text(self.protocol_spec(), code, res@));
        out
    }
}

/// The response text that `format_response` writes.
pub open spec fn response_text(v: HttpVersion, code: HttpCode, body: Seq<char>) -> Seq<char> {
    version_text(v) + " "@ + code_text(code) + "\n\rContent-Length: "@ + decimal(
        vstd::utf8::encode_utf8(body).len(),
    ) + "\n\r\n\r"@ + body
}

/// Writing a protocol version and reading it back gives the same version,
/// for every version but `Http2`, which is written `"HTTP/2.0"` and read
/// only from `"HTTP/2"`.
pub proof fn law_protocol_round_trip(v: HttpVersion)
    requires
        v != HttpVersion::Http2,
    ensures
        version_of(version_text(v)) == Some(v),
{
    reveal_strlit("HTTP/1.0");
    reveal_strlit("HTTP/1.1");
    if v == HttpVersion::Http11 {
        assert("HTTP/1.1"@[7] != "HTTP/1.0"@[7]);
    }
}

/// A header line `name:value`, where `name` holds no colon, is read back as
/// that name and value.
pub proof fn law_header_line_round_trip(name: Seq<char>, value: Seq<char>)
    requires
        forall|j: int| 0 <= j < name.len() ==> name[j] != ':',
    ensures
        split_header_spec(name + seq![':'] + value) == Some((name, value)),
{
    let line = name + seq![':'] + value;
    let i = name.len() as int;
    assert(is_first_colon(line, i));
    let c = choose|c: int| is_first_colon(line, c);
    assert(c == i) by {
        if c < i {
            assert(line[c] == name[c]);
        } else if c > i {
            assert(line[i] == ':');
        }
    }
    assert(line.take(i) =~= name);
    assert(line.skip(i + 1) =~= value);
}

/// The word of the request line that names each method.
pub open spec fn method_name(m: HttpMethod) -> Seq<char> {
    match m {
        HttpMethod::Get => "GET"@,
        HttpMethod::Post => "POST"@,
        HttpMethod::Put => "PUT"@,
        HttpMethod::Delete => "DELETE"@,
    }
}

/// The word of the request line that names each version.
pub open spec fn version_name(v: HttpVersion) -> Seq<char> {
    match v {
        HttpVersion::Http1 => "HTTP/1.0"@,
        HttpVersion::Http11 => "HTTP/1.1"@,
        HttpVersion::Http2 => "HTTP/2"@,
    }
}

/// The method and version names are read back as what they name, and hold
/// no whitespace.
pub proof fn lemma_names(m: HttpMethod, v: HttpVersion)
    ensures
        method_of(method_name(m)) == Some(m),
        version_of(version_name(v)) == Some(v),
        method_name(m).len() > 0,
        version_name(v).len() > 0,
        no_whitespace(method_name(m)),
        no_whitespace(version_name(v)),
{
    reveal_strlit("GET");
    reveal_strlit("POST");
    reveal_strlit("PUT");
    reveal_strlit("DELETE");
    reveal_strlit("HTTP/1.0");
    reveal_strlit("HTTP/1.1");
    reveal_strlit("HTTP/2");
    assert("GET"@[0] != "POST"@[0]);
    assert("GET"@[0] != "PUT"@[0]);
    assert("POST"@[1] != "PUT"@[1]);
    assert("HTTP/1.0"@.len() != "HTTP/2"@.len());
    assert("HTTP/1.1"@[7] != "HTTP/1.0"@[7]);
    assert("HTTP/1.1"@.len() != "HTTP/2"@.len());
}

/// A request line written as method, path and version, separated by
/// spaces, is read back as that method, path and version (the path being a
/// non-empty word without whitespace).
pub proof fn law_request_line_round_trip(m: HttpMethod, path: Seq<char>, v: HttpVersion)
    requires
        path.len() > 0,
        no_whitespace(path),
    ensures
        header_args_spec(method_name(m) + seq![' '] + path + seq![' '] + version_name(v)) == Ok::<
            (HttpMethod, Seq<char>, HttpVersion),
            HttpError,
        >((m, path, v)),
{
    lemma_names(m, v);
    let a = method_name(m);
    let c = version_name(v);
    lemma_words_single(a);
    lemma_words_append_word(a, ' ', path);
    lemma_words_append_word(a + seq![' '] + path, ' ', c);
    let w = words(a + seq![' '] + path + seq![' '] + c);
    assert(w =~= seq![a, path, c]);
}

/// The `Content-Length` that a response states is read back, by the
/// request side's `Content-Length` reader, as the body's length in bytes.
pub proof fn law_response_length_reads_back(v: HttpVersion, code: HttpCode, body: Seq<char>)
    requires
        vstd::utf8::encode_utf8(body).len() <= u64::MAX,
    ensures
        ({
            let n = vstd::utf8::encode_utf8(body).len();
            &&& response_text(v, code, body) == version_text(v) + " "@ + code_text(code)
                + "\n\rContent-Length: "@ + decimal(n) + "\n\r\n\r"@ + body
            &&& crate::proto::content_length_of(Some(crate::proto::ascii_bytes(decimal(n))))
                == Ok::<Option<u64>, Seq<char>>(Some(n as u64))
        }),
{
    let n = vstd::utf8::encode_utf8(body).len();
    crate::proto::law_content_length_round_trip(n as u64);
}

} // verus!
