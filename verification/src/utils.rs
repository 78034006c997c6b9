//! Error bodies shared by the modules.

use vstd::prelude::*;

use crate::proto::{code_number, Code, Response};

verus! {

/// The JSON error body that carries `e` (written as it is, unescaped).
pub open spec fn json_error_text(e: Seq<char>) -> Seq<char> {
    "{\"error\":\""@ + e + "\"}"@
}

/// The JSON error body `{"error":"<e>"}`.
pub fn json_error(e: &str) -> (res: String)
    ensures
        res@ == json_error_text(e@),
{
    let mut s = String::from_str("{\"error\":\"");
    s.append(e);
    s.append("\"}");
    s
}

/// An "internal server error" answer whose body is the JSON error for `e`.
pub fn into_internal_error(e: &str) -> (res: Response)
    ensures
        res.code_spec() == code_number(Code::InternalServerError),
        res.body_spec() == json_error_text(e@),
        res.body_len_spec() == vstd::utf8::encode_utf8(json_error_text(e@)).len(),
{
    Response::with_code(Code::InternalServerError, json_error(e))
}

} // verus!
