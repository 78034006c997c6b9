//! Access and refresh tokens (JWT, HS256).
//!
//! An access token opens the API for ten minutes; its claims are the user
//! name (`sub`) and the expiry (`exp`, seconds since the Unix epoch). A
//! refresh token lives a month and also carries its own id (`iss`), drawn
//! at random, by which that one token can be revoked.

use vstd::prelude::*;

use crate::proto::{ascii_chars, header_to_str, is_visible_ascii};
use crate::text::{
    chars_of, decimal, hex_digit, json_plain, json_quote, push_char, string_from_chars, u64_to_decimal,
};

verus! {

/// The kinds of token.
#[derive(Debug, Clone, Copy, PartialEq, Eq, Structural)]
pub enum TokenType {
    AccessToken,
    RefreshToken,
}

/// How long an access token lives, in seconds (ten minutes).
pub const ACCESS_TOKEN_DURATION: u64 = 600;

/// How long a refresh token lives, in seconds (thirty days).
pub const REFRESH_TOKEN_DURATION: u64 = 2592000;

/// The key that signs access tokens.
pub open spec fn access_secret_spec() -> Seq<char> {
    "super secret"@
}

/// The key that signs refresh tokens.
pub open spec fn refresh_secret_spec() -> Seq<char> {
    "another secret"@
}

/// The key that signs access tokens.
pub fn access_secret() -> (res: &'static str)
    ensures
        res@ == access_secret_spec(),
{
    "super secret"
}

/// The key that signs refresh tokens.
pub fn refresh_secret() -> (res: &'static str)
    ensures
        res@ == refresh_secret_spec(),
{
    "another secret"
}

/// The token that `jsonwebtoken::encode` writes with the default header
/// (HS256) for the claims whose JSON text is `claims`, signed with
/// `secret` (`None` where it fails).
pub uninterp spec fn jwt_hs256(claims: Seq<char>, secret: Seq<u8>) -> Option<Seq<char>>;

/// The `sub` claim of `token` where `token` is a JWT whose header (as
/// `jsonwebtoken` reads it) names HS256, whose signature verifies under
/// `secret`, and whose payload decodes (base64url) to a JSON object whose
/// `sub` is a string (the last one, as `serde_json` reads repeated keys);
/// `None` otherwise. This part of what `jsonwebtoken::decode` does depends
/// on the token and the key alone.
pub uninterp spec fn jwt_verified_sub(token: Seq<char>, secret: Seq<u8>) -> Option<Seq<char>>;

/// Writes the string `s` as JSON text.
///
/// Calls `serde_json::to_string` on the string. Its serialiser writes a
/// string as `format_escaped_str` does: in quotes, with the characters that
/// JSON must escape escaped (`json_quote`); the writer is a `Vec<u8>`, which
/// never fails, so the call always succeeds.
#[verifier::external_body]
fn json_encode_str(s: &str) -> (res: Option<String>)
    ensures
        res is Some,
        res.unwrap()@ == json_quote(s@),
{
    serde_json::to_string(s).ok()
}

/// Signs the claims whose JSON text is `claims` into a token.
///
/// Takes the text as a `serde_json::value::RawValue`, which serialises to
/// the very same text, and calls `jsonwebtoken::encode` with
/// `Header::default()` (HS256) and `EncodingKey::from_secret(secret)`. The
/// contract names the result (`jwt_hs256`), as a function of the claims
/// text and the secret alone. It also states the one fact that reading
/// the token back gives: `jsonwebtoken::decode` with the same secret checks
/// the HMAC that `encode` wrote over the same header and payload, and
/// parses the very claims text, so where that text is the claims of a
/// token for the user `u` (its `sub` being the JSON string of `u`, and no
/// other `sub` key in it), the verified `sub` is `u`. For such claims the
/// call also succeeds: the text is valid JSON, so `RawValue::from_string`
/// takes it, and `encode` with HS256 and an HMAC key fails only where the
/// key's family is not the algorithm's or the claims do not serialise.
#[verifier::external_body]
fn jwt_encode_hs256(claims: &str, secret: &[u8]) -> (res: Option<String>)
    ensures
        match res {
            Some(t) => jwt_hs256(claims@, secret@) == Some(t@),
            None => jwt_hs256(claims@, secret@) is None,
        },
        res matches Some(t) ==> forall|u: Seq<char>, exp: u64|
            #[trigger] access_claims_text(json_quote(u), exp) == claims@
                ==> jwt_verified_sub(t@, secret@) == Some(u),
        res matches Some(t) ==> forall|u: Seq<char>, exp: u64, id: Seq<char>|
            json_plain(id) && #[trigger] refresh_claims_text(json_quote(u), exp, id) == claims@
                ==> jwt_verified_sub(t@, secret@) == Some(u),
        forall|u: Seq<char>, exp: u64|
            #[trigger] access_claims_text(json_quote(u), exp) == claims@ ==> res is Some,
        forall|u: Seq<char>, exp: u64, id: Seq<char>|
            json_plain(id) && #[trigger] refresh_claims_text(json_quote(u), exp, id) == claims@
                ==> res is Some,
{
    let raw = match serde_json::value::RawValue::from_string(claims.to_string()) {
        Ok(raw) => raw,
        Err(_) => return None,
    };
    jsonwebtoken::encode(
        &jsonwebtoken::Header::default(),
        &raw,
        &jsonwebtoken::EncodingKey::from_secret(secret),
    ).ok()
}

#[verifier::external_type_specification]
#[verifier::external_body]
pub struct ExSystemTime(std::time::SystemTime);

/// The current time of the system clock.
///
/// Calls `std::time::SystemTime::now`; nothing is claimed of the result.
#[verifier::external_body]
fn system_now() -> std::time::SystemTime {
    std::time::SystemTime::now()
}

/// A reading of the system clock against the Unix epoch: how far before
/// or after it, in whole seconds and the nanoseconds beyond them.
#[derive(Debug, Clone, Copy, PartialEq, Eq, Structural)]
pub struct ClockReading {
    pub before_epoch: bool,
    pub secs: u64,
    pub nanos: u32,
}

/// Where `t` stands against the Unix epoch.
///
/// Calls `SystemTime::duration_since(UNIX_EPOCH)`; where `t` is before the
/// epoch, the distance is taken from the error (`SystemTimeError::duration`).
/// Only that the nanoseconds are below a second is claimed, as
/// `Duration::subsec_nanos` documents; the rest rests on the clock.
#[verifier::external_body]
fn clock_reading(t: &std::time::SystemTime) -> (res: ClockReading)
    ensures
        res.nanos < 1_000_000_000,
{
    match t.duration_since(std::time::UNIX_EPOCH) {
        Ok(d) => ClockReading { before_epoch: false, secs: d.as_secs(), nanos: d.subsec_nanos() },
        Err(e) => ClockReading {
            before_epoch: true,
            secs: e.duration().as_secs(),
            nanos: e.duration().subsec_nanos(),
        },
    }
}

/// The expiry `exp` seconds after `now`, or `None` where it overflows.
pub open spec fn expiry_spec(now: u64, exp: u64) -> Option<u64> {
    if now + exp <= u64::MAX {
        Some((now + exp) as u64)
    } else {
        None
    }
}

/// The expiry `exp` seconds after `now`.
pub fn expiry_after(now: u64, exp: u64) -> (res: Option<u64>)
    ensures
        res == expiry_spec(now, exp),
{
    now.checked_add(exp)
}

/// The whole seconds from the Unix epoch to the moment `exp` seconds after
/// the clock reading `r`; `None` where that moment is before the epoch or
/// the seconds overflow.
pub open spec fn expiry_from_reading_spec(r: ClockReading, exp: u64) -> Option<u64> {
    if !r.before_epoch {
        expiry_spec(r.secs, exp)
    } else {
        let back = r.secs + (if r.nanos > 0 { 1int } else { 0int });
        if exp >= back {
            Some((exp - back) as u64)
        } else {
            None
        }
    }
}

/// The whole seconds from the Unix epoch to `exp` seconds after the clock
/// reading `r`.
pub fn expiry_from_reading(r: &ClockReading, exp: u64) -> (res: Option<u64>)
    ensures
        res == expiry_from_reading_spec(*r, exp),
{
    if !r.before_epoch {
        expiry_after(r.secs, exp)
    } else {
        let back_extra: u64 = if r.nanos > 0 { 1 } else { 0 };
        if r.secs > exp {
            None
        } else if exp - r.secs < back_extra {
            None
        } else {
            Some(exp - r.secs - back_extra)
        }
    }
}

/// Seconds since the Unix epoch, `exp` seconds from now; `None` where that
/// moment is before the epoch or the seconds overflow.
pub fn get_now_plus(exp: u64) -> (res: Option<u64>)
    ensures
        res matches Some(t) ==> exists|r: ClockReading| expiry_from_reading_spec(r, exp) == Some(t),
{
    let now = system_now();
    let r = clock_reading(&now);
    expiry_from_reading(&r, exp)
}

/// `n` random bytes.
///
/// Calls `rand::Rng::try_fill` on `rand::thread_rng()`; the error is
/// given as its text. Filling a byte slice goes to `try_fill_bytes`, which
/// `ThreadRng` hands to its block generator (`BlockRng::try_fill_bytes`),
/// and that fills the bytes and always answers `Ok` (a failing system
/// source makes `thread_rng` panic when it is first seeded, not this
/// call fail). So the call always succeeds; which bytes come is chance,
/// and only their number is claimed.
#[verifier::external_body]
pub(crate) fn random_bytes(n: usize) -> (res: Result<Vec<u8>, String>)
    ensures
        res matches Ok(v) ==> v@.len() == n,
        res is Ok,
{
    let mut v = vec![0u8; n];
    match rand::Rng::try_fill(&mut rand::thread_rng(), &mut v[..]) {
        Ok(()) => Ok(v),
        Err(e) => Err(e.to_string()),
    }
}

/// The lower-case hexadecimal text of bytes, two digits per byte.
pub open spec fn hex_text(b: Seq<u8>) -> Seq<char>
    decreases b.len(),
{
    if b.len() == 0 {
        seq![]
    } else {
        hex_text(b.drop_last()) + seq![
            hex_digit((b.last() / 16) as nat),
            hex_digit((b.last() % 16) as nat),
        ]
    }
}

/// The hexadecimal digit for `d` (below sixteen).
fn hex_char(d: u8) -> (res: char)
    requires
        d < 16,
    ensures
        res == hex_digit(d as nat),
{
    if d < 10 {
        ((d + 48) as u8) as char
    } else {
        ((d + 87) as u8) as char
    }
}

/// Writes bytes in lower-case hexadecimal.
pub fn hex_of(b: &[u8]) -> (res: String)
    ensures
        res@ == hex_text(b@),
{
    let mut s = String::new();
    for i in 0..b.len()
        invariant
            s@ == hex_text(b@.take(i as int)),
    {
        let x = b[i];
        push_char(&mut s, hex_char(x / 16));
        push_char(&mut s, hex_char(x % 16));
        let ghost p = b@.take(i + 1);
        assert(p.drop_last() =~= b@.take(i as int));
        assert(p.last() == x);
        assert(hex_text(p) =~= hex_text(b@.take(i as int)).push(hex_digit((x / 16) as nat)).push(
            hex_digit((x % 16) as nat),
        ));
    }
    assert(b@.take(b@.len() as int) =~= b@);
    s
}

/// The number of random bytes in a refresh token's id.
pub const TOKEN_ID_BYTES: usize = 16;

/// The JSON text of access token claims: the JSON string of the user name
/// and the expiry.
pub open spec fn access_claims_text(sub_json: Seq<char>, exp: u64) -> Seq<char> {
    "{\"sub\":"@ + sub_json + ",\"exp\":"@ + decimal(exp as nat) + "}"@
}

/// The JSON text of refresh token claims: user name, expiry, and the
/// token's id `id` (hexadecimal text), by which one token can be revoked.
pub open spec fn refresh_claims_text(sub_json: Seq<char>, exp: u64, id: Seq<char>) -> Seq<char> {
    "{\"sub\":"@ + sub_json + ",\"exp\":"@ + decimal(exp as nat) + ",\"iss\":\""@ + id + "\"}"@
}

/// How long a token of kind `t` lives.
pub open spec fn duration_of(t: TokenType) -> u64 {
    match t {
        TokenType::AccessToken => ACCESS_TOKEN_DURATION,
        TokenType::RefreshToken => REFRESH_TOKEN_DURATION,
    }
}

/// The bytes of a secret key.
pub open spec fn key_bytes(s: Seq<char>) -> Seq<u8> {
    vstd::utf8::encode_utf8(s)
}

/// The claims text of a token of kind `t` for a user whose name is written
/// `sub_json`, expiring at `exp`; a refresh token carries the id `id`.
pub open spec fn claims_text(t: TokenType, sub_json: Seq<char>, exp: u64, id: Seq<char>) -> Seq<char> {
    match t {
        TokenType::AccessToken => access_claims_text(sub_json, exp),
        TokenType::RefreshToken => refresh_claims_text(sub_json, exp, id),
    }
}

/// The key that signs tokens of kind `t`.
pub open spec fn secret_of(t: TokenType) -> Seq<char> {
    match t {
        TokenType::AccessToken => access_secret_spec(),
        TokenType::RefreshToken => refresh_secret_spec(),
    }
}

/// The token of kind `t` for `username`, expiring at `exp`, with the id
/// `id` where it is a refresh token.
pub open spec fn token_expiring(username: Seq<char>, t: TokenType, exp: u64, id: Seq<char>) -> Option<Seq<char>> {
    jwt_hs256(claims_text(t, json_quote(username), exp, id), key_bytes(secret_of(t)))
}

/// The token of kind `t` for `username`, made at time `now`, with the id
/// `id` where it is a refresh token.
pub open spec fn token_at(username: Seq<char>, t: TokenType, now: u64, id: Seq<char>) -> Option<Seq<char>> {
    match expiry_spec(now, duration_of(t)) {
        None => None,
        Some(exp) => token_expiring(username, t, exp, id),
    }
}

/// Whether a token of kind `t` with the id `id` reads back as its user:
/// an access token always does, a refresh token where its id needs no
/// escaping in JSON.
pub open spec fn reads_back(t: TokenType, id: Seq<char>) -> bool {
    t == TokenType::AccessToken || json_plain(id)
}

/// Makes the token of kind `token` for `username` that expires at `exp`
/// (seconds since the Unix epoch); a refresh token carries the id `id`.
/// The token, checked with the key of its kind, gives back `username` as
/// its `sub`.
pub fn create_token_expiring(username: &str, token: TokenType, exp: u64, id: &str) -> (res: Option<String>)
    ensures
        match res {
            Some(t) => token_expiring(username@, token, exp, id@) == Some(t@),
            None => token_expiring(username@, token, exp, id@) is None,
        },
        reads_back(token, id@) ==> (res matches Some(t) ==> jwt_verified_sub(
            t@,
            key_bytes(secret_of(token)),
        ) == Some(username@)),
        reads_back(token, id@) ==> res is Some,
{
    let sub = match json_encode_str(username) {
        Some(s) => s,
        None => return None,
    };
    let mut claims = String::from_str("{\"sub\":");
    claims.append(sub.as_str());
    claims.append(",\"exp\":");
    let exp_text = u64_to_decimal(exp);
    claims.append(exp_text.as_str());
    match token {
        TokenType::AccessToken => claims.append("}"),
        TokenType::RefreshToken => {
            claims.append(",\"iss\":\"");
            claims.append(id);
            claims.append("\"}");
        },
    }
    assert(claims@ =~= claims_text(token, sub@, exp, id@));
    let secret = match token {
        TokenType::AccessToken => access_secret(),
        TokenType::RefreshToken => refresh_secret(),
    };
    let res = jwt_encode_hs256(claims.as_str(), secret.as_bytes());
    proof {
        match token {
            TokenType::AccessToken => {
                assert(access_claims_text(json_quote(username@), exp) == claims@);
            },
            TokenType::RefreshToken => {
                assert(refresh_claims_text(json_quote(username@), exp, id@) == claims@);
            },
        }
    }
    res
}

/// The lifetime of tokens of kind `token`.
pub fn token_duration(token: TokenType) -> (res: u64)
    ensures
        res == duration_of(token),
{
    match token {
        TokenType::AccessToken => ACCESS_TOKEN_DURATION,
        TokenType::RefreshToken => REFRESH_TOKEN_DURATION,
    }
}

/// Makes the token of kind `token` for `username` as of `now` (seconds
/// since the Unix epoch); a refresh token carries the id `id`.
pub fn create_token_at(username: &str, token: TokenType, now: u64, id: &str) -> (res: Option<String>)
    ensures
        match res {
            Some(t) => token_at(username@, token, now, id@) == Some(t@),
            None => token_at(username@, token, now, id@) is None,
        },
        reads_back(token, id@) ==> (res matches Some(t) ==> jwt_verified_sub(
            t@,
            key_bytes(secret_of(token)),
        ) == Some(username@)),
        reads_back(token, id@) ==> (res is Some <==> expiry_spec(now, duration_of(token)) is Some),
{
    match expiry_after(now, token_duration(token)) {
        Some(exp) => create_token_expiring(username, token, exp, id),
        None => None,
    }
}

/// The token of kind `t` for `username` made at the clock reading `r`:
/// it expires the token's lifetime after `r`; a refresh token carries the
/// id `id`.
pub open spec fn token_from_reading(username: Seq<char>, t: TokenType, r: ClockReading, id: Seq<char>) -> Option<Seq<char>> {
    match expiry_from_reading_spec(r, duration_of(t)) {
        None => None,
        Some(exp) => token_expiring(username, t, exp, id),
    }
}

/// Makes the token of kind `token` for `username` as of the clock reading
/// `r`: an access token expires ten minutes after it, a refresh token
/// thirty days after it and carries the id `id`.
pub fn create_token_from_reading(username: &str, token: TokenType, r: &ClockReading, id: &str) -> (res: Option<String>)
    ensures
        match res {
            Some(t) => token_from_reading(username@, token, *r, id@) == Some(t@),
            None => token_from_reading(username@, token, *r, id@) is None,
        },
        reads_back(token, id@) ==> (res matches Some(t) ==> jwt_verified_sub(
            t@,
            key_bytes(secret_of(token)),
        ) == Some(username@)),
        reads_back(token, id@) ==> (res is Some <==> expiry_from_reading_spec(
            *r,
            duration_of(token),
        ) is Some),
{
    match expiry_from_reading(r, token_duration(token)) {
        Some(exp) => create_token_expiring(username, token, exp, id),
        None => None,
    }
}

/// Makes the token of kind `token` for `username`, its lifetime counted
/// from the current time. A refresh token gets a fresh id: sixteen random
/// bytes, in hexadecimal.
pub fn create_token(username: String, token: TokenType) -> (res: Option<String>)
    ensures
        exists|r: ClockReading, id: Seq<u8>|
            #![trigger token_from_reading(username@, token, r, hex_text(id))]
            {
                &&& id.len() == TOKEN_ID_BYTES
                &&& r.nanos < 1_000_000_000
                &&& (res is Some <==> expiry_from_reading_spec(r, duration_of(token)) is Some)
                &&& (res matches Some(t) ==> token_from_reading(username@, token, r, hex_text(id))
                    == Some(t@))
            },
        res matches Some(t) ==> jwt_verified_sub(t@, key_bytes(secret_of(token))) == Some(username@),
{
    let now = system_now();
    let r = clock_reading(&now);
    let id_bytes: Vec<u8> = match token {
        TokenType::AccessToken => vec![0u8; TOKEN_ID_BYTES],
        TokenType::RefreshToken => match random_bytes(TOKEN_ID_BYTES) {
            Ok(b) => b,
            Err(_) => return None,
        },
    };
    assert(id_bytes@.len() == TOKEN_ID_BYTES);
    let id = hex_of(id_bytes.as_slice());
    proof {
        lemma_hex_text_plain(id_bytes@);
    }
    let res = create_token_from_reading(username.as_str(), token, &r, id.as_str());
    proof {
        let _ = token_from_reading(username@, token, r, hex_text(id_bytes@));
    }
    res
}

/// The length of the scheme word in front of a token, `"bearer "`.
pub const BEARER_PREFIX_LEN: usize = 7;

/// What an `Authorization` header value gives: no header, the token after
/// its first seven characters, or the refusal message.
pub open spec fn bearer_token_of(value: Option<Seq<u8>>) -> Result<Option<Seq<char>>, Seq<char>> {
    match value {
        None => Ok(None),
        Some(v) => if !(forall|i: int| 0 <= i < v.len() ==> is_visible_ascii(#[trigger] v[i])) {
            Err("Authorization header: failed to convert header to a str"@)
        } else if v.len() < 8 {
            Err("Invalid Authorization header"@)
        } else {
            Ok(Some(ascii_chars(v).skip(7)))
        },
    }
}

/// Reads the token of an `Authorization` header value: the scheme word is
/// not checked, only skipped.
pub fn bearer_token(authorization: Option<&[u8]>) -> (res: Result<Option<String>, String>)
    ensures
        match bearer_token_of(
            match authorization {
                Some(v) => Some(v@),
                None => None::<Seq<u8>>,
            },
        ) {
            Ok(None) => res matches Ok(None),
            Ok(Some(t)) => res matches Ok(Some(rt)) && rt@ == t,
            Err(msg) => res matches Err(m) && m@ == msg,
        },
{
    match authorization {
        None => Ok(None),
        Some(v) => match header_to_str(v) {
            None => Err(String::from_str("Authorization header: failed to convert header to a str")),
            Some(text) => {
                let chars = chars_of(text.as_str());
                assert(chars@.len() == v@.len());
                if chars.len() < BEARER_PREFIX_LEN + 1 {
                    return Err(String::from_str("Invalid Authorization header"));
                }
                let n = chars.len();
                let token = string_from_chars(vstd::slice::slice_subrange(chars.as_slice(), 7, n));
                assert(chars@.subrange(7, n as int) =~= ascii_chars(v@).skip(7));
                Ok(Some(token))
            },
        },
    }
}

/// The user name that a decoded token gives; `decoded` is the `sub` claim,
/// or the message of the decoding failure.
pub fn username_from_decoded(decoded: Result<String, String>) -> (res: Result<Option<String>, String>)
    ensures
        match decoded {
            Ok(sub) => res matches Ok(Some(u)) && u@ == sub@,
            Err(e) => res matches Err(m) && m@ == "Invalid JWT: "@ + e@,
        },
{
    match decoded {
        Ok(sub) => Ok(Some(sub)),
        Err(e) => {
            let mut m = String::from_str("Invalid JWT: ");
            m.append(e.as_str());
            Err(m)
        },
    }
}

/// The errors that decoding can give for a token that its key vouches
/// for: the token has expired, it names an audience, it lacks an `exp`
/// claim, or its header or claims do not read as expected (a JSON error).
pub open spec fn vouched_token_refusal(e: Seq<char>) -> bool {
    ||| e == "ExpiredSignature"@
    ||| e == "InvalidAudience"@
    ||| e == "Missing required claim: exp"@
    ||| e.len() >= 12 && e.take(12) == "JSON error: "@
}

/// The `sub` and `exp` claims of an access token, read with `secret`.
///
/// Calls `jsonwebtoken::decode` with `DecodingKey::from_secret(secret)` and
/// `Validation::default()`, taking the claims as a `serde_json::Value`; of
/// the claims it gives the `sub` where it is a string and the `exp` where
/// it is an integer that fits a `u64` (`Value::as_u64`). The error is given
/// as its text. `decode` answers `Ok` only after the signature verified
/// under the key (HS256) and the claims parsed, so a `sub` that comes back
/// is `jwt_verified_sub` of the token and the key. Beyond that nothing is
/// claimed: `decode` also checks the `exp` claim against the system clock.
///
/// Of a token that the key vouches for (`jwt_verified_sub` is `Some`), it
/// also claims what `decode` can still answer: its claims are an object
/// with a string `sub`, so that `sub` comes back; and an error can only be
/// one of those that `validate` gives under `Validation::default()`
/// (`ExpiredSignature`, `InvalidAudience` where an `aud` claim is there,
/// `Missing required claim: exp`) or a `JSON error: ` from reading the
/// header or the claims (`vouched_token_refusal`).
#[verifier::external_body]
fn jwt_decode_claims(token: &str, secret: &[u8]) -> (res: Result<(Option<String>, Option<u64>), String>)
    ensures
        res matches Ok((Some(sub), _)) ==> jwt_verified_sub(token@, secret@) == Some(sub@),
        res matches Ok((None, _)) ==> jwt_verified_sub(token@, secret@) is None,
        res matches Err(e) ==> jwt_verified_sub(token@, secret@) is None || vouched_token_refusal(e@),
{
    let key = jsonwebtoken::DecodingKey::from_secret(secret);
    match jsonwebtoken::decode::<serde_json::Value>(token, &key, &jsonwebtoken::Validation::default()) {
        Ok(data) => {
            let sub = match data.claims.get("sub") {
                Some(serde_json::Value::String(sub)) => Some(sub.clone()),
                _ => None,
            };
            let exp = match data.claims.get("exp") {
                Some(v) => v.as_u64(),
                None => None,
            };
            Ok((sub, exp))
        },
        Err(e) => Err(e.to_string()),
    }
}

/// The user that decoded access token claims name: the `sub` claim, which
/// must be a string, where the `exp` claim is an unsigned integer.
pub fn user_of_claims(sub: Option<String>, exp: Option<u64>) -> (res: Result<String, String>)
    ensures
        match sub {
            None => res matches Err(m) && m@ == "JSON error: invalid or missing field `sub`"@,
            Some(s) => match exp {
                None => res matches Err(m) && m@ == "JSON error: invalid or missing field `exp`"@,
                Some(_) => res matches Ok(u) && u@ == s@,
            },
        },
{
    match sub {
        None => Err(String::from_str("JSON error: invalid or missing field `sub`")),
        Some(s) => match exp {
            None => Err(String::from_str("JSON error: invalid or missing field `exp`")),
            Some(_) => Ok(s),
        },
    }
}

/// Whether `m` is the message of a token that did not decode.
pub open spec fn is_invalid_jwt_message(m: Seq<char>) -> bool {
    m.len() >= 13 && m.take(13) == "Invalid JWT: "@
}

/// What `get_username` answers for the `Authorization` header value
/// `value`: as `bearer_token_of` says, and for a token, a user that the
/// access key's signature vouches for, or an `"Invalid JWT: "` message.
pub open spec fn username_answers(value: Option<Seq<u8>>, res: Result<Option<String>, String>) -> bool {
    match bearer_token_of(value) {
        Ok(None) => res matches Ok(None),
        Ok(Some(t)) => match res {
            Ok(Some(u)) => jwt_verified_sub(t, key_bytes(access_secret_spec())) == Some(u@),
            Ok(None) => false,
            Err(m) => is_invalid_jwt_message(m@) && (jwt_verified_sub(
                t,
                key_bytes(access_secret_spec()),
            ) is Some ==> vouched_token_refusal(m@.skip(13))),
        },
        Err(msg) => res matches Err(m) && m@ == msg,
    }
}

/// The user of a request, read from the access token in its
/// `Authorization` header value (`authorization`): no header gives no
/// user; a value that is not visible ASCII, or is shorter than eight
/// characters, is refused with its message; otherwise the token after the
/// first seven characters is decoded with the access key, and gives its
/// `sub` claim (one that the access key's signature vouches for) or an
/// `"Invalid JWT: "` message.
pub fn get_username(authorization: Option<&[u8]>) -> (res: Result<Option<String>, String>)
    ensures
        username_answers(
            match authorization {
                Some(v) => Some(v@),
                None => None::<Seq<u8>>,
            },
            res,
        ),
{
    match bearer_token(authorization) {
        Err(e) => Err(e),
        Ok(None) => Ok(None),
        Ok(Some(token)) => {
            let decoded = match jwt_decode_claims(token.as_str(), access_secret().as_bytes()) {
                Ok((sub, exp)) => user_of_claims(sub, exp),
                Err(e) => Err(e),
            };
            let ghost d = decoded;
            let res = username_from_decoded(decoded);
            proof {
                reveal_strlit("Invalid JWT: ");
                reveal_strlit("JSON error: ");
                reveal_strlit("JSON error: invalid or missing field `exp`");
                if d is Err {
                    assert(res->Err_0@.take(13) =~= "Invalid JWT: "@);
                    assert(res->Err_0@.skip(13) =~= d->Err_0@);
                    assert("JSON error: invalid or missing field `exp`"@.take(12) =~= "JSON error: "@);
                }
            }
            res
        },
    }
}

/// An access token made for `username` opens the API as `username`: carried
/// in the `Authorization` header, a token that the access key vouches for
/// as `username`'s (as `create_token` and its siblings promise of every
/// access token they make) is read as `username`, and never as another
/// user; the only refusals left are those that decoding can give for a
/// token its key vouches for (it has expired, names an audience, lacks an
/// `exp`, or its claims do not read as a user and an expiry).
pub proof fn law_access_token_reads_back(
    username: Seq<char>,
    t: Seq<char>,
    header: Seq<u8>,
    res: Result<Option<String>, String>,
)
    requires
        jwt_verified_sub(t, key_bytes(access_secret_spec())) == Some(username),
        bearer_token_of(Some(header)) == Ok::<Option<Seq<char>>, Seq<char>>(Some(t)),
        username_answers(Some(header), res),
    ensures
        match res {
            Ok(Some(u)) => u@ == username,
            Ok(None) => false,
            Err(m) => is_invalid_jwt_message(m@) && vouched_token_refusal(m@.skip(13)),
        },
{
}

/// A token made at a clock reading after the Unix epoch expires exactly
/// its lifetime after that reading: an access token `r.secs + 600`, a
/// refresh token `r.secs + 2592000`; its claims name the user and it is
/// signed with the key of its kind.
pub proof fn law_token_from_reading_expiry(username: Seq<char>, r: ClockReading, id: Seq<char>)
    requires
        !r.before_epoch,
        r.secs + REFRESH_TOKEN_DURATION <= u64::MAX,
    ensures
        token_from_reading(username, TokenType::AccessToken, r, id) == jwt_hs256(
            access_claims_text(json_quote(username), (r.secs + 600) as u64),
            key_bytes("super secret"@),
        ),
        token_from_reading(username, TokenType::RefreshToken, r, id) == jwt_hs256(
            refresh_claims_text(json_quote(username), (r.secs + 2592000) as u64, id),
            key_bytes("another secret"@),
        ),
{
}

/// An access token made at `now` expires ten minutes later, a refresh
/// token thirty days later carrying its id; each is signed with its own
/// key.
pub proof fn law_token_expiry(username: Seq<char>, now: u64, id: Seq<char>)
    requires
        now + REFRESH_TOKEN_DURATION <= u64::MAX,
    ensures
        token_at(username, TokenType::AccessToken, now, id) == jwt_hs256(
            access_claims_text(json_quote(username), (now + 600) as u64),
            key_bytes("super secret"@),
        ),
        token_at(username, TokenType::RefreshToken, now, id) == jwt_hs256(
            refresh_claims_text(json_quote(username), (now + 2592000) as u64, id),
            key_bytes("another secret"@),
        ),
{
}

/// The hexadecimal digits below sixteen are distinct.
proof fn lemma_hex_digit_injective(a: nat, b: nat)
    requires
        a < 16,
        b < 16,
        hex_digit(a) == hex_digit(b),
    ensures
        a == b,
{
    assert((hex_digit(a) as u32) == (if a < 10 { a + 48 } else { a + 87 }));
    assert((hex_digit(b) as u32) == (if b < 10 { b + 48 } else { b + 87 }));
}

/// Different bytes give different hexadecimal texts.
pub proof fn lemma_hex_text_injective(a: Seq<u8>, b: Seq<u8>)
    requires
        hex_text(a) == hex_text(b),
    ensures
        a == b,
    decreases a.len(),
{
    lemma_hex_text_len(a);
    lemma_hex_text_len(b);
    if a.len() > 0 {
        let ta = hex_text(a);
        let n = ta.len();
        assert(ta[n - 2] == hex_digit((a.last() / 16) as nat));
        assert(hex_text(b)[n - 2] == hex_digit((b.last() / 16) as nat));
        assert(ta[n - 1] == hex_digit((a.last() % 16) as nat));
        assert(hex_text(b)[n - 1] == hex_digit((b.last() % 16) as nat));
        lemma_hex_digit_injective((a.last() / 16) as nat, (b.last() / 16) as nat);
        lemma_hex_digit_injective((a.last() % 16) as nat, (b.last() % 16) as nat);
        assert(a.last() == b.last());
        assert(hex_text(a.drop_last()) =~= ta.take(n - 2));
        assert(hex_text(b.drop_last()) =~= hex_text(b).take(n - 2));
        lemma_hex_text_injective(a.drop_last(), b.drop_last());
        assert(a =~= a.drop_last().push(a.last()));
        assert(b =~= b.drop_last().push(b.last()));
    }
}

/// A hexadecimal text needs no escaping in JSON.
pub proof fn lemma_hex_text_plain(b: Seq<u8>)
    ensures
        json_plain(hex_text(b)),
    decreases b.len(),
{
    if b.len() > 0 {
        lemma_hex_text_plain(b.drop_last());
        let h = hex_text(b);
        let p = hex_text(b.drop_last());
        assert forall|i: int| 0 <= i < h.len() implies {
            let c = #[trigger] h[i];
            c != '"' && c != '\\' && (c as u32) >= 32
        } by {
            if i >= p.len() {
                let d: nat = if i == p.len() { (b.last() / 16) as nat } else { (b.last() % 16) as nat };
                assert(h[i] == hex_digit(d));
                assert((hex_digit(d) as u32) == (if d < 10 { d + 48 } else { d + 87 }));
            } else {
                assert(h[i] == p[i]);
            }
        }
    }
}

/// A hexadecimal text has two digits per byte.
pub proof fn lemma_hex_text_len(a: Seq<u8>)
    ensures
        hex_text(a).len() == 2 * a.len(),
    decreases a.len(),
{
    if a.len() > 0 {
        lemma_hex_text_len(a.drop_last());
    }
}

/// Refresh tokens made with different ids carry different claims: the
/// `iss` claim tells them apart.
pub proof fn law_refresh_ids_distinguish(sub: Seq<char>, exp: u64, id1: Seq<u8>, id2: Seq<u8>)
    requires
        id1 != id2,
        id1.len() == id2.len(),
    ensures
        refresh_claims_text(sub, exp, hex_text(id1)) != refresh_claims_text(sub, exp, hex_text(id2)),
{
    let h1 = hex_text(id1);
    let h2 = hex_text(id2);
    lemma_hex_text_len(id1);
    lemma_hex_text_len(id2);
    if h1 == h2 {
        lemma_hex_text_injective(id1, id2);
    }
    let p = "{\"sub\":"@ + sub + ",\"exp\":"@ + decimal(exp as nat) + ",\"iss\":\""@;
    let c1 = refresh_claims_text(sub, exp, h1);
    let c2 = refresh_claims_text(sub, exp, h2);
    assert(c1 =~= p + h1 + "\"}"@);
    assert(c2 =~= p + h2 + "\"}"@);
    if c1 == c2 {
        assert(c1.subrange(p.len() as int, (p.len() + h1.len()) as int) =~= h1);
        assert(c2.subrange(p.len() as int, (p.len() + h2.len()) as int) =~= h2);
    }
}

} // verus!
