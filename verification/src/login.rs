//! The `auth` module: users join with a mentoring key, authenticate, are
//! deleted and listed. Passwords are stored as Argon2 hashes in a store
//! keyed by user name. Each handler is a sequence of decisions: it names
//! the read or write of the store that it needs, and answers from what the
//! store gives back.

use vstd::prelude::*;

use crate::proto::{code_number, Code, Response};
use crate::security::random_bytes;
use crate::table::{str_eq, Table};
use crate::text::json_list_text;
use crate::utils::{into_internal_error, json_error, json_error_text};

verus! {

/// The key that a new user must present (until mentoring exists).
pub open spec fn mentoring_key() -> Seq<char> {
    "saitama"@
}

/// The answers of the module.
pub open spec fn good_credential() -> Seq<char> {
    "Good credentials"@
}

pub open spec fn user_created() -> Seq<char> {
    "User created"@
}

pub open spec fn user_deleted() -> Seq<char> {
    "User deleted"@
}

pub open spec fn invalid_credential() -> Seq<char> {
    "Invalid credentials"@
}

pub open spec fn already_exist() -> Seq<char> {
    "Username already exist"@
}

pub open spec fn mentoring_key_not_present() -> Seq<char> {
    "Mentoring key not present"@
}

pub open spec fn invalid_mentoring_key() -> Seq<char> {
    "Invalid mentoring key"@
}

/// The body of a request to the module.
pub struct User {
    pub username: String,
    pub password: String,
    pub mentoring: Option<String>,
}

/// What a handler asks for: answer now, or make the store durable first
/// and then answer (or answer with the failure of that).
pub enum Outcome {
    Respond(Response),
    FlushThen(Response),
}

/// A response given as code and body text.
pub open spec fn answers(r: Response, code: Code, body: Seq<char>) -> bool {
    &&& r.code_spec() == code_number(code)
    &&& r.body_spec() == body
}

/// What `argon2::hash_encoded` gives for a password and salt with
/// `Config::default()`: the encoded hash, or the text of its error.
pub uninterp spec fn argon2_hash(password: Seq<u8>, salt: Seq<u8>) -> Result<Seq<char>, Seq<char>>;

/// Whether Argon2 with `Config::default()` takes this password and salt:
/// a password of at most `0xFFFF_FFFF` bytes and a salt of eight to
/// `0xFFFF_FFFF` bytes.
pub open spec fn argon2_accepts(password: Seq<u8>, salt: Seq<u8>) -> bool {
    &&& password.len() <= 0xFFFF_FFFF
    &&& 8 <= salt.len() <= 0xFFFF_FFFF
}

/// What `argon2::verify_encoded` gives for an encoded hash and a password:
/// whether they match, or the text of its error.
pub uninterp spec fn argon2_verify(encoded: Seq<char>, password: Seq<u8>) -> Result<bool, Seq<char>>;

/// Hashes `password` with `salt`.
///
/// Calls `argon2::hash_encoded` with `argon2::Config::default()`; the
/// contract names the result (`argon2_hash`) as a function of the password
/// and salt alone. It also claims that `argon2::verify_encoded` accepts the
/// same password for the hash: `verify_encoded` decodes the variant,
/// version, costs, lanes, salt and hash length that `hash_encoded` wrote
/// (with no secret and no associated data, as `Config::default()` has) and
/// recomputes the hash from them. And it claims when hashing succeeds:
/// `Context::new` refuses only a configuration out of bounds (the default
/// one is within them), a password longer than `0xFFFF_FFFF` bytes, or a
/// salt shorter than eight or longer than `0xFFFF_FFFF` bytes.
#[verifier::external_body]
fn hash_password(password: &[u8], salt: &[u8]) -> (res: Result<String, String>)
    ensures
        match res {
            Ok(h) => argon2_hash(password@, salt@) == Ok::<Seq<char>, Seq<char>>(h@)
                && argon2_verify(h@, password@) == Ok::<bool, Seq<char>>(true),
            Err(e) => argon2_hash(password@, salt@) == Err::<Seq<char>, Seq<char>>(e@),
        },
        argon2_accepts(password@, salt@) ==> res is Ok,
{
    match argon2::hash_encoded(password, salt, &argon2::Config::default()) {
        Ok(h) => Ok(h),
        Err(e) => Err(e.to_string()),
    }
}

/// Checks `password` against an encoded hash.
///
/// Calls `argon2::verify_encoded`; the contract names the result
/// (`argon2_verify`) as a function of its arguments alone.
#[verifier::external_body]
fn verify_password(encoded: &str, password: &[u8]) -> (res: Result<bool, String>)
    ensures
        match res {
            Ok(b) => argon2_verify(encoded@, password@) == Ok::<bool, Seq<char>>(b),
            Err(e) => argon2_verify(encoded@, password@) == Err::<bool, Seq<char>>(e@),
        },
{
    match argon2::verify_encoded(encoded, password) {
        Ok(b) => Ok(b),
        Err(e) => Err(e.to_string()),
    }
}

/// The text of the error that `std::str::from_utf8` gives for `bytes`
/// (where they are not UTF-8): it names where the first bad sequence
/// starts and how long it is, both fixed by the bytes.
pub uninterp spec fn utf8_error_text(bytes: Seq<u8>) -> Seq<char>;

/// Reads bytes as UTF-8 text.
///
/// Calls `std::str::from_utf8`, which accepts exactly the valid UTF-8
/// byte sequences; the error is given as its text, named `utf8_error_text`
/// as a function of the bytes alone.
#[verifier::external_body]
fn utf8_text(bytes: &[u8]) -> (res: Result<String, String>)
    ensures
        match res {
            Ok(s) => vstd::utf8::valid_utf8(bytes@) && s@ == vstd::utf8::decode_utf8(bytes@),
            Err(e) => !vstd::utf8::valid_utf8(bytes@) && e@ == utf8_error_text(bytes@),
        },
{
    match std::str::from_utf8(bytes) {
        Ok(s) => Ok(s.to_string()),
        Err(e) => Err(e.to_string()),
    }
}

/// Writes a list of strings as JSON.
///
/// Calls `serde_json::to_string` on the `Vec<String>`: its serialiser
/// writes a sequence compactly as `[`, the items separated by `,`, and `]`,
/// and each string as `format_escaped_str` does (`json_list_text`); the
/// writer is a `Vec<u8>`, which never fails, so the call always succeeds.
/// The error, were there one, is given as its text.
#[verifier::external_body]
fn json_list(items: &Vec<String>) -> (res: Result<String, String>)
    ensures
        res is Ok,
        res->Ok_0@ == json_list_text(items@.map_values(|x: String| x@)),
{
    match serde_json::to_string(items) {
        Ok(s) => Ok(s),
        Err(e) => Err(e.to_string()),
    }
}

/// Whether two byte strings are equal.
fn bytes_eq(a: &[u8], b: &[u8]) -> (res: bool)
    ensures
        res == (a@ == b@),
{
    if a.len() != b.len() {
        return false;
    }
    for i in 0..a.len()
        invariant
            a@.len() == b@.len(),
            forall|j: int| 0 <= j < i ==> a@[j] == b@[j],
    {
        if a[i] != b[i] {
            return false;
        }
    }
    assert(a@ =~= b@);
    true
}

/// A "bad request" answer with the JSON error for `e`.
fn bad_request(e: &str) -> (res: Response)
    ensures
        answers(res, Code::BadRequest, json_error_text(e@)),
{
    Response::with_code(Code::BadRequest, json_error(e))
}

/// The bytes of the text `s`.
pub open spec fn text_bytes(s: Seq<char>) -> Seq<u8> {
    vstd::utf8::encode_utf8(s)
}

/// The key under which a user is stored: the bytes of the user name.
pub fn user_key(username: &str) -> (res: Vec<u8>)
    ensures
        res@ == text_bytes(username@),
{
    vstd::slice::slice_to_vec(username.as_bytes())
}

/// A read of the store that a handler asks for: the key to read, and the
/// password to check against what it holds.
pub struct Lookup {
    pub key: Vec<u8>,
    pub password: String,
}

/// What the store gave for a read, failures counted as nothing stored.
pub open spec fn stored_value(stored: Result<Option<Vec<u8>>, String>) -> Option<Seq<u8>> {
    match stored {
        Ok(Some(v)) => Some(v@),
        _ => None,
    }
}

/// The answer of `auth` when the store holds `stored` for the user.
pub open spec fn auth_answers(stored: Option<Seq<u8>>, password: Seq<char>, res: Response) -> bool {
    match stored {
        Some(h) => if !vstd::utf8::valid_utf8(h) {
            answers(res, Code::InternalServerError, json_error_text(utf8_error_text(h)))
        } else {
            match argon2_verify(vstd::utf8::decode_utf8(h), text_bytes(password)) {
                Err(e) => answers(res, Code::InternalServerError, json_error_text(e)),
                Ok(true) => answers(res, Code::OK, good_credential()),
                Ok(false) => answers(res, Code::Unauthorized, json_error_text(invalid_credential())),
            }
        },
        None => answers(res, Code::Unauthorized, json_error_text(invalid_credential())),
    }
}

/// The read that `auth` and `delete` ask for: the user's key and the
/// password given; or the "bad request" answer when the body could not be
/// read as a user.
pub open spec fn lookup_of(parsed: Result<User, String>, res: Result<Lookup, Response>) -> bool {
    match parsed {
        Err(e) => res matches Err(r) && answers(r, Code::BadRequest, json_error_text(e@)),
        Ok(u) => res matches Ok(l) && l.key@ == text_bytes(u.username@) && l.password@
            == u.password@,
    }
}

/// The first step of checking a user's credentials: the read of the
/// store that it needs. `parsed` is the request body read as a user, or
/// the message of why it could not be.
pub fn auth(parsed: Result<User, String>) -> (res: Result<Lookup, Response>)
    ensures
        lookup_of(parsed, res),
{
    match parsed {
        Ok(u) => Ok(Lookup { key: user_key(u.username.as_str()), password: u.password }),
        Err(e) => Err(bad_request(e.as_str())),
    }
}

/// The answer of `auth` once the stored hash is known: `stored` is what the
/// store gave for the user's key.
pub fn auth_with_stored(stored: Result<Option<Vec<u8>>, String>, password: &str) -> (res: Response)
    ensures
        auth_answers(stored_value(stored), password@, res),
{
    let hash = match stored {
        Ok(Some(h)) => h,
        _ => return Response::with_code(Code::Unauthorized, json_error("Invalid credentials")),
    };
    let encoded = match utf8_text(hash.as_slice()) {
        Ok(s) => s,
        Err(e) => {
            let r = into_internal_error(e.as_str());
            assert(answers(r, Code::InternalServerError, json_error_text(e@)));
            return r;
        },
    };
    match verify_password(encoded.as_str(), password.as_bytes()) {
        Err(e) => into_internal_error(e.as_str()),
        Ok(true) => Response::with_code(Code::OK, String::from_str("Good credentials")),
        Ok(false) => Response::with_code(Code::Unauthorized, json_error("Invalid credentials")),
    }
}

/// The answer of `join` once the store has taken the new hash: `previous`
/// is what the insertion gave back.
pub fn join_after_insert(previous: Result<Option<Vec<u8>>, String>) -> (res: Outcome)
    ensures
        match previous {
            Err(e) => res matches Outcome::Respond(r) && answers(
                r,
                Code::InternalServerError,
                json_error_text(e@),
            ),
            Ok(Some(_)) => res matches Outcome::Respond(r) && answers(
                r,
                Code::Conflict,
                json_error_text(already_exist()),
            ),
            Ok(None) => res matches Outcome::FlushThen(r) && answers(r, Code::OK, user_created()),
        },
{
    match previous {
        Err(e) => Outcome::Respond(into_internal_error(e.as_str())),
        Ok(Some(_)) => Outcome::Respond(
            Response::with_code(Code::Conflict, json_error("Username already exist")),
        ),
        Ok(None) => Outcome::FlushThen(Response::with_code(Code::OK, String::from_str("User created"))),
    }
}

/// Whether a join request presents the mentoring key: the answer that
/// refuses it, or `None` when it may go on.
pub open spec fn mentoring_refusal(mentoring: Option<Seq<char>>) -> Option<Seq<char>> {
    match mentoring {
        None => Some(mentoring_key_not_present()),
        Some(m) => if m != mentoring_key() {
            Some(invalid_mentoring_key())
        } else {
            None
        },
    }
}

/// An entry to write to the store.
pub struct Entry {
    pub key: Vec<u8>,
    pub value: Vec<u8>,
}

/// `value` is what joining stores for `password`: the bytes of an Argon2
/// hash of the password with a ten-byte salt, a hash that Argon2 accepts
/// the password for.
pub open spec fn joined_value(value: Seq<u8>, password: Seq<char>) -> bool {
    exists|salt: Seq<u8>, h: Seq<char>|
        #![trigger argon2_hash(text_bytes(password), salt), text_bytes(h)]
        {
            &&& salt.len() == 10
            &&& argon2_hash(text_bytes(password), salt) == Ok::<Seq<char>, Seq<char>>(h)
            &&& value == text_bytes(h)
            &&& argon2_verify(h, text_bytes(password)) == Ok::<bool, Seq<char>>(true)
        }
}

/// The entry that joining stores for `user` with `salt`: the user's key,
/// and the bytes of the Argon2 hash of the password; or the internal error
/// that hashing gave.
pub fn join_entry(user: &User, salt: &[u8]) -> (res: Result<Entry, Response>)
    ensures
        match argon2_hash(text_bytes(user.password@), salt@) {
            Ok(h) => res matches Ok(e) && e.key@ == text_bytes(user.username@) && e.value@
                == text_bytes(h) && argon2_verify(h, text_bytes(user.password@)) == Ok::<
                bool,
                Seq<char>,
            >(true),
            Err(e) => res matches Err(r) && answers(r, Code::InternalServerError, json_error_text(e)),
        },
        argon2_accepts(text_bytes(user.password@), salt@) ==> res is Ok,
{
    let hash = match hash_password(user.password.as_str().as_bytes(), salt) {
        Ok(h) => h,
        Err(e) => return Err(into_internal_error(e.as_str())),
    };
    let key = user_key(user.username.as_str());
    let value = vstd::slice::slice_to_vec(hash.as_str().as_bytes());
    Ok(Entry { key, value })
}

/// The refusal of a join request that lacks the right mentoring key.
pub fn check_mentoring(mentoring: &Option<String>) -> (res: Option<Response>)
    ensures
        match mentoring_refusal(
            match mentoring {
                Some(m) => Some(m@),
                None => None::<Seq<char>>,
            },
        ) {
            Some(msg) => res matches Some(r) && answers(r, Code::BadRequest, json_error_text(msg)),
            None => res is None,
        },
{
    match mentoring {
        Some(m) => if !str_eq(m.as_str(), "saitama") {
            Some(bad_request("Invalid mentoring key"))
        } else {
            None
        },
        None => Some(bad_request("Mentoring key not present")),
    }
}

/// What `join` gives for the request body read as `parsed`: the "bad
/// request" answer when the body could not be read or the mentoring key is
/// missing or wrong; otherwise the entry for the user (the user's key, and
/// a salted Argon2 hash that accepts the password), or, where Argon2
/// refused the password with the salt drawn, the internal error carrying
/// Argon2's own message.
pub open spec fn join_answers(parsed: Result<User, String>, res: Result<Entry, Response>) -> bool {
    match parsed {
        Err(e) => res matches Err(r) && answers(r, Code::BadRequest, json_error_text(e@)),
        Ok(u) => match mentoring_refusal(
            match u.mentoring {
                Some(m) => Some(m@),
                None => None::<Seq<char>>,
            },
        ) {
            Some(msg) => res matches Err(r) && answers(r, Code::BadRequest, json_error_text(msg)),
            None => joined_answer(u, res),
        },
    }
}

/// What `join` gives for a user who presented the mentoring key: the entry
/// under the user's key holding a hash that accepts the password, always
/// where the password is at most `0xFFFF_FFFF` bytes; otherwise only the
/// internal error that carries Argon2's refusal of the password with a
/// ten-byte salt.
pub open spec fn joined_answer(u: User, res: Result<Entry, Response>) -> bool {
    &&& text_bytes(u.password@).len() <= 0xFFFF_FFFF ==> res is Ok
    &&& match res {
        Ok(e) => e.key@ == text_bytes(u.username@) && joined_value(e.value@, u.password@),
        Err(r) => exists|salt: Seq<u8>, e: Seq<char>|
            #![trigger argon2_hash(text_bytes(u.password@), salt), json_error_text(e)]
            {
                &&& salt.len() == 10
                &&& argon2_hash(text_bytes(u.password@), salt) == Err::<Seq<char>, Seq<char>>(e)
                &&& answers(r, Code::InternalServerError, json_error_text(e))
            },
    }
}

/// The first step of registering a user: the entry to write to the store.
/// The mentoring key must be present and right; the value is a salted
/// Argon2 hash of the password, under the user's key. What the store gave
/// back is then answered by `join_after_insert`. A password that Argon2
/// takes (at most `0xFFFF_FFFF` bytes) always gives the entry.
pub fn join(parsed: Result<User, String>) -> (res: Result<Entry, Response>)
    ensures
        join_answers(parsed, res),
{
    let user = match parsed {
        Ok(u) => u,
        Err(e) => return Err(bad_request(e.as_str())),
    };
    match check_mentoring(&user.mentoring) {
        Some(r) => return Err(r),
        None => {},
    }
    let salt = match random_bytes(10) {
        Ok(s) => s,
        Err(e) => {
            let r = into_internal_error(e.as_str());
            assert(answers(r, Code::InternalServerError, json_error_text(e@)));
            return Err(r);
        },
    };
    let res = join_entry(&user, salt.as_slice());
    proof {
        match argon2_hash(text_bytes(user.password@), salt@) {
            Ok(h) => {
                let _ = text_bytes(h);
                assert(joined_value(res->Ok_0.value@, user.password@));
            },
            Err(e) => {
                assert(answers(res->Err_0, Code::InternalServerError, json_error_text(e)));
            },
        }
    }
    res
}

/// A user who presents the mentoring key is registered: whatever the user
/// name and password, `join` gives the entry under the user's key whose
/// value is a salted Argon2 hash that accepts the password, and a password
/// of at most `0xFFFF_FFFF` bytes is never refused. The one refusal left
/// is an internal error carrying Argon2's own message for the password.
pub proof fn law_join_registers_mentored_user(u: User, res: Result<Entry, Response>)
    requires
        u.mentoring matches Some(m) && m@ == mentoring_key(),
        join_answers(Ok(u), res),
    ensures
        text_bytes(u.password@).len() <= 0xFFFF_FFFF ==> res is Ok,
        res matches Ok(e) ==> e.key@ == text_bytes(u.username@) && joined_value(e.value@, u.password@),
        res matches Err(r) ==> exists|salt: Seq<u8>, e: Seq<char>|
            #![trigger argon2_hash(text_bytes(u.password@), salt), json_error_text(e)]
            {
                &&& salt.len() == 10
                &&& argon2_hash(text_bytes(u.password@), salt) == Err::<Seq<char>, Seq<char>>(e)
                &&& answers(r, Code::InternalServerError, json_error_text(e))
            },
{
}

/// The first step of deleting a user: the read of the store that it needs.
pub fn delete(parsed: Result<User, String>) -> (res: Result<Lookup, Response>)
    ensures
        lookup_of(parsed, res),
{
    match parsed {
        Ok(u) => Ok(Lookup { key: user_key(u.username.as_str()), password: u.password }),
        Err(e) => Err(bad_request(e.as_str())),
    }
}

/// What `delete` does once the stored value is known: answer now, or
/// remove the key and then answer.
pub enum DeleteStep {
    Respond(Response),
    Remove(Vec<u8>),
}

/// The second step of deleting a user: the stored value must equal the
/// password's bytes, and then the user's key is removed.
pub fn delete_with_stored(lookup: Lookup, stored: Result<Option<Vec<u8>>, String>) -> (res: DeleteStep)
    ensures
        match stored_value(stored) {
            Some(v) => if v != text_bytes(lookup.password@) {
                res matches DeleteStep::Respond(r) && answers(
                    r,
                    Code::Unauthorized,
                    invalid_credential(),
                )
            } else {
                res matches DeleteStep::Remove(k) && k@ == lookup.key@
            },
            None => res matches DeleteStep::Respond(r) && answers(
                r,
                Code::Unauthorized,
                invalid_credential(),
            ),
        },
{
    let value = match stored {
        Ok(Some(v)) => v,
        _ => return DeleteStep::Respond(
            Response::with_code(Code::Unauthorized, String::from_str("Invalid credentials")),
        ),
    };
    if !bytes_eq(value.as_slice(), lookup.password.as_str().as_bytes()) {
        return DeleteStep::Respond(
            Response::with_code(Code::Unauthorized, String::from_str("Invalid credentials")),
        );
    }
    DeleteStep::Remove(lookup.key)
}

/// The answer of `delete` once the store removed the key: `removed` is
/// what the removal gave back.
pub fn delete_after_remove(removed: Result<Option<Vec<u8>>, String>) -> (res: Outcome)
    ensures
        match removed {
            Err(e) => res matches Outcome::Respond(r) && answers(
                r,
                Code::InternalServerError,
                json_error_text(e@),
            ),
            Ok(_) => res matches Outcome::FlushThen(r) && answers(r, Code::OK, user_deleted()),
        },
{
    match removed {
        Err(e) => Outcome::Respond(into_internal_error(e.as_str())),
        Ok(_) => Outcome::FlushThen(Response::with_code(Code::OK, String::from_str("User deleted"))),
    }
}

/// The user names shown for the keys read from the store: failed reads
/// are skipped, keys that are not UTF-8 show as empty names.
pub open spec fn listed_names(keys: Seq<Result<Vec<u8>, String>>) -> Seq<Seq<char>>
    decreases keys.len(),
{
    if keys.len() == 0 {
        seq![]
    } else {
        let rest = listed_names(keys.drop_last());
        match keys.last() {
            Err(_) => rest,
            Ok(k) => rest.push(
                if vstd::utf8::valid_utf8(k@) {
                    vstd::utf8::decode_utf8(k@)
                } else {
                    seq![]
                },
            ),
        }
    }
}

/// The answer of `list` for the keys read from the store.
pub fn list_from_keys(keys: Vec<Result<Vec<u8>, String>>) -> (res: Response)
    ensures
        answers(res, Code::OK, json_list_text(listed_names(keys@))),
{
    let mut names: Vec<String> = Vec::new();
    let n = keys.len();
    for i in 0..n
        invariant
            n == keys@.len(),
            names@.map_values(|x: String| x@) == listed_names(keys@.take(i as int)),
    {
        let ghost before = names@;
        assert(keys@.take(i + 1).drop_last() =~= keys@.take(i as int));
        match &keys[i] {
            Ok(k) => {
                let name = match utf8_text(k.as_slice()) {
                    Ok(s) => s,
                    Err(_) => String::new(),
                };
                names.push(name);
                assert(names@.map_values(|x: String| x@) =~= before.map_values(|x: String| x@).push(
                    name@,
                ));
            },
            Err(_) => {},
        }
    }
    assert(keys@.take(n as int) =~= keys@);
    match json_list(&names) {
        Ok(s) => Response::with_code(Code::OK, s),
        Err(e) => into_internal_error(e.as_str()),
    }
}

/// The answer once the store was made durable: the planned answer, or the
/// internal error that the flush gave.
pub fn after_flush(flushed: Result<(), String>, then: Response) -> (res: Response)
    ensures
        match flushed {
            Ok(()) => res == then,
            Err(e) => answers(res, Code::InternalServerError, json_error_text(e@)),
        },
{
    match flushed {
        Ok(()) => then,
        Err(e) => into_internal_error(e.as_str()),
    }
}

/// The methods of the module, by name.
pub fn login_methods<F>(join: F, list: F, auth: F, delete: F) -> (res: Table<F>)
    ensures
        res@ == map!["join"@ => join, "list"@ => list, "auth"@ => auth, "delete"@ => delete],
{
    let mut t: Table<F> = Table::new();
    t.insert(String::from_str("join"), join);
    t.insert(String::from_str("list"), list);
    t.insert(String::from_str("auth"), auth);
    t.insert(String::from_str("delete"), delete);
    assert(t@ =~= map!["join"@ => join, "list"@ => list, "auth"@ => auth, "delete"@ => delete]);
    t
}

/// A user who joined can authenticate with the same password: when the
/// store gives back, under the user's key, the value that `join` wrote,
/// `auth` answers "Good credentials".
pub proof fn law_join_then_auth(password: Seq<char>, value: Seq<u8>, res: Response)
    requires
        joined_value(value, password),
        auth_answers(Some(value), password, res),
    ensures
        answers(res, Code::OK, good_credential()),
{
    let (salt, h) = choose|salt: Seq<u8>, h: Seq<char>|
        #![trigger argon2_hash(text_bytes(password), salt), text_bytes(h)]
        {
            &&& salt.len() == 10
            &&& argon2_hash(text_bytes(password), salt) == Ok::<Seq<char>, Seq<char>>(h)
            &&& value == text_bytes(h)
            &&& argon2_verify(h, text_bytes(password)) == Ok::<bool, Seq<char>>(true)
        };
    vstd::utf8::encode_utf8_valid_utf8(h);
    vstd::utf8::encode_utf8_decode_utf8(h);
}

} // verus!
