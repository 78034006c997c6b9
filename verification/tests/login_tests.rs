use gateway::login::{
    after_flush, auth, auth_with_stored, delete, delete_after_remove, delete_with_stored, join,
    join_after_insert, list_from_keys, login_methods, DeleteStep, Lookup, Outcome, User,
};
use gateway::proto::{Code, Response};

fn tree() -> sled::Tree {
    let db = sled::Config::new().temporary(true).open().unwrap();
    db.open_tree("users").unwrap()
}

fn user(name: &str, password: &str, mentoring: Option<&str>) -> Result<User, String> {
    Ok(User {
        username: name.to_string(),
        password: password.to_string(),
        mentoring: mentoring.map(|m| m.to_string()),
    })
}

fn bytes(r: sled::Result<Option<sled::IVec>>) -> Result<Option<Vec<u8>>, String> {
    r.map(|v| v.map(|v| v.to_vec())).map_err(|e| e.to_string())
}

fn respond(o: Outcome) -> Response {
    match o {
        Outcome::Respond(r) => r,
        Outcome::FlushThen(_) => panic!("expected an answer without flush"),
    }
}

fn flushed(o: Outcome) -> Response {
    match o {
        Outcome::FlushThen(r) => r,
        Outcome::Respond(r) => panic!("expected a flush, got {} {}", r.code(), r.body()),
    }
}

/// The store work around `join`, as the program does it.
fn run_join(db: &sled::Tree, parsed: Result<User, String>) -> Outcome {
    match join(parsed) {
        Err(r) => Outcome::Respond(r),
        Ok(entry) => join_after_insert(bytes(db.insert(entry.key, entry.value))),
    }
}

fn run_auth(db: &sled::Tree, parsed: Result<User, String>) -> Response {
    match auth(parsed) {
        Err(r) => r,
        Ok(l) => auth_with_stored(bytes(db.get(&l.key)), &l.password),
    }
}

fn run_delete(db: &sled::Tree, parsed: Result<User, String>) -> Outcome {
    match delete(parsed) {
        Err(r) => Outcome::Respond(r),
        Ok(l) => {
            let stored = bytes(db.get(&l.key));
            match delete_with_stored(l, stored) {
                DeleteStep::Respond(r) => Outcome::Respond(r),
                DeleteStep::Remove(k) => delete_after_remove(bytes(db.remove(k))),
            }
        }
    }
}

fn run_list(db: &sled::Tree) -> Response {
    let keys = db.iter().keys().map(|k| k.map(|k| k.to_vec()).map_err(|e| e.to_string())).collect();
    list_from_keys(keys)
}

#[test]
fn join_needs_mentoring_key() {
    let db = tree();
    let r = respond(run_join(&db, user("John", "smith", None)));
    assert_eq!((r.code(), r.body().as_str()), (400, "{\"error\":\"Mentoring key not present\"}"));
    let r = respond(run_join(&db, user("John", "smith", Some("goku"))));
    assert_eq!((r.code(), r.body().as_str()), (400, "{\"error\":\"Invalid mentoring key\"}"));
    let r = respond(run_join(&db, Err("No body in the request".to_string())));
    assert_eq!((r.code(), r.body().as_str()), (400, "{\"error\":\"No body in the request\"}"));
    assert_eq!(run_list(&db).body(), "[]");
}

#[test]
fn join_then_auth() {
    let db = tree();
    let r = flushed(run_join(&db, user("John", "smith", Some("saitama"))));
    assert_eq!((r.code(), r.body().as_str()), (200, "User created"));
    let r = run_auth(&db, user("John", "smith", None));
    assert_eq!((r.code(), r.body().as_str()), (200, "Good credentials"));
    let r = run_auth(&db, user("John", "Wrongpassword", None));
    assert_eq!((r.code(), r.body().as_str()), (401, "{\"error\":\"Invalid credentials\"}"));
    let r = run_auth(&db, user("Jane", "smith", None));
    assert_eq!((r.code(), r.body().as_str()), (401, "{\"error\":\"Invalid credentials\"}"));
    let r = respond(run_join(&db, user("John", "smith", Some("saitama"))));
    assert_eq!((r.code(), r.body().as_str()), (409, "{\"error\":\"Username already exist\"}"));
    let r = run_auth(&db, Err("Invalid body: x".to_string()));
    assert_eq!((r.code(), r.body().as_str()), (400, "{\"error\":\"Invalid body: x\"}"));
}

#[test]
fn list_shows_names() {
    let db = tree();
    flushed(run_join(&db, user("bob", "pw", Some("saitama"))));
    flushed(run_join(&db, user("alice", "pw", Some("saitama"))));
    let r = run_list(&db);
    assert_eq!((r.code(), r.body().as_str()), (200, "[\"alice\",\"bob\"]"));
}

#[test]
fn list_from_read_keys() {
    let keys = vec![Ok(b"a".to_vec()), Err("io".to_string()), Ok(vec![0xff]), Ok("é".as_bytes().to_vec())];
    let r = list_from_keys(keys);
    assert_eq!((r.code(), r.body().as_str()), (200, "[\"a\",\"\",\"é\"]"));
}

#[test]
fn delete_compares_stored_value() {
    let db = tree();
    db.insert("plain", "secret").unwrap();
    let r = respond(run_delete(&db, user("plain", "wrong", None)));
    assert_eq!((r.code(), r.body().as_str()), (401, "Invalid credentials"));
    let r = respond(run_delete(&db, user("nobody", "x", None)));
    assert_eq!((r.code(), r.body().as_str()), (401, "Invalid credentials"));
    let r = flushed(run_delete(&db, user("plain", "secret", None)));
    assert_eq!((r.code(), r.body().as_str()), (200, "User deleted"));
    assert!(db.get("plain").unwrap().is_none());
    let r = respond(run_delete(&db, Err("No body in the request".to_string())));
    assert_eq!(r.code(), 400);
}

#[test]
fn stored_value_decisions() {
    let r = auth_with_stored(Ok(None), "x");
    assert_eq!((r.code(), r.body().as_str()), (401, "{\"error\":\"Invalid credentials\"}"));
    let r = auth_with_stored(Err("io".to_string()), "x");
    assert_eq!(r.code(), 401);
    let r = auth_with_stored(Ok(Some(vec![0xff, 0xfe])), "x");
    assert_eq!(r.code(), 500);
    let r = auth_with_stored(Ok(Some(b"not a hash".to_vec())), "x");
    assert_eq!(r.code(), 500);
    assert!(r.body().starts_with("{\"error\":\""));
    let r = respond(join_after_insert(Err("disk full".to_string())));
    assert_eq!((r.code(), r.body().as_str()), (500, "{\"error\":\"disk full\"}"));
    let r = respond(join_after_insert(Ok(Some(vec![1]))));
    assert_eq!(r.code(), 409);
    let r = flushed(join_after_insert(Ok(None)));
    assert_eq!(r.code(), 200);
}

#[test]
fn flush_failure_is_internal_error() {
    let r = after_flush(Err("fsync".to_string()), Response::with_code(Code::OK, "User created".to_string()));
    assert_eq!((r.code(), r.body().as_str()), (500, "{\"error\":\"fsync\"}"));
    let r = after_flush(Ok(()), Response::with_code(Code::OK, "User created".to_string()));
    assert_eq!((r.code(), r.body().as_str()), (200, "User created"));
}

#[test]
fn login_method_names() {
    let t = login_methods(1, 2, 3, 4);
    assert_eq!(t.get("join"), Some(&1));
    assert_eq!(t.get("list"), Some(&2));
    assert_eq!(t.get("auth"), Some(&3));
    assert_eq!(t.get("delete"), Some(&4));
    assert_eq!(t.len(), 4);
}

#[test]
fn join_entry_hashes_password() {
    let u = user("John", "smith", Some("saitama")).unwrap();
    let entry = gateway::login::join_entry(&u, b"0123456789").ok().unwrap();
    assert_eq!(entry.key, b"John".to_vec());
    let encoded = String::from_utf8(entry.value).unwrap();
    assert!(encoded.starts_with("$argon2id$"));
    assert_eq!(argon2::verify_encoded(&encoded, b"smith").unwrap(), true);
    assert_eq!(argon2::verify_encoded(&encoded, b"smitH").unwrap(), false);
    let r = gateway::login::join_entry(&u, b"short").err().unwrap();
    assert_eq!(r.code(), 500);
    assert!(r.body().starts_with("{\"error\":\""));
}

#[test]
fn mentoring_checks() {
    assert!(gateway::login::check_mentoring(&Some("saitama".to_string())).is_none());
    let r = gateway::login::check_mentoring(&Some("Saitama".to_string())).unwrap();
    assert_eq!((r.code(), r.body().as_str()), (400, "{\"error\":\"Invalid mentoring key\"}"));
    let r = gateway::login::check_mentoring(&None).unwrap();
    assert_eq!((r.code(), r.body().as_str()), (400, "{\"error\":\"Mentoring key not present\"}"));
}

#[test]
fn steps_name_the_user_key() {
    let l = auth(user("Zoé", "pw", None)).ok().unwrap();
    assert_eq!(l.key, "Zoé".as_bytes().to_vec());
    assert_eq!(l.password, "pw");
    let l = delete(user("bob", "x", None)).ok().unwrap();
    assert_eq!(l.key, b"bob".to_vec());
    let e = join(user("bob", "x", Some("saitama"))).ok().unwrap();
    assert_eq!(e.key, b"bob".to_vec());
    let hash = String::from_utf8(e.value).unwrap();
    assert!(argon2::verify_encoded(&hash, b"x").unwrap());
    let e2 = join(user("bob", "x", Some("saitama"))).ok().unwrap();
    assert_ne!(hash.as_bytes(), &e2.value[..]);
    assert_eq!(gateway::login::user_key("é"), vec![0xc3, 0xa9]);
}

#[test]
fn delete_steps() {
    let l = Lookup { key: b"k".to_vec(), password: "pw".to_string() };
    assert!(matches!(delete_with_stored(l, Ok(Some(b"pw".to_vec()))), DeleteStep::Remove(k) if k == b"k".to_vec()));
    let l = Lookup { key: b"k".to_vec(), password: "pw".to_string() };
    match delete_with_stored(l, Ok(Some(b"other".to_vec()))) {
        DeleteStep::Respond(r) => assert_eq!((r.code(), r.body().as_str()), (401, "Invalid credentials")),
        DeleteStep::Remove(_) => panic!("removed on a wrong password"),
    }
    let l = Lookup { key: b"k".to_vec(), password: "pw".to_string() };
    assert!(matches!(delete_with_stored(l, Err("io".to_string())), DeleteStep::Respond(_)));
    let r = respond(delete_after_remove(Err("io".to_string())));
    assert_eq!((r.code(), r.body().as_str()), (500, "{\"error\":\"io\"}"));
    let r = flushed(delete_after_remove(Ok(None)));
    assert_eq!((r.code(), r.body().as_str()), (200, "User deleted"));
}

#[test]
fn list_escapes_names() {
    let keys = vec![Ok("a\"b".as_bytes().to_vec()), Ok("c\\d\n".as_bytes().to_vec()), Ok(vec![0x1f])];
    let r = list_from_keys(keys);
    assert_eq!((r.code(), r.body().as_str()), (200, "[\"a\\\"b\",\"c\\\\d\\n\",\"\\u001f\"]"));
    let r = list_from_keys(vec![]);
    assert_eq!((r.code(), r.body().as_str()), (200, "[]"));
}

#[test]
fn stored_hash_not_utf8_is_json_error() {
    let r = auth_with_stored(Ok(Some(vec![0xff, 0xfe])), "x");
    assert_eq!(r.code(), 500);
    assert!(r.body().starts_with("{\"error\":\"") && r.body().ends_with("\"}"));
    assert_eq!(r.body(), "{\"error\":\"invalid utf-8 sequence of 1 bytes from index 0\"}");
}
