use gateway::security::{
    expiry_from_reading, ClockReading,
    bearer_token, create_token, create_token_at, expiry_after, username_from_decoded, TokenType,
    ACCESS_TOKEN_DURATION, REFRESH_TOKEN_DURATION,
};

fn now() -> u64 {
    std::time::SystemTime::now().duration_since(std::time::UNIX_EPOCH).unwrap().as_secs()
}

fn claims(token: &str, secret: &str) -> Result<serde_json::Value, jsonwebtoken::errors::Error> {
    jsonwebtoken::decode::<serde_json::Value>(
        token,
        &jsonwebtoken::DecodingKey::from_secret(secret.as_bytes()),
        &jsonwebtoken::Validation::default(),
    )
    .map(|d| d.claims)
}

#[test]
fn durations() {
    assert_eq!(ACCESS_TOKEN_DURATION, 600);
    assert_eq!(REFRESH_TOKEN_DURATION, 2592000);
    assert_eq!(expiry_after(10, 600), Some(610));
    assert_eq!(expiry_after(u64::MAX - 1, 600), None);
}

#[test]
fn access_token_carries_user_and_expiry() {
    let t = now();
    let token = create_token_at("toto", TokenType::AccessToken, t, "").unwrap();
    let c = claims(&token, "super secret").unwrap();
    assert_eq!(c["sub"], "toto");
    assert_eq!(c["exp"], t + 600);
    assert!(c.get("iss").is_none());
    let header = jsonwebtoken::decode_header(&token).unwrap();
    assert_eq!(header.alg, jsonwebtoken::Algorithm::HS256);
    assert!(claims(&token, "another secret").is_err());
}

#[test]
fn refresh_token_carries_id() {
    let t = now();
    let token = create_token_at("to\"to\n", TokenType::RefreshToken, t, "0a1b").unwrap();
    let c = claims(&token, "another secret").unwrap();
    assert_eq!(c["sub"], "to\"to\n");
    assert_eq!(c["exp"], t + 2592000);
    assert_eq!(c["iss"], "0a1b");
    assert!(claims(&token, "super secret").is_err());
}

#[test]
fn token_is_deterministic_in_time() {
    let a = create_token_at("x", TokenType::AccessToken, 1000, "").unwrap();
    let b = create_token_at("x", TokenType::AccessToken, 1000, "").unwrap();
    let c = create_token_at("x", TokenType::AccessToken, 1001, "").unwrap();
    assert_eq!(a, b);
    assert_ne!(a, c);
    assert_eq!(create_token_at("x", TokenType::AccessToken, u64::MAX - 10, ""), None);
}

#[test]
fn token_from_the_clock() {
    let before = now();
    let token = create_token("toto".to_string(), TokenType::AccessToken).unwrap();
    let c = claims(&token, "super secret").unwrap();
    let exp = c["exp"].as_u64().unwrap();
    assert!(exp >= before + 600 && exp <= now() + 600);
}

#[test]
fn bearer_token_reading() {
    assert_eq!(bearer_token(None), Ok(None));
    assert_eq!(bearer_token(Some(b"bearer abc")), Ok(Some("abc".to_string())));
    assert_eq!(bearer_token(Some(b"Bearer x")), Ok(Some("x".to_string())));
    assert_eq!(bearer_token(Some(b"xxxxxxxTOKEN")), Ok(Some("TOKEN".to_string())));
    assert_eq!(bearer_token(Some(b"bearer ")), Err("Invalid Authorization header".to_string()));
    assert_eq!(
        bearer_token(Some("bearer é".as_bytes())),
        Err("Authorization header: failed to convert header to a str".to_string())
    );
}

#[test]
fn decoded_username() {
    assert_eq!(username_from_decoded(Ok("bob".to_string())), Ok(Some("bob".to_string())));
    assert_eq!(
        username_from_decoded(Err("ExpiredSignature".to_string())),
        Err("Invalid JWT: ExpiredSignature".to_string())
    );
}

#[test]
fn token_with_given_expiry() {
    let t = now() + 100;
    let token = gateway::security::create_token_expiring("ann", TokenType::AccessToken, t, "").unwrap();
    let c = claims(&token, "super secret").unwrap();
    assert_eq!(c["exp"], t);
    assert_eq!(token, create_token_at("ann", TokenType::AccessToken, t - 600, "").unwrap());
    assert_eq!(gateway::security::token_duration(TokenType::RefreshToken), 2592000);
}

#[test]
fn refresh_tokens_get_their_own_id() {
    let t1 = create_token("u".to_string(), TokenType::RefreshToken).unwrap();
    let t2 = create_token("u".to_string(), TokenType::RefreshToken).unwrap();
    let i1 = claims(&t1, "another secret").unwrap()["iss"].as_str().unwrap().to_string();
    let i2 = claims(&t2, "another secret").unwrap()["iss"].as_str().unwrap().to_string();
    assert_eq!(i1.len(), 32);
    assert!(i1.chars().all(|c| c.is_ascii_hexdigit() && !c.is_ascii_uppercase()));
    assert_ne!(i1, i2);
    let a = create_token("u".to_string(), TokenType::AccessToken).unwrap();
    assert!(claims(&a, "super secret").unwrap().get("iss").is_none());
}

#[test]
fn hex_ids() {
    assert_eq!(gateway::security::hex_of(&[0x00, 0x0f, 0xa5, 0xff]), "000fa5ff");
    assert_eq!(gateway::security::hex_of(&[]), "");
}

#[test]
fn expiry_from_clock_readings() {
    let after = ClockReading { before_epoch: false, secs: 100, nanos: 5 };
    assert_eq!(expiry_from_reading(&after, 600), Some(700));
    let before = ClockReading { before_epoch: true, secs: 100, nanos: 500_000_000 };
    assert_eq!(expiry_from_reading(&before, 600), Some(499));
    let before = ClockReading { before_epoch: true, secs: 100, nanos: 0 };
    assert_eq!(expiry_from_reading(&before, 100), Some(0));
    let before = ClockReading { before_epoch: true, secs: 100, nanos: 1 };
    assert_eq!(expiry_from_reading(&before, 100), None);
    assert_eq!(expiry_from_reading(&ClockReading { before_epoch: false, secs: u64::MAX, nanos: 0 }, 1), None);
    assert!(gateway::security::get_now_plus(600).unwrap() >= 600);
}

#[test]
fn token_from_a_clock_reading() {
    let t = now();
    let r = ClockReading { before_epoch: false, secs: t, nanos: 7 };
    let a = gateway::security::create_token_from_reading("toto", TokenType::AccessToken, &r, "").unwrap();
    assert_eq!(claims(&a, "super secret").unwrap()["exp"], t + 600);
    let f = gateway::security::create_token_from_reading("toto", TokenType::RefreshToken, &r, "00ff").unwrap();
    let c = claims(&f, "another secret").unwrap();
    assert_eq!(c["exp"], t + 2592000);
    assert_eq!(c["iss"], "00ff");
    let early = ClockReading { before_epoch: true, secs: 1000, nanos: 0 };
    assert_eq!(gateway::security::create_token_from_reading("x", TokenType::AccessToken, &early, ""), None);
    let late = ClockReading { before_epoch: false, secs: u64::MAX - 5, nanos: 0 };
    assert_eq!(gateway::security::create_token_from_reading("x", TokenType::RefreshToken, &late, ""), None);
}

#[test]
fn username_of_requests() {
    assert_eq!(gateway::security::get_username(None), Ok(None));
    assert_eq!(
        gateway::security::get_username(Some(b"bearer ")),
        Err("Invalid Authorization header".to_string())
    );
    assert_eq!(
        gateway::security::get_username(Some("bearer é".as_bytes())),
        Err("Authorization header: failed to convert header to a str".to_string())
    );
    let access = create_token("toto".to_string(), TokenType::AccessToken).unwrap();
    let header = format!("bearer {}", access);
    assert_eq!(gateway::security::get_username(Some(header.as_bytes())), Ok(Some("toto".to_string())));
    let refresh = create_token("toto".to_string(), TokenType::RefreshToken).unwrap();
    let header = format!("bearer {}", refresh);
    let refused = gateway::security::get_username(Some(header.as_bytes())).unwrap_err();
    assert!(refused.starts_with("Invalid JWT: "));
    let garbage = gateway::security::get_username(Some(b"bearer not-a-token")).unwrap_err();
    assert!(garbage.starts_with("Invalid JWT: "));
}

#[test]
fn expired_token_is_refused() {
    let old = create_token_at("toto", TokenType::AccessToken, 1000, "").unwrap();
    let header = format!("bearer {}", old);
    let refused = gateway::security::get_username(Some(header.as_bytes())).unwrap_err();
    assert!(refused.starts_with("Invalid JWT: "));
}

#[test]
fn user_names_are_escaped_in_claims() {
    let t = now();
    let name = "a\\b\u{1}\t\u{8}\u{c}\r/é";
    let token = create_token_at(name, TokenType::AccessToken, t, "").unwrap();
    let payload = token.split('.').nth(1).unwrap().to_string();
    assert_eq!(claims(&token, "super secret").unwrap()["sub"], name);
    let header = format!("bearer {}", token);
    assert_eq!(gateway::security::get_username(Some(header.as_bytes())), Ok(Some(name.to_string())));
    assert!(!payload.is_empty());
}

#[test]
fn claims_give_the_user() {
    assert_eq!(gateway::security::user_of_claims(Some("bob".to_string()), Some(12)), Ok("bob".to_string()));
    assert_eq!(
        gateway::security::user_of_claims(None, Some(12)),
        Err("JSON error: invalid or missing field `sub`".to_string())
    );
    assert_eq!(
        gateway::security::user_of_claims(Some("bob".to_string()), None),
        Err("JSON error: invalid or missing field `exp`".to_string())
    );
}

fn signed(claims_json: &str, secret: &str) -> String {
    let claims: serde_json::Value = serde_json::from_str(claims_json).unwrap();
    jsonwebtoken::encode(
        &jsonwebtoken::Header::default(),
        &claims,
        &jsonwebtoken::EncodingKey::from_secret(secret.as_bytes()),
    )
    .unwrap()
}

#[test]
fn claims_of_the_wrong_shape_are_refused() {
    let exp = now() + 1000;
    let float_exp = signed(&format!("{{\"sub\":\"bob\",\"exp\":{}.5}}", exp), "super secret");
    let header = format!("bearer {}", float_exp);
    assert_eq!(
        gateway::security::get_username(Some(header.as_bytes())),
        Err("Invalid JWT: JSON error: invalid or missing field `exp`".to_string())
    );
    let number_sub = signed(&format!("{{\"sub\":7,\"exp\":{}}}", exp), "super secret");
    let header = format!("bearer {}", number_sub);
    assert_eq!(
        gateway::security::get_username(Some(header.as_bytes())),
        Err("Invalid JWT: JSON error: invalid or missing field `sub`".to_string())
    );
    let good = signed(&format!("{{\"sub\":\"bob\",\"exp\":{}}}", exp), "super secret");
    let header = format!("bearer {}", good);
    assert_eq!(gateway::security::get_username(Some(header.as_bytes())), Ok(Some("bob".to_string())));
}

#[test]
fn tokens_read_back_as_their_user() {
    for name in ["toto", "", "a\"b", "c\\d\u{1f}\n", "é漢"] {
        let access = create_token(name.to_string(), TokenType::AccessToken).unwrap();
        let header = format!("bearer {}", access);
        assert_eq!(gateway::security::get_username(Some(header.as_bytes())), Ok(Some(name.to_string())));
        let refresh = create_token(name.to_string(), TokenType::RefreshToken).unwrap();
        assert_eq!(claims(&refresh, "another secret").unwrap()["sub"], name);
    }
}
