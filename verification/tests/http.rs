use jsonwebtoken::{Algorithm, EncodingKey, Header};
use qmp_mcp::config::{load_config, AuthMode, EnvMap};
use qmp_mcp::http::{
    api_key_ok, bearer_token, jwt_ok, jwt_verdict, origin_ok, Admission, GuardState, RequestHeaders,
};

const JWT_SECRET: &[u8] = b"test-secret-key";

fn headers(pairs: &[(&str, &str)]) -> RequestHeaders {
    RequestHeaders {
        pairs: pairs
            .iter()
            .map(|(name, value)| (name.to_string(), Some(value.to_string())))
            .collect(),
    }
}

fn bearer(token: &str) -> RequestHeaders {
    let value = format!("Bearer {token}");
    headers(&[("Authorization", value.as_str())])
}

fn now_secs() -> u64 {
    std::time::SystemTime::now()
        .duration_since(std::time::UNIX_EPOCH)
        .unwrap()
        .as_secs()
}

/// The claims of a token for `agent`, with an expiry where one is given.
fn claims(exp: Option<u64>) -> serde_json::Value {
    let mut map = serde_json::Map::new();
    map.insert("sub".to_string(), serde_json::Value::from("agent"));
    if let Some(exp) = exp {
        map.insert("exp".to_string(), serde_json::Value::from(exp));
    }
    serde_json::Value::Object(map)
}

fn mint(secret: &[u8], alg: Algorithm, claims: &serde_json::Value) -> String {
    jsonwebtoken::encode(&Header::new(alg), claims, &EncodingKey::from_secret(secret)).unwrap()
}

#[test]
fn api_key_allows_a_configured_key() {
    let keys = vec!["k1".to_string(), "k2".to_string()];
    assert!(api_key_ok(&headers(&[("X-API-Key", "k1")]), &keys));
    assert!(api_key_ok(&headers(&[("X-API-Key", "k2")]), &keys));
    assert!(api_key_ok(&headers(&[("x-api-key", "k1")]), &keys));
}

#[test]
fn api_key_denies_missing_or_wrong_key() {
    let keys = vec!["k1".to_string()];
    assert!(!api_key_ok(&headers(&[]), &keys));
    assert!(!api_key_ok(&headers(&[("X-API-Key", "nope")]), &keys));
    assert!(!api_key_ok(&headers(&[("X-API-Key", "")]), &keys));
    assert!(!api_key_ok(&headers(&[("Authorization", "k1")]), &keys));
}

#[test]
fn api_key_denies_everything_when_no_keys_configured() {
    assert!(!api_key_ok(&headers(&[("X-API-Key", "k1")]), &vec![]));
}

#[test]
fn jwt_allows_a_valid_hs256_token() {
    let token = mint(
        JWT_SECRET,
        Algorithm::HS256,
        &claims(Some(now_secs() + 3600)),
    );
    assert!(jwt_ok(&bearer(&token), JWT_SECRET));
}

#[test]
fn jwt_allows_a_valid_token_without_exp() {
    let token = mint(JWT_SECRET, Algorithm::HS256, &claims(None));
    assert!(jwt_ok(&bearer(&token), JWT_SECRET));
}

#[test]
fn jwt_denies_missing_or_malformed_authorization() {
    let token = mint(JWT_SECRET, Algorithm::HS256, &claims(None));
    assert!(!jwt_ok(&headers(&[]), JWT_SECRET));
    assert!(!jwt_ok(
        &headers(&[("Authorization", token.as_str())]),
        JWT_SECRET
    ));
    let token_scheme = format!("Token {token}");
    assert!(!jwt_ok(
        &headers(&[("Authorization", token_scheme.as_str())]),
        JWT_SECRET
    ));
    assert!(!jwt_ok(&bearer("not-a-jwt"), JWT_SECRET));
}

#[test]
fn jwt_denies_bad_signature() {
    let token = mint(
        b"a-different-secret",
        Algorithm::HS256,
        &claims(Some(now_secs() + 3600)),
    );
    assert!(!jwt_ok(&bearer(&token), JWT_SECRET));
}

#[test]
fn jwt_denies_wrong_algorithm() {
    let token = mint(
        JWT_SECRET,
        Algorithm::HS384,
        &claims(Some(now_secs() + 3600)),
    );
    assert!(!jwt_ok(&bearer(&token), JWT_SECRET));
}

#[test]
fn jwt_denies_alg_none() {
    const ALG_NONE: &str = "eyJhbGciOiJub25lIiwidHlwIjoiSldUIn0.eyJzdWIiOiJhbGctbm9uZSJ9.";
    assert!(!jwt_ok(&bearer(ALG_NONE), JWT_SECRET));
}

#[test]
fn jwt_denies_expired_token() {
    let token = mint(
        JWT_SECRET,
        Algorithm::HS256,
        &claims(Some(now_secs() - 3600)),
    );
    assert!(!jwt_ok(&bearer(&token), JWT_SECRET));
}

#[test]
fn origin_allows_absent_and_allowlisted() {
    let allowed = vec![
        "http://localhost:8080".to_string(),
        "http://127.0.0.1:8080".to_string(),
    ];
    assert!(origin_ok(&headers(&[]), &allowed));
    assert!(origin_ok(
        &headers(&[("Origin", "http://localhost:8080")]),
        &allowed
    ));
}

#[test]
fn origin_denies_unlisted() {
    let allowed = vec!["http://localhost:8080".to_string()];
    assert!(!origin_ok(
        &headers(&[("Origin", "http://evil.example")]),
        &allowed
    ));
    assert!(!origin_ok(
        &headers(&[("Origin", "http://localhost:9999")]),
        &allowed
    ));
}

#[test]
fn an_unreadable_header_is_no_absent_one() {
    let unreadable = RequestHeaders {
        pairs: vec![("origin".to_string(), None)],
    };
    assert!(!origin_ok(&unreadable, &vec!["http://localhost".to_string()]));
    assert_eq!(bearer_token(&unreadable), None);
}

#[test]
fn the_first_of_two_headers_counts() {
    let twice = headers(&[("X-Api-Key", "bad"), ("x-api-key", "k1")]);
    assert!(!api_key_ok(&twice, &vec!["k1".to_string()]));
    assert_eq!(twice.get("X-API-KEY"), Some(&Some("bad".to_string())));
}

#[test]
fn a_bearer_token_is_what_follows_the_scheme() {
    assert_eq!(bearer_token(&bearer("a.b.c")), Some("a.b.c".to_string()));
    assert_eq!(bearer_token(&headers(&[("Authorization", "bearer x")])), None);
    assert!(!jwt_verdict(&bearer("a.b.c"), JWT_SECRET, false));
}

#[test]
fn only_a_token_that_expires_has_to_be_current() {
    let forever = mint(JWT_SECRET, Algorithm::HS256, &claims(None));
    assert!(jwt_verdict(&bearer(&forever), JWT_SECRET, false));
    assert!(jwt_verdict(&bearer(&forever), JWT_SECRET, true));
    assert!(!jwt_verdict(&bearer(&forever), b"another-secret", true));
    let dated = mint(JWT_SECRET, Algorithm::HS256, &claims(Some(now_secs() + 3600)));
    assert!(!jwt_verdict(&bearer(&dated), JWT_SECRET, false));
    assert!(jwt_verdict(&bearer(&dated), JWT_SECRET, true));
}

fn guarded(mode: AuthMode) -> GuardState {
    GuardState {
        allow_insecure: false,
        auth_mode: mode,
        api_keys: vec!["k1".to_string()],
        allowed_origins: vec!["http://ok".to_string()],
        jwt_secret: String::from_utf8(JWT_SECRET.to_vec()).unwrap(),
    }
}

#[test]
fn the_origin_is_judged_before_the_key() {
    let guard = guarded(AuthMode::ApiKey);
    let refused = guard.guard(&headers(&[("Origin", "http://evil")]));
    assert_eq!(refused, Admission::ForbiddenOrigin);
    assert_eq!(refused.status(), Some(403));
    assert_eq!(refused.body(), "Forbidden: this Origin is not permitted.\n");
    let keyless = guard.guard(&headers(&[("Origin", "http://ok")]));
    assert_eq!(keyless, Admission::MissingApiKey);
    assert_eq!(keyless.status(), Some(401));
    let keyed = guard.guard(&headers(&[("Origin", "http://ok"), ("X-API-Key", "k1")]));
    assert_eq!(keyed, Admission::Admitted);
    assert_eq!(keyed.status(), None);
}

#[test]
fn a_token_is_asked_for_in_its_mode() {
    let guard = guarded(AuthMode::Jwt);
    assert_eq!(guard.guard(&headers(&[("X-API-Key", "k1")])), Admission::MissingToken);
    assert_eq!(Admission::MissingToken.status(), Some(401));
    let token = mint(JWT_SECRET, Algorithm::HS256, &claims(None));
    assert_eq!(guard.guard(&bearer(&token)), Admission::Admitted);
    assert_eq!(guard.judge(&headers(&[]), true), Admission::Admitted);
    assert_eq!(guard.judge(&headers(&[]), false), Admission::MissingToken);
}

#[test]
fn an_insecure_guard_asks_for_no_credentials() {
    let mut guard = guarded(AuthMode::ApiKey);
    guard.allow_insecure = true;
    assert_eq!(guard.guard(&headers(&[])), Admission::Admitted);
    assert_eq!(
        guard.guard(&headers(&[("Origin", "http://evil")])),
        Admission::ForbiddenOrigin
    );
}

#[test]
fn a_guard_takes_its_settings_from_the_configuration() {
    let mut env = EnvMap::new();
    env.insert("QMP_MCP_API_KEYS".to_string(), "a, b".to_string());
    let config = load_config(&env).unwrap();
    let guard = GuardState::of(&config);
    assert_eq!(guard.api_keys, vec!["a", "b"]);
    assert_eq!(guard.allowed_origins, config.allowed_origins);
    assert_eq!(guard.auth_mode, config.auth_mode);
}
