//! The fail-closed guards of the HTTP transport.
//!
//! A request is first held to the origin allowlist, then, unless the operator opted out, to
//! the configured credential: an API key, or a bearer token signed with HS256.

use vstd::prelude::*;

use crate::config::{AuthMode, Config};
use crate::text;

verus! {

// ---------------------------------------------------------------------------
// Headers
// ---------------------------------------------------------------------------

/// The headers of a request, in order. A value that is not visible ASCII text is `None`.
#[derive(Debug, Clone)]
pub struct RequestHeaders {
    /// The header names and values.
    pub pairs: Vec<(String, Option<String>)>,
}

/// The value of the first header called `name`, ignoring the case of ASCII letters.
pub open spec fn header_in(pairs: Seq<(String, Option<String>)>, name: Seq<char>) -> Option<
    Option<Seq<char>>,
>
    decreases pairs.len(),
{
    if pairs.len() == 0 {
        None
    } else if text::ascii_lower(pairs[0].0@) == text::ascii_lower(name) {
        Some(text::string_of(pairs[0].1))
    } else {
        header_in(pairs.skip(1), name)
    }
}

fn same_header_name(a: &str, b: &str) -> (r: bool)
    ensures
        r == (text::ascii_lower(a@) == text::ascii_lower(b@)),
{
    let x = text::ascii_lowercase(a);
    let y = text::ascii_lowercase(b);
    text::str_eq(x.as_str(), y.as_str())
}

impl RequestHeaders {
    /// The value of the first header called `name`.
    pub open spec fn header(self, name: Seq<char>) -> Option<Option<Seq<char>>> {
        header_in(self.pairs@, name)
    }

    /// The value of the first header called `name`, ignoring the case of ASCII letters.
    pub fn get(&self, name: &str) -> (r: Option<&Option<String>>)
        ensures
            match r {
                Some(v) => self.header(name@) == Some(text::string_of(*v)),
                None => self.header(name@) is None,
            },
    {
        let mut i: usize = 0;
        assert(self.pairs@.skip(0) =~= self.pairs@);
        while i < self.pairs.len()
            invariant
                i <= self.pairs.len(),
                header_in(self.pairs@.skip(i as int), name@) == self.header(name@),
            decreases self.pairs.len() - i,
        {
            assert(self.pairs@.skip(i as int).skip(1) =~= self.pairs@.skip(i + 1));
            if same_header_name(self.pairs[i].0.as_str(), name) {
                return Some(&self.pairs[i].1);
            }
            i = i + 1;
        }
        None
    }
}

// ---------------------------------------------------------------------------
// Single guards
// ---------------------------------------------------------------------------

/// The request carries one of the configured API keys.
pub open spec fn has_api_key(headers: RequestHeaders, keys: Seq<Seq<char>>) -> bool {
    headers.header("x-api-key"@) matches Some(Some(v)) && keys.contains(v)
}

/// Whether the request carries an `X-API-Key` whose value is one of `keys`. An absent header
/// and a value that is not text both read as unauthenticated.
pub fn api_key_ok(headers: &RequestHeaders, keys: &Vec<String>) -> (r: bool)
    ensures
        r == has_api_key(*headers, text::texts(keys@)),
{
    match headers.get("x-api-key") {
        Some(Some(provided)) => text::contains_string(keys, provided.as_str()),
        _ => false,
    }
}

/// The request's origin is absent or on the allowlist.
pub open spec fn has_allowed_origin(headers: RequestHeaders, allowed: Seq<Seq<char>>) -> bool {
    match headers.header("origin"@) {
        None => true,
        Some(None) => false,
        Some(Some(origin)) => allowed.contains(origin),
    }
}

/// Whether the request's `Origin` is permitted. A request without one (a client that is not
/// a browser) is; one that is present must be on the allowlist.
pub fn origin_ok(headers: &RequestHeaders, allowed: &Vec<String>) -> (r: bool)
    ensures
        r == has_allowed_origin(*headers, text::texts(allowed@)),
{
    match headers.get("origin") {
        None => true,
        Some(None) => false,
        Some(Some(origin)) => text::contains_string(allowed, origin.as_str()),
    }
}

/// The token of a bearer authorization, if the request carries one.
pub open spec fn bearer(headers: RequestHeaders) -> Option<Seq<char>> {
    match headers.header("authorization"@) {
        Some(Some(v)) => if text::has_prefix(v, "Bearer "@) {
            Some(v.skip("Bearer "@.len() as int))
        } else {
            None
        },
        _ => None,
    }
}

/// The token of an `Authorization: Bearer` header, if the request carries one.
pub fn bearer_token(headers: &RequestHeaders) -> (r: Option<String>)
    ensures
        text::string_of(r) == bearer(*headers),
{
    match headers.get("authorization") {
        Some(Some(auth)) => text::strip_prefix(auth.as_str(), "Bearer "),
        _ => None,
    }
}

/// A token is a JSON Web Token with JSON claims whose header names HS256 and whose signature
/// `jsonwebtoken` verifies under the secret.
pub uninterp spec fn hs256_signed(token: Seq<char>, secret: Seq<u8>) -> bool;

/// A token is signed with HS256 under the secret, and its claims set an expiry.
pub uninterp spec fn hs256_dated(token: Seq<char>, secret: Seq<u8>) -> bool;

/// `jsonwebtoken::decode` pinned to HS256, with every check of the claims off. Trusted to
/// accept exactly the tokens that are signed with HS256 under the secret, as a function of
/// the token and the secret alone.
#[verifier::external_body]
fn signature_ok(token: &str, secret: &[u8]) -> (r: bool)
    ensures
        r == hs256_signed(token@, secret@),
{
    let mut validation = jsonwebtoken::Validation::new(jsonwebtoken::Algorithm::HS256);
    validation.required_spec_claims.clear();
    validation.validate_aud = false;
    validation.validate_exp = false;
    let key = jsonwebtoken::DecodingKey::from_secret(secret);
    jsonwebtoken::decode::<serde_json::Value>(token, &key, &validation).is_ok()
}

/// `jsonwebtoken::decode` pinned to HS256, which requires an expiry but does not compare it
/// with the clock. Trusted to depend on the token and the secret alone.
#[verifier::external_body]
fn expiry_set(token: &str, secret: &[u8]) -> (r: bool)
    ensures
        r == hs256_dated(token@, secret@),
{
    let mut validation = jsonwebtoken::Validation::new(jsonwebtoken::Algorithm::HS256);
    validation.validate_aud = false;
    validation.validate_exp = false;
    let key = jsonwebtoken::DecodingKey::from_secret(secret);
    jsonwebtoken::decode::<serde_json::Value>(token, &key, &validation).is_ok()
}

/// `jsonwebtoken::decode` pinned to HS256, which also refuses a token whose expiry has
/// passed. Its result depends on the clock; it is trusted to accept only tokens that are
/// signed with HS256 under the secret.
#[verifier::external_body]
fn token_current(token: &str, secret: &[u8]) -> (r: bool)
    ensures
        r ==> hs256_signed(token@, secret@),
{
    let mut validation = jsonwebtoken::Validation::new(jsonwebtoken::Algorithm::HS256);
    validation.required_spec_claims.clear();
    validation.validate_aud = false;
    let key = jsonwebtoken::DecodingKey::from_secret(secret);
    jsonwebtoken::decode::<serde_json::Value>(token, &key, &validation).is_ok()
}

/// A request carries a bearer token that is signed with HS256 under the secret and that is
/// good now: it is current, or it never expires.
pub open spec fn has_token(headers: RequestHeaders, secret: Seq<u8>, current: bool) -> bool {
    bearer(headers) matches Some(token) && hs256_signed(token, secret) && (current || !hs256_dated(
        token,
        secret,
    ))
}

/// Whether a request is authenticated, given whether its token is current.
pub fn jwt_verdict(headers: &RequestHeaders, secret: &[u8], current: bool) -> (r: bool)
    ensures
        r == has_token(*headers, secret@, current),
{
    match bearer_token(headers) {
        Some(token) => signature_ok(token.as_str(), secret) && (current || !expiry_set(
            token.as_str(),
            secret,
        )),
        None => false,
    }
}

/// `current` is an answer that checking a token against the clock can give.
pub closed spec fn can_be_current(token: &str, secret: &[u8], current: bool) -> bool {
    call_ensures(token_current, (token, secret), current)
}

/// A verdict on a request rests on what checking its token against the clock answered; one
/// without a token is refused.
pub open spec fn is_jwt_verdict(headers: RequestHeaders, secret: Seq<u8>, verdict: bool) -> bool {
    match bearer(headers) {
        None => !verdict,
        Some(t) => exists|token: &str, key: &[u8], current: bool|
            token@ == t && key@ == secret && #[trigger] can_be_current(token, key, current)
                && verdict == has_token(headers, secret, current),
    }
}

/// Whether the request carries an `Authorization: Bearer` token that verifies against
/// `secret` under HS256 and has not expired. The algorithm is fixed here, never taken from
/// the token, so a token that names another one, or none, is refused. A token without an
/// expiry is accepted at any time. Whether another one has expired depends on the clock; what
/// checking it answered decides.
pub fn jwt_ok(headers: &RequestHeaders, secret: &[u8]) -> (r: bool)
    ensures
        r ==> has_token(*headers, secret@, true),
        has_token(*headers, secret@, false) ==> r,
        is_jwt_verdict(*headers, secret@, r),
{
    let current = match bearer_token(headers) {
        Some(held) => {
            let token = held.as_str();
            let current = token_current(token, secret);
            assert(can_be_current(token, secret, current));
            current
        },
        None => false,
    };
    jwt_verdict(headers, secret, current)
}

// ---------------------------------------------------------------------------
// All guards
// ---------------------------------------------------------------------------

/// What the guards are configured with.
#[derive(Debug, Clone)]
pub struct GuardState {
    /// Whether authentication is switched off.
    pub allow_insecure: bool,
    /// Which provider guards the transport.
    pub auth_mode: AuthMode,
    /// The accepted API keys.
    pub api_keys: Vec<String>,
    /// Browser origins permitted by the origin guard.
    pub allowed_origins: Vec<String>,
    /// The signing secret of bearer tokens; empty where none is configured.
    pub jwt_secret: String,
}

/// What becomes of a request.
#[derive(Debug, Clone, Copy, PartialEq, Eq, Structural)]
pub enum Admission {
    /// It reaches the service.
    Admitted,
    /// It is answered 403: its origin is not permitted.
    ForbiddenOrigin,
    /// It is answered 401: it lacks a valid API key.
    MissingApiKey,
    /// It is answered 401: it lacks a valid bearer token.
    MissingToken,
}

impl Admission {
    /// The HTTP status that a request is answered with, when it is refused.
    pub fn status(self) -> (r: Option<u16>)
        ensures
            r == (match self {
                Admission::Admitted => None,
                Admission::ForbiddenOrigin => Some(403u16),
                _ => Some(401u16),
            }),
    {
        match self {
            Admission::Admitted => None,
            Admission::ForbiddenOrigin => Some(403),
            Admission::MissingApiKey => Some(401),
            Admission::MissingToken => Some(401),
        }
    }

    /// The body that a request is answered with, when it is refused.
    pub fn body(self) -> (r: &'static str)
        ensures
            r@ == (match self {
                Admission::Admitted => ""@,
                Admission::ForbiddenOrigin => "Forbidden: this Origin is not permitted.\n"@,
                Admission::MissingApiKey =>
                "Unauthorized: a valid X-API-Key header is required.\n"@,
                Admission::MissingToken =>
                "Unauthorized: a valid Authorization: Bearer <JWT> is required.\n"@,
            }),
    {
        match self {
            Admission::Admitted => "",
            Admission::ForbiddenOrigin => "Forbidden: this Origin is not permitted.\n",
            Admission::MissingApiKey => "Unauthorized: a valid X-API-Key header is required.\n",
            Admission::MissingToken => {
                "Unauthorized: a valid Authorization: Bearer <JWT> is required.\n"
            },
        }
    }
}

/// What becomes of a request, given whether its bearer token is valid: the origin is checked
/// first, then the credential that the operator chose.
pub open spec fn admission(
    guards: GuardState,
    headers: RequestHeaders,
    token_valid: bool,
) -> Admission {
    if !has_allowed_origin(headers, text::texts(guards.allowed_origins@)) {
        Admission::ForbiddenOrigin
    } else if guards.allow_insecure {
        Admission::Admitted
    } else {
        match guards.auth_mode {
            AuthMode::ApiKey => if has_api_key(headers, text::texts(guards.api_keys@)) {
                Admission::Admitted
            } else {
                Admission::MissingApiKey
            },
            AuthMode::Jwt => if token_valid {
                Admission::Admitted
            } else {
                Admission::MissingToken
            },
        }
    }
}

impl GuardState {
    /// The guards of a configuration.
    pub fn of(config: &Config) -> (r: GuardState)
        ensures
            r.allow_insecure == config.allow_insecure,
            r.auth_mode == config.auth_mode,
            r.api_keys@ == config.api_keys@,
            r.allowed_origins@ == config.allowed_origins@,
            r.jwt_secret@ == (match config.jwt_secret {
                Some(s) => s@,
                None => Seq::empty(),
            }),
    {
        let jwt_secret = match &config.jwt_secret {
            Some(s) => s.clone(),
            None => String::new(),
        };
        GuardState {
            allow_insecure: config.allow_insecure,
            auth_mode: config.auth_mode,
            api_keys: text::clone_strings(&config.api_keys),
            allowed_origins: text::clone_strings(&config.allowed_origins),
            jwt_secret,
        }
    }

    /// What becomes of a request, given whether its bearer token is valid.
    pub fn judge(&self, headers: &RequestHeaders, token_valid: bool) -> (r: Admission)
        ensures
            r == admission(*self, *headers, token_valid),
    {
        if !origin_ok(headers, &self.allowed_origins) {
            return Admission::ForbiddenOrigin;
        }
        if self.allow_insecure {
            return Admission::Admitted;
        }
        match self.auth_mode {
            AuthMode::ApiKey => {
                if api_key_ok(headers, &self.api_keys) {
                    Admission::Admitted
                } else {
                    Admission::MissingApiKey
                }
            },
            AuthMode::Jwt => {
                if token_valid {
                    Admission::Admitted
                } else {
                    Admission::MissingToken
                }
            },
        }
    }

    /// What becomes of a request. A bearer token that is admitted is signed with HS256 under
    /// the configured secret; one that is so signed and never expires is admitted.
    pub fn guard(&self, headers: &RequestHeaders) -> (r: Admission)
        ensures
            exists|token_valid: bool|
                {
                    let secret = vstd::utf8::encode_utf8(self.jwt_secret@);
                    &&& r == #[trigger] admission(*self, *headers, token_valid)
                    &&& token_valid ==> has_token(*headers, secret, true)
                    &&& has_token(*headers, secret, false) ==> token_valid
                    &&& is_jwt_verdict(*headers, secret, token_valid)
                },
    {
        let token_valid = jwt_ok(headers, self.jwt_secret.as_str().as_bytes());
        let r = self.judge(headers, token_valid);
        assert(r == admission(*self, *headers, token_valid));
        r
    }
}

// ---------------------------------------------------------------------------
// Laws
// ---------------------------------------------------------------------------

/// A page from an origin that is not on the allowlist is refused, whatever credentials its
/// request carries.
pub proof fn foreign_origins_are_refused(
    guards: GuardState,
    headers: RequestHeaders,
    token_valid: bool,
)
    requires
        !has_allowed_origin(headers, text::texts(guards.allowed_origins@)),
    ensures
        admission(guards, headers, token_valid) == Admission::ForbiddenOrigin,
{
}

/// Unless the operator opted out, a request is admitted only with the chosen credential.
pub proof fn admitted_requests_are_authenticated(
    guards: GuardState,
    headers: RequestHeaders,
    token_valid: bool,
)
    requires
        !guards.allow_insecure,
        admission(guards, headers, token_valid) == Admission::Admitted,
    ensures
        match guards.auth_mode {
            AuthMode::ApiKey => has_api_key(headers, text::texts(guards.api_keys@)),
            AuthMode::Jwt => token_valid,
        },
{
}

/// With no API keys configured, API-key auth admits nobody.
pub proof fn no_keys_admit_nobody(headers: RequestHeaders, keys: Seq<Seq<char>>)
    requires
        keys.len() == 0,
    ensures
        !has_api_key(headers, keys),
{
}

/// A header is found by its name in any letter case, at the first place where it stands, with the
/// value that stands there. One that stands nowhere is not found.
pub proof fn headers_are_found_by_name(
    pairs: Seq<(String, Option<String>)>,
    name: Seq<char>,
    other: Seq<char>,
    k: int,
)
    ensures
        header_in(pairs, name) is None <==> forall|i: int|
            0 <= i < pairs.len() ==> text::ascii_lower((#[trigger] pairs[i]).0@)
                != text::ascii_lower(name),
        0 <= k < pairs.len() && text::ascii_lower(pairs[k].0@) == text::ascii_lower(name) && (
        forall|i: int|
            0 <= i < k ==> text::ascii_lower((#[trigger] pairs[i]).0@) != text::ascii_lower(name))
            ==> header_in(pairs, name) == Some(
            match pairs[k].1 {
                Some(v) => Some(v@),
                None => None,
            },
        ),
        text::ascii_lower(name) == text::ascii_lower(other) ==> header_in(pairs, name) == header_in(
            pairs,
            other,
        ),
    decreases pairs.len(),
{
    if pairs.len() > 0 {
        let rest = pairs.skip(1);
        headers_are_found_by_name(rest, name, other, k - 1);
        assert forall|i: int| 0 <= i < rest.len() implies rest[i] == pairs[i + 1] by {}
        let l = text::ascii_lower(name);
        if forall|i: int| 0 <= i < pairs.len() ==> text::ascii_lower((#[trigger] pairs[i]).0@) != l {
            assert(text::ascii_lower(pairs[0].0@) != l);
            assert forall|i: int| 0 <= i < rest.len() implies text::ascii_lower(
                (#[trigger] rest[i]).0@,
            ) != l by {
                assert(rest[i] == pairs[i + 1]);
            }
        }
        if header_in(pairs, name) is None {
            assert forall|i: int| 0 <= i < pairs.len() implies text::ascii_lower(
                (#[trigger] pairs[i]).0@,
            ) != l by {
                if i > 0 {
                    assert(text::ascii_lower(rest[i - 1].0@) != l);
                }
            }
        }
        if 0 < k < pairs.len() && text::ascii_lower(pairs[k].0@) == l && (forall|i: int|
            0 <= i < k ==> text::ascii_lower((#[trigger] pairs[i]).0@) != l) {
            assert(text::ascii_lower(pairs[0].0@) != l);
            assert(rest[k - 1] == pairs[k]);
            assert forall|i: int| 0 <= i < k - 1 implies text::ascii_lower(
                (#[trigger] rest[i]).0@,
            ) != l by {
                assert(rest[i] == pairs[i + 1]);
            }
        }
    }
}

/// A request has an API key exactly where the value of its `X-API-Key` is one of the keys, letter
/// for letter, whichever of them it is.
pub proof fn any_key_is_accepted(headers: RequestHeaders, keys: Seq<Seq<char>>, i: int)
    ensures
        has_api_key(headers, keys) ==> exists|k: int|
            0 <= k < keys.len() && headers.header("x-api-key"@) == Some(Some(#[trigger] keys[k])),
        0 <= i < keys.len() && headers.header("x-api-key"@) == Some(Some(keys[i])) ==> has_api_key(
            headers,
            keys,
        ),
{
    if has_api_key(headers, keys) {
        let v = headers.header("x-api-key"@)->0->0;
        let k = choose|k: int| 0 <= k < keys.len() && keys[k] == v;
        assert(keys[k] == v);
    }
}

/// An origin is allowed exactly where the request names none, or names one of the list, letter
/// for letter, whichever of them it is.
pub proof fn any_listed_origin_is_allowed(headers: RequestHeaders, allowed: Seq<Seq<char>>, i: int)
    ensures
        has_allowed_origin(headers, allowed) <==> headers.header("origin"@) is None || exists|k: int|

            0 <= k < allowed.len() && headers.header("origin"@) == Some(
                Some(#[trigger] allowed[k]),
            ),
        0 <= i < allowed.len() && headers.header("origin"@) == Some(Some(allowed[i]))
            ==> has_allowed_origin(headers, allowed),
{
    if has_allowed_origin(headers, allowed) && headers.header("origin"@) is Some {
        let v = headers.header("origin"@)->0->0;
        let k = choose|k: int| 0 <= k < allowed.len() && allowed[k] == v;
        assert(allowed[k] == v);
    }
}

/// A request bears a token exactly where its `Authorization` is the scheme and then the token,
/// and the token is all that follows the scheme.
pub proof fn tokens_follow_the_scheme(headers: RequestHeaders, token: Seq<char>)
    ensures
        bearer(headers) == Some(token) <==> headers.header("authorization"@) == Some(
            Some("Bearer "@ + token),
        ),
{
    reveal_strlit("Bearer ");
    let lead = "Bearer "@;
    if bearer(headers) == Some(token) {
        let v = headers.header("authorization"@)->0->0;
        assert(v =~= lead + token);
    }
    if headers.header("authorization"@) == Some(Some(lead + token)) {
        let v = lead + token;
        text::parts_are_found(Seq::empty(), lead, token, v);
        assert(Seq::empty() + lead + token =~= v);
        assert(v.skip(lead.len() as int) =~= token);
    }
}

/// A token counts exactly where it is signed under the secret and, if it has an expiry, is
/// current; and a verdict on a request never counts a token that the request does not bear.
pub proof fn tokens_count_while_signed_and_current(
    headers: RequestHeaders,
    secret: Seq<u8>,
    current: bool,
    token: Seq<char>,
    verdict: bool,
)
    ensures
        bearer(headers) is None ==> !has_token(headers, secret, current),
        bearer(headers) == Some(token) ==> (has_token(headers, secret, current) <==> hs256_signed(
            token,
            secret,
        ) && (hs256_dated(token, secret) ==> current)),
        is_jwt_verdict(headers, secret, verdict) && bearer(headers) is None ==> !verdict,
        is_jwt_verdict(headers, secret, verdict) && bearer(headers) == Some(token) && verdict
            ==> hs256_signed(token, secret),
        is_jwt_verdict(headers, secret, verdict) && bearer(headers) == Some(token) && hs256_signed(
            token,
            secret,
        ) && !hs256_dated(token, secret) ==> verdict,
{
}

/// A request is admitted exactly where its origin is allowed and either authentication is off or
/// it has the credential of the chosen provider. What it lacks is what it is refused for.
pub proof fn requests_are_admitted_by_the_chosen_guard(
    guards: GuardState,
    headers: RequestHeaders,
    token_valid: bool,
)
    ensures
        ({
            let a = admission(guards, headers, token_valid);
            let origin = has_allowed_origin(headers, text::texts(guards.allowed_origins@));
            let key = has_api_key(headers, text::texts(guards.api_keys@));
            &&& a == Admission::Admitted <==> origin && (guards.allow_insecure || (guards.auth_mode
                == AuthMode::ApiKey && key) || (guards.auth_mode == AuthMode::Jwt && token_valid))
            &&& a == Admission::ForbiddenOrigin <==> !origin
            &&& a == Admission::MissingApiKey <==> origin && !guards.allow_insecure
                && guards.auth_mode == AuthMode::ApiKey && !key
            &&& a == Admission::MissingToken <==> origin && !guards.allow_insecure
                && guards.auth_mode == AuthMode::Jwt && !token_valid
        }),
{
}

} // verus!
