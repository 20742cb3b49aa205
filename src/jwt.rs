use vstd::prelude::*;

use crate::error::{copy_opt, is_success_status, opt_view, AuthError, AuthFailure};
use crate::text::{decimal, decimal_string, join_path, joined, push_char, same_text, trim_end, trim_end_char};

verus! {

/// Seconds that a fetched key set stays fresh unless configured otherwise.
pub const DEFAULT_JWKS_TTL_SECS: u64 = 3600;

/// The user described by a token or by a login answer.
#[derive(Debug, Clone)]
pub struct UserInfo {
    pub id: String,
    pub email: String,
    pub name: String,
}

/// The team described by a token.
#[derive(Debug, Clone)]
pub struct TeamInfo {
    pub id: String,
    pub name: String,
}

/// The claims carried by a token.
#[derive(Debug, Clone)]
pub struct JwtClaims {
    /// Issuer: the base URL of the API that signed the token.
    pub iss: String,
    /// Subject: the user or team the token speaks for.
    pub sub: String,
    pub aud: Option<String>,
    /// Expiry, in seconds since the Unix epoch.
    pub exp: i64,
    /// Issue time, in seconds since the Unix epoch.
    pub iat: i64,
    /// Key identifier: from the payload when read from a token, the resolved
    /// identifier once validated.
    pub kid: Option<String>,
    pub user: Option<UserInfo>,
    pub team: Option<TeamInfo>,
}

/// One public signing key of a key set.
#[derive(Debug, Clone)]
pub struct JwkKey {
    /// Key type ("RSA").
    pub kty: String,
    /// Intended use ("sig").
    pub use_: String,
    pub kid: String,
    /// Declared algorithm ("RS256").
    pub alg: String,
    /// RSA modulus, base64url.
    pub n: String,
    /// RSA exponent, base64url.
    pub e: String,
}

/// A published key set.
#[derive(Debug, Clone)]
pub struct Jwks {
    pub keys: Vec<JwkKey>,
}

/// A key set together with when it was fetched and how long it stays fresh.
#[derive(Debug, Clone)]
pub struct JwksCache {
    pub jwks: Jwks,
    pub cached_at: u64,
    pub ttl_seconds: u64,
}

/// What the validator reads from a token header.
pub struct TokenHeader {
    /// The algorithm's name, as `RS256`.
    pub alg: String,
    pub kid: Option<String>,
}

/// Scheme, host and port of a parsed URL.
pub struct UrlOrigin {
    pub scheme: String,
    pub host: Option<String>,
    pub port: Option<u16>,
}

// ---------------------------------------------------------------------------
// Outside results
// ---------------------------------------------------------------------------

/// Scheme, host and port of `s` read as a URL; `None` when it is no URL. The
/// port is absent when it is the scheme's default, even where `s` writes it.
pub uninterp spec fn url_origin(s: Seq<char>) -> Option<(Seq<char>, Option<Seq<char>>, Option<u16>)>;

/// Algorithm name and key identifier of the header of `token`; `None` when the
/// header cannot be read.
pub uninterp spec fn header_of(token: Seq<char>) -> Option<(Seq<char>, Option<Seq<char>>)>;

/// Whether `signature` is a valid RS256 signature of `message` under the RSA
/// key `(n, e)`; `None` when `n` or `e` is not base64url.
pub uninterp spec fn rs256_check(signature: Seq<char>, message: Seq<char>, n: Seq<char>, e: Seq<char>) -> Option<bool>;

pub open spec fn origin_view(o: Option<UrlOrigin>) -> Option<(Seq<char>, Option<Seq<char>>, Option<u16>)> {
    match o {
        Some(u) => Some((u.scheme@, opt_view(u.host), u.port)),
        None => None,
    }
}

pub open spec fn header_view(h: Option<TokenHeader>) -> Option<(Seq<char>, Option<Seq<char>>)> {
    match h {
        Some(t) => Some((t.alg@, opt_view(t.kid))),
        None => None,
    }
}

/// Relies on url::Url::parse, and on scheme, host_str and port of the parsed URL.
#[verifier::external_body]
fn parse_url_origin(s: &str) -> (r: Option<UrlOrigin>)
    ensures
        origin_view(r) == url_origin(s@),
{
    match url::Url::parse(s) {
        Ok(u) => Some(UrlOrigin {
            scheme: u.scheme().to_string(),
            host: u.host_str().map(|h| h.to_string()),
            port: u.port(),
        }),
        Err(_) => None,
    }
}

/// Relies on jsonwebtoken::decode_header: the header's `alg`, named as the
/// derived `Debug` of `jsonwebtoken::Algorithm` writes it (`RS256`), and `kid`.
#[verifier::external_body]
fn read_header(token: &str) -> (r: Option<TokenHeader>)
    ensures
        header_view(r) == header_of(token@),
{
    match jsonwebtoken::decode_header(token) {
        Ok(h) => Some(TokenHeader { alg: format!("{:?}", h.alg), kid: h.kid }),
        Err(_) => None,
    }
}

/// Relies on jsonwebtoken's DecodingKey::from_rsa_components, which fails when
/// `n` or `e` is not base64url, and on jsonwebtoken::crypto::verify with RS256,
/// whose error counts as a failed check.
#[verifier::external_body]
fn check_rs256(signature: &str, message: &str, n: &str, e: &str) -> (r: Option<bool>)
    ensures
        r == rs256_check(signature@, message@, n@, e@),
{
    match jsonwebtoken::DecodingKey::from_rsa_components(n, e) {
        Ok(key) => Some(matches!(
            jsonwebtoken::crypto::verify(signature, message.as_bytes(), &key, jsonwebtoken::Algorithm::RS256),
            Ok(true)
        )),
        Err(_) => None,
    }
}

// ---------------------------------------------------------------------------
// Key-set cache
// ---------------------------------------------------------------------------

impl JwksCache {
    /// Fresh at `now` when no more than the time to live has passed since the fetch.
    pub open spec fn fresh_at(&self, now: int) -> bool {
        now - self.cached_at <= self.ttl_seconds
    }

    /// A cache entry for `jwks` fetched at `now`.
    pub fn new(jwks: Jwks, now: u64, ttl_seconds: u64) -> (r: JwksCache)
        ensures
            r.jwks == jwks,
            r.cached_at == now,
            r.ttl_seconds == ttl_seconds,
    {
        JwksCache { jwks, cached_at: now, ttl_seconds }
    }

    /// Whether the entry is stale at `now`.
    pub fn is_expired(&self, now: u64) -> (r: bool)
        ensures
            r == !self.fresh_at(now as int),
    {
        if now <= self.cached_at {
            false
        } else {
            now - self.cached_at > self.ttl_seconds
        }
    }
}

/// A set fetched at the epoch with the default time to live is stale at
/// any time after its first hour.
pub proof fn lemma_epoch_entry_stale(c: JwksCache, now: int)
    requires
        c.cached_at == 0,
        c.ttl_seconds == DEFAULT_JWKS_TTL_SECS,
        now > 3600,
    ensures
        !c.fresh_at(now),
{
}

/// The time to live of a new cache entry: the configured value, else the default.
pub open spec fn jwks_ttl_spec(configured: Option<u64>) -> u64 {
    match configured {
        Some(t) => t,
        None => DEFAULT_JWKS_TTL_SECS,
    }
}

/// The time to live of a new cache entry: the configured value, else the default.
pub fn jwks_ttl(configured: Option<u64>) -> (r: u64)
    ensures
        r == jwks_ttl_spec(configured),
{
    match configured {
        Some(t) => t,
        None => DEFAULT_JWKS_TTL_SECS,
    }
}

/// The key set to use without a network call: the cached one, when a refresh
/// is not forced and the entry is fresh at `now`. `None` means: fetch, then
/// hand the answer to `refresh_jwks`.
pub fn get_jwks(cached: Option<JwksCache>, now: u64, force_refresh: bool) -> (r: Option<Jwks>)
    ensures
        r is Some <==> (!force_refresh && cached is Some && cached->Some_0.fresh_at(now as int)),
        r is Some ==> r->Some_0 == cached->Some_0.jwks,
{
    if force_refresh {
        return None;
    }
    match cached {
        Some(c) => {
            if c.is_expired(now) {
                None
            } else {
                Some(c.jwks)
            }
        },
        None => None,
    }
}

/// The outcome of one key-set fetch made at `now`: `answer` is `None` when the
/// server could not be reached, else the status, the body and the document
/// parsed from the body (`None` when it did not parse). On success the result
/// is the new cache entry, which replaces the old one whole: the fetched set,
/// `now` and the configured time to live. On failure the old entry stays.
pub fn refresh_jwks(answer: Option<(u16, String, Option<Jwks>)>, now: u64, ttl: Option<u64>) -> (r: Result<
    JwksCache,
    AuthError,
>)
    ensures
        match answer {
            None => r matches Err(e) && e@ == AuthFailure::NetworkError,
            Some((status, body, parsed)) => if !is_success_status(status) {
                r matches Err(e) && e@ == AuthFailure::HttpStatusError(status, body@)
            } else {
                match parsed {
                    None => r matches Err(e) && e@ == AuthFailure::ParseError,
                    Some(j) => if j.keys@.len() == 0 {
                        r matches Err(e) && e@ == AuthFailure::KeySetEmpty
                    } else {
                        r == Ok::<JwksCache, AuthError>(
                            JwksCache { jwks: j, cached_at: now, ttl_seconds: jwks_ttl_spec(ttl) },
                        )
                    },
                }
            },
        },
{
    match answer {
        None => Err(AuthError::NetworkError),
        Some((status, body, parsed)) => match accept_jwks_response(status, body, parsed) {
            Err(e) => Err(e),
            Ok(jwks) => Ok(JwksCache::new(jwks, now, jwks_ttl(ttl))),
        },
    }
}

/// The address of the key-set document of the API at `api_url`.
pub open spec fn jwks_url_spec(api_url: Seq<char>) -> Seq<char> {
    trim_end(api_url, '/') + seq!['/', 'a', 'p', 'i', '/', '.', 'w', 'e', 'l', 'l', '-', 'k', 'n', 'o',
        'w', 'n', '/', 'j', 'w', 'k', 's', '.', 'j', 's', 'o', 'n']
}

/// The address of the key-set document of the API at `api_url`.
pub fn jwks_url(api_url: &str) -> (r: String)
    ensures
        r@ == jwks_url_spec(api_url@),
{
    let mut s = trim_end_char(api_url, '/');
    let tail = "/api/.well-known/jwks.json";
    proof {
        reveal_strlit("/api/.well-known/jwks.json");
    }
    s.append(tail);
    assert(s@ =~= jwks_url_spec(api_url@));
    s
}

/// Where the key-set cache lives inside the data directory `data_dir`.
pub fn jwks_cache_path(data_dir: &str) -> (r: String)
    ensures
        r@ == joined(data_dir@, "jwks_cache.json"@),
{
    join_path(data_dir, "jwks_cache.json")
}

/// The outcome of a key-set fetch, from the answer's status, body and the
/// document parsed from the body (`None` when it did not parse).
pub fn accept_jwks_response(status: u16, body: String, parsed: Option<Jwks>) -> (r: Result<Jwks, AuthError>)
    ensures
        !is_success_status(status) ==> (r matches Err(e) && e@ == AuthFailure::HttpStatusError(status, body@)),
        is_success_status(status) && parsed is None ==> (r matches Err(e) && e@ == AuthFailure::ParseError),
        is_success_status(status) && parsed is Some && parsed->Some_0.keys@.len() == 0 ==> (r matches Err(e)
            && e@ == AuthFailure::KeySetEmpty),
        is_success_status(status) && parsed is Some && parsed->Some_0.keys@.len() > 0 ==> r == Ok::<
            Jwks,
            AuthError,
        >(parsed->Some_0),
{
    if status < 200 || status > 299 {
        return Err(AuthError::HttpStatusError { status, body });
    }
    match parsed {
        None => Err(AuthError::ParseError),
        Some(j) => {
            if j.keys.len() == 0 {
                Err(AuthError::KeySetEmpty)
            } else {
                Ok(j)
            }
        },
    }
}

// ---------------------------------------------------------------------------
// Issuer normalization
// ---------------------------------------------------------------------------

/// `://`
pub open spec fn scheme_separator() -> Seq<char> {
    seq![':', '/', '/']
}

pub open spec fn port_suffix(port: Option<u16>) -> Seq<char> {
    match port {
        Some(p) => seq![':'] + decimal(p as nat),
        None => Seq::empty(),
    }
}

/// The origin of an issuer: scheme, host and explicit port of the URL, with
/// path and query left out. Text that is no URL stays as it is.
pub open spec fn normalized_issuer(s: Seq<char>) -> Seq<char> {
    match url_origin(s) {
        Some((scheme, host, port)) => scheme + scheme_separator() + match host {
            Some(h) => h,
            None => Seq::empty(),
        } + port_suffix(port),
        None => s,
    }
}

/// The origin of an issuer URL (`scheme://host[:port]`), or the text unchanged
/// when it does not parse as a URL.
pub fn normalize_issuer(iss: &str) -> (r: String)
    ensures
        r@ == normalized_issuer(iss@),
{
    match parse_url_origin(iss) {
        None => String::from_str(iss),
        Some(o) => {
            let mut s = o.scheme;
            push_char(&mut s, ':');
            push_char(&mut s, '/');
            push_char(&mut s, '/');
            match o.host {
                Some(h) => s.append(h.as_str()),
                None => {},
            }
            match o.port {
                Some(p) => {
                    push_char(&mut s, ':');
                    let d = decimal_string(p as u64);
                    s.append(d.as_str());
                },
                None => {},
            }
            assert(s@ =~= normalized_issuer(iss@));
            s
        },
    }
}

/// Issuers with the same parsed origin normalize alike, whatever their paths.
pub proof fn lemma_normalize_ignores_path(a: Seq<char>, b: Seq<char>)
    requires
        url_origin(a) is Some,
        url_origin(a) == url_origin(b),
    ensures
        normalized_issuer(a) == normalized_issuer(b),
{
}

// ---------------------------------------------------------------------------
// Key selection
// ---------------------------------------------------------------------------

/// `RS256`
pub open spec fn rs256_name() -> Seq<char> {
    seq!['R', 'S', '2', '5', '6']
}

/// `RSA`
pub open spec fn rsa_name() -> Seq<char> {
    seq!['R', 'S', 'A']
}

/// The key identifier used to pick a key: the header's, else the one found in
/// the (unverified) payload.
pub open spec fn resolved_kid(header_kid: Option<Seq<char>>, payload: Option<JwtClaims>) -> Option<Seq<char>> {
    match header_kid {
        Some(k) => Some(k),
        None => match payload {
            Some(c) => opt_view(c.kid),
            None => None,
        },
    }
}

/// A key fits a resolved identifier by exact match; without an identifier,
/// any key declaring RS256 fits.
pub open spec fn key_fits(key: JwkKey, kid: Option<Seq<char>>) -> bool {
    match kid {
        Some(k) => key.kid@ == k,
        None => key.alg@ == rs256_name(),
    }
}

/// `i` is the first key of `keys` that fits `kid`.
pub open spec fn is_first_fit(keys: Seq<JwkKey>, kid: Option<Seq<char>>, i: int) -> bool {
    &&& 0 <= i < keys.len()
    &&& key_fits(keys[i], kid)
    &&& forall|j: int| 0 <= j < i ==> !key_fits(#[trigger] keys[j], kid)
}

/// No key of `keys` fits `kid`.
pub open spec fn no_fit(keys: Seq<JwkKey>, kid: Option<Seq<char>>) -> bool {
    forall|j: int| 0 <= j < keys.len() ==> !key_fits(#[trigger] keys[j], kid)
}

/// The first key that fits `kid`.
pub open spec fn first_fit(keys: Seq<JwkKey>, kid: Option<Seq<char>>) -> int {
    choose|i: int| is_first_fit(keys, kid, i)
}

pub proof fn lemma_first_fit_unique(keys: Seq<JwkKey>, kid: Option<Seq<char>>, i: int)
    requires
        is_first_fit(keys, kid, i),
    ensures
        first_fit(keys, kid) == i,
{
    let f = first_fit(keys, kid);
    assert(is_first_fit(keys, kid, f));
    if f < i {
        assert(!key_fits(keys[f], kid));
    } else if i < f {
        assert(!key_fits(keys[i], kid));
    }
}

/// The position of the key that verifies a token with key identifier `kid`:
/// the first exact match of `kid`, or without `kid` the first RS256 key.
pub fn select_key(keys: &Vec<JwkKey>, kid: &Option<String>) -> (r: Option<usize>)
    ensures
        match r {
            Some(i) => is_first_fit(keys@, opt_view(*kid), i as int),
            None => no_fit(keys@, opt_view(*kid)),
        },
{
    let rs256 = "RS256";
    proof {
        reveal_strlit("RS256");
    }
    assert(rs256@ =~= rs256_name());
    let mut i: usize = 0;
    while i < keys.len()
        invariant
            i <= keys@.len(),
            rs256@ == rs256_name(),
            forall|j: int| 0 <= j < i ==> !key_fits(#[trigger] keys@[j], opt_view(*kid)),
        decreases keys@.len() - i,
    {
        let key = &keys[i];
        let fits = match kid {
            Some(k) => same_text(key.kid.as_str(), k.as_str()),
            None => same_text(key.alg.as_str(), rs256),
        };
        assert(fits == key_fits(keys@[i as int], opt_view(*kid)));
        if fits {
            return Some(i);
        }
        i = i + 1;
    }
    None
}

// ---------------------------------------------------------------------------
// Token validation
// ---------------------------------------------------------------------------

/// The position of the last `.` of `s`, or -1.
pub open spec fn last_dot(s: Seq<char>) -> int
    decreases s.len(),
{
    if s.len() == 0 {
        -1
    } else if s.last() == '.' {
        s.len() - 1
    } else {
        last_dot(s.drop_last())
    }
}

/// A token split at its last `.`: the signed text and the signature.
pub open spec fn signed_parts(token: Seq<char>) -> Option<(Seq<char>, Seq<char>)> {
    let i = last_dot(token);
    if i < 0 {
        None
    } else {
        Some((token.subrange(0, i), token.subrange(i + 1, token.len() as int)))
    }
}

proof fn lemma_last_dot_bounds(s: Seq<char>)
    ensures
        -1 <= last_dot(s) < s.len(),
    decreases s.len(),
{
    if s.len() > 0 && s.last() != '.' {
        lemma_last_dot_bounds(s.drop_last());
    }
}

/// The signed text and the signature of a token.
pub fn split_signature(token: &str) -> (r: Option<(String, String)>)
    ensures
        match r {
            Some((m, s)) => signed_parts(token@) == Some((m@, s@)),
            None => signed_parts(token@) is None,
        },
{
    let n = token.unicode_len();
    let mut j: usize = n;
    assert(token@.subrange(0, n as int) =~= token@);
    while j > 0 && token.get_char(j - 1) != '.'
        invariant
            n == token@.len(),
            j <= n,
            last_dot(token@.subrange(0, j as int)) == last_dot(token@),
        decreases j,
    {
        assert(token@.subrange(0, j as int).drop_last() =~= token@.subrange(0, j - 1));
        j = j - 1;
    }
    if j == 0 {
        assert(token@.subrange(0, 0) =~= Seq::<char>::empty());
        return None;
    }
    let m = String::from_str(token.substring_char(0, j - 1));
    let s = String::from_str(token.substring_char(j, n));
    Some((m, s))
}

/// What is wrong with the claims of a token whose signature has been checked:
/// expiry first, then issuer, then subject.
pub open spec fn claims_failure(c: JwtClaims, api_url: Seq<char>, now: int) -> Option<AuthFailure> {
    if !(now < c.exp) {
        Some(AuthFailure::ExpiredToken)
    } else if normalized_issuer(c.iss@) != normalized_issuer(api_url) {
        Some(AuthFailure::IssuerMismatch)
    } else if c.sub@.len() == 0 {
        Some(AuthFailure::MissingSubject)
    } else {
        None
    }
}

/// What is wrong with the rest of a token once its key has been chosen.
pub open spec fn keyed_failure(
    token: Seq<char>,
    api_url: Seq<char>,
    alg: Seq<char>,
    key: JwkKey,
    payload: Option<JwtClaims>,
    now: int,
) -> Option<AuthFailure> {
    if alg != rs256_name() || key.kty@ != rsa_name() {
        Some(AuthFailure::UnsupportedAlgorithm)
    } else {
        match signed_parts(token) {
            None => Some(AuthFailure::ParseError),
            Some((message, signature)) => match rs256_check(signature, message, key.n@, key.e@) {
                None => Some(AuthFailure::ParseError),
                Some(false) => Some(AuthFailure::SignatureInvalid),
                Some(true) => match payload {
                    None => Some(AuthFailure::ParseError),
                    Some(c) => claims_failure(c, api_url, now),
                },
            },
        }
    }
}

/// Why a token is refused, or `None` when it is accepted. `payload` is what
/// its payload holds, read without any check (`None` when unreadable).
pub open spec fn validation_failure(
    token: Seq<char>,
    api_url: Seq<char>,
    keys: Seq<JwkKey>,
    payload: Option<JwtClaims>,
    now: int,
) -> Option<AuthFailure> {
    match header_of(token) {
        None => Some(AuthFailure::ParseError),
        Some((alg, header_kid)) => {
            let kid = resolved_kid(header_kid, payload);
            if keys.len() == 0 {
                Some(AuthFailure::KeySetEmpty)
            } else if no_fit(keys, kid) {
                Some(AuthFailure::KeyNotFound(kid))
            } else {
                keyed_failure(token, api_url, alg, keys[first_fit(keys, kid)], payload, now)
            }
        },
    }
}

/// `a` and `b` agree on every claim but the key identifier.
pub open spec fn same_claims_but_kid(a: JwtClaims, b: JwtClaims) -> bool {
    &&& a.iss == b.iss
    &&& a.sub == b.sub
    &&& a.aud == b.aud
    &&& a.exp == b.exp
    &&& a.iat == b.iat
    &&& a.user == b.user
    &&& a.team == b.team
}

fn check_claims(c: &JwtClaims, api_url: &str, now: i64) -> (r: Option<AuthError>)
    ensures
        match r {
            Some(e) => claims_failure(*c, api_url@, now as int) == Some(e@),
            None => claims_failure(*c, api_url@, now as int) is None,
        },
{
    if !(now < c.exp) {
        return Some(AuthError::ExpiredToken);
    }
    let iss = normalize_issuer(c.iss.as_str());
    let api = normalize_issuer(api_url);
    if !(iss == api) {
        return Some(AuthError::IssuerMismatch);
    }
    if c.sub.unicode_len() == 0 {
        return Some(AuthError::MissingSubject);
    }
    None
}

/// Validates `token` for the API at `api_url` against the key set `jwks`, at
/// `now` (seconds since the Unix epoch). `payload` holds the claims that the
/// caller read, without any check, from the payload segment of `token` itself
/// (`None` when they cannot be read); they pick
/// a key only when the header names none, and are returned only once the
/// signature has been verified. On success the claims carry the resolved key
/// identifier, the header's when it has one.
pub fn validate_jwt_token(token: &str, api_url: &str, jwks: &Jwks, payload: Option<JwtClaims>, now: i64) -> (r:
    Result<JwtClaims, AuthError>)
    ensures
        match r {
            Ok(c) => {
                &&& validation_failure(token@, api_url@, jwks.keys@, payload, now as int) is None
                &&& payload is Some
                &&& same_claims_but_kid(c, payload->Some_0)
                &&& opt_view(c.kid) == resolved_kid(header_of(token@)->Some_0.1, payload)
            },
            Err(e) => validation_failure(token@, api_url@, jwks.keys@, payload, now as int) == Some(e@),
        },
{
    let header = match read_header(token) {
        Some(h) => h,
        None => return Err(AuthError::ParseError),
    };
    let kid: Option<String> = match &header.kid {
        Some(k) => Some(k.clone()),
        None => match &payload {
            Some(c) => copy_opt(&c.kid),
            None => None,
        },
    };
    assert(opt_view(kid) == resolved_kid(opt_view(header.kid), payload));
    if jwks.keys.len() == 0 {
        return Err(AuthError::KeySetEmpty);
    }
    let i = match select_key(&jwks.keys, &kid) {
        Some(i) => i,
        None => return Err(AuthError::KeyNotFound { kid }),
    };
    proof {
        lemma_first_fit_unique(jwks.keys@, opt_view(kid), i as int);
    }
    let key = &jwks.keys[i];
    let rsa = "RSA";
    let rs256 = "RS256";
    proof {
        reveal_strlit("RSA");
        reveal_strlit("RS256");
    }
    assert(rsa@ =~= rsa_name());
    assert(rs256@ =~= rs256_name());
    if !same_text(header.alg.as_str(), rs256) || !same_text(key.kty.as_str(), rsa) {
        return Err(AuthError::UnsupportedAlgorithm);
    }
    let (message, signature) = match split_signature(token) {
        Some(parts) => parts,
        None => return Err(AuthError::ParseError),
    };
    match check_rs256(signature.as_str(), message.as_str(), key.n.as_str(), key.e.as_str()) {
        None => return Err(AuthError::ParseError),
        Some(false) => return Err(AuthError::SignatureInvalid),
        Some(true) => {},
    }
    let claims = match payload {
        Some(c) => c,
        None => return Err(AuthError::ParseError),
    };
    match check_claims(&claims, api_url, now) {
        Some(e) => Err(e),
        None => Ok(JwtClaims { kid, ..claims }),
    }
}

/// A token whose header names no key but whose payload carries `kid` is
/// checked with the first key of the set that carries that `kid`.
pub proof fn lemma_payload_kid_selects_key(keys: Seq<JwkKey>, payload: JwtClaims, kid: Seq<char>, i: int)
    requires
        opt_view(payload.kid) == Some(kid),
        0 <= i < keys.len(),
        keys[i].kid@ == kid,
    ensures
        resolved_kid(None, Some(payload)) == Some(kid),
        !no_fit(keys, Some(kid)),
        keys[first_fit(keys, Some(kid))].kid@ == kid,
        first_fit(keys, Some(kid)) <= i,
{
    lemma_first_fit_exists(keys, Some(kid), i);
}

/// A token whose RS256 header names no key, whose payload carries `kid`, and
/// which the first key carrying `kid` verifies, is accepted when its claims
/// pass; the identifier it resolves to is `kid`.
pub proof fn lemma_payload_kid_token_accepted(
    token: Seq<char>,
    api_url: Seq<char>,
    keys: Seq<JwkKey>,
    payload: JwtClaims,
    kid: Seq<char>,
    i: int,
    now: int,
)
    requires
        header_of(token) == Some((rs256_name(), None::<Seq<char>>)),
        opt_view(payload.kid) == Some(kid),
        0 <= i < keys.len(),
        keys[i].kid@ == kid,
        ({
            let key = keys[first_fit(keys, Some(kid))];
            &&& key.kty@ == rsa_name()
            &&& signed_parts(token) is Some
            &&& rs256_check(signed_parts(token)->Some_0.1, signed_parts(token)->Some_0.0, key.n@, key.e@)
                == Some(true)
        }),
        claims_failure(payload, api_url, now) is None,
    ensures
        validation_failure(token, api_url, keys, Some(payload), now) is None,
        resolved_kid(header_of(token)->Some_0.1, Some(payload)) == Some(kid),
        keys[first_fit(keys, Some(kid))].kid@ == kid,
{
    lemma_payload_kid_selects_key(keys, payload, kid, i);
}

/// Key identifiers are unique within `keys`.
pub open spec fn kids_unique(keys: Seq<JwkKey>) -> bool {
    forall|i: int, j: int| 0 <= i < j < keys.len() ==> (#[trigger] keys[i]).kid@ != (#[trigger] keys[j]).kid@
}

/// In a set whose key identifiers are unique, a token whose RS256 header names
/// no key and whose payload carries `kid` is checked with the one key that
/// carries `kid`, and is accepted when that key verifies it and its claims
/// pass; its resolved identifier is `kid`.
pub proof fn lemma_payload_kid_picks_unique_key(
    token: Seq<char>,
    api_url: Seq<char>,
    keys: Seq<JwkKey>,
    payload: JwtClaims,
    kid: Seq<char>,
    i: int,
    now: int,
)
    requires
        kids_unique(keys),
        header_of(token) == Some((rs256_name(), None::<Seq<char>>)),
        opt_view(payload.kid) == Some(kid),
        0 <= i < keys.len(),
        keys[i].kid@ == kid,
        keys[i].kty@ == rsa_name(),
        signed_parts(token) is Some,
        rs256_check(signed_parts(token)->Some_0.1, signed_parts(token)->Some_0.0, keys[i].n@, keys[i].e@)
            == Some(true),
        claims_failure(payload, api_url, now) is None,
    ensures
        first_fit(keys, Some(kid)) == i,
        resolved_kid(header_of(token)->Some_0.1, Some(payload)) == Some(kid),
        validation_failure(token, api_url, keys, Some(payload), now) is None,
{
    assert forall|j: int| 0 <= j < i implies !key_fits(#[trigger] keys[j], Some(kid)) by {
        assert(keys[j].kid@ != keys[i].kid@);
    }
    assert(is_first_fit(keys, Some(kid), i));
    lemma_first_fit_unique(keys, Some(kid), i);
}

/// When some key fits, the first fitting key exists and comes no later.
pub proof fn lemma_first_fit_exists(keys: Seq<JwkKey>, kid: Option<Seq<char>>, i: int)
    requires
        0 <= i < keys.len(),
        key_fits(keys[i], kid),
    ensures
        is_first_fit(keys, kid, first_fit(keys, kid)),
        first_fit(keys, kid) <= i,
    decreases i,
{
    if forall|j: int| 0 <= j < i ==> !key_fits(#[trigger] keys[j], kid) {
        assert(is_first_fit(keys, kid, i));
        lemma_first_fit_unique(keys, kid, i);
    } else {
        let j = choose|j: int| 0 <= j < i && key_fits(#[trigger] keys[j], kid);
        lemma_first_fit_exists(keys, kid, j);
    }
}

/// A token whose resolved key identifier names no key of a non-empty set is
/// refused with `KeyNotFound`, before any signature is checked.
pub proof fn lemma_absent_key_not_found(
    token: Seq<char>,
    api_url: Seq<char>,
    keys: Seq<JwkKey>,
    payload: Option<JwtClaims>,
    now: int,
    kid: Seq<char>,
)
    requires
        header_of(token) is Some,
        resolved_kid(header_of(token)->Some_0.1, payload) == Some(kid),
        keys.len() > 0,
        forall|j: int| 0 <= j < keys.len() ==> (#[trigger] keys[j]).kid@ != kid,
    ensures
        validation_failure(token, api_url, keys, payload, now) == Some(AuthFailure::KeyNotFound(Some(kid))),
        validation_failure(token, api_url, keys, payload, now) != Some(AuthFailure::SignatureInvalid),
{
}

/// A token whose signature verifies under the chosen key but whose expiry is
/// not after `now` is refused with `ExpiredToken`, whatever its issuer and
/// subject.
pub proof fn lemma_expired_token_refused(
    token: Seq<char>,
    api_url: Seq<char>,
    keys: Seq<JwkKey>,
    payload: JwtClaims,
    now: int,
)
    requires
        header_of(token) is Some,
        header_of(token)->Some_0.0 == rs256_name(),
        !no_fit(keys, resolved_kid(header_of(token)->Some_0.1, Some(payload))),
        ({
            let key = keys[first_fit(keys, resolved_kid(header_of(token)->Some_0.1, Some(payload)))];
            &&& key.kty@ == rsa_name()
            &&& signed_parts(token) is Some
            &&& rs256_check(signed_parts(token)->Some_0.1, signed_parts(token)->Some_0.0, key.n@, key.e@)
                == Some(true)
        }),
        payload.exp <= now,
    ensures
        validation_failure(token, api_url, keys, Some(payload), now) == Some(AuthFailure::ExpiredToken),
{
    let kid = resolved_kid(header_of(token)->Some_0.1, Some(payload));
    let w = choose|j: int| 0 <= j < keys.len() && key_fits(#[trigger] keys[j], kid);
    lemma_first_fit_exists(keys, kid, w);
}

/// How long a token still has, broken down for display.
#[derive(Debug, Clone, Copy, PartialEq, Eq, Structural)]
pub enum TimeLeft {
    Expired,
    /// More than a day: whole days and the hours beyond them.
    Days { days: u64, hours: u64 },
    /// Between one hour and a day: hours and the minutes beyond them.
    Hours { hours: u64, minutes: u64 },
    /// Under an hour: whole minutes.
    Minutes { minutes: u64 },
}

/// The time left until `exp` at `now`: none once `now` has reached `exp`;
/// else days and hours above 24 hours, hours and minutes above one hour,
/// minutes below.
pub open spec fn time_left_spec(exp: int, now: int) -> TimeLeft {
    let r = exp - now;
    let h = r / 3600;
    let m = (r % 3600) / 60;
    if r <= 0 {
        TimeLeft::Expired
    } else if h > 24 {
        TimeLeft::Days { days: (h / 24) as u64, hours: (h % 24) as u64 }
    } else if h > 0 {
        TimeLeft::Hours { hours: h as u64, minutes: m as u64 }
    } else {
        TimeLeft::Minutes { minutes: m as u64 }
    }
}

/// How long the token with expiry `exp` still has at `now`.
pub fn time_left(exp: i64, now: i64) -> (r: TimeLeft)
    ensures
        r == time_left_spec(exp as int, now as int),
{
    if exp <= now {
        return TimeLeft::Expired;
    }
    let rem: u64 = (exp as i128 - now as i128) as u64;
    let h = rem / 3600;
    let m = (rem % 3600) / 60;
    if h > 24 {
        TimeLeft::Days { days: h / 24, hours: h % 24 }
    } else if h > 0 {
        TimeLeft::Hours { hours: h, minutes: m }
    } else {
        TimeLeft::Minutes { minutes: m }
    }
}

/// Whether the token has expired at `now`: it is valid only while `now` is
/// before its expiry.
pub fn is_token_expired(claims: &JwtClaims, now: i64) -> (r: bool)
    ensures
        r == (claims.exp <= now),
{
    claims.exp <= now
}

} // verus!
