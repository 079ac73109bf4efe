//! Sessions: signed tokens, their revocation, and passwords.
//!
//! A token says whose it is, in which role, until when, and under which id. A token that was
//! revoked is refused until it has expired.

use dashmap::DashMap;
use vstd::prelude::*;

use crate::error::{AppError, AppErrorView};
use crate::models::{is_random_uuid, new_id, UserRole};
use crate::text::{join2, same_text, strip_prefix, without_prefix};
use crate::timestamp::{is_clock_reading, Timestamp, TimestampView, MAX_SECS, MIN_SECS};
use crate::ws_client::no_entries;

verus! {

#[derive(Debug)]
pub struct Claims {
    /// The id of the user.
    pub sub: String,
    /// `admin` or `trader`.
    pub role: String,
    /// Unix timestamp in seconds.
    pub exp: u64,
    /// The id of the token, by which it can be revoked.
    pub jti: String,
}

#[verifier::ext_equal]
pub struct ClaimsView {
    pub sub: Seq<char>,
    pub role: Seq<char>,
    pub exp: u64,
    pub jti: Seq<char>,
}

impl View for Claims {
    type V = ClaimsView;

    open spec fn view(&self) -> ClaimsView {
        ClaimsView {
            sub: self.sub@,
            role: self.role@,
            exp: self.exp,
            jti: self.jti@,
        }
    }
}

impl DeepView for Claims {
    type V = ClaimsView;

    open spec fn deep_view(&self) -> ClaimsView {
        self@
    }
}

impl Clone for Claims {
    fn clone(&self) -> (r: Self)
        ensures
            r@ == self@,
    {
        Claims {
            sub: self.sub.clone(),
            role: self.role.clone(),
            exp: self.exp,
            jti: self.jti.clone(),
        }
    }
}

/// What a signed token says; a field that it lacks, or that is of another type, is none.
#[derive(Debug)]
pub struct TokenFields {
    pub sub: Option<String>,
    pub role: Option<String>,
    pub exp: Option<u64>,
    pub jti: Option<String>,
}

#[verifier::ext_equal]
pub struct TokenFieldsView {
    pub sub: Option<Seq<char>>,
    pub role: Option<Seq<char>>,
    pub exp: Option<u64>,
    pub jti: Option<Seq<char>>,
}

impl View for TokenFields {
    type V = TokenFieldsView;

    open spec fn view(&self) -> TokenFieldsView {
        TokenFieldsView {
            sub: self.sub.deep_view(),
            role: self.role.deep_view(),
            exp: self.exp,
            jti: self.jti.deep_view(),
        }
    }
}

impl DeepView for TokenFields {
    type V = TokenFieldsView;

    open spec fn deep_view(&self) -> TokenFieldsView {
        self@
    }
}

/// The revoked tokens: the id of each, and when it expires.
pub type TokenBlocklist = DashMap<String, u64>;

/// The token ids that a revocation list holds, each with its expiry.
pub uninterp spec fn revoked_in(blocklist: TokenBlocklist) -> Map<Seq<char>, u64>;

/// `dashmap::DashMap::new` makes a map that holds nothing.
#[verifier::external_body]
pub(crate) fn empty_blocklist() -> (r: TokenBlocklist)
    ensures
        revoked_in(r) == no_entries::<u64>(),
{
    DashMap::new()
}

/// `dashmap::DashMap::contains_key` says whether the map holds a value under the key.
#[verifier::external_body]
pub(crate) fn is_listed(blocklist: &TokenBlocklist, jti: &str) -> (r: bool)
    ensures
        r == revoked_in(*blocklist).dom().contains(jti@),
{
    blocklist.contains_key(jti)
}

/// `dashmap::DashMap::insert` puts the value under the key, in place of what was there, and
/// leaves everything else as it is. The wrapper drops the value that was there.
#[verifier::external_body]
pub(crate) fn list_token(blocklist: &mut TokenBlocklist, jti: String, exp: u64)
    ensures
        revoked_in(*final(blocklist)) == revoked_in(*old(blocklist)).insert(jti@, exp),
{
    blocklist.insert(jti, exp);
}

/// Whether a revoked token is to be remembered: it has not expired.
fn is_unexpired(exp: u64, now: u64) -> (r: bool)
    ensures
        r == (exp > now),
{
    exp > now
}

/// The revoked tokens that have not expired.
pub open spec fn unexpired(revoked: Map<Seq<char>, u64>, now: u64) -> Map<Seq<char>, u64> {
    revoked.restrict(Set::new(|jti: Seq<char>| revoked.dom().contains(jti) && revoked[jti] > now))
}

/// `dashmap::DashMap::retain` keeps the entries for which the given function holds, and no
/// others.
#[verifier::external_body]
pub(crate) fn retain_unexpired(blocklist: &mut TokenBlocklist, now: u64)
    ensures
        revoked_in(*final(blocklist)) == unexpired(revoked_in(*old(blocklist)), now),
{
    blocklist.retain(|_, exp| is_unexpired(*exp, now));
}

/// An empty revocation list.
pub fn new_token_blocklist() -> (r: TokenBlocklist)
    ensures
        revoked_in(r) == no_entries::<u64>(),
{
    empty_blocklist()
}

/// Forgets the revoked tokens that have expired.
pub fn purge_expired(blocklist: &mut TokenBlocklist, now: u64)
    ensures
        revoked_in(*final(blocklist)) == unexpired(revoked_in(*old(blocklist)), now),
{
    retain_unexpired(blocklist, now);
}

/// What `jsonwebtoken::decode` reads from a token that is signed with the secret, when it does not
/// look at the time: the fields, or the text of its error.
pub uninterp spec fn token_fields(token: Seq<char>, secret: Seq<char>) -> Result<
    TokenFieldsView,
    Seq<char>,
>;

/// What `jsonwebtoken::decode` makes of a token and a secret when it looks at the time too, and
/// the clock shows the given time: the fields, or the text of its error.
pub uninterp spec fn token_validated(
    token: Seq<char>,
    secret: Seq<char>,
    now: TimestampView,
) -> Result<TokenFieldsView, Seq<char>>;

/// The seconds for which `jsonwebtoken` accepts a token past its expiry.
pub const LEEWAY_SECS: u64 = 60;

/// Whether this is what validating a token gives at some reading of the clock.
pub open spec fn validated_once(
    token: Seq<char>,
    secret: Seq<char>,
    validated: Result<TokenFieldsView, Seq<char>>,
) -> bool {
    exists|now: TimestampView|
        is_clock_reading(now) && validated == #[trigger] token_validated(token, secret, now)
}

/// What validating a token with these claims gives at a time: the fields, until the token is past
/// its expiry by more than the leeway.
pub open spec fn validated_at(claims: ClaimsView, now: TimestampView) -> Result<
    TokenFieldsView,
    Seq<char>,
> {
    if claims.exp < now.secs - LEEWAY_SECS {
        Err("ExpiredSignature"@)
    } else {
        Ok(claims.fields())
    }
}

/// Whether a token is accepted with these claims until it has expired, and refused from then on.
pub open spec fn good_until_expired(
    token: Seq<char>,
    secret: Seq<char>,
    claims: ClaimsView,
) -> bool {
    forall|now: TimestampView|
        is_clock_reading(now) && now.secs >= LEEWAY_SECS ==> #[trigger] token_validated(
            token,
            secret,
            now,
        ) == validated_at(claims, now)
}

/// What `jsonwebtoken::encode` makes of claims and a secret.
pub uninterp spec fn signed_token(claims: ClaimsView, secret: Seq<char>) -> Result<
    Seq<char>,
    Seq<char>,
>;

impl ClaimsView {
    /// The fields of a token with these claims.
    pub open spec fn fields(self) -> TokenFieldsView {
        TokenFieldsView {
            sub: Some(self.sub),
            role: Some(self.role),
            exp: Some(self.exp),
            jti: Some(self.jti),
        }
    }
}

/// `jsonwebtoken::encode` signs the claims with HS256: a function of the claims and the secret.
/// `jsonwebtoken::decode` finds the same claims in the token, under the same secret. Where it
/// looks at the time, it refuses the token once its expiry is past by more than the leeway of a
/// minute. (In the first minute of 1970 the time less the leeway is no number; of that nothing is
/// said.)
#[verifier::external_body]
pub(crate) fn sign_claims(claims: &Claims, secret: &str) -> (r: Result<String, String>)
    ensures
        match r {
            Ok(token) => signed_token(claims@, secret@) == Ok::<Seq<char>, Seq<char>>(token@)
                && token_fields(token@, secret@) == Ok::<TokenFieldsView, Seq<char>>(
                claims@.fields(),
            ) && forall|now: TimestampView|
                is_clock_reading(now) && now.secs >= LEEWAY_SECS ==> #[trigger] token_validated(
                    token@,
                    secret@,
                    now,
                ) == validated_at(claims@, now),
            Err(text) => signed_token(claims@, secret@) == Err::<Seq<char>, Seq<char>>(text@),
        },
{
    let mut map = serde_json::Map::new();
    map.insert("sub".to_string(), serde_json::Value::from(claims.sub.as_str()));
    map.insert("role".to_string(), serde_json::Value::from(claims.role.as_str()));
    map.insert("exp".to_string(), serde_json::Value::from(claims.exp));
    map.insert("jti".to_string(), serde_json::Value::from(claims.jti.as_str()));
    let key = jsonwebtoken::EncodingKey::from_secret(secret.as_bytes());
    jsonwebtoken::encode(&jsonwebtoken::Header::default(), &map, &key).map_err(|e| e.to_string())
}

/// The view of what reading a token gave.
pub open spec fn read_result(read: Result<TokenFields, String>) -> Result<
    TokenFieldsView,
    Seq<char>,
> {
    match read {
        Ok(fields) => Ok(fields@),
        Err(text) => Err(text@),
    }
}

/// `jsonwebtoken::decode` checks the form of a token and its HS256 signature, and reads its
/// fields: a function of the token and the secret. Where it is to validate the claims too, it
/// also looks at the expiry, and what it gives is a function of the token, the secret and what the
/// clock shows. What it reads from a token that it accepts is the same.
#[verifier::external_body]
pub(crate) fn read_token(token: &str, secret: &str, validate: bool) -> (r: Result<
    TokenFields,
    String,
>)
    ensures
        !validate ==> read_result(r) == token_fields(token@, secret@),
        validate ==> validated_once(token@, secret@, read_result(r)),
        r is Ok ==> read_result(r) == token_fields(token@, secret@),
{
    let mut validation = jsonwebtoken::Validation::new(jsonwebtoken::Algorithm::HS256);
    validation.validate_exp = validate;
    validation.validate_aud = validate;
    validation.set_required_spec_claims::<String>(&[]);
    let key = jsonwebtoken::DecodingKey::from_secret(secret.as_bytes());
    jsonwebtoken::decode::<serde_json::Value>(token, &key, &validation)
        .map_err(|e| e.to_string())
        .map(|data| TokenFields {
            sub: data.claims["sub"].as_str().map(|s| s.to_string()),
            role: data.claims["role"].as_str().map(|s| s.to_string()),
            exp: data.claims["exp"].as_u64(),
            jti: data.claims["jti"].as_str().map(|s| s.to_string()),
        })
}

/// When a token expires that is made at `secs` for a number of hours. The hours count as a signed
/// number, and so does the time that comes out; `None` where there is no such time.
pub open spec fn token_expiry(secs: int, expiry_hours: u64) -> Option<u64> {
    let hours = if expiry_hours <= i64::MAX {
        expiry_hours as int
    } else {
        expiry_hours - 0x1_0000_0000_0000_0000
    };
    let exp = secs + hours * 3600;
    if exp < MIN_SECS || exp > MAX_SECS {
        None
    } else if exp < 0 {
        Some((exp + 0x1_0000_0000_0000_0000) as u64)
    } else {
        Some(exp as u64)
    }
}

pub fn expiry_of(now: Timestamp, expiry_hours: u64) -> (r: Option<u64>)
    ensures
        r == token_expiry(now@.secs, expiry_hours),
{
    let secs: i128 = now.secs() as i128;
    let hours: i128 = if expiry_hours <= i64::MAX as u64 {
        expiry_hours as i128
    } else {
        expiry_hours as i128 - 0x1_0000_0000_0000_0000
    };
    let exp: i128 = secs + hours * 3600;
    if exp < MIN_SECS as i128 || exp > MAX_SECS as i128 {
        None
    } else if exp < 0 {
        Some((exp + 0x1_0000_0000_0000_0000) as u64)
    } else {
        Some(exp as u64)
    }
}

/// What making a token comes to.
pub open spec fn token_made(
    user_id: Seq<char>,
    role: Seq<char>,
    secret: Seq<char>,
    expiry_hours: u64,
    jti: Seq<char>,
    now: TimestampView,
) -> Result<Seq<char>, AppErrorView> {
    match token_expiry(now.secs, expiry_hours) {
        None => Err(AppErrorView::Overflow),
        Some(exp) => match signed_token(ClaimsView { sub: user_id, role, exp, jti }, secret) {
            Ok(token) => Ok(token),
            Err(text) => Err(AppErrorView::Internal(text)),
        },
    }
}

/// The view of a result that holds a text.
pub open spec fn text_result(r: Result<String, AppError>) -> Result<Seq<char>, AppErrorView> {
    match r {
        Ok(text) => Ok(text@),
        Err(e) => Err(e@),
    }
}

/// Whether a token is signed with the secret for a user in a role, made at a time for a number of
/// hours under a token id; and is accepted until it has expired.
pub open spec fn issued(
    token: Seq<char>,
    secret: Seq<char>,
    user_id: Seq<char>,
    role: Seq<char>,
    expiry_hours: u64,
    jti: Seq<char>,
    now: TimestampView,
) -> bool {
    match token_expiry(now.secs, expiry_hours) {
        Some(exp) => {
            let claims = ClaimsView { sub: user_id, role, exp, jti };
            &&& token_fields(token, secret) == Ok::<TokenFieldsView, Seq<char>>(claims.fields())
            &&& good_until_expired(token, secret, claims)
        },
        None => false,
    }
}

/// Makes a token with a given id at a given time.
pub fn create_token_as(
    user_id: &str,
    role: &str,
    secret: &str,
    expiry_hours: u64,
    jti: String,
    now: Timestamp,
) -> (r: Result<String, AppError>)
    ensures
        text_result(r) == token_made(user_id@, role@, secret@, expiry_hours, jti@, now@),
        r matches Ok(token) ==> issued(
            token@,
            secret@,
            user_id@,
            role@,
            expiry_hours,
            jti@,
            now@,
        ),
{
    let exp = match expiry_of(now, expiry_hours) {
        Some(exp) => exp,
        None => return Err(AppError::Overflow),
    };
    let claims = Claims { sub: user_id.to_owned(), role: role.to_owned(), exp, jti };
    match sign_claims(&claims, secret) {
        Ok(token) => Ok(token),
        Err(text) => Err(AppError::Internal(text)),
    }
}

/// Makes a token for a user.
pub fn create_token(user_id: &str, role: &str, secret: &str, expiry_hours: u64) -> (r: Result<
    String,
    AppError,
>)
    ensures
        exists|jti: Seq<char>, now: TimestampView|
            {
                &&& is_random_uuid(jti)
                &&& is_clock_reading(now)
                &&& text_result(r) == #[trigger] token_made(
                    user_id@,
                    role@,
                    secret@,
                    expiry_hours,
                    jti,
                    now,
                )
                &&& r matches Ok(token) ==> issued(
                    token@,
                    secret@,
                    user_id@,
                    role@,
                    expiry_hours,
                    jti,
                    now,
                )
            },
{
    let jti = new_id();
    let now = Timestamp::now();
    create_token_as(user_id, role, secret, expiry_hours, jti, now)
}

/// The claims that a token's fields make, where none is missing.
pub open spec fn claims_in(fields: TokenFieldsView) -> Result<ClaimsView, AppErrorView> {
    match fields {
        TokenFieldsView { sub: None, .. } => Err(
            AppErrorView::Unauthorized("JSON error: missing field `sub`"@),
        ),
        TokenFieldsView { role: None, .. } => Err(
            AppErrorView::Unauthorized("JSON error: missing field `role`"@),
        ),
        TokenFieldsView { exp: None, .. } => Err(
            AppErrorView::Unauthorized("JSON error: missing field `exp`"@),
        ),
        TokenFieldsView { jti: None, .. } => Err(
            AppErrorView::Unauthorized("JSON error: missing field `jti`"@),
        ),
        TokenFieldsView { sub: Some(sub), role: Some(role), exp: Some(exp), jti: Some(jti) } => Ok(
            ClaimsView { sub, role, exp, jti },
        ),
    }
}

/// The view of a result that holds claims.
pub open spec fn claims_result(r: Result<Claims, AppError>) -> Result<ClaimsView, AppErrorView> {
    match r {
        Ok(claims) => Ok(claims@),
        Err(e) => Err(e@),
    }
}

pub fn claims_of(fields: TokenFields) -> (r: Result<Claims, AppError>)
    ensures
        claims_result(r) == claims_in(fields@),
{
    let sub = match fields.sub {
        Some(sub) => sub,
        None => return Err(
            AppError::Unauthorized("JSON error: missing field `sub`".to_owned()),
        ),
    };
    let role = match fields.role {
        Some(role) => role,
        None => return Err(
            AppError::Unauthorized("JSON error: missing field `role`".to_owned()),
        ),
    };
    let exp = match fields.exp {
        Some(exp) => exp,
        None => return Err(
            AppError::Unauthorized("JSON error: missing field `exp`".to_owned()),
        ),
    };
    let jti = match fields.jti {
        Some(jti) => jti,
        None => return Err(
            AppError::Unauthorized("JSON error: missing field `jti`".to_owned()),
        ),
    };
    Ok(Claims { sub, role, exp, jti })
}

/// What a token comes to: from what reading it gave, its fields or why it is refused; then from
/// what a parser of claims found wrong with its payload, if anything; and then, where no field is
/// missing, from what validating it gave.
pub open spec fn accepted(
    read: Result<TokenFieldsView, Seq<char>>,
    fault: Option<Seq<char>>,
    validated: Result<TokenFieldsView, Seq<char>>,
) -> Result<ClaimsView, AppErrorView> {
    match (read, fault) {
        (Err(text), _) => Err(AppErrorView::Unauthorized(text)),
        (Ok(_), Some(text)) => Err(AppErrorView::Unauthorized("JSON error: "@ + text)),
        (Ok(fields), None) => match (claims_in(fields), validated) {
            (Err(e), _) => Err(e),
            (Ok(_), Err(text)) => Err(AppErrorView::Unauthorized(text)),
            (Ok(claims), Ok(_)) => Ok(claims),
        },
    }
}

/// Decides on a token from what reading, parsing and validating it gave.
pub fn accept_token(
    read: Result<TokenFields, String>,
    fault: Option<String>,
    validated: Result<TokenFields, String>,
) -> (r: Result<Claims, AppError>)
    ensures
        claims_result(r) == accepted(read_result(read), fault.deep_view(), read_result(validated)),
{
    let fields = match read {
        Ok(fields) => fields,
        Err(text) => return Err(AppError::Unauthorized(text)),
    };
    if let Some(text) = fault {
        return Err(AppError::Unauthorized(join2("JSON error: ", &text)));
    }
    let claims = match claims_of(fields) {
        Ok(claims) => claims,
        Err(e) => return Err(e),
    };
    match validated {
        Ok(_) => Ok(claims),
        Err(text) => Err(AppError::Unauthorized(text)),
    }
}

/// What checking a token comes to when the clock shows a time.
pub open spec fn verdict_at(
    token: Seq<char>,
    secret: Seq<char>,
    fault: Option<Seq<char>>,
    now: TimestampView,
) -> Result<ClaimsView, AppErrorView> {
    accepted(token_fields(token, secret), fault, token_validated(token, secret, now))
}

/// Whether checking a token comes to this at some reading of the clock. A token that is not signed
/// with the secret, or lacks a field, is refused for that whatever the time is.
pub open spec fn token_verdict(
    token: Seq<char>,
    secret: Seq<char>,
    fault: Option<Seq<char>>,
    r: Result<ClaimsView, AppErrorView>,
) -> bool {
    exists|now: TimestampView|
        is_clock_reading(now) && r == #[trigger] verdict_at(token, secret, fault, now)
}

/// Verifies a token, as of now.
pub fn verify_token(token: &str, secret: &str) -> (r: Result<Claims, AppError>)
    ensures
        token_verdict(token@, secret@, None, claims_result(r)),
{
    verify_token_parsed(token, secret, None)
}

/// Verifies a token, as of now, given what a parser of claims found wrong with its payload: the
/// claims that are accepted are always those that are read from the token here.
pub fn verify_token_parsed(token: &str, secret: &str, fault: Option<String>) -> (r: Result<
    Claims,
    AppError,
>)
    ensures
        token_verdict(token@, secret@, fault.deep_view(), claims_result(r)),
{
    let read = read_token(token, secret, false);
    let validated = read_token(token, secret, true);
    let ghost now = choose|now: TimestampView|
        is_clock_reading(now) && read_result(validated) == #[trigger] token_validated(
            token@,
            secret@,
            now,
        );
    let r = accept_token(read, fault, validated);
    assert(claims_result(r) == verdict_at(token@, secret@, fault.deep_view(), now));
    r
}

/// Refuses claims whose token is revoked.
pub open spec fn unless_revoked(
    claims: ClaimsView,
    revoked: Map<Seq<char>, u64>,
) -> Result<ClaimsView, AppErrorView> {
    if revoked.dom().contains(claims.jti) {
        Err(AppErrorView::Unauthorized("Token has been revoked"@))
    } else {
        Ok(claims)
    }
}

/// Returns Unauthorized if the token's jti is in the revocation list.
pub fn check_not_revoked(claims: &Claims, blocklist: &TokenBlocklist) -> (r: Result<(), AppError>)
    ensures
        match r {
            Ok(_) => unless_revoked(claims@, revoked_in(*blocklist)) == Ok::<
                ClaimsView,
                AppErrorView,
            >(claims@),
            Err(e) => unless_revoked(claims@, revoked_in(*blocklist)) == Err::<
                ClaimsView,
                AppErrorView,
            >(e@),
        },
{
    if is_listed(blocklist, &claims.jti) {
        return Err(AppError::Unauthorized("Token has been revoked".to_owned()));
    }
    Ok(())
}

/// What the check of a token comes to, once the revoked tokens are refused too.
pub open spec fn admitted(
    verdict: Result<ClaimsView, AppErrorView>,
    revoked: Map<Seq<char>, u64>,
) -> Result<ClaimsView, AppErrorView> {
    match verdict {
        Ok(claims) => unless_revoked(claims, revoked),
        Err(e) => Err(e),
    }
}

/// Refuses a token that is not accepted or is revoked.
pub fn admit_token(verdict: Result<Claims, AppError>, blocklist: &TokenBlocklist) -> (r: Result<
    Claims,
    AppError,
>)
    ensures
        claims_result(r) == admitted(claims_result(verdict), revoked_in(*blocklist)),
{
    let claims = match verdict {
        Ok(claims) => claims,
        Err(e) => return Err(e),
    };
    match check_not_revoked(&claims, blocklist) {
        Ok(_) => Ok(claims),
        Err(e) => Err(e),
    }
}

/// The token in an `Authorization: Bearer <token>` header.
pub open spec fn bearer_token(header: Option<Seq<char>>) -> Result<Seq<char>, AppErrorView> {
    match header {
        None => Err(AppErrorView::Unauthorized("Missing Authorization header"@)),
        Some(value) => match without_prefix(value, "Bearer "@) {
            None => Err(AppErrorView::Unauthorized("Invalid Authorization format"@)),
            Some(token) => Ok(token),
        },
    }
}

pub fn token_in_header(header: Option<&str>) -> (r: Result<String, AppError>)
    ensures
        text_result(r) == bearer_token(header_text(header)),
{
    let value = match header {
        Some(value) => value,
        None => return Err(AppError::Unauthorized("Missing Authorization header".to_owned())),
    };
    match strip_prefix(value, "Bearer ") {
        Some(token) => Ok(token),
        None => Err(AppError::Unauthorized("Invalid Authorization format".to_owned())),
    }
}

/// Whether an `Authorization` header comes to this at some reading of the clock, given the revoked
/// tokens.
pub open spec fn header_verdict(
    header: Option<Seq<char>>,
    secret: Seq<char>,
    revoked: Map<Seq<char>, u64>,
    fault: Option<Seq<char>>,
    r: Result<ClaimsView, AppErrorView>,
) -> bool {
    match bearer_token(header) {
        Err(e) => r == Err::<ClaimsView, AppErrorView>(e),
        Ok(token) => exists|now: TimestampView|
            is_clock_reading(now) && r == admitted(
                #[trigger] verdict_at(token, secret, fault, now),
                revoked,
            ),
    }
}

/// The view of a header that may be missing.
pub open spec fn header_text(header: Option<&str>) -> Option<Seq<char>> {
    match header {
        Some(value) => Some(value@),
        None => None,
    }
}

/// Extracts and verifies the claims from `Authorization: Bearer <token>`, and checks the
/// revocation list.
pub fn extract_claims(header: Option<&str>, secret: &str, blocklist: &TokenBlocklist) -> (r: Result<
    Claims,
    AppError,
>)
    ensures
        header_verdict(
            header_text(header),
            secret@,
            revoked_in(*blocklist),
            None,
            claims_result(r),
        ),
{
    extract_claims_parsed(header, secret, blocklist, None)
}

/// Extracts and verifies the claims, given what a parser of claims found wrong with the payload of
/// the token.
pub fn extract_claims_parsed(
    header: Option<&str>,
    secret: &str,
    blocklist: &TokenBlocklist,
    fault: Option<String>,
) -> (r: Result<Claims, AppError>)
    ensures
        header_verdict(
            header_text(header),
            secret@,
            revoked_in(*blocklist),
            fault.deep_view(),
            claims_result(r),
        ),
{
    let token = match token_in_header(header) {
        Ok(token) => token,
        Err(e) => return Err(e),
    };
    let ghost found = fault.deep_view();
    let verified = verify_token_parsed(&token, secret, fault);
    let ghost now = choose|now: TimestampView|
        is_clock_reading(now) && claims_result(verified) == #[trigger] verdict_at(
            token@,
            secret@,
            found,
            now,
        );
    let r = admit_token(verified, blocklist);
    assert(claims_result(r) == admitted(
        verdict_at(token@, secret@, found, now),
        revoked_in(*blocklist),
    ));
    r
}

/// Whether claims are those of an administrator.
pub open spec fn is_admin(claims: ClaimsView) -> bool {
    claims.role == UserRole::Admin.name()
}

/// Asserts that the caller has the admin role.
pub fn require_admin(claims: &Claims) -> (r: Result<(), AppError>)
    ensures
        match r {
            Ok(_) => is_admin(claims@),
            Err(e) => !is_admin(claims@) && e@ == AppErrorView::Forbidden("Admin only"@),
        },
{
    if !same_text(&claims.role, UserRole::Admin.as_str()) {
        return Err(AppError::Forbidden("Admin only".to_owned()));
    }
    Ok(())
}

/// A token that is accepted gives back the user, the role, the token id and the expiry that it was
/// issued with; one that is not is answered as unauthorized. The expiry is as many hours after
/// the time at which the token was made as were asked for.
pub proof fn law_claims_come_back(
    token: Seq<char>,
    secret: Seq<char>,
    user_id: Seq<char>,
    role: Seq<char>,
    expiry_hours: u64,
    jti: Seq<char>,
    now: TimestampView,
    verdict: Result<ClaimsView, AppErrorView>,
)
    requires
        issued(token, secret, user_id, role, expiry_hours, jti, now),
        token_verdict(token, secret, None, verdict),
    ensures
        match verdict {
            Ok(claims) => {
                &&& claims.sub == user_id
                &&& claims.role == role
                &&& claims.jti == jti
                &&& token_expiry(now.secs, expiry_hours) == Some(claims.exp)
                &&& now.secs >= 0 && expiry_hours <= i64::MAX ==> claims.exp == now.secs + 3600
                    * expiry_hours
            },
            Err(e) => e is Unauthorized,
        },
{
}

/// A token is accepted, with the claims that it was issued with, until its expiry is past by more
/// than the leeway; from then on it is answered as expired.
pub proof fn law_accepted_until_expired(
    token: Seq<char>,
    secret: Seq<char>,
    user_id: Seq<char>,
    role: Seq<char>,
    expiry_hours: u64,
    jti: Seq<char>,
    now: TimestampView,
    later: TimestampView,
)
    requires
        issued(token, secret, user_id, role, expiry_hours, jti, now),
        is_clock_reading(later),
        later.secs >= LEEWAY_SECS,
    ensures
        token_expiry(now.secs, expiry_hours) matches Some(exp) && verdict_at(
            token,
            secret,
            None,
            later,
        ) == if exp < later.secs - LEEWAY_SECS {
            Err::<ClaimsView, AppErrorView>(AppErrorView::Unauthorized("ExpiredSignature"@))
        } else {
            Ok(ClaimsView { sub: user_id, role, exp, jti })
        },
{
}

/// A request with an issued token that has not expired and is not revoked is let in, for the user
/// and in the role that the token was issued for.
pub proof fn law_session_lasts(
    token: Seq<char>,
    secret: Seq<char>,
    user_id: Seq<char>,
    role: Seq<char>,
    expiry_hours: u64,
    jti: Seq<char>,
    now: TimestampView,
    later: TimestampView,
    revoked: Map<Seq<char>, u64>,
)
    requires
        issued(token, secret, user_id, role, expiry_hours, jti, now),
        is_clock_reading(now),
        is_clock_reading(later),
        later.secs >= LEEWAY_SECS,
        expiry_hours <= i64::MAX,
        later.secs <= now.secs + 3600 * expiry_hours,
        !revoked.dom().contains(jti),
    ensures
        bearer_token(Some("Bearer "@ + token)) == Ok::<Seq<char>, AppErrorView>(token),
        admitted(verdict_at(token, secret, None, later), revoked) matches Ok(claims) && claims.sub
            == user_id && claims.role == role && claims.jti == jti,
{
    lemma_bearer(token);
    law_accepted_until_expired(token, secret, user_id, role, expiry_hours, jti, now, later);
}

proof fn lemma_bearer(token: Seq<char>)
    ensures
        bearer_token(Some("Bearer "@ + token)) == Ok::<Seq<char>, AppErrorView>(token),
{
    let header = "Bearer "@ + token;
    let prefix = "Bearer "@;
    assert(header.take(prefix.len() as int) =~= prefix);
    assert(header.skip(prefix.len() as int) =~= token);
}

/// A token for a million hours or fewer can be made at every time but the last million hours.
pub proof fn law_expiry_is_in_range(secs: int, expiry_hours: u64)
    requires
        0 <= secs <= MAX_SECS - 3_600_000_000,
        expiry_hours <= 1_000_000,
    ensures
        token_expiry(secs, expiry_hours) == Some((secs + 3600 * expiry_hours) as u64),
{
}

/// A request with a revoked token is answered as unauthorized, whatever the time is.
pub proof fn law_revoked_is_refused(
    token: Seq<char>,
    secret: Seq<char>,
    user_id: Seq<char>,
    role: Seq<char>,
    expiry_hours: u64,
    jti: Seq<char>,
    now: TimestampView,
    revoked: Map<Seq<char>, u64>,
    r: Result<ClaimsView, AppErrorView>,
)
    requires
        issued(token, secret, user_id, role, expiry_hours, jti, now),
        revoked.dom().contains(jti),
        header_verdict(Some("Bearer "@ + token), secret, revoked, None, r),
    ensures
        r is Err && r->Err_0 is Unauthorized,
{
    lemma_bearer(token);
    let then = choose|then: TimestampView|
        is_clock_reading(then) && r == admitted(
            #[trigger] verdict_at(token, secret, None, then),
            revoked,
        );
    let verdict = verdict_at(token, secret, None, then);
    law_claims_come_back(token, secret, user_id, role, expiry_hours, jti, now, verdict);
}

/// A token that was revoked stays revoked for as long as it has not expired, whatever is purged
/// and whatever else is revoked, and no other token is refused on its account.
pub proof fn law_revoked_until_expired(
    revoked: Map<Seq<char>, u64>,
    jti: Seq<char>,
    exp: u64,
    other: Seq<char>,
    other_exp: u64,
    now: u64,
)
    requires
        other != jti,
    ensures
        unexpired(revoked.insert(jti, exp), now).dom().contains(jti) == (exp > now),
        revoked.insert(jti, exp).insert(other, other_exp).dom().contains(jti),
        revoked.insert(jti, exp).dom().contains(other) == revoked.dom().contains(other),
        unexpired(revoked, now).dom().contains(jti) ==> revoked.dom().contains(jti)
            && revoked[jti] > now,
{
}

/// What `bcrypt::verify` says of a password and a hash: whether they belong together, or the text
/// of its error.
pub uninterp spec fn password_verdict(password: Seq<char>, hash: Seq<char>) -> Result<
    bool,
    Seq<char>,
>;

/// `bcrypt::hash` hashes a password with a random salt at the default cost. `bcrypt::verify`
/// finds the password and the hash to belong together.
#[verifier::external_body]
pub(crate) fn hash_password(password: &str) -> (r: Result<String, String>)
    ensures
        r matches Ok(hash) ==> (password_verdict(password@, hash@) matches Ok(valid) && valid),
{
    bcrypt::hash(password, bcrypt::DEFAULT_COST).map_err(|e| e.to_string())
}

/// `bcrypt::verify` is a function of the password and the hash.
#[verifier::external_body]
pub(crate) fn check_password(password: &str, hash: &str) -> (r: Result<bool, String>)
    ensures
        match r {
            Ok(valid) => password_verdict(password@, hash@) == Ok::<bool, Seq<char>>(valid),
            Err(text) => password_verdict(password@, hash@) == Err::<bool, Seq<char>>(text@),
        },
{
    bcrypt::verify(password, hash).map_err(|e| e.to_string())
}

} // verus!
