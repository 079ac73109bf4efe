use exchange_sim::api::admin::{
    create_user, create_user_hashed, list_all_orders, list_symbols, list_users, live_prices,
    update_balance, CreatedUser, CreatingUser, UpdatedBalance, UpdatingBalance,
};
use exchange_sim::api::admin::LimitQuery;
use exchange_sim::api::auth::{
    admit_user, login, logout, register, register_hashed, LoggingIn, RegisterRequest, Registering,
};
use exchange_sim::auth::{
    accept_token, check_not_revoked, claims_of, create_token, create_token_as, expiry_of,
    extract_claims, extract_claims_parsed, new_token_blocklist, purge_expired, require_admin,
    token_in_header, verify_token, verify_token_parsed, Claims, TokenFields,
};
use exchange_sim::decimal::Decimal;
use exchange_sim::error::AppError;
use exchange_sim::models::{
    CreateUserRequest, LoginRequest, LoginResponse, UpdateBalanceRequest, User, UserRole,
};
use exchange_sim::store::{Progress, StoreReply, StoreRequest};
use exchange_sim::timestamp::Timestamp;
use exchange_sim::ws_client::new_price_cache;

const SECRET: &str = "secret";

/// The hash of `password` at the lowest cost.
const HASH: &str = "$2a$04$UuTkLRZZ6QofpDOlMz32MuuxEHA43WOemOYHPz6.SjsVsyO1tDU96";

fn at(secs: i64) -> Timestamp {
    Timestamp::new(secs, 0).unwrap()
}

fn soon() -> Timestamp {
    // Far in the future, so that a token made then has not expired.
    at(4_102_444_800)
}

fn user() -> User {
    User {
        id: "u1".to_string(),
        username: "ann".to_string(),
        password_hash: HASH.to_string(),
        role: UserRole::Admin,
        balance_usdc: Decimal::whole(5),
        created_at: at(0),
        is_active: true,
    }
}

fn claims(role: &str) -> Claims {
    Claims {
        sub: "u1".to_string(),
        role: role.to_string(),
        exp: 100,
        jti: "token".to_string(),
    }
}

fn fields() -> TokenFields {
    TokenFields {
        sub: Some("u1".to_string()),
        role: Some("trader".to_string()),
        exp: Some(100),
        jti: Some("token".to_string()),
    }
}

#[test]
fn a_token_comes_back_with_its_claims() {
    let token = create_token_as("u1", "admin", SECRET, 2, "j1".to_string(), soon()).unwrap();
    let claims = verify_token(&token, SECRET).unwrap();
    assert_eq!(claims.sub, "u1");
    assert_eq!(claims.role, "admin");
    assert_eq!(claims.jti, "j1");
    assert_eq!(claims.exp, 4_102_444_800 + 7200);
    let again = create_token_as("u1", "admin", SECRET, 2, "j1".to_string(), soon()).unwrap();
    assert_eq!(again, token);
}

#[test]
fn a_token_signs_the_claims_in_their_order() {
    let token = create_token_as("u1", "admin", SECRET, 2, "j1".to_string(), soon()).unwrap();
    // The subject, the role, the expiry and the id, in base 64.
    let payload =
        "eyJzdWIiOiJ1MSIsInJvbGUiOiJhZG1pbiIsImV4cCI6NDEwMjQ1MjAwMCwianRpIjoiajEifQ";
    assert_eq!(token.split('.').nth(1), Some(payload));
}

/// A token with some of the fields, signed with the secret.
fn token_with(fields: &[(&str, serde_json::Value)]) -> String {
    let mut map = serde_json::Map::new();
    for (name, value) in fields {
        map.insert(name.to_string(), value.clone());
    }
    let key = jsonwebtoken::EncodingKey::from_secret(SECRET.as_bytes());
    jsonwebtoken::encode(&jsonwebtoken::Header::default(), &map, &key).unwrap()
}

/// The seconds since 1970.
fn clock() -> i64 {
    let now = std::time::SystemTime::now();
    now.duration_since(std::time::UNIX_EPOCH).unwrap().as_secs() as i64
}

#[test]
fn a_token_is_accepted_until_it_has_expired() {
    // Tokens for an hour, made so that they expire this many seconds from now.
    let verdict = |left: i64| {
        let made = at(clock() + left - 3600);
        let token = create_token_as("u1", "trader", SECRET, 1, "j".to_string(), made).unwrap();
        verify_token(&token, SECRET).map_err(|e| e.message())
    };
    for left in [100_000, 3600, 10, -30] {
        assert_eq!(verdict(left).unwrap().sub, "u1");
    }
    for left in [-90, -3600, -100_000] {
        assert_eq!(verdict(left).unwrap_err(), "Unauthorized: ExpiredSignature");
    }
}

#[test]
fn a_fault_in_the_payload_is_reported_in_the_words_of_the_parser() {
    let token = create_token_as("u1", "trader", SECRET, 1, "j".to_string(), soon()).unwrap();
    let fault = Some("duplicate field `jti` at line 1 column 70".to_string());
    let expected = "Unauthorized: JSON error: duplicate field `jti` at line 1 column 70";
    let refused = verify_token_parsed(&token, SECRET, fault.clone()).unwrap_err();
    assert_eq!(refused.message(), expected);
    assert_eq!(verify_token_parsed(&token, SECRET, None).unwrap().jti, "j");
    let blocklist = new_token_blocklist();
    let header = format!("Bearer {}", token);
    let refused = extract_claims_parsed(Some(&header), SECRET, &blocklist, fault.clone());
    assert_eq!(refused.unwrap_err().message(), expected);
    assert!(extract_claims_parsed(Some(&header), SECRET, &blocklist, None).is_ok());
    // A token that is not signed is refused for that.
    let refused = verify_token_parsed(&token, "other", fault).unwrap_err();
    assert_eq!(refused.message(), "Unauthorized: InvalidSignature");
}

#[test]
fn a_missing_field_is_found_before_the_expiry() {
    let text = |s: &str| serde_json::Value::from(s);
    let refused = |token: String| verify_token(&token, SECRET).unwrap_err().message();
    let old = serde_json::Value::from(1u64);
    let late = serde_json::Value::from(4_102_444_800u64);
    let full = [("sub", text("u1")), ("role", text("admin")), ("jti", text("j"))];
    let [sub, role, jti] = full.clone();
    assert_eq!(
        refused(token_with(&[sub.clone(), ("exp", old.clone()), jti.clone()])),
        "Unauthorized: JSON error: missing field `role`"
    );
    assert_eq!(refused(token_with(&full)), "Unauthorized: JSON error: missing field `exp`");
    let expired = [sub.clone(), role.clone(), ("exp", old), jti.clone()];
    assert_eq!(refused(token_with(&expired)), "Unauthorized: ExpiredSignature");
    let good = [sub.clone(), role.clone(), ("exp", late.clone()), jti.clone()];
    assert_eq!(verify_token(&token_with(&good), SECRET).unwrap().exp, 4_102_444_800);
    // A token for some audience is not for this one.
    let elsewhere = [sub, role, ("exp", late), jti, ("aud", text("else"))];
    assert_eq!(refused(token_with(&elsewhere)), "Unauthorized: InvalidAudience");
}

#[test]
fn every_token_has_an_id_of_its_own() {
    let a = verify_token(&create_token("u1", "trader", SECRET, 1).unwrap(), SECRET).unwrap();
    let b = verify_token(&create_token("u1", "trader", SECRET, 1).unwrap(), SECRET).unwrap();
    assert_ne!(a.jti, b.jti);
    assert_eq!(a.jti.len(), 36);
    assert_eq!(a.role, "trader");
}

#[test]
fn strange_texts_survive_in_a_token() {
    let odd = "a\"b\\c\u{0}\u{1F600}é\n";
    let token = create_token_as(odd, odd, odd, 1, odd.to_string(), soon()).unwrap();
    let claims = verify_token(&token, odd).unwrap();
    assert_eq!(claims.sub, odd);
    assert_eq!(claims.role, odd);
    assert_eq!(claims.jti, odd);
}

#[test]
fn tokens_that_are_not_good_are_refused() {
    let token = create_token_as("u1", "admin", SECRET, 1, "j".to_string(), soon()).unwrap();
    let refused = |token: &str, secret: &str| match verify_token(token, secret) {
        Err(AppError::Unauthorized(text)) => text,
        _ => "accepted".to_string(),
    };
    assert_eq!(refused(&token, "other"), "InvalidSignature");
    assert_eq!(refused("nonsense", SECRET), "InvalidToken");
    assert_eq!(refused("", SECRET), "InvalidToken");
    let old = create_token_as("u1", "admin", SECRET, 1, "j".to_string(), at(0)).unwrap();
    assert_eq!(refused(&old, SECRET), "ExpiredSignature");
}

#[test]
fn the_expiry_is_counted_in_signed_hours() {
    assert_eq!(expiry_of(at(1000), 24), Some(1000 + 86_400));
    assert_eq!(expiry_of(at(1000), 0), Some(1000));
    // The largest number of hours is minus one.
    assert_eq!(expiry_of(at(7200), u64::MAX), Some(3600));
    assert_eq!(expiry_of(at(0), u64::MAX), Some(u64::MAX - 3599));
    assert_eq!(expiry_of(at(0), i64::MAX as u64), None);
    assert_eq!(expiry_of(at(8_210_266_876_799), 1), None);
    let result = create_token_as("u", "r", SECRET, i64::MAX as u64, "j".to_string(), at(0));
    assert!(matches!(result, Err(AppError::Overflow)));
}

#[test]
fn a_token_needs_every_field() {
    assert_eq!(claims_of(fields()).unwrap().exp, 100);
    let message = |fields: TokenFields| claims_of(fields).unwrap_err().message();
    assert_eq!(
        message(TokenFields { sub: None, role: None, ..fields() }),
        "Unauthorized: JSON error: missing field `sub`"
    );
    assert_eq!(
        message(TokenFields { role: None, ..fields() }),
        "Unauthorized: JSON error: missing field `role`"
    );
    assert_eq!(
        message(TokenFields { exp: None, ..fields() }),
        "Unauthorized: JSON error: missing field `exp`"
    );
    assert_eq!(
        message(TokenFields { jti: None, ..fields() }),
        "Unauthorized: JSON error: missing field `jti`"
    );
    assert_eq!(accept_token(Ok(fields()), None, Ok(fields())).unwrap().sub, "u1");
    let refused = |read, fault: Option<&str>, validated| {
        accept_token(read, fault.map(|text| text.to_string()), validated).unwrap_err().message()
    };
    let expired = || Err("ExpiredSignature".to_string());
    let faulty = Some("missing field `role` at line 1 column 31");
    assert_eq!(refused(Ok(fields()), None, expired()), "Unauthorized: ExpiredSignature");
    assert_eq!(
        refused(Err("InvalidSignature".to_string()), faulty, Ok(fields())),
        "Unauthorized: InvalidSignature"
    );
    assert_eq!(
        refused(Ok(TokenFields { jti: None, ..fields() }), None, expired()),
        "Unauthorized: JSON error: missing field `jti`"
    );
    assert_eq!(
        refused(Ok(fields()), faulty, expired()),
        "Unauthorized: JSON error: missing field `role` at line 1 column 31"
    );
}

#[test]
fn the_header_holds_a_bearer_token() {
    assert_eq!(token_in_header(Some("Bearer abc")).unwrap(), "abc");
    assert_eq!(
        token_in_header(None).unwrap_err().message(),
        "Unauthorized: Missing Authorization header"
    );
    assert_eq!(
        token_in_header(Some("Basic abc")).unwrap_err().message(),
        "Unauthorized: Invalid Authorization format"
    );
}

#[test]
fn a_session_ends_with_logging_out() {
    let mut blocklist = new_token_blocklist();
    let token = create_token_as("u1", "trader", SECRET, 1, "j1".to_string(), soon()).unwrap();
    let other = create_token_as("u1", "trader", SECRET, 1, "j2".to_string(), soon()).unwrap();
    let header = format!("Bearer {}", token);
    let session = extract_claims(Some(&header), SECRET, &blocklist);
    assert_eq!(session.as_ref().unwrap().sub, "u1");
    assert_eq!(logout(session, &mut blocklist).unwrap(), "Logged out");
    let refused = extract_claims(Some(&header), SECRET, &blocklist).unwrap_err();
    assert_eq!(refused.message(), "Unauthorized: Token has been revoked");
    let header = format!("Bearer {}", other);
    assert!(extract_claims(Some(&header), SECRET, &blocklist).is_ok());
    assert!(extract_claims(None, SECRET, &blocklist).is_err());
    assert!(extract_claims(Some("Bearer x"), SECRET, &blocklist).is_err());
}

#[test]
fn revoked_tokens_are_kept_until_they_expire() {
    let mut blocklist = new_token_blocklist();
    logout(Ok(claims("trader")), &mut blocklist).unwrap();
    let late = Claims { jti: "late".to_string(), exp: 200, ..claims("trader") };
    logout(Ok(late), &mut blocklist).unwrap();
    assert!(check_not_revoked(&claims("trader"), &blocklist).is_err());
    purge_expired(&mut blocklist, 99);
    assert!(check_not_revoked(&claims("trader"), &blocklist).is_err());
    purge_expired(&mut blocklist, 100);
    assert!(check_not_revoked(&claims("trader"), &blocklist).is_ok());
    let late = Claims { jti: "late".to_string(), ..claims("trader") };
    assert!(check_not_revoked(&late, &blocklist).is_err());
}

#[test]
fn logging_out_without_a_session_revokes_nothing() {
    let mut blocklist = new_token_blocklist();
    let refused = Err(AppError::Unauthorized("no".to_string()));
    assert_eq!(logout(refused, &mut blocklist).unwrap_err().message(), "Unauthorized: no");
    assert!(check_not_revoked(&claims("trader"), &blocklist).is_ok());
}

#[test]
fn only_administrators_pass() {
    assert!(require_admin(&claims("admin")).is_ok());
    for role in ["trader", "Admin", ""] {
        assert_eq!(require_admin(&claims(role)).unwrap_err().message(), "Forbidden: Admin only");
    }
}

fn log_in(reply: StoreReply, password: &str) -> Result<LoginResponse, AppError> {
    let body = LoginRequest { username: "ann".to_string(), password: password.to_string() };
    match login(body) {
        Progress::Ask(StoreRequest::GetUserByUsername(name), state) => {
            assert_eq!(name, "ann");
            let state: LoggingIn = state;
            match state.resume(reply, SECRET, 24) {
                Progress::Finished(result) => result,
                _ => panic!("asked again"),
            }
        }
        _ => panic!("not asked"),
    }
}

#[test]
fn the_right_password_logs_in() {
    let response = log_in(StoreReply::User(Some(user())), "password").unwrap();
    assert_eq!(response.user_id, "u1");
    assert_eq!(response.username, "ann");
    assert_eq!(response.role, UserRole::Admin);
    let claims = verify_token(&response.token, SECRET).unwrap();
    assert_eq!(claims.sub, "u1");
    assert_eq!(claims.role, "admin");
}

#[test]
fn anything_else_does_not_log_in() {
    let refused = |reply: StoreReply, password: &str| log_in(reply, password).unwrap_err().message();
    assert_eq!(
        refused(StoreReply::User(Some(user())), "Password"),
        "Unauthorized: Invalid credentials"
    );
    assert_eq!(refused(StoreReply::User(None), "password"), "Unauthorized: Invalid credentials");
    let inactive = User { is_active: false, ..user() };
    assert_eq!(
        refused(StoreReply::User(Some(inactive)), "password"),
        "Unauthorized: Account is disabled"
    );
    assert_eq!(
        refused(StoreReply::Failed("down".to_string()), "password"),
        "ClickHouse error: down"
    );
    let broken = User { password_hash: "no hash".to_string(), ..user() };
    assert!(refused(StoreReply::User(Some(broken)), "password").starts_with("Internal error: "));
}

#[test]
fn a_login_is_decided_by_the_check_of_the_password() {
    assert_eq!(admit_user(Some(user()), Ok(true)).unwrap().id, "u1");
    assert!(admit_user(Some(user()), Ok(false)).is_err());
    assert_eq!(
        admit_user(Some(user()), Err("bad".to_string())).unwrap_err().message(),
        "Internal error: bad"
    );
    let inactive = User { is_active: false, ..user() };
    assert_eq!(
        admit_user(Some(inactive), Ok(true)).unwrap_err().message(),
        "Unauthorized: Account is disabled"
    );
    assert!(admit_user(None, Ok(true)).is_err());
}

fn request(username: &str, password: &str) -> RegisterRequest {
    RegisterRequest { username: username.to_string(), password: password.to_string() }
}

#[test]
fn a_registration_needs_a_name_and_a_password() {
    let text = "Bad request: username cannot be empty and password must be at least 6 characters";
    for (username, password) in [("", "secret"), (" \t", "secret"), ("bob", "12345"), ("bob", "ää")] {
        match register(request(username, password)) {
            Progress::Finished(Err(e)) => assert_eq!(e.message(), text),
            _ => panic!("accepted"),
        }
        let hashed = Ok("hash".to_string());
        assert!(matches!(
            register_hashed(request(username, password), hashed),
            Progress::Finished(Err(AppError::BadRequest(_)))
        ));
    }
    assert!(matches!(
        register_hashed(request("bob", "äöü"), Ok("hash".to_string())),
        Progress::Ask(_, _)
    ));
    match register_hashed(request("bob", "secret"), Err("broken".to_string())) {
        Progress::Finished(Err(e)) => assert_eq!(e.message(), "Internal error: broken"),
        _ => panic!("accepted"),
    }
}

#[test]
fn a_new_trader_is_written_and_gets_a_token() {
    let state: Registering = match register(request(" bob ", "secret")) {
        Progress::Ask(StoreRequest::GetUserByUsername(name), state) => {
            assert_eq!(name, "bob");
            state
        }
        _ => panic!("not asked"),
    };
    let (written, state) = match state.resume(StoreReply::User(None), SECRET, 24) {
        Progress::Ask(StoreRequest::InsertUser(user), state) => (user, state),
        _ => panic!("not written"),
    };
    assert_eq!(written.username, "bob");
    assert_eq!(written.role, UserRole::Trader);
    assert_eq!(written.balance_usdc.mantissa(), 10_000);
    assert_eq!(written.balance_usdc.scale(), 0);
    assert!(written.is_active);
    assert_ne!(written.password_hash, "secret");
    let response = match state.resume(StoreReply::Inserted, SECRET, 24) {
        Progress::Finished(Ok(response)) => response,
        _ => panic!("no token"),
    };
    assert_eq!(response.user_id, written.id);
    assert_eq!(response.username, "bob");
    let claims = verify_token(&response.token, SECRET).unwrap();
    assert_eq!((claims.sub.as_str(), claims.role.as_str()), (written.id.as_str(), "trader"));
    // The token is good for the hours that were asked for.
    let hours = claims.exp as i64 - written.created_at.secs();
    assert!((86_400..86_400 + 600).contains(&hours));
    // The new trader logs in with the same password, and with no other.
    assert!(log_in(StoreReply::User(Some(written.clone())), "secret").is_ok());
    assert!(log_in(StoreReply::User(Some(written)), "Secret").is_err());
}

#[test]
fn a_name_that_is_taken_is_refused() {
    let state = match register_hashed(request("ann", "secret"), Ok("hash".to_string())) {
        Progress::Ask(_, state) => state,
        _ => panic!("not asked"),
    };
    match state.resume(StoreReply::User(Some(user())), SECRET, 24) {
        Progress::Finished(Err(e)) => {
            assert_eq!(e.message(), "Conflict: Username 'ann' is already taken");
            assert_eq!(e.error_response().0, 409);
        }
        _ => panic!("accepted"),
    }
}

#[test]
fn a_name_that_is_taken_is_refused_with_blanks_around_it() {
    let state = match register(request(" ann ", "secret1")) {
        Progress::Ask(StoreRequest::GetUserByUsername(name), state) => {
            assert_eq!(name, "ann");
            state
        }
        _ => panic!("not asked"),
    };
    match state.resume(StoreReply::User(Some(user())), SECRET, 24) {
        Progress::Finished(Err(AppError::Conflict(text))) => {
            assert_eq!(text, "Username 'ann' is already taken");
        }
        _ => panic!("written"),
    }
}

fn creation(role: &str, initial_balance: Option<Decimal>) -> CreateUserRequest {
    CreateUserRequest {
        username: "bob".to_string(),
        password: "pw".to_string(),
        role: role.to_string(),
        initial_balance,
    }
}

fn finish_creation(
    state: CreatingUser,
    reply: StoreReply,
) -> (Option<User>, Result<CreatedUser, AppError>) {
    match state.resume(reply) {
        Progress::Ask(StoreRequest::InsertUser(user), state) => {
            match state.resume(StoreReply::Inserted) {
                Progress::Finished(result) => (Some(user), result),
                _ => panic!("asked again"),
            }
        }
        Progress::Finished(result) => (None, result),
        _ => panic!("asked something else"),
    }
}

#[test]
fn an_administrator_creates_users() {
    let begin = |role: &str, balance: Option<Decimal>| {
        match create_user_hashed(Ok(claims("admin")), creation(role, balance), Ok("h".to_string())) {
            Progress::Ask(StoreRequest::GetUserByUsername(name), state) => {
                assert_eq!(name, "bob");
                state
            }
            _ => panic!("not asked"),
        }
    };
    let (written, created) = finish_creation(begin("trader", None), StoreReply::User(None));
    let (written, created) = (written.unwrap(), created.unwrap());
    assert_eq!(created.id, written.id);
    assert_eq!(created.username, "bob");
    assert_eq!(created.role, UserRole::Trader);
    assert_eq!(created.balance_usdc.mantissa(), 10_000);
    assert_eq!(created.created_at.secs(), written.created_at.secs());
    assert_eq!(written.password_hash, "h");
    let balance = Decimal::new(-25, 1);
    let (_, created) = finish_creation(begin("admin", balance), StoreReply::User(None));
    let created = created.unwrap();
    assert_eq!(created.role, UserRole::Admin);
    assert_eq!((created.balance_usdc.mantissa(), created.balance_usdc.scale()), (-25, 1));
    let (_, refused) = finish_creation(begin("trader", None), StoreReply::User(Some(user())));
    assert_eq!(refused.unwrap_err().message(), "Conflict: Username 'bob' already exists");
}

#[test]
fn creating_a_user_needs_a_known_role() {
    let refused = match create_user(Ok(claims("admin")), creation("boss", None)) {
        Progress::Finished(Err(e)) => e.message(),
        _ => panic!("accepted"),
    };
    assert_eq!(refused, "Bad request: role must be 'admin' or 'trader'");
    let state = match create_user(Ok(claims("admin")), creation("trader", None)) {
        Progress::Ask(_, state) => state,
        _ => panic!("not asked"),
    };
    let (written, _) = finish_creation(state, StoreReply::User(None));
    assert!(log_in(StoreReply::User(written), "pw").is_ok());
    let failed = create_user_hashed(
        Ok(claims("admin")),
        creation("trader", None),
        Err("broken".to_string()),
    );
    assert!(matches!(failed, Progress::Finished(Err(AppError::Internal(_)))));
}

fn set_balance(reply: StoreReply, balance_usdc: Decimal) -> Result<UpdatedBalance, AppError> {
    let body = UpdateBalanceRequest { balance_usdc };
    let state: UpdatingBalance =
        match update_balance(Ok(claims("admin")), "u1".to_string(), body) {
            Progress::Ask(StoreRequest::GetUserById(id), state) => {
                assert_eq!(id, "u1");
                state
            }
            _ => panic!("not asked"),
        };
    match state.resume(reply) {
        Progress::Finished(result) => result,
        Progress::Ask(StoreRequest::InsertUser(written), state) => {
            assert_eq!(written.username, "ann");
            assert_eq!(written.balance_usdc.mantissa(), balance_usdc.mantissa());
            assert!(written.created_at.secs() > 0);
            match state.resume(StoreReply::Inserted) {
                Progress::Finished(result) => result,
                _ => panic!("asked again"),
            }
        }
        _ => panic!("asked something else"),
    }
}

#[test]
fn an_administrator_sets_balances() {
    let updated = set_balance(StoreReply::User(Some(user())), Decimal::whole(77)).unwrap();
    assert_eq!(updated.user_id, "u1");
    assert_eq!(updated.balance_usdc.mantissa(), 77);
    assert!(set_balance(StoreReply::User(Some(user())), Decimal::zero()).is_ok());
    let negative = Decimal::new(-1, 28).unwrap();
    let refused = set_balance(StoreReply::User(Some(user())), negative);
    assert_eq!(refused.unwrap_err().message(), "Bad request: balance_usdc must be >= 0");
    let missing = set_balance(StoreReply::User(None), negative);
    assert_eq!(missing.unwrap_err().message(), "Not found: User u1 not found");
}

#[test]
fn administration_is_for_administrators() {
    let trader = || -> Result<Claims, AppError> { Ok(claims("trader")) };
    let text = "Forbidden: Admin only";
    let message = |e: AppError| e.message();
    match list_users(trader()) {
        Progress::Finished(Err(e)) => assert_eq!(message(e), text),
        _ => panic!("accepted"),
    }
    match create_user(trader(), creation("boss", None)) {
        Progress::Finished(Err(e)) => assert_eq!(message(e), text),
        _ => panic!("accepted"),
    }
    let body = UpdateBalanceRequest { balance_usdc: Decimal::zero() };
    match update_balance(trader(), "u1".to_string(), body) {
        Progress::Finished(Err(e)) => assert_eq!(message(e), text),
        _ => panic!("accepted"),
    }
    match list_all_orders(trader(), LimitQuery { limit: None }) {
        Progress::Finished(Err(e)) => assert_eq!(message(e), text),
        _ => panic!("accepted"),
    }
    assert_eq!(message(list_symbols(trader(), &Vec::new()).unwrap_err()), text);
    assert_eq!(message(live_prices(trader(), &new_price_cache()).unwrap_err()), text);
    let refused = Err(AppError::Unauthorized("no".to_string()));
    assert_eq!(message(list_symbols(refused, &Vec::new()).unwrap_err()), "Unauthorized: no");
}

#[test]
fn an_administrator_lists_everything() {
    let admin = || -> Result<Claims, AppError> { Ok(claims("admin")) };
    match list_users(admin()) {
        Progress::Ask(StoreRequest::ListUsers, state) => {
            match state.resume(StoreReply::Users(vec![user()])) {
                Progress::Finished(Ok(users)) => assert_eq!(users[0].id, "u1"),
                _ => panic!("no list"),
            }
        }
        _ => panic!("not asked"),
    }
    let asked = |limit: Option<u32>| match list_all_orders(admin(), LimitQuery { limit }) {
        Progress::Ask(StoreRequest::ListAllOrders(n), _) => n,
        _ => panic!("not asked"),
    };
    assert_eq!(asked(None), 100);
    assert_eq!(asked(Some(1)), 1);
    assert_eq!(asked(Some(2000)), 1000);
    let configured = vec!["SOL/USDC".to_string()];
    assert_eq!(list_symbols(admin(), &configured).unwrap(), configured);
    assert!(live_prices(admin(), &new_price_cache()).unwrap().is_empty());
}
