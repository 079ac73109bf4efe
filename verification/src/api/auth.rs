//! Logging in, registering and logging out.

use vstd::prelude::*;

use crate::auth::{
    admitted, check_password, claims_result, create_token_as, hash_password, issued, list_token,
    password_verdict, revoked_in, text_result, token_made, unexpired, Claims, ClaimsView,
    TokenBlocklist,
};
use crate::decimal::{decimal_whole, Decimal};
use crate::error::{AppError, AppErrorView};
use crate::models::{
    is_random_uuid, new_id, LoginRequest, LoginResponse, LoginResponseView, User, UserRole,
    UserView,
};
use crate::store::{
    overflowed, store_failed, Progress, ProgressView, StoreReply, StoreReplyView, StoreRequest,
    StoreRequestView,
};
use crate::text::{has_bytes, join3, trim, trimmed, utf8_length};
use crate::timestamp::{is_clock_reading, Timestamp, TimestampView};

verus! {

#[derive(Debug)]
pub struct RegisterRequest {
    pub username: String,
    pub password: String,
}

#[verifier::ext_equal]
pub struct RegisterRequestView {
    pub username: Seq<char>,
    pub password: Seq<char>,
}

impl View for RegisterRequest {
    type V = RegisterRequestView;

    open spec fn view(&self) -> RegisterRequestView {
        RegisterRequestView {
            username: self.username@,
            password: self.password@,
        }
    }
}

impl DeepView for RegisterRequest {
    type V = RegisterRequestView;

    open spec fn deep_view(&self) -> RegisterRequestView {
        self@
    }
}

/// The USDC that a new trader starts with.
pub const STARTING_BALANCE: u32 = 10_000;

/// The fewest bytes that a password may have.
pub const PASSWORD_BYTES: u32 = 6;

/// What a login comes to, given what the check of the password gave: the user is let in who is
/// there, is active, and gave the right password.
pub open spec fn let_in(user: Option<UserView>, checked: Result<bool, Seq<char>>) -> Result<
    UserView,
    AppErrorView,
> {
    match user {
        None => Err(AppErrorView::Unauthorized("Invalid credentials"@)),
        Some(user) => if !user.is_active {
            Err(AppErrorView::Unauthorized("Account is disabled"@))
        } else {
            match checked {
                Err(text) => Err(AppErrorView::Internal(text)),
                Ok(valid) => if valid {
                    Ok(user)
                } else {
                    Err(AppErrorView::Unauthorized("Invalid credentials"@))
                },
            }
        },
    }
}

/// The view of what the check of a password gave.
pub open spec fn checked_result(checked: Result<bool, String>) -> Result<bool, Seq<char>> {
    match checked {
        Ok(valid) => Ok(valid),
        Err(text) => Err(text@),
    }
}

/// The view of a result that holds a user.
pub open spec fn user_result(r: Result<User, AppError>) -> Result<UserView, AppErrorView> {
    match r {
        Ok(user) => Ok(user@),
        Err(e) => Err(e@),
    }
}

/// Decides a login from what the check of the password gave.
pub fn admit_user(user: Option<User>, checked: Result<bool, String>) -> (r: Result<User, AppError>)
    ensures
        user_result(r) == let_in(user.deep_view(), checked_result(checked)),
{
    let user = match user {
        None => return Err(AppError::Unauthorized("Invalid credentials".to_owned())),
        Some(user) => user,
    };
    if !user.is_active {
        return Err(AppError::Unauthorized("Account is disabled".to_owned()));
    }
    match checked {
        Err(text) => Err(AppError::Internal(text)),
        Ok(valid) => {
            if valid {
                Ok(user)
            } else {
                Err(AppError::Unauthorized("Invalid credentials".to_owned()))
            }
        },
    }
}

/// The response to a user who is given a token, or is given none.
pub open spec fn welcome(user: UserView, token: Result<Seq<char>, AppErrorView>) -> Result<
    LoginResponseView,
    AppErrorView,
> {
    match token {
        Ok(token) => Ok(
            LoginResponseView { token, user_id: user.id, username: user.username, role: user.role },
        ),
        Err(e) => Err(e),
    }
}

/// The view of a result that holds a response.
pub open spec fn response_result(r: Result<LoginResponse, AppError>) -> Result<
    LoginResponseView,
    AppErrorView,
> {
    match r {
        Ok(response) => Ok(response@),
        Err(e) => Err(e@),
    }
}

/// Answers a user with a token.
pub fn welcome_user(user: User, token: Result<String, AppError>) -> (r: Result<
    LoginResponse,
    AppError,
>)
    ensures
        response_result(r) == welcome(user@, text_result(token)),
{
    match token {
        Ok(token) => Ok(
            LoginResponse { token, user_id: user.id, username: user.username, role: user.role },
        ),
        Err(e) => Err(e),
    }
}

/// Whether the token in a response, if there is one, is issued for the user and the role in it.
pub open spec fn welcomed<S>(
    progress: ProgressView<S, LoginResponseView>,
    secret: Seq<char>,
    expiry_hours: u64,
    jti: Seq<char>,
    now: TimestampView,
) -> bool {
    progress matches ProgressView::Finished(Ok(response)) ==> issued(
        response.token,
        secret,
        response.user_id,
        response.role.name(),
        expiry_hours,
        jti,
        now,
    )
}

/// A login on its way: the user is being read.
#[derive(Debug)]
pub struct LoggingIn {
    pub password: String,
}

#[verifier::ext_equal]
pub struct LoggingInView {
    pub password: Seq<char>,
}

impl View for LoggingIn {
    type V = LoggingInView;

    open spec fn view(&self) -> LoggingInView {
        LoggingInView { password: self.password@ }
    }
}

/// What a login of a user comes to, with a token id at a time.
pub open spec fn logged_in(
    user: Option<UserView>,
    password: Seq<char>,
    secret: Seq<char>,
    expiry_hours: u64,
    jti: Seq<char>,
    now: TimestampView,
) -> Result<LoginResponseView, AppErrorView> {
    let checked = match user {
        Some(user) => password_verdict(password, user.password_hash),
        None => Ok(false),
    };
    match let_in(user, checked) {
        Err(e) => Err(e),
        Ok(user) => welcome(
            user,
            token_made(user.id, user.role.name(), secret, expiry_hours, jti, now),
        ),
    }
}

impl LoggingInView {
    /// How the login goes on from a reply.
    pub open spec fn next(
        self,
        reply: StoreReplyView,
        secret: Seq<char>,
        expiry_hours: u64,
        jti: Seq<char>,
        now: TimestampView,
    ) -> ProgressView<LoggingInView, LoginResponseView> {
        match reply {
            StoreReplyView::Failed(text) => store_failed(text),
            StoreReplyView::User(user) => ProgressView::Finished(
                logged_in(user, self.password, secret, expiry_hours, jti, now),
            ),
            _ => overflowed(),
        }
    }
}

impl LoggingIn {
    /// Goes on with the store's reply; the token gets a given id, at a given time.
    pub fn resume_as(
        self,
        reply: StoreReply,
        secret: &str,
        expiry_hours: u64,
        jti: String,
        now: Timestamp,
    ) -> (r: Progress<LoggingIn, LoginResponse>)
        requires
            reply@ is User || reply@ is Failed,
        ensures
            r@ == self@.next(reply@, secret@, expiry_hours, jti@, now@),
            welcomed(r@, secret@, expiry_hours, jti@, now@),
    {
        let user = match reply.into_user() {
            Ok(user) => user,
            Err(e) => return Progress::Finished(Err(e)),
        };
        let checked = match &user {
            Some(user) => if user.is_active {
                check_password(&self.password, &user.password_hash)
            } else {
                Ok(false)
            },
            None => Ok(false),
        };
        match admit_user(user, checked) {
            Err(e) => Progress::Finished(Err(e)),
            Ok(user) => {
                let token = create_token_as(
                    &user.id,
                    user.role.as_str(),
                    secret,
                    expiry_hours,
                    jti,
                    now,
                );
                Progress::Finished(welcome_user(user, token))
            },
        }
    }

    /// Goes on with the store's reply.
    pub fn resume(self, reply: StoreReply, secret: &str, expiry_hours: u64) -> (r: Progress<
        LoggingIn,
        LoginResponse,
    >)
        requires
            reply@ is User || reply@ is Failed,
        ensures
            exists|jti: Seq<char>, now: TimestampView|
                {
                    &&& is_random_uuid(jti)
                    &&& is_clock_reading(now)
                    &&& r@ == #[trigger] self@.next(reply@, secret@, expiry_hours, jti, now)
                    &&& welcomed(r@, secret@, expiry_hours, jti, now)
                },
    {
        let jti = new_id();
        let now = Timestamp::now();
        self.resume_as(reply, secret, expiry_hours, jti, now)
    }
}

/// Logs a user in. What comes of it in the end is a token.
pub fn login(body: LoginRequest) -> (r: Progress<LoggingIn, LoginResponse>)
    ensures
        r@ == ProgressView::<LoggingInView, LoginResponseView>::Ask(
            StoreRequestView::GetUserByUsername(body@.username),
            LoggingInView { password: body@.password },
        ),
{
    Progress::Ask(
        StoreRequest::GetUserByUsername(body.username),
        LoggingIn { password: body.password },
    )
}

/// A registration on its way.
#[derive(Debug)]
pub enum Registering {
    /// The name is being looked up.
    Checking { username: String, password_hash: String },
    /// The new user is being written.
    Writing(User),
}

#[verifier::ext_equal]
pub enum RegisteringView {
    Checking { username: Seq<char>, password_hash: Seq<char> },
    Writing(UserView),
}

impl View for Registering {
    type V = RegisteringView;

    open spec fn view(&self) -> RegisteringView {
        match self {
            Registering::Checking { username, password_hash } => RegisteringView::Checking {
                username: username@,
                password_hash: password_hash@,
            },
            Registering::Writing(user) => RegisteringView::Writing(user@),
        }
    }
}

/// Whether a name and a password will do: the name is not all white space, and the password takes
/// six bytes at least.
pub open spec fn acceptable(body: RegisterRequestView) -> bool {
    trimmed(body.username).len() > 0 && utf8_length(body.password) >= PASSWORD_BYTES
}

/// A registration begins, given what hashing the password gave. White space around the name does
/// not belong to it.
pub open spec fn registration(
    body: RegisterRequestView,
    hashed: Result<Seq<char>, Seq<char>>,
) -> ProgressView<RegisteringView, LoginResponseView> {
    if !acceptable(body) {
        ProgressView::Finished(
            Err(
                AppErrorView::BadRequest(
                    "username cannot be empty and password must be at least 6 characters"@,
                ),
            ),
        )
    } else {
        match hashed {
            Err(text) => ProgressView::Finished(Err(AppErrorView::Internal(text))),
            Ok(password_hash) => ProgressView::Ask(
                StoreRequestView::GetUserByUsername(trimmed(body.username)),
                RegisteringView::Checking { username: trimmed(body.username), password_hash },
            ),
        }
    }
}

/// A new trader.
pub open spec fn new_trader(
    username: Seq<char>,
    password_hash: Seq<char>,
    id: Seq<char>,
    now: TimestampView,
) -> UserView {
    UserView {
        id,
        username,
        password_hash,
        role: UserRole::Trader,
        balance_usdc: decimal_whole(STARTING_BALANCE as int),
        created_at: now,
        is_active: true,
    }
}

impl RegisteringView {
    /// Whether a reply is one to what the store was asked last.
    pub open spec fn expects(self, reply: StoreReplyView) -> bool {
        reply is Failed || match self {
            RegisteringView::Checking { .. } => reply is User,
            RegisteringView::Writing(_) => reply is Inserted,
        }
    }

    /// How the registration goes on from a reply: a name that is taken is refused. The id is that
    /// of the new user, and then that of the token.
    pub open spec fn next(
        self,
        reply: StoreReplyView,
        secret: Seq<char>,
        expiry_hours: u64,
        id: Seq<char>,
        now: TimestampView,
    ) -> ProgressView<RegisteringView, LoginResponseView> {
        match (self, reply) {
            (_, StoreReplyView::Failed(text)) => store_failed(text),
            (
                RegisteringView::Checking { username, .. },
                StoreReplyView::User(Some(_)),
            ) => ProgressView::Finished(
                Err(
                    AppErrorView::Conflict("Username '"@ + username + "' is already taken"@),
                ),
            ),
            (RegisteringView::Checking { username, password_hash }, _) => {
                let user = new_trader(username, password_hash, id, now);
                ProgressView::Ask(
                    StoreRequestView::InsertUser(user),
                    RegisteringView::Writing(user),
                )
            },
            (RegisteringView::Writing(user), _) => ProgressView::Finished(
                welcome(
                    user,
                    token_made(user.id, user.role.name(), secret, expiry_hours, id, now),
                ),
            ),
        }
    }
}

impl Registering {
    /// Goes on with the store's reply; what is made here gets a given id, at a given time.
    pub fn resume_as(
        self,
        reply: StoreReply,
        secret: &str,
        expiry_hours: u64,
        id: String,
        now: Timestamp,
    ) -> (r: Progress<Registering, LoginResponse>)
        requires
            self@.expects(reply@),
        ensures
            r@ == self@.next(reply@, secret@, expiry_hours, id@, now@),
            welcomed(r@, secret@, expiry_hours, id@, now@),
    {
        match self {
            Registering::Checking { username, password_hash } => match reply.into_user() {
                Err(e) => Progress::Finished(Err(e)),
                Ok(Some(_)) => Progress::Finished(
                    Err(
                        AppError::Conflict(
                            join3("Username '", &username, "' is already taken"),
                        ),
                    ),
                ),
                Ok(None) => {
                    let user = User {
                        id,
                        username,
                        password_hash,
                        role: UserRole::Trader,
                        balance_usdc: Decimal::whole(STARTING_BALANCE),
                        created_at: now,
                        is_active: true,
                    };
                    Progress::Ask(
                        StoreRequest::InsertUser(user.clone()),
                        Registering::Writing(user),
                    )
                },
            },
            Registering::Writing(user) => match reply.into_inserted() {
                Err(e) => Progress::Finished(Err(e)),
                Ok(_) => {
                    let token = create_token_as(
                        &user.id,
                        user.role.as_str(),
                        secret,
                        expiry_hours,
                        id,
                        now,
                    );
                    Progress::Finished(welcome_user(user, token))
                },
            },
        }
    }

    /// Goes on with the store's reply.
    pub fn resume(self, reply: StoreReply, secret: &str, expiry_hours: u64) -> (r: Progress<
        Registering,
        LoginResponse,
    >)
        requires
            self@.expects(reply@),
        ensures
            exists|id: Seq<char>, now: TimestampView|
                {
                    &&& is_random_uuid(id)
                    &&& is_clock_reading(now)
                    &&& r@ == #[trigger] self@.next(reply@, secret@, expiry_hours, id, now)
                    &&& welcomed(r@, secret@, expiry_hours, id, now)
                },
    {
        let id = new_id();
        let now = Timestamp::now();
        self.resume_as(reply, secret, expiry_hours, id, now)
    }
}

/// The view of what hashing a password gave.
pub open spec fn hashed_result(hashed: Result<String, String>) -> Result<Seq<char>, Seq<char>> {
    match hashed {
        Ok(hash) => Ok(hash@),
        Err(text) => Err(text@),
    }
}

/// Begins a registration, from what hashing the password gave.
pub fn register_hashed(body: RegisterRequest, hashed: Result<String, String>) -> (r: Progress<
    Registering,
    LoginResponse,
>)
    ensures
        r@ == registration(body@, hashed_result(hashed)),
{
    let username = trim(&body.username);
    if username.as_str().is_empty() || !has_bytes(&body.password, PASSWORD_BYTES) {
        return Progress::Finished(
            Err(
                AppError::BadRequest(
                    "username cannot be empty and password must be at least 6 characters"
                        .to_owned(),
                ),
            ),
        );
    }
    match hashed {
        Err(text) => Progress::Finished(Err(AppError::Internal(text))),
        Ok(password_hash) => Progress::Ask(
            StoreRequest::GetUserByUsername(username.clone()),
            Registering::Checking { username, password_hash },
        ),
    }
}

/// Whether a hash, if there is one, is one that the password is found to belong to.
pub open spec fn hash_of(hashed: Result<Seq<char>, Seq<char>>, password: Seq<char>) -> bool {
    hashed matches Ok(hash) ==> password_verdict(password, hash) == Ok::<bool, Seq<char>>(true)
}

/// Registers a new trader. What comes of it in the end is a token.
pub fn register(body: RegisterRequest) -> (r: Progress<Registering, LoginResponse>)
    ensures
        exists|hashed: Result<Seq<char>, Seq<char>>|
            hash_of(hashed, body@.password) && r@ == #[trigger] registration(body@, hashed),
{
    let hashed = if trim(&body.username).as_str().is_empty() || !has_bytes(
        &body.password,
        PASSWORD_BYTES,
    ) {
        Err(String::new())
    } else {
        hash_password(&body.password)
    };
    let ghost view = hashed_result(hashed);
    assert(hash_of(view, body@.password));
    register_hashed(body, hashed)
}

/// What logging out comes to.
pub open spec fn logged_out(session: Result<ClaimsView, AppErrorView>) -> Result<
    Seq<char>,
    AppErrorView,
> {
    match session {
        Ok(_) => Ok("Logged out"@),
        Err(e) => Err(e),
    }
}

/// The revoked tokens after logging out.
pub open spec fn revoked_after_logout(
    session: Result<ClaimsView, AppErrorView>,
    revoked: Map<Seq<char>, u64>,
) -> Map<Seq<char>, u64> {
    match session {
        Ok(claims) => revoked.insert(claims.jti, claims.exp),
        Err(_) => revoked,
    }
}

/// Revokes the caller's token.
pub fn logout(session: Result<Claims, AppError>, blocklist: &mut TokenBlocklist) -> (r: Result<
    String,
    AppError,
>)
    ensures
        text_result(r) == logged_out(claims_result(session)),
        revoked_in(*final(blocklist)) == revoked_after_logout(
            claims_result(session),
            revoked_in(*old(blocklist)),
        ),
{
    match session {
        Ok(claims) => {
            list_token(blocklist, claims.jti, claims.exp);
            Ok("Logged out".to_owned())
        },
        Err(e) => Err(e),
    }
}

/// Who registered with a password logs in with it: the answer is a token for that user.
pub proof fn law_registered_user_logs_in(
    username: Seq<char>,
    password: Seq<char>,
    password_hash: Seq<char>,
    id: Seq<char>,
    registered_at: TimestampView,
    secret: Seq<char>,
    expiry_hours: u64,
    jti: Seq<char>,
    now: TimestampView,
)
    requires
        hash_of(Ok(password_hash), password),
    ensures
        ({
            let user = new_trader(username, password_hash, id, registered_at);
            logged_in(Some(user), password, secret, expiry_hours, jti, now) == welcome(
                user,
                token_made(id, UserRole::Trader.name(), secret, expiry_hours, jti, now),
            )
        }),
{
}

/// Whether a reply says truthfully which of the users has a name.
pub open spec fn finds_name(
    users: Set<UserView>,
    username: Seq<char>,
    reply: StoreReplyView,
) -> bool {
    match reply {
        StoreReplyView::User(Some(user)) => users.contains(user) && user.username == username,
        StoreReplyView::User(None) => forall|user: UserView| #[trigger]
            users.contains(user) ==> user.username != username,
        _ => true,
    }
}

/// A registration never writes a second user of the same name: it looks up the name that it
/// would write, and writes no user where one has it.
pub proof fn law_names_stay_unique(
    users: Set<UserView>,
    body: RegisterRequestView,
    password_hash: Seq<char>,
    reply: StoreReplyView,
    secret: Seq<char>,
    expiry_hours: u64,
    id: Seq<char>,
    now: TimestampView,
    other: UserView,
)
    requires
        acceptable(body),
        reply is User,
        users.contains(other),
    ensures
        registration(body, Ok(password_hash)) matches ProgressView::Ask(request, state) && (
        request matches StoreRequestView::GetUserByUsername(name) && (finds_name(users, name, reply)
            ==> (state.next(reply, secret, expiry_hours, id, now) matches ProgressView::Ask(
            StoreRequestView::InsertUser(user),
            _,
        ) ==> user.username != other.username))),
        other.username == trimmed(body.username) && finds_name(
            users,
            trimmed(body.username),
            reply,
        ) ==> (RegisteringView::Checking { username: trimmed(body.username), password_hash }).next(
            reply,
            secret,
            expiry_hours,
            id,
            now,
        ) matches ProgressView::Finished(Err(AppErrorView::Conflict(_))),
{
}

/// After logging out the token is revoked, until it has expired; a request without a valid
/// session revokes nothing.
pub proof fn law_logout_revokes(
    claims: ClaimsView,
    refused: AppErrorView,
    revoked: Map<Seq<char>, u64>,
    now: u64,
)
    ensures
        admitted(Ok(claims), revoked_after_logout(Ok(claims), revoked)) == Err::<
            ClaimsView,
            AppErrorView,
        >(AppErrorView::Unauthorized("Token has been revoked"@)),
        claims.exp > now ==> admitted(
            Ok(claims),
            unexpired(revoked_after_logout(Ok(claims), revoked), now),
        ) is Err,
        revoked_after_logout(Err(refused), revoked) == revoked,
        logged_out(Err(refused)) == Err::<Seq<char>, AppErrorView>(refused),
{
}

} // verus!
