//! Administration: users, balances, all orders, symbols and live prices.

use vstd::prelude::*;

use crate::api::auth::{finds_name, hash_of, hashed_result, STARTING_BALANCE};
use crate::api::market::get_prices;
use crate::api::orders::{bounded_limit, limit_or, ListingOrders};
use crate::auth::{claims_result, hash_password, is_admin, require_admin, Claims, ClaimsView};
use crate::decimal::{decimal_whole, Decimal, DecimalView};
use crate::error::{AppError, AppErrorView};
use crate::models::{
    is_random_uuid, new_id, CreateUserRequest, CreateUserRequestView, Order, OrderView,
    UpdateBalanceRequest, UpdateBalanceRequestView, User, UserRole, UserView,
};
use crate::store::{
    overflowed, store_failed, Progress, ProgressView, StoreReply, StoreReplyView, StoreRequest,
    StoreRequestView,
};
use crate::text::{clone_texts, join3};
use crate::timestamp::{is_clock_reading, Timestamp, TimestampView};
use crate::ws_client::{is_snapshot, quotes_in, PriceCache, Quote};

verus! {

#[derive(Debug)]
pub struct LimitQuery {
    pub limit: Option<u32>,
}

#[verifier::ext_equal]
pub struct LimitQueryView {
    pub limit: Option<u32>,
}

impl View for LimitQuery {
    type V = LimitQueryView;

    open spec fn view(&self) -> LimitQueryView {
        LimitQueryView {
            limit: self.limit,
        }
    }
}

impl DeepView for LimitQuery {
    type V = LimitQueryView;

    open spec fn deep_view(&self) -> LimitQueryView {
        self@
    }
}

/// What an administrator sees of a new user.
#[derive(Debug)]
pub struct CreatedUser {
    pub id: String,
    pub username: String,
    pub role: UserRole,
    pub balance_usdc: Decimal,
    pub created_at: Timestamp,
}

#[verifier::ext_equal]
pub struct CreatedUserView {
    pub id: Seq<char>,
    pub username: Seq<char>,
    pub role: UserRole,
    pub balance_usdc: DecimalView,
    pub created_at: TimestampView,
}

impl View for CreatedUser {
    type V = CreatedUserView;

    open spec fn view(&self) -> CreatedUserView {
        CreatedUserView {
            id: self.id@,
            username: self.username@,
            role: self.role,
            balance_usdc: self.balance_usdc@,
            created_at: self.created_at@,
        }
    }
}

impl DeepView for CreatedUser {
    type V = CreatedUserView;

    open spec fn deep_view(&self) -> CreatedUserView {
        self@
    }
}

/// What an administrator sees of a new balance.
#[derive(Debug)]
pub struct UpdatedBalance {
    pub user_id: String,
    pub balance_usdc: Decimal,
}

#[verifier::ext_equal]
pub struct UpdatedBalanceView {
    pub user_id: Seq<char>,
    pub balance_usdc: DecimalView,
}

impl View for UpdatedBalance {
    type V = UpdatedBalanceView;

    open spec fn view(&self) -> UpdatedBalanceView {
        UpdatedBalanceView {
            user_id: self.user_id@,
            balance_usdc: self.balance_usdc@,
        }
    }
}

impl DeepView for UpdatedBalance {
    type V = UpdatedBalanceView;

    open spec fn deep_view(&self) -> UpdatedBalanceView {
        self@
    }
}

/// A session that is an administrator's; any other is refused.
pub open spec fn admin_session(session: Result<ClaimsView, AppErrorView>) -> Result<
    ClaimsView,
    AppErrorView,
> {
    match session {
        Ok(claims) => if is_admin(claims) {
            Ok(claims)
        } else {
            Err(AppErrorView::Forbidden("Admin only"@))
        },
        Err(e) => Err(e),
    }
}

fn as_admin(session: Result<Claims, AppError>) -> (r: Result<Claims, AppError>)
    ensures
        claims_result(r) == admin_session(claims_result(session)),
{
    let claims = match session {
        Ok(claims) => claims,
        Err(e) => return Err(e),
    };
    match require_admin(&claims) {
        Ok(_) => Ok(claims),
        Err(e) => Err(e),
    }
}

/// The list of users is being read.
#[derive(Debug)]
pub struct ListingUsers;

impl View for ListingUsers {
    type V = ListingUsers;

    open spec fn view(&self) -> ListingUsers {
        *self
    }
}

/// A list of the users begins.
pub open spec fn user_listing(session: Result<ClaimsView, AppErrorView>) -> ProgressView<
    ListingUsers,
    Seq<UserView>,
> {
    match admin_session(session) {
        Err(e) => ProgressView::Finished(Err(e)),
        Ok(_) => ProgressView::Ask(StoreRequestView::ListUsers, ListingUsers),
    }
}

/// What a list of the users comes to.
pub open spec fn users_listed(reply: StoreReplyView) -> ProgressView<ListingUsers, Seq<UserView>> {
    match reply {
        StoreReplyView::Users(users) => ProgressView::Finished(Ok(users)),
        StoreReplyView::Failed(text) => store_failed(text),
        _ => overflowed(),
    }
}

impl ListingUsers {
    pub fn resume(self, reply: StoreReply) -> (r: Progress<ListingUsers, Vec<User>>)
        requires
            reply@ is Users || reply@ is Failed,
        ensures
            r@ == users_listed(reply@),
    {
        Progress::Finished(reply.into_users())
    }
}

/// Lists all active users.
pub fn list_users(session: Result<Claims, AppError>) -> (r: Progress<ListingUsers, Vec<User>>)
    ensures
        r@ == user_listing(claims_result(session)),
{
    match as_admin(session) {
        Err(e) => Progress::Finished(Err(e)),
        Ok(_) => Progress::Ask(StoreRequest::ListUsers, ListingUsers),
    }
}

/// The creation of a user on its way.
#[derive(Debug)]
pub enum CreatingUser {
    /// The name is being looked up.
    Checking {
        username: String,
        password_hash: String,
        role: UserRole,
        initial_balance: Option<Decimal>,
    },
    /// The new user is being written.
    Writing(User),
}

#[verifier::ext_equal]
pub enum CreatingUserView {
    Checking {
        username: Seq<char>,
        password_hash: Seq<char>,
        role: UserRole,
        initial_balance: Option<DecimalView>,
    },
    Writing(UserView),
}

impl View for CreatingUser {
    type V = CreatingUserView;

    open spec fn view(&self) -> CreatingUserView {
        match self {
            CreatingUser::Checking { username, password_hash, role, initial_balance } => {
                CreatingUserView::Checking {
                    username: username@,
                    password_hash: password_hash@,
                    role: *role,
                    initial_balance: initial_balance.deep_view(),
                }
            },
            CreatingUser::Writing(user) => CreatingUserView::Writing(user@),
        }
    }
}

/// The creation of a user begins, given what hashing the password gave.
pub open spec fn user_creation(
    session: Result<ClaimsView, AppErrorView>,
    body: CreateUserRequestView,
    hashed: Result<Seq<char>, Seq<char>>,
) -> ProgressView<CreatingUserView, CreatedUserView> {
    match admin_session(session) {
        Err(e) => ProgressView::Finished(Err(e)),
        Ok(_) => match UserRole::named(body.role) {
            None => ProgressView::Finished(
                Err(AppErrorView::BadRequest("role must be 'admin' or 'trader'"@)),
            ),
            Some(role) => match hashed {
                Err(text) => ProgressView::Finished(Err(AppErrorView::Internal(text))),
                Ok(password_hash) => ProgressView::Ask(
                    StoreRequestView::GetUserByUsername(body.username),
                    CreatingUserView::Checking {
                        username: body.username,
                        password_hash,
                        role,
                        initial_balance: body.initial_balance,
                    },
                ),
            },
        },
    }
}

/// What an administrator sees of a new user.
pub open spec fn created(user: UserView) -> CreatedUserView {
    CreatedUserView {
        id: user.id,
        username: user.username,
        role: user.role,
        balance_usdc: user.balance_usdc,
        created_at: user.created_at,
    }
}

impl CreatingUserView {
    /// Whether a reply is one to what the store was asked last.
    pub open spec fn expects(self, reply: StoreReplyView) -> bool {
        reply is Failed || match self {
            CreatingUserView::Checking { .. } => reply is User,
            CreatingUserView::Writing(_) => reply is Inserted,
        }
    }

    /// How the creation goes on from a reply: a name that is taken is refused.
    pub open spec fn next(
        self,
        reply: StoreReplyView,
        id: Seq<char>,
        now: TimestampView,
    ) -> ProgressView<CreatingUserView, CreatedUserView> {
        match (self, reply) {
            (_, StoreReplyView::Failed(text)) => store_failed(text),
            (
                CreatingUserView::Checking { username, .. },
                StoreReplyView::User(Some(_)),
            ) => ProgressView::Finished(
                Err(AppErrorView::Conflict("Username '"@ + username + "' already exists"@)),
            ),
            (CreatingUserView::Checking { username, password_hash, role, initial_balance }, _) => {
                let user = UserView {
                    id,
                    username,
                    password_hash,
                    role,
                    balance_usdc: match initial_balance {
                        Some(balance) => balance,
                        None => decimal_whole(STARTING_BALANCE as int),
                    },
                    created_at: now,
                    is_active: true,
                };
                ProgressView::Ask(
                    StoreRequestView::InsertUser(user),
                    CreatingUserView::Writing(user),
                )
            },
            (CreatingUserView::Writing(user), _) => ProgressView::Finished(Ok(created(user))),
        }
    }
}

impl CreatingUser {
    /// Goes on with the store's reply; a user who is made here gets a given id, at a given time.
    pub fn resume_as(self, reply: StoreReply, id: String, now: Timestamp) -> (r: Progress<
        CreatingUser,
        CreatedUser,
    >)
        requires
            self@.expects(reply@),
        ensures
            r@ == self@.next(reply@, id@, now@),
    {
        match self {
            CreatingUser::Checking { username, password_hash, role, initial_balance } => {
                match reply.into_user() {
                    Err(e) => Progress::Finished(Err(e)),
                    Ok(Some(_)) => Progress::Finished(
                        Err(
                            AppError::Conflict(join3("Username '", &username, "' already exists")),
                        ),
                    ),
                    Ok(None) => {
                        let balance_usdc = match initial_balance {
                            Some(balance) => balance,
                            None => Decimal::whole(STARTING_BALANCE),
                        };
                        let user = User {
                            id,
                            username,
                            password_hash,
                            role,
                            balance_usdc,
                            created_at: now,
                            is_active: true,
                        };
                        Progress::Ask(
                            StoreRequest::InsertUser(user.clone()),
                            CreatingUser::Writing(user),
                        )
                    },
                }
            },
            CreatingUser::Writing(user) => match reply.into_inserted() {
                Err(e) => Progress::Finished(Err(e)),
                Ok(_) => Progress::Finished(
                    Ok(
                        CreatedUser {
                            id: user.id,
                            username: user.username,
                            role: user.role,
                            balance_usdc: user.balance_usdc,
                            created_at: user.created_at,
                        },
                    ),
                ),
            },
        }
    }

    /// Goes on with the store's reply.
    pub fn resume(self, reply: StoreReply) -> (r: Progress<CreatingUser, CreatedUser>)
        requires
            self@.expects(reply@),
        ensures
            exists|id: Seq<char>, now: TimestampView|
                is_random_uuid(id) && is_clock_reading(now) && r@ == #[trigger] self@.next(
                    reply@,
                    id,
                    now,
                ),
    {
        let id = new_id();
        let now = Timestamp::now();
        self.resume_as(reply, id, now)
    }
}

/// Begins the creation of a user, from what hashing the password gave.
pub fn create_user_hashed(
    session: Result<Claims, AppError>,
    body: CreateUserRequest,
    hashed: Result<String, String>,
) -> (r: Progress<CreatingUser, CreatedUser>)
    ensures
        r@ == user_creation(claims_result(session), body@, hashed_result(hashed)),
{
    match as_admin(session) {
        Err(e) => return Progress::Finished(Err(e)),
        Ok(_) => {},
    }
    let role = match UserRole::from_str(&body.role) {
        Some(role) => role,
        None => return Progress::Finished(
            Err(AppError::BadRequest("role must be 'admin' or 'trader'".to_owned())),
        ),
    };
    match hashed {
        Err(text) => Progress::Finished(Err(AppError::Internal(text))),
        Ok(password_hash) => Progress::Ask(
            StoreRequest::GetUserByUsername(body.username.clone()),
            CreatingUser::Checking {
                username: body.username,
                password_hash,
                role,
                initial_balance: body.initial_balance,
            },
        ),
    }
}

/// Creates a user in any role.
pub fn create_user(session: Result<Claims, AppError>, body: CreateUserRequest) -> (r: Progress<
    CreatingUser,
    CreatedUser,
>)
    ensures
        exists|hashed: Result<Seq<char>, Seq<char>>|
            hash_of(hashed, body@.password) && r@ == #[trigger] user_creation(
                claims_result(session),
                body@,
                hashed,
            ),
{
    let ghost asked = claims_result(session);
    let admin = as_admin(session);
    let hashed = if admin.is_ok() && UserRole::from_str(&body.role).is_some() {
        hash_password(&body.password)
    } else {
        Err(String::new())
    };
    let ghost view = hashed_result(hashed);
    assert(hash_of(view, body@.password));
    assert(user_creation(claims_result(admin), body@, view) == user_creation(asked, body@, view));
    create_user_hashed(admin, body, hashed)
}

/// A change of a balance on its way.
#[derive(Debug)]
pub enum UpdatingBalance {
    /// The user is being read.
    ReadingUser { user_id: String, balance_usdc: Decimal },
    /// The user is being written.
    Writing(User),
}

#[verifier::ext_equal]
pub enum UpdatingBalanceView {
    ReadingUser { user_id: Seq<char>, balance_usdc: DecimalView },
    Writing(UserView),
}

impl View for UpdatingBalance {
    type V = UpdatingBalanceView;

    open spec fn view(&self) -> UpdatingBalanceView {
        match self {
            UpdatingBalance::ReadingUser { user_id, balance_usdc } => {
                UpdatingBalanceView::ReadingUser { user_id: user_id@, balance_usdc: balance_usdc@ }
            },
            UpdatingBalance::Writing(user) => UpdatingBalanceView::Writing(user@),
        }
    }
}

/// A change of a balance begins.
pub open spec fn balance_update(
    session: Result<ClaimsView, AppErrorView>,
    user_id: Seq<char>,
    body: UpdateBalanceRequestView,
) -> ProgressView<UpdatingBalanceView, UpdatedBalanceView> {
    match admin_session(session) {
        Err(e) => ProgressView::Finished(Err(e)),
        Ok(_) => ProgressView::Ask(
            StoreRequestView::GetUserById(user_id),
            UpdatingBalanceView::ReadingUser { user_id, balance_usdc: body.balance_usdc },
        ),
    }
}

impl UpdatingBalanceView {
    /// Whether a reply is one to what the store was asked last.
    pub open spec fn expects(self, reply: StoreReplyView) -> bool {
        reply is Failed || match self {
            UpdatingBalanceView::ReadingUser { .. } => reply is User,
            UpdatingBalanceView::Writing(_) => reply is Inserted,
        }
    }

    /// How the change goes on from a reply: a negative balance is refused.
    pub open spec fn next(self, reply: StoreReplyView, now: TimestampView) -> ProgressView<
        UpdatingBalanceView,
        UpdatedBalanceView,
    > {
        match (self, reply) {
            (_, StoreReplyView::Failed(text)) => store_failed(text),
            (
                UpdatingBalanceView::ReadingUser { balance_usdc, .. },
                StoreReplyView::User(Some(user)),
            ) => if balance_usdc.mantissa < 0 {
                ProgressView::Finished(
                    Err(AppErrorView::BadRequest("balance_usdc must be >= 0"@)),
                )
            } else {
                let changed = UserView { balance_usdc, created_at: now, ..user };
                ProgressView::Ask(
                    StoreRequestView::InsertUser(changed),
                    UpdatingBalanceView::Writing(changed),
                )
            },
            (UpdatingBalanceView::ReadingUser { user_id, .. }, _) => ProgressView::Finished(
                Err(AppErrorView::NotFound("User "@ + user_id + " not found"@)),
            ),
            (UpdatingBalanceView::Writing(user), _) => ProgressView::Finished(
                Ok(UpdatedBalanceView { user_id: user.id, balance_usdc: user.balance_usdc }),
            ),
        }
    }
}

impl UpdatingBalance {
    /// Goes on with the store's reply at a given time.
    pub fn resume_at(self, reply: StoreReply, now: Timestamp) -> (r: Progress<
        UpdatingBalance,
        UpdatedBalance,
    >)
        requires
            self@.expects(reply@),
        ensures
            r@ == self@.next(reply@, now@),
    {
        match self {
            UpdatingBalance::ReadingUser { user_id, balance_usdc } => match reply.into_user() {
                Err(e) => Progress::Finished(Err(e)),
                Ok(None) => Progress::Finished(
                    Err(AppError::NotFound(join3("User ", &user_id, " not found"))),
                ),
                Ok(Some(user)) => {
                    if balance_usdc.is_negative() {
                        return Progress::Finished(
                            Err(AppError::BadRequest("balance_usdc must be >= 0".to_owned())),
                        );
                    }
                    let changed = User { balance_usdc, created_at: now, ..user };
                    Progress::Ask(
                        StoreRequest::InsertUser(changed.clone()),
                        UpdatingBalance::Writing(changed),
                    )
                },
            },
            UpdatingBalance::Writing(user) => match reply.into_inserted() {
                Err(e) => Progress::Finished(Err(e)),
                Ok(_) => Progress::Finished(
                    Ok(UpdatedBalance { user_id: user.id, balance_usdc: user.balance_usdc }),
                ),
            },
        }
    }

    /// Goes on with the store's reply.
    pub fn resume(self, reply: StoreReply) -> (r: Progress<UpdatingBalance, UpdatedBalance>)
        requires
            self@.expects(reply@),
        ensures
            exists|now: TimestampView|
                is_clock_reading(now) && r@ == #[trigger] self@.next(reply@, now),
    {
        let now = Timestamp::now();
        self.resume_at(reply, now)
    }
}

/// Sets a user's USDC balance.
pub fn update_balance(
    session: Result<Claims, AppError>,
    user_id: String,
    body: UpdateBalanceRequest,
) -> (r: Progress<UpdatingBalance, UpdatedBalance>)
    ensures
        r@ == balance_update(claims_result(session), user_id@, body@),
{
    match as_admin(session) {
        Err(e) => Progress::Finished(Err(e)),
        Ok(_) => Progress::Ask(
            StoreRequest::GetUserById(user_id.clone()),
            UpdatingBalance::ReadingUser { user_id, balance_usdc: body.balance_usdc },
        ),
    }
}

/// All orders are listed, at most a thousand, and a hundred where no limit is given.
pub open spec fn all_order_listing(
    session: Result<ClaimsView, AppErrorView>,
    query: LimitQueryView,
) -> ProgressView<ListingOrders, Seq<OrderView>> {
    match admin_session(session) {
        Err(e) => ProgressView::Finished(Err(e)),
        Ok(_) => ProgressView::Ask(
            StoreRequestView::ListAllOrders(bounded_limit(query.limit, 100, 1000)),
            ListingOrders,
        ),
    }
}

/// Lists the orders of all users.
pub fn list_all_orders(session: Result<Claims, AppError>, query: LimitQuery) -> (r: Progress<
    ListingOrders,
    Vec<Order>,
>)
    ensures
        r@ == all_order_listing(claims_result(session), query@),
{
    match as_admin(session) {
        Err(e) => Progress::Finished(Err(e)),
        Ok(_) => Progress::Ask(
            StoreRequest::ListAllOrders(limit_or(query.limit, 100, 1000)),
            ListingOrders,
        ),
    }
}

/// Lists the supported symbols.
pub fn list_symbols(session: Result<Claims, AppError>, symbols: &Vec<String>) -> (r: Result<
    Vec<String>,
    AppError,
>)
    ensures
        match r {
            Ok(listed) => admin_session(claims_result(session)) is Ok && listed.deep_view()
                == symbols.deep_view(),
            Err(e) => admin_session(claims_result(session)) == Err::<ClaimsView, AppErrorView>(e@),
        },
{
    match as_admin(session) {
        Ok(_) => Ok(clone_texts(symbols)),
        Err(e) => Err(e),
    }
}

/// Lists the live prices of all symbols, in no particular order.
pub fn live_prices(session: Result<Claims, AppError>, prices: &PriceCache) -> (r: Result<
    Vec<(String, Quote)>,
    AppError,
>)
    ensures
        match r {
            Ok(listed) => admin_session(claims_result(session)) is Ok && is_snapshot(
                quotes_in(*prices),
                listed.deep_view(),
            ),
            Err(e) => admin_session(claims_result(session)) == Err::<ClaimsView, AppErrorView>(e@),
        },
{
    match as_admin(session) {
        Ok(_) => Ok(get_prices(prices)),
        Err(e) => Err(e),
    }
}

/// Whoever is not an administrator is refused every request of administration at once, before the
/// store is asked anything, and so is whoever has no valid session.
pub proof fn law_administrators_only(
    session: Result<ClaimsView, AppErrorView>,
    body: CreateUserRequestView,
    hashed: Result<Seq<char>, Seq<char>>,
    user_id: Seq<char>,
    balance: UpdateBalanceRequestView,
    query: LimitQueryView,
)
    requires
        session matches Ok(claims) ==> claims.role != UserRole::Admin.name(),
    ensures
        ({
            let refusal = match session {
                Ok(_) => AppErrorView::Forbidden("Admin only"@),
                Err(e) => e,
            };
            &&& admin_session(session) == Err::<ClaimsView, AppErrorView>(refusal)
            &&& user_listing(session) == ProgressView::<ListingUsers, Seq<UserView>>::Finished(
                Err(refusal),
            )
            &&& user_creation(session, body, hashed) == ProgressView::<
                CreatingUserView,
                CreatedUserView,
            >::Finished(Err(refusal))
            &&& balance_update(session, user_id, balance) == ProgressView::<
                UpdatingBalanceView,
                UpdatedBalanceView,
            >::Finished(Err(refusal))
            &&& all_order_listing(session, query) == ProgressView::<
                ListingOrders,
                Seq<OrderView>,
            >::Finished(Err(refusal))
        }),
{
}

/// An administrator sets no negative balance, and writes no other field of the user but the
/// balance and the time.
pub proof fn law_balance_is_set(
    user: UserView,
    user_id: Seq<char>,
    balance_usdc: DecimalView,
    now: TimestampView,
)
    ensures
        (UpdatingBalanceView::ReadingUser { user_id, balance_usdc }).next(
            StoreReplyView::User(Some(user)),
            now,
        ) matches ProgressView::Ask(StoreRequestView::InsertUser(written), _) ==> (
        balance_usdc.mantissa >= 0 && written == (UserView {
            balance_usdc,
            created_at: now,
            ..user
        })),
{
}

/// An administrator never creates a second user of the same name: the name that is looked up is
/// the one that would be written, and no user is written where one has it.
pub proof fn law_created_names_stay_unique(
    users: Set<UserView>,
    claims: ClaimsView,
    body: CreateUserRequestView,
    password_hash: Seq<char>,
    reply: StoreReplyView,
    id: Seq<char>,
    now: TimestampView,
    other: UserView,
)
    requires
        is_admin(claims),
        UserRole::named(body.role) is Some,
        reply is User,
        users.contains(other),
    ensures
        user_creation(Ok(claims), body, Ok(password_hash)) matches ProgressView::Ask(
            request,
            state,
        ) && (request matches StoreRequestView::GetUserByUsername(name) && (finds_name(
            users,
            name,
            reply,
        ) ==> (state.next(reply, id, now) matches ProgressView::Ask(
            StoreRequestView::InsertUser(user),
            _,
        ) ==> user.username != other.username))),
{
}

} // verus!
