//! Who has an account, who gets in, and what administrators do.

use vstd::prelude::*;

use crate::api::admin::{
    balance_update, user_creation, user_listing, users_listed, CreatedUserView, CreatingUserView,
    ListingUsers, UpdatedBalanceView, UpdatingBalanceView,
};
use crate::api::auth::{
    logged_out, registration, revoked_after_logout, LoggingInView, RegisterRequestView,
    RegisteringView,
};
use crate::auth::{
    accepted, admitted, bearer_token, claims_in, password_verdict, signed_token, token_expiry,
    unexpired, unless_revoked, ClaimsView, TokenFieldsView,
};
use crate::error::AppErrorView;
use crate::models::{
    CreateUserRequestView, LoginResponseView, UpdateBalanceRequestView, UserRole, UserView,
};
use crate::store::{ProgressView, StoreReplyView, StoreRequestView};
use crate::text::{trimmed, utf8_length};
use crate::timestamp::{TimestampView, MAX_SECS};

verus! {

/// Whether a response is for a user, with a token that was made for that user and role now.
pub open spec fn answers(
    response: LoginResponseView,
    user: UserView,
    secret: Seq<char>,
    expiry_hours: u64,
    jti: Seq<char>,
    now: TimestampView,
) -> bool {
    &&& response.user_id == user.id
    &&& response.username == user.username
    &&& response.role == user.role
    &&& token_expiry(now.secs, expiry_hours) matches Some(exp) && signed_token(
        ClaimsView {
            sub: user.id,
            role: match user.role {
                UserRole::Admin => "admin"@,
                UserRole::Trader => "trader"@,
            },
            exp,
            jti,
        },
        secret,
    ) == Ok::<Seq<char>, Seq<char>>(response.token)
}

/// Why a token could not be made.
pub open spec fn no_token(
    error: AppErrorView,
    user: UserView,
    secret: Seq<char>,
    expiry_hours: u64,
    jti: Seq<char>,
    now: TimestampView,
) -> bool {
    match token_expiry(now.secs, expiry_hours) {
        None => error == AppErrorView::Overflow,
        Some(exp) => signed_token(
            ClaimsView {
                sub: user.id,
                role: match user.role {
                    UserRole::Admin => "admin"@,
                    UserRole::Trader => "trader"@,
                },
                exp,
                jti,
            },
            secret,
        ) matches Err(text) && error == AppErrorView::Internal(text),
    }
}

/// A user logs in who is there, is active, and gives the password that belongs to the hash; the
/// answer is a token for that user and role. Nobody else does: an unknown name and a wrong
/// password are answered alike.
pub proof fn law_login(
    password: Seq<char>,
    user: UserView,
    secret: Seq<char>,
    expiry_hours: u64,
    jti: Seq<char>,
    now: TimestampView,
)
    ensures
        ({
            let state = LoggingInView { password };
            let unknown = state.next(StoreReplyView::User(None), secret, expiry_hours, jti, now);
            let known = state.next(
                StoreReplyView::User(Some(user)),
                secret,
                expiry_hours,
                jti,
                now,
            );
            let refused = AppErrorView::Unauthorized("Invalid credentials"@);
            &&& unknown == ProgressView::<LoggingInView, LoginResponseView>::Finished(Err(refused))
            &&& known matches ProgressView::Finished(result) && if !user.is_active {
                result == Err::<LoginResponseView, AppErrorView>(
                    AppErrorView::Unauthorized("Account is disabled"@),
                )
            } else {
                match password_verdict(password, user.password_hash) {
                    Err(text) => result == Err::<LoginResponseView, AppErrorView>(
                        AppErrorView::Internal(text),
                    ),
                    Ok(belongs) => if !belongs {
                        result == Err::<LoginResponseView, AppErrorView>(refused)
                    } else {
                        match result {
                            Ok(response) => answers(
                                response,
                                user,
                                secret,
                                expiry_hours,
                                jti,
                                now,
                            ),
                            Err(e) => no_token(e, user, secret, expiry_hours, jti, now),
                        }
                    },
                }
            }
        }),
{
}

/// Whether a user is a new trader: active, with ten thousand USDC, under that name and with that
/// hash.
pub open spec fn starts_trading(
    user: UserView,
    username: Seq<char>,
    password_hash: Seq<char>,
    id: Seq<char>,
    now: TimestampView,
) -> bool {
    &&& user.id == id
    &&& user.username == username
    &&& user.password_hash == password_hash
    &&& user.role == UserRole::Trader
    &&& user.balance_usdc.mantissa == 10_000 && user.balance_usdc.scale == 0
    &&& user.created_at == now
    &&& user.is_active
}

/// A registration with a name that is not blank and a password of six bytes or more looks the name
/// up without the blanks around it. Where nobody has it, a new trader of that name is written, and
/// answered with a token; where somebody has it, the answer is a conflict and nobody is written.
/// Any other registration is refused at once.
pub proof fn law_registration(
    body: RegisterRequestView,
    hashed: Result<Seq<char>, Seq<char>>,
    taken: UserView,
    secret: Seq<char>,
    expiry_hours: u64,
    id: Seq<char>,
    now: TimestampView,
    jti: Seq<char>,
    later: TimestampView,
)
    ensures
        ({
            let name = trimmed(body.username);
            let progress = registration(body, hashed);
            if name.len() == 0 || utf8_length(body.password) < 6 {
                progress == ProgressView::<RegisteringView, LoginResponseView>::Finished(
                    Err(
                        AppErrorView::BadRequest(
                            "username cannot be empty and password must be at least 6 characters"@,
                        ),
                    ),
                )
            } else {
                match hashed {
                    Err(text) => progress == ProgressView::<
                        RegisteringView,
                        LoginResponseView,
                    >::Finished(Err(AppErrorView::Internal(text))),
                    Ok(hash) => progress matches ProgressView::Ask(request, state) && {
                        &&& request == StoreRequestView::GetUserByUsername(name)
                        &&& state.next(
                            StoreReplyView::User(Some(taken)),
                            secret,
                            expiry_hours,
                            id,
                            now,
                        ) == ProgressView::<RegisteringView, LoginResponseView>::Finished(
                            Err(
                                AppErrorView::Conflict(
                                    "Username '"@ + name + "' is already taken"@,
                                ),
                            ),
                        )
                        &&& state.next(
                            StoreReplyView::User(None),
                            secret,
                            expiry_hours,
                            id,
                            now,
                        ) matches ProgressView::Ask(StoreRequestView::InsertUser(user), state)
                            && starts_trading(user, name, hash, id, now) && (state.next(
                            StoreReplyView::Inserted,
                            secret,
                            expiry_hours,
                            jti,
                            later,
                        ) matches ProgressView::Finished(result) && match result {
                            Ok(response) => answers(
                                response,
                                user,
                                secret,
                                expiry_hours,
                                jti,
                                later,
                            ),
                            Err(e) => no_token(e, user, secret, expiry_hours, jti, later),
                        })
                    },
                }
            }
        }),
{
}

/// Logging out revokes the token of the session, until it expires, and no other token; without a
/// session it revokes nothing and is answered with what is wrong with the session.
pub proof fn law_logging_out(
    claims: ClaimsView,
    refused: AppErrorView,
    revoked: Map<Seq<char>, u64>,
    other: Seq<char>,
)
    requires
        other != claims.jti,
    ensures
        logged_out(Ok(claims)) == Ok::<Seq<char>, AppErrorView>("Logged out"@),
        logged_out(Err(refused)) == Err::<Seq<char>, AppErrorView>(refused),
        ({
            let after = revoked_after_logout(Ok(claims), revoked);
            &&& after.dom().contains(claims.jti) && after[claims.jti] == claims.exp
            &&& after.dom().contains(other) == revoked.dom().contains(other)
            &&& after[other] == revoked[other]
        }),
        revoked_after_logout(Err(refused), revoked) == revoked,
{
}

/// Whoever has a token that is not revoked passes with the claims as they are; a revoked one is
/// refused, and so is whoever was refused before.
pub proof fn law_revocation(
    claims: ClaimsView,
    refused: AppErrorView,
    revoked: Map<Seq<char>, u64>,
    now: u64,
    jti: Seq<char>,
)
    ensures
        admitted(Ok(claims), revoked) == if revoked.dom().contains(claims.jti) {
            Err::<ClaimsView, AppErrorView>(AppErrorView::Unauthorized("Token has been revoked"@))
        } else {
            Ok(claims)
        },
        admitted(Err(refused), revoked) == Err::<ClaimsView, AppErrorView>(refused),
        unless_revoked(claims, revoked) == admitted(Ok(claims), revoked),
        unexpired(revoked, now).dom().contains(jti) == (revoked.dom().contains(jti) && revoked[jti]
            > now),
        unexpired(revoked, now).dom().contains(jti) ==> unexpired(revoked, now)[jti]
            == revoked[jti],
{
}

/// A header holds a token if and only if it is `Bearer`, a blank, and the token.
pub proof fn law_bearer(header: Seq<char>, token: Seq<char>)
    ensures
        bearer_token(None) == Err::<Seq<char>, AppErrorView>(
            AppErrorView::Unauthorized("Missing Authorization header"@),
        ),
        bearer_token(Some(header)) == Ok::<Seq<char>, AppErrorView>(token) <==> header
            == "Bearer "@ + token,
        bearer_token(Some(header)) matches Err(e) ==> e == AppErrorView::Unauthorized(
            "Invalid Authorization format"@,
        ),
{
    let prefix = "Bearer "@;
    if header == prefix + token {
        assert(header.take(prefix.len() as int) =~= prefix);
        assert(header.skip(prefix.len() as int) =~= token);
    }
    if bearer_token(Some(header)) == Ok::<Seq<char>, AppErrorView>(token) {
        assert(header =~= prefix + token);
    }
}

/// The claims of a token are its fields, where none is missing; otherwise the answer names the
/// first one that is.
pub proof fn law_claims_are_the_fields(fields: TokenFieldsView)
    ensures
        match claims_in(fields) {
            Ok(claims) => {
                &&& fields.sub == Some(claims.sub)
                &&& fields.role == Some(claims.role)
                &&& fields.exp == Some(claims.exp)
                &&& fields.jti == Some(claims.jti)
            },
            Err(e) => e == AppErrorView::Unauthorized(
                if fields.sub is None {
                    "JSON error: missing field `sub`"@
                } else if fields.role is None {
                    "JSON error: missing field `role`"@
                } else if fields.exp is None {
                    "JSON error: missing field `exp`"@
                } else {
                    "JSON error: missing field `jti`"@
                },
            ) && (fields.sub is None || fields.role is None || fields.exp is None || fields.jti
                is None),
        },
{
}

/// Whether no field of a token is missing.
pub open spec fn has_all_fields(fields: TokenFieldsView) -> bool {
    fields.sub is Some && fields.role is Some && fields.exp is Some && fields.jti is Some
}

/// A token is accepted where it can be read, is well formed, has all its fields and is valid now,
/// with the claims that its fields make. Otherwise it is refused with what is wrong with it first.
pub proof fn law_acceptance(
    read: Result<TokenFieldsView, Seq<char>>,
    fault: Option<Seq<char>>,
    validated: Result<TokenFieldsView, Seq<char>>,
)
    ensures
        match accepted(read, fault, validated) {
            Ok(claims) => {
                &&& fault is None
                &&& validated is Ok
                &&& read == Ok::<TokenFieldsView, Seq<char>>(
                    TokenFieldsView {
                        sub: Some(claims.sub),
                        role: Some(claims.role),
                        exp: Some(claims.exp),
                        jti: Some(claims.jti),
                    },
                )
            },
            Err(e) => match (read, fault, validated) {
                (Err(text), _, _) => e == AppErrorView::Unauthorized(text),
                (Ok(_), Some(text), _) => e == AppErrorView::Unauthorized("JSON error: "@ + text),
                (Ok(fields), None, Err(text)) => has_all_fields(fields) ==> e
                    == AppErrorView::Unauthorized(text),
                (Ok(fields), None, Ok(_)) => !has_all_fields(fields),
            },
        },
        accepted(read, fault, validated) matches Err(e) ==> e is Unauthorized,
{
}

/// A token expires as many hours after it was made as were asked for, where there is such a time.
pub proof fn law_expiry(secs: int, expiry_hours: u64)
    requires
        0 <= secs,
        expiry_hours <= i64::MAX,
    ensures
        match token_expiry(secs, expiry_hours) {
            Some(exp) => exp == secs + 3600 * expiry_hours && exp <= MAX_SECS,
            None => secs + 3600 * expiry_hours > MAX_SECS,
        },
{
}

/// An administrator creates the user that was asked for: under that name, in that role, with that
/// hash, active, and with the balance that was asked for, or ten thousand USDC where none was. An
/// unknown role is refused at once, and a name that somebody has is a conflict.
pub proof fn law_user_creation(
    claims: ClaimsView,
    body: CreateUserRequestView,
    hashed: Result<Seq<char>, Seq<char>>,
    taken: UserView,
    id: Seq<char>,
    now: TimestampView,
    other_id: Seq<char>,
    later: TimestampView,
)
    requires
        claims.role == "admin"@,
    ensures
        ({
            let progress = user_creation(Ok(claims), body, hashed);
            if body.role != "admin"@ && body.role != "trader"@ {
                progress == ProgressView::<CreatingUserView, CreatedUserView>::Finished(
                    Err(AppErrorView::BadRequest("role must be 'admin' or 'trader'"@)),
                )
            } else {
                match hashed {
                    Err(text) => progress == ProgressView::<
                        CreatingUserView,
                        CreatedUserView,
                    >::Finished(Err(AppErrorView::Internal(text))),
                    Ok(hash) => progress matches ProgressView::Ask(request, state) && {
                        &&& request == StoreRequestView::GetUserByUsername(body.username)
                        &&& state.next(StoreReplyView::User(Some(taken)), id, now)
                            == ProgressView::<CreatingUserView, CreatedUserView>::Finished(
                            Err(
                                AppErrorView::Conflict(
                                    "Username '"@ + body.username + "' already exists"@,
                                ),
                            ),
                        )
                        &&& state.next(
                            StoreReplyView::User(None),
                            id,
                            now,
                        ) matches ProgressView::Ask(
                            StoreRequestView::InsertUser(user),
                            state,
                        ) && {
                            &&& user.id == id
                            &&& user.username == body.username
                            &&& user.password_hash == hash
                            &&& (user.role == UserRole::Admin) == (body.role == "admin"@)
                            &&& match body.initial_balance {
                                Some(balance) => user.balance_usdc == balance,
                                None => user.balance_usdc.mantissa == 10_000
                                    && user.balance_usdc.scale == 0,
                            }
                            &&& user.created_at == now
                            &&& user.is_active
                            &&& state.next(StoreReplyView::Inserted, other_id, later)
                                matches ProgressView::Finished(Ok(created)) && created.id == user.id
                                && created.username == user.username && created.role == user.role
                                && created.balance_usdc == user.balance_usdc && created.created_at
                                == user.created_at
                        }
                    },
                }
            }
        }),
{
    reveal_strlit("admin");
    reveal_strlit("trader");
    assert("admin"@.len() != "trader"@.len());
}

/// An administrator sets the balance of the user that was asked for to what was asked for, where
/// that is not negative and the user is there, and changes nothing else of the user. The answer is
/// the user and the new balance.
pub proof fn law_balance_change(
    claims: ClaimsView,
    user_id: Seq<char>,
    body: UpdateBalanceRequestView,
    user: UserView,
    now: TimestampView,
    later: TimestampView,
)
    requires
        claims.role == "admin"@,
    ensures
        balance_update(Ok(claims), user_id, body) matches ProgressView::Ask(request, state) && {
            &&& request == StoreRequestView::GetUserById(user_id)
            &&& state.next(StoreReplyView::User(None), now) == ProgressView::<
                UpdatingBalanceView,
                UpdatedBalanceView,
            >::Finished(Err(AppErrorView::NotFound("User "@ + user_id + " not found"@)))
            &&& if body.balance_usdc.mantissa < 0 {
                state.next(StoreReplyView::User(Some(user)), now) == ProgressView::<
                    UpdatingBalanceView,
                    UpdatedBalanceView,
                >::Finished(Err(AppErrorView::BadRequest("balance_usdc must be >= 0"@)))
            } else {
                state.next(StoreReplyView::User(Some(user)), now) matches ProgressView::Ask(
                    StoreRequestView::InsertUser(written),
                    state,
                ) && {
                    &&& written.id == user.id
                    &&& written.username == user.username
                    &&& written.password_hash == user.password_hash
                    &&& written.role == user.role
                    &&& written.is_active == user.is_active
                    &&& written.balance_usdc == body.balance_usdc
                    &&& written.created_at == now
                    &&& state.next(StoreReplyView::Inserted, later) matches ProgressView::Finished(
                        Ok(answer),
                    ) && answer.user_id == user.id && answer.balance_usdc == body.balance_usdc
                }
            }
        },
{
}

/// An administrator sees the users as the store lists them.
pub proof fn law_users_are_listed(claims: ClaimsView, users: Seq<UserView>)
    requires
        claims.role == "admin"@,
    ensures
        user_listing(Ok(claims)) matches ProgressView::Ask(request, _) && request
            == StoreRequestView::ListUsers,
        users_listed(StoreReplyView::Users(users)) == ProgressView::<
            ListingUsers,
            Seq<UserView>,
        >::Finished(Ok(users)),
{
}

} // verus!
