//! Domain types: users, orders, positions, and the shapes of requests and responses.

use vstd::prelude::*;

use crate::decimal::{Decimal, DecimalView};
use crate::text::same_text;
use crate::timestamp::{Timestamp, TimestampView};

verus! {

#[derive(Debug, Clone, Copy, PartialEq, Eq, Structural)]
pub enum UserRole {
    Admin,
    Trader,
}

impl UserRole {
    pub open spec fn name(self) -> Seq<char> {
        match self {
            UserRole::Admin => "admin"@,
            UserRole::Trader => "trader"@,
        }
    }

    pub fn as_str(self) -> (r: &'static str)
        ensures
            r@ == self.name(),
    {
        match self {
            UserRole::Admin => "admin",
            UserRole::Trader => "trader",
        }
    }

    /// The role of that name.
    pub open spec fn named(name: Seq<char>) -> Option<UserRole> {
        if name == "admin"@ {
            Some(UserRole::Admin)
        } else if name == "trader"@ {
            Some(UserRole::Trader)
        } else {
            None
        }
    }

    pub fn from_str(s: &str) -> (r: Option<UserRole>)
        ensures
            r == UserRole::named(s@),
    {
        if same_text(s, "admin") {
            Some(UserRole::Admin)
        } else if same_text(s, "trader") {
            Some(UserRole::Trader)
        } else {
            None
        }
    }
}

/// A role is found again under its name, and a name that is found is the name of what is found.
pub proof fn law_role_names(role: UserRole, name: Seq<char>)
    ensures
        UserRole::named(role.name()) == Some(role),
        UserRole::named(name) == Some(role) ==> name == role.name(),
{
    reveal_strlit("admin");
    reveal_strlit("trader");
    assert("admin"@.len() != "trader"@.len());
}

#[derive(Debug, Clone, Copy, PartialEq, Eq, Structural, Hash, Default)]
pub enum OrderType {
    #[default]
    Market,
    Limit,
    StopLimit,
}

impl OrderType {
    pub open spec fn name(self) -> Seq<char> {
        match self {
            OrderType::Market => "market"@,
            OrderType::Limit => "limit"@,
            OrderType::StopLimit => "stop_limit"@,
        }
    }

    pub fn as_str(self) -> (r: &'static str)
        ensures
            r@ == self.name(),
    {
        match self {
            OrderType::Market => "market",
            OrderType::Limit => "limit",
            OrderType::StopLimit => "stop_limit",
        }
    }

    /// The order type of that name.
    pub open spec fn named(name: Seq<char>) -> Option<OrderType> {
        if name == "market"@ {
            Some(OrderType::Market)
        } else if name == "limit"@ {
            Some(OrderType::Limit)
        } else if name == "stop_limit"@ {
            Some(OrderType::StopLimit)
        } else {
            None
        }
    }

    pub fn from_str(s: &str) -> (r: Option<OrderType>)
        ensures
            r == OrderType::named(s@),
    {
        if same_text(s, "market") {
            Some(OrderType::Market)
        } else if same_text(s, "limit") {
            Some(OrderType::Limit)
        } else if same_text(s, "stop_limit") {
            Some(OrderType::StopLimit)
        } else {
            None
        }
    }
}

/// An order type is found again under its name, and a name that is found is the name of what is
/// found.
pub proof fn law_order_type_names(order_type: OrderType, name: Seq<char>)
    ensures
        OrderType::named(order_type.name()) == Some(order_type),
        OrderType::named(name) == Some(order_type) ==> name == order_type.name(),
{
    reveal_strlit("market");
    reveal_strlit("limit");
    reveal_strlit("stop_limit");
    assert("market"@.len() == 6 && "limit"@.len() == 5 && "stop_limit"@.len() == 10);
}

#[derive(Debug, Clone, Copy, PartialEq, Eq, Structural)]
pub enum Side {
    Buy,
    Sell,
}

impl Side {
    pub open spec fn name(self) -> Seq<char> {
        match self {
            Side::Buy => "buy"@,
            Side::Sell => "sell"@,
        }
    }

    pub fn as_str(self) -> (r: &'static str)
        ensures
            r@ == self.name(),
    {
        match self {
            Side::Buy => "buy",
            Side::Sell => "sell",
        }
    }

    /// The side of that name.
    pub open spec fn named(name: Seq<char>) -> Option<Side> {
        if name == "buy"@ {
            Some(Side::Buy)
        } else if name == "sell"@ {
            Some(Side::Sell)
        } else {
            None
        }
    }

    pub fn from_str(s: &str) -> (r: Option<Side>)
        ensures
            r == Side::named(s@),
    {
        if same_text(s, "buy") {
            Some(Side::Buy)
        } else if same_text(s, "sell") {
            Some(Side::Sell)
        } else {
            None
        }
    }
}

/// A side is found again under its name, and a name that is found is the name of what is found.
pub proof fn law_side_names(side: Side, name: Seq<char>)
    ensures
        Side::named(side.name()) == Some(side),
        Side::named(name) == Some(side) ==> name == side.name(),
{
    reveal_strlit("buy");
    reveal_strlit("sell");
    assert("buy"@.len() != "sell"@.len());
}

#[derive(Debug, Clone, Copy, PartialEq, Eq, Structural)]
pub enum OrderStatus {
    Filled,
    Rejected,
    /// An open limit order that waits to be matched.
    Pending,
    /// A limit order that its user canceled.
    Canceled,
}

impl OrderStatus {
    pub open spec fn name(self) -> Seq<char> {
        match self {
            OrderStatus::Filled => "filled"@,
            OrderStatus::Rejected => "rejected"@,
            OrderStatus::Pending => "pending"@,
            OrderStatus::Canceled => "canceled"@,
        }
    }

    pub fn as_str(self) -> (r: &'static str)
        ensures
            r@ == self.name(),
    {
        match self {
            OrderStatus::Filled => "filled",
            OrderStatus::Rejected => "rejected",
            OrderStatus::Pending => "pending",
            OrderStatus::Canceled => "canceled",
        }
    }

    /// The status of that name.
    pub open spec fn named(name: Seq<char>) -> Option<OrderStatus> {
        if name == "filled"@ {
            Some(OrderStatus::Filled)
        } else if name == "rejected"@ {
            Some(OrderStatus::Rejected)
        } else if name == "pending"@ {
            Some(OrderStatus::Pending)
        } else if name == "canceled"@ {
            Some(OrderStatus::Canceled)
        } else {
            None
        }
    }

    pub fn from_str(s: &str) -> (r: Option<OrderStatus>)
        ensures
            r == OrderStatus::named(s@),
    {
        if same_text(s, "filled") {
            Some(OrderStatus::Filled)
        } else if same_text(s, "rejected") {
            Some(OrderStatus::Rejected)
        } else if same_text(s, "pending") {
            Some(OrderStatus::Pending)
        } else if same_text(s, "canceled") {
            Some(OrderStatus::Canceled)
        } else {
            None
        }
    }
}

/// A status is found again under its name, and a name that is found is the name of what is found.
pub proof fn law_order_status_names(status: OrderStatus, name: Seq<char>)
    ensures
        OrderStatus::named(status.name()) == Some(status),
        OrderStatus::named(name) == Some(status) ==> name == status.name(),
{
    reveal_strlit("filled");
    reveal_strlit("rejected");
    reveal_strlit("pending");
    reveal_strlit("canceled");
    assert("filled"@.len() == 6 && "pending"@.len() == 7);
    assert("rejected"@[0] == 'r' && "canceled"@[0] == 'c');
    assert("rejected"@.len() == 8 && "canceled"@.len() == 8);
}

/// A copy of a text that may be absent.
pub fn clone_text(text: &Option<String>) -> (r: Option<String>)
    ensures
        r.deep_view() == text.deep_view(),
{
    match text {
        Some(inner) => Some(inner.clone()),
        None => None,
    }
}

#[derive(Debug)]
pub struct User {
    pub id: String,
    pub username: String,
    pub password_hash: String,
    pub role: UserRole,
    pub balance_usdc: Decimal,
    /// Also the version of the record: the latest one counts.
    pub created_at: Timestamp,
    pub is_active: bool,
}

#[verifier::ext_equal]
pub struct UserView {
    pub id: Seq<char>,
    pub username: Seq<char>,
    pub password_hash: Seq<char>,
    pub role: UserRole,
    pub balance_usdc: DecimalView,
    pub created_at: TimestampView,
    pub is_active: bool,
}

impl View for User {
    type V = UserView;

    open spec fn view(&self) -> UserView {
        UserView {
            id: self.id@,
            username: self.username@,
            password_hash: self.password_hash@,
            role: self.role,
            balance_usdc: self.balance_usdc@,
            created_at: self.created_at@,
            is_active: self.is_active,
        }
    }
}

impl DeepView for User {
    type V = UserView;

    open spec fn deep_view(&self) -> UserView {
        self@
    }
}

impl Clone for User {
    fn clone(&self) -> (r: Self)
        ensures
            r@ == self@,
    {
        User {
            id: self.id.clone(),
            username: self.username.clone(),
            password_hash: self.password_hash.clone(),
            role: self.role,
            balance_usdc: self.balance_usdc,
            created_at: self.created_at,
            is_active: self.is_active,
        }
    }
}

#[derive(Debug)]
pub struct Order {
    pub id: String,
    pub user_id: String,
    pub symbol: String,
    pub side: Side,
    pub order_type: OrderType,
    /// The requested limit price. None for market orders.
    pub limit_price: Option<Decimal>,
    /// Execution price. Zero until filled for limit orders.
    pub price: Decimal,
    pub amount: Decimal,
    /// price × amount. Zero until filled for limit orders.
    pub total_usdc: Decimal,
    pub status: OrderStatus,
    pub reject_reason: Option<String>,
    pub created_at: Timestamp,
    /// The version of the record; set anew on every status change.
    pub updated_at: Timestamp,
}

#[verifier::ext_equal]
pub struct OrderView {
    pub id: Seq<char>,
    pub user_id: Seq<char>,
    pub symbol: Seq<char>,
    pub side: Side,
    pub order_type: OrderType,
    pub limit_price: Option<DecimalView>,
    pub price: DecimalView,
    pub amount: DecimalView,
    pub total_usdc: DecimalView,
    pub status: OrderStatus,
    pub reject_reason: Option<Seq<char>>,
    pub created_at: TimestampView,
    pub updated_at: TimestampView,
}

impl View for Order {
    type V = OrderView;

    open spec fn view(&self) -> OrderView {
        OrderView {
            id: self.id@,
            user_id: self.user_id@,
            symbol: self.symbol@,
            side: self.side,
            order_type: self.order_type,
            limit_price: self.limit_price.deep_view(),
            price: self.price@,
            amount: self.amount@,
            total_usdc: self.total_usdc@,
            status: self.status,
            reject_reason: self.reject_reason.deep_view(),
            created_at: self.created_at@,
            updated_at: self.updated_at@,
        }
    }
}

impl DeepView for Order {
    type V = OrderView;

    open spec fn deep_view(&self) -> OrderView {
        self@
    }
}

impl Clone for Order {
    fn clone(&self) -> (r: Self)
        ensures
            r@ == self@,
    {
        Order {
            id: self.id.clone(),
            user_id: self.user_id.clone(),
            symbol: self.symbol.clone(),
            side: self.side,
            order_type: self.order_type,
            limit_price: self.limit_price,
            price: self.price,
            amount: self.amount,
            total_usdc: self.total_usdc,
            status: self.status,
            reject_reason: clone_text(&self.reject_reason),
            created_at: self.created_at,
            updated_at: self.updated_at,
        }
    }
}

#[derive(Debug)]
pub struct Position {
    pub user_id: String,
    pub symbol: String,
    pub quantity: Decimal,
    pub avg_buy_price: Decimal,
    pub updated_at: Timestamp,
}

#[verifier::ext_equal]
pub struct PositionView {
    pub user_id: Seq<char>,
    pub symbol: Seq<char>,
    pub quantity: DecimalView,
    pub avg_buy_price: DecimalView,
    pub updated_at: TimestampView,
}

impl View for Position {
    type V = PositionView;

    open spec fn view(&self) -> PositionView {
        PositionView {
            user_id: self.user_id@,
            symbol: self.symbol@,
            quantity: self.quantity@,
            avg_buy_price: self.avg_buy_price@,
            updated_at: self.updated_at@,
        }
    }
}

impl DeepView for Position {
    type V = PositionView;

    open spec fn deep_view(&self) -> PositionView {
        self@
    }
}

impl Clone for Position {
    fn clone(&self) -> (r: Self)
        ensures
            r@ == self@,
    {
        Position {
            user_id: self.user_id.clone(),
            symbol: self.symbol.clone(),
            quantity: self.quantity,
            avg_buy_price: self.avg_buy_price,
            updated_at: self.updated_at,
        }
    }
}

#[derive(Debug)]
pub struct LoginRequest {
    pub username: String,
    pub password: String,
}

#[verifier::ext_equal]
pub struct LoginRequestView {
    pub username: Seq<char>,
    pub password: Seq<char>,
}

impl View for LoginRequest {
    type V = LoginRequestView;

    open spec fn view(&self) -> LoginRequestView {
        LoginRequestView {
            username: self.username@,
            password: self.password@,
        }
    }
}

impl DeepView for LoginRequest {
    type V = LoginRequestView;

    open spec fn deep_view(&self) -> LoginRequestView {
        self@
    }
}

#[derive(Debug)]
pub struct PlaceOrderRequest {
    pub symbol: String,
    pub side: Side,
    pub amount: Decimal,
    pub order_type: OrderType,
    /// Required when order_type is Limit.
    pub limit_price: Option<Decimal>,
}

#[verifier::ext_equal]
pub struct PlaceOrderRequestView {
    pub symbol: Seq<char>,
    pub side: Side,
    pub amount: DecimalView,
    pub order_type: OrderType,
    pub limit_price: Option<DecimalView>,
}

impl View for PlaceOrderRequest {
    type V = PlaceOrderRequestView;

    open spec fn view(&self) -> PlaceOrderRequestView {
        PlaceOrderRequestView {
            symbol: self.symbol@,
            side: self.side,
            amount: self.amount@,
            order_type: self.order_type,
            limit_price: self.limit_price.deep_view(),
        }
    }
}

impl DeepView for PlaceOrderRequest {
    type V = PlaceOrderRequestView;

    open spec fn deep_view(&self) -> PlaceOrderRequestView {
        self@
    }
}

#[derive(Debug)]
pub struct CreateUserRequest {
    pub username: String,
    pub password: String,
    pub role: String,
    pub initial_balance: Option<Decimal>,
}

#[verifier::ext_equal]
pub struct CreateUserRequestView {
    pub username: Seq<char>,
    pub password: Seq<char>,
    pub role: Seq<char>,
    pub initial_balance: Option<DecimalView>,
}

impl View for CreateUserRequest {
    type V = CreateUserRequestView;

    open spec fn view(&self) -> CreateUserRequestView {
        CreateUserRequestView {
            username: self.username@,
            password: self.password@,
            role: self.role@,
            initial_balance: self.initial_balance.deep_view(),
        }
    }
}

impl DeepView for CreateUserRequest {
    type V = CreateUserRequestView;

    open spec fn deep_view(&self) -> CreateUserRequestView {
        self@
    }
}

#[derive(Debug)]
pub struct UpdateBalanceRequest {
    pub balance_usdc: Decimal,
}

#[verifier::ext_equal]
pub struct UpdateBalanceRequestView {
    pub balance_usdc: DecimalView,
}

impl View for UpdateBalanceRequest {
    type V = UpdateBalanceRequestView;

    open spec fn view(&self) -> UpdateBalanceRequestView {
        UpdateBalanceRequestView {
            balance_usdc: self.balance_usdc@,
        }
    }
}

impl DeepView for UpdateBalanceRequest {
    type V = UpdateBalanceRequestView;

    open spec fn deep_view(&self) -> UpdateBalanceRequestView {
        self@
    }
}

#[derive(Debug)]
pub struct LoginResponse {
    pub token: String,
    pub user_id: String,
    pub username: String,
    pub role: UserRole,
}

#[verifier::ext_equal]
pub struct LoginResponseView {
    pub token: Seq<char>,
    pub user_id: Seq<char>,
    pub username: Seq<char>,
    pub role: UserRole,
}

impl View for LoginResponse {
    type V = LoginResponseView;

    open spec fn view(&self) -> LoginResponseView {
        LoginResponseView {
            token: self.token@,
            user_id: self.user_id@,
            username: self.username@,
            role: self.role,
        }
    }
}

impl DeepView for LoginResponse {
    type V = LoginResponseView;

    open spec fn deep_view(&self) -> LoginResponseView {
        self@
    }
}

#[derive(Debug)]
pub struct AccountResponse {
    pub user_id: String,
    pub username: String,
    pub role: UserRole,
    pub balance_usdc: Decimal,
    pub positions: Vec<Position>,
}

#[verifier::ext_equal]
pub struct AccountResponseView {
    pub user_id: Seq<char>,
    pub username: Seq<char>,
    pub role: UserRole,
    pub balance_usdc: DecimalView,
    pub positions: Seq<PositionView>,
}

impl View for AccountResponse {
    type V = AccountResponseView;

    open spec fn view(&self) -> AccountResponseView {
        AccountResponseView {
            user_id: self.user_id@,
            username: self.username@,
            role: self.role,
            balance_usdc: self.balance_usdc@,
            positions: self.positions.deep_view(),
        }
    }
}

impl DeepView for AccountResponse {
    type V = AccountResponseView;

    open spec fn deep_view(&self) -> AccountResponseView {
        self@
    }
}

#[derive(Debug)]
pub struct UnrealizedPositionPnl {
    pub pnl: Decimal,
    pub quantity: Decimal,
    pub avg_buy_price: Decimal,
    pub current_price: Decimal,
}

#[verifier::ext_equal]
pub struct UnrealizedPositionPnlView {
    pub pnl: DecimalView,
    pub quantity: DecimalView,
    pub avg_buy_price: DecimalView,
    pub current_price: DecimalView,
}

impl View for UnrealizedPositionPnl {
    type V = UnrealizedPositionPnlView;

    open spec fn view(&self) -> UnrealizedPositionPnlView {
        UnrealizedPositionPnlView {
            pnl: self.pnl@,
            quantity: self.quantity@,
            avg_buy_price: self.avg_buy_price@,
            current_price: self.current_price@,
        }
    }
}

impl DeepView for UnrealizedPositionPnl {
    type V = UnrealizedPositionPnlView;

    open spec fn deep_view(&self) -> UnrealizedPositionPnlView {
        self@
    }
}

#[derive(Debug)]
pub struct PnlByOrderType {
    pub market: Decimal,
    pub limit: Decimal,
    pub stop_limit: Decimal,
}

#[verifier::ext_equal]
pub struct PnlByOrderTypeView {
    pub market: DecimalView,
    pub limit: DecimalView,
    pub stop_limit: DecimalView,
}

impl View for PnlByOrderType {
    type V = PnlByOrderTypeView;

    open spec fn view(&self) -> PnlByOrderTypeView {
        PnlByOrderTypeView {
            market: self.market@,
            limit: self.limit@,
            stop_limit: self.stop_limit@,
        }
    }
}

impl DeepView for PnlByOrderType {
    type V = PnlByOrderTypeView;

    open spec fn deep_view(&self) -> PnlByOrderTypeView {
        self@
    }
}

#[derive(Debug)]
pub struct RealizedPnlDetail {
    pub symbol: String,
    pub order_type: OrderType,
    pub pnl: Decimal,
}

#[verifier::ext_equal]
pub struct RealizedPnlDetailView {
    pub symbol: Seq<char>,
    pub order_type: OrderType,
    pub pnl: DecimalView,
}

impl View for RealizedPnlDetail {
    type V = RealizedPnlDetailView;

    open spec fn view(&self) -> RealizedPnlDetailView {
        RealizedPnlDetailView {
            symbol: self.symbol@,
            order_type: self.order_type,
            pnl: self.pnl@,
        }
    }
}

impl DeepView for RealizedPnlDetail {
    type V = RealizedPnlDetailView;

    open spec fn deep_view(&self) -> RealizedPnlDetailView {
        self@
    }
}

#[derive(Debug)]
pub struct PnlStats {
    pub realized_total: Decimal,
    /// One entry for each symbol.
    pub realized_by_symbol: Vec<(String, Decimal)>,
    pub realized_by_order_type: PnlByOrderType,
    pub realized_details: Vec<RealizedPnlDetail>,
    pub unrealized_total: Decimal,
    /// One entry for each symbol.
    pub unrealized_by_symbol: Vec<(String, UnrealizedPositionPnl)>,
}

#[verifier::ext_equal]
pub struct PnlStatsView {
    pub realized_total: DecimalView,
    pub realized_by_symbol: Seq<(Seq<char>, DecimalView)>,
    pub realized_by_order_type: PnlByOrderTypeView,
    pub realized_details: Seq<RealizedPnlDetailView>,
    pub unrealized_total: DecimalView,
    pub unrealized_by_symbol: Seq<(Seq<char>, UnrealizedPositionPnlView)>,
}

impl View for PnlStats {
    type V = PnlStatsView;

    open spec fn view(&self) -> PnlStatsView {
        PnlStatsView {
            realized_total: self.realized_total@,
            realized_by_symbol: self.realized_by_symbol.deep_view(),
            realized_by_order_type: self.realized_by_order_type@,
            realized_details: self.realized_details.deep_view(),
            unrealized_total: self.unrealized_total@,
            unrealized_by_symbol: self.unrealized_by_symbol.deep_view(),
        }
    }
}

impl DeepView for PnlStats {
    type V = PnlStatsView;

    open spec fn deep_view(&self) -> PnlStatsView {
        self@
    }
}

/// Eight, four, four, four and twelve hexadecimal digits in lower case with hyphens between
/// them, of version four.
pub open spec fn is_random_uuid(text: Seq<char>) -> bool {
    &&& text.len() == 36
    &&& text[14] == '4'
    &&& forall|i: int|
        0 <= i < 36 ==> if i == 8 || i == 13 || i == 18 || i == 23 {
            #[trigger] text[i] == '-'
        } else {
            '0' <= text[i] <= '9' || 'a' <= text[i] <= 'f'
        }
}

/// A new UUID string. `uuid::Uuid::new_v4` draws it at random; `Display` writes it in lower case
/// with hyphens.
#[verifier::external_body]
pub fn new_id() -> (r: String)
    ensures
        is_random_uuid(r@),
{
    uuid::Uuid::new_v4().to_string()
}

} // verus!
