//! The configuration, from environment variables and their defaults.

use vstd::prelude::*;

use crate::engine::normalized_symbol;
use crate::text::{
    ascii_upper, clone_texts, is_ascii_text, parse_unsigned, parsed_unsigned, replace_char,
    replaced, split, split_on, texts, to_uppercase, trim, trimmed, trimmed_end, trimmed_start,
    uppercased,
};

verus! {

/// The environment variables that the exchange reads, each where it is set.
#[derive(Debug)]
pub struct Environment {
    /// `SYMBOLS`
    pub symbols: Option<String>,
    /// `HOST`
    pub host: Option<String>,
    /// `PORT`
    pub port: Option<String>,
    /// `CLICKHOUSE_URL`
    pub clickhouse_url: Option<String>,
    /// `CLICKHOUSE_USER`
    pub clickhouse_user: Option<String>,
    /// `CLICKHOUSE_PASSWORD`
    pub clickhouse_password: Option<String>,
    /// `CLICKHOUSE_DB`
    pub clickhouse_db: Option<String>,
    /// `HFT_WS_URL`
    pub hft_ws_url: Option<String>,
    /// `JWT_SECRET`
    pub jwt_secret: Option<String>,
    /// `JWT_EXPIRY_HOURS`
    pub jwt_expiry_hours: Option<String>,
}

#[verifier::ext_equal]
pub struct EnvironmentView {
    pub symbols: Option<Seq<char>>,
    pub host: Option<Seq<char>>,
    pub port: Option<Seq<char>>,
    pub clickhouse_url: Option<Seq<char>>,
    pub clickhouse_user: Option<Seq<char>>,
    pub clickhouse_password: Option<Seq<char>>,
    pub clickhouse_db: Option<Seq<char>>,
    pub hft_ws_url: Option<Seq<char>>,
    pub jwt_secret: Option<Seq<char>>,
    pub jwt_expiry_hours: Option<Seq<char>>,
}

impl View for Environment {
    type V = EnvironmentView;

    open spec fn view(&self) -> EnvironmentView {
        EnvironmentView {
            symbols: self.symbols.deep_view(),
            host: self.host.deep_view(),
            port: self.port.deep_view(),
            clickhouse_url: self.clickhouse_url.deep_view(),
            clickhouse_user: self.clickhouse_user.deep_view(),
            clickhouse_password: self.clickhouse_password.deep_view(),
            clickhouse_db: self.clickhouse_db.deep_view(),
            hft_ws_url: self.hft_ws_url.deep_view(),
            jwt_secret: self.jwt_secret.deep_view(),
            jwt_expiry_hours: self.jwt_expiry_hours.deep_view(),
        }
    }
}

impl DeepView for Environment {
    type V = EnvironmentView;

    open spec fn deep_view(&self) -> EnvironmentView {
        self@
    }
}

#[derive(Debug)]
pub struct Config {
    pub host: String,
    pub port: u16,
    pub clickhouse_url: String,
    pub clickhouse_user: String,
    pub clickhouse_password: String,
    pub clickhouse_db: String,
    pub hft_ws_url: String,
    pub jwt_secret: String,
    pub jwt_expiry_hours: u64,
    /// Trading pairs, from a comma-separated list. Defaults to "SOL/USDC,BTC/USDC".
    pub symbols: Vec<String>,
}

#[verifier::ext_equal]
pub struct ConfigView {
    pub host: Seq<char>,
    pub port: u16,
    pub clickhouse_url: Seq<char>,
    pub clickhouse_user: Seq<char>,
    pub clickhouse_password: Seq<char>,
    pub clickhouse_db: Seq<char>,
    pub hft_ws_url: Seq<char>,
    pub jwt_secret: Seq<char>,
    pub jwt_expiry_hours: u64,
    pub symbols: Seq<Seq<char>>,
}

impl View for Config {
    type V = ConfigView;

    open spec fn view(&self) -> ConfigView {
        ConfigView {
            host: self.host@,
            port: self.port,
            clickhouse_url: self.clickhouse_url@,
            clickhouse_user: self.clickhouse_user@,
            clickhouse_password: self.clickhouse_password@,
            clickhouse_db: self.clickhouse_db@,
            hft_ws_url: self.hft_ws_url@,
            jwt_secret: self.jwt_secret@,
            jwt_expiry_hours: self.jwt_expiry_hours,
            symbols: self.symbols.deep_view(),
        }
    }
}

impl DeepView for Config {
    type V = ConfigView;

    open spec fn deep_view(&self) -> ConfigView {
        self@
    }
}

impl Clone for Config {
    fn clone(&self) -> (r: Self)
        ensures
            r@ == self@,
    {
        Config {
            host: self.host.clone(),
            port: self.port,
            clickhouse_url: self.clickhouse_url.clone(),
            clickhouse_user: self.clickhouse_user.clone(),
            clickhouse_password: self.clickhouse_password.clone(),
            clickhouse_db: self.clickhouse_db.clone(),
            hft_ws_url: self.hft_ws_url.clone(),
            jwt_secret: self.jwt_secret.clone(),
            jwt_expiry_hours: self.jwt_expiry_hours,
            symbols: clone_texts(&self.symbols),
        }
    }
}

/// The trading pair that a name in the list stands for: without the space around it, in upper
/// case, with a slash for each dash.
pub open spec fn pair_of(name: Seq<char>) -> Seq<char> {
    replaced(uppercased(trimmed(name)), '-', '/')
}

/// The trading pairs in a list of names; empty ones are dropped.
pub open spec fn trading_pairs(names: Seq<Seq<char>>) -> Seq<Seq<char>>
    decreases names.len(),
{
    if names.len() == 0 {
        Seq::empty()
    } else {
        let pairs = trading_pairs(names.drop_last());
        let pair = pair_of(names.last());
        if pair.len() == 0 {
            pairs
        } else {
            pairs.push(pair)
        }
    }
}

pub open spec fn text_or(value: Option<Seq<char>>, default: Seq<char>) -> Seq<char> {
    match value {
        Some(text) => text,
        None => default,
    }
}

/// The number of at most `max` that a variable writes, or the default where it writes none.
pub open spec fn number_or(value: Option<Seq<char>>, max: nat, default: nat) -> nat {
    match value {
        Some(text) => match parsed_unsigned(text, max) {
            Some(number) => number,
            None => default,
        },
        None => default,
    }
}

impl ConfigView {
    /// The configuration that an environment gives.
    pub open spec fn of(env: EnvironmentView) -> ConfigView {
        ConfigView {
            host: text_or(env.host, "0.0.0.0"@),
            port: number_or(env.port, u16::MAX as nat, 8081) as u16,
            clickhouse_url: text_or(env.clickhouse_url, "http://localhost:8123"@),
            clickhouse_user: text_or(env.clickhouse_user, "exchange_user"@),
            clickhouse_password: text_or(env.clickhouse_password, "exchange_pass"@),
            clickhouse_db: text_or(env.clickhouse_db, "exchange"@),
            hft_ws_url: text_or(env.hft_ws_url, "ws://localhost:8080/v1/feed"@),
            jwt_secret: text_or(env.jwt_secret, "change-me-in-production-secret-key"@),
            jwt_expiry_hours: number_or(env.jwt_expiry_hours, u64::MAX as nat, 24) as u64,
            symbols: trading_pairs(split_on(text_or(env.symbols, "SOL/USDC,BTC/USDC"@), ',')),
        }
    }
}

fn or_default(value: Option<String>, default: &str) -> (r: String)
    ensures
        r@ == text_or(value.deep_view(), default@),
{
    match value {
        Some(text) => text,
        None => default.to_owned(),
    }
}

fn or_number(value: Option<String>, max: u64, default: u64) -> (r: u64)
    requires
        default <= max,
    ensures
        r == number_or(value.deep_view(), max as nat, default as nat),
        r <= max,
{
    match value {
        Some(text) => match parse_unsigned(&text, max) {
            Some(number) => number,
            None => default,
        },
        None => default,
    }
}

fn pairs_in(list: &str) -> (r: Vec<String>)
    ensures
        r.deep_view() == trading_pairs(split_on(list@, ',')),
{
    let names = split(list, ',');
    let ghost all = texts(names@);
    let mut pairs: Vec<String> = Vec::new();
    let mut i: usize = 0;
    assert(all.take(0) =~= Seq::<Seq<char>>::empty());
    assert(pairs.deep_view() =~= trading_pairs(all.take(0)));
    while i < names.len()
        invariant
            i <= names@.len(),
            all == texts(names@),
            pairs.deep_view() == trading_pairs(all.take(i as int)),
        decreases names@.len() - i,
    {
        let ghost before = pairs.deep_view();
        assert(all.take(i + 1).drop_last() =~= all.take(i as int));
        assert(all.take(i + 1).last() == names@[i as int]@);
        let name = trim(&names[i]);
        let upper = to_uppercase(&name);
        let pair = replace_char(&upper, '-', '/');
        if !pair.as_str().is_empty() {
            pairs.push(pair);
            assert(pairs.deep_view() =~= before.push(pair@));
        }
        i = i + 1;
    }
    assert(all.take(all.len() as int) =~= all);
    pairs
}

impl Config {
    /// Reads the configuration from the environment.
    pub fn from_env(env: Environment) -> (r: Config)
        ensures
            r@ == ConfigView::of(env@),
    {
        let list = or_default(env.symbols, "SOL/USDC,BTC/USDC");
        Config {
            host: or_default(env.host, "0.0.0.0"),
            port: or_number(env.port, u16::MAX as u64, 8081) as u16,
            clickhouse_url: or_default(env.clickhouse_url, "http://localhost:8123"),
            clickhouse_user: or_default(env.clickhouse_user, "exchange_user"),
            clickhouse_password: or_default(env.clickhouse_password, "exchange_pass"),
            clickhouse_db: or_default(env.clickhouse_db, "exchange"),
            hft_ws_url: or_default(env.hft_ws_url, "ws://localhost:8080/v1/feed"),
            jwt_secret: or_default(env.jwt_secret, "change-me-in-production-secret-key"),
            jwt_expiry_hours: or_number(env.jwt_expiry_hours, u64::MAX, 24),
            symbols: pairs_in(&list),
        }
    }
}

proof fn lemma_pair_is_listed(names: Seq<Seq<char>>, i: int)
    requires
        0 <= i < names.len(),
        pair_of(names[i]).len() > 0,
    ensures
        trading_pairs(names).contains(pair_of(names[i])),
    decreases names.len(),
{
    let rest = names.drop_last();
    let pairs = trading_pairs(rest);
    let last = pair_of(names.last());
    if i < rest.len() {
        assert(rest[i] == names[i]);
        lemma_pair_is_listed(rest, i);
        let k = choose|k: int| 0 <= k < pairs.len() && pairs[k] == pair_of(names[i]);
        assert(pairs.push(last)[k] == pair_of(names[i]));
    } else {
        assert(pairs.push(last)[pairs.len() as int] == last);
    }
}

proof fn lemma_trimmed_is_ascii(text: Seq<char>)
    requires
        is_ascii_text(text),
    ensures
        is_ascii_text(trimmed(text)),
{
    lemma_trimmed_start_is_ascii(text);
    lemma_trimmed_end_is_ascii(trimmed_start(text));
}

proof fn lemma_trimmed_start_is_ascii(text: Seq<char>)
    requires
        is_ascii_text(text),
    ensures
        is_ascii_text(trimmed_start(text)),
    decreases text.len(),
{
    if text.len() > 0 {
        lemma_trimmed_start_is_ascii(text.drop_first());
    }
}

proof fn lemma_trimmed_end_is_ascii(text: Seq<char>)
    requires
        is_ascii_text(text),
    ensures
        is_ascii_text(trimmed_end(text)),
    decreases text.len(),
{
    if text.len() > 0 {
        lemma_trimmed_end_is_ascii(text.drop_last());
    }
}

/// A trading pair that is configured is one that orders are accepted for: by the name as it is
/// configured, and by the name of the pair.
pub proof fn law_configured_pairs_are_supported(names: Seq<Seq<char>>, i: int)
    requires
        0 <= i < names.len(),
        is_ascii_text(names[i]),
        pair_of(names[i]).len() > 0,
    ensures
        normalized_symbol(trading_pairs(names), trimmed(names[i])) == Some(pair_of(names[i])),
        normalized_symbol(trading_pairs(names), pair_of(names[i])) == Some(pair_of(names[i])),
{
    let name = trimmed(names[i]);
    let pair = pair_of(names[i]);
    lemma_pair_is_listed(names, i);
    lemma_trimmed_is_ascii(names[i]);
    assert forall|k: int| 0 <= k < pair.len() implies (#[trigger] pair[k]) as u32 <= 127
        && ascii_upper(pair[k]) == pair[k] && pair[k] != '-' by {
        assert(uppercased(name)[k] == ascii_upper(name[k]));
    }
    assert(replaced(uppercased(pair), '-', '/') =~= pair);
}

} // verus!
