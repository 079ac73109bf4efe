use exchange_sim::config::{Config, Environment};
use exchange_sim::engine::Engine;
use exchange_sim::text::{
    has_bytes, is_before, parse_unsigned, replace_char, same_text, split, strip_prefix, trim,
};
use exchange_sim::ws_client::new_price_cache;

fn unset() -> Environment {
    Environment {
        symbols: None,
        host: None,
        port: None,
        clickhouse_url: None,
        clickhouse_user: None,
        clickhouse_password: None,
        clickhouse_db: None,
        hft_ws_url: None,
        jwt_secret: None,
        jwt_expiry_hours: None,
    }
}

#[test]
fn defaults_where_nothing_is_set() {
    let config = Config::from_env(unset());
    assert_eq!(config.host, "0.0.0.0");
    assert_eq!(config.port, 8081);
    assert_eq!(config.clickhouse_url, "http://localhost:8123");
    assert_eq!(config.clickhouse_user, "exchange_user");
    assert_eq!(config.clickhouse_password, "exchange_pass");
    assert_eq!(config.clickhouse_db, "exchange");
    assert_eq!(config.hft_ws_url, "ws://localhost:8080/v1/feed");
    assert_eq!(config.jwt_secret, "change-me-in-production-secret-key");
    assert_eq!(config.jwt_expiry_hours, 24);
    assert_eq!(config.symbols, vec!["SOL/USDC".to_string(), "BTC/USDC".to_string()]);
}

#[test]
fn variables_count_where_they_are_set() {
    let config = Config::from_env(Environment {
        symbols: Some("eth-usdc".to_string()),
        host: Some("127.0.0.1".to_string()),
        port: Some("9000".to_string()),
        clickhouse_url: Some("http://db:1".to_string()),
        clickhouse_user: Some("u".to_string()),
        clickhouse_password: Some("p".to_string()),
        clickhouse_db: Some("d".to_string()),
        hft_ws_url: Some("ws://feed".to_string()),
        jwt_secret: Some("s".to_string()),
        jwt_expiry_hours: Some("1".to_string()),
    });
    assert_eq!(config.host, "127.0.0.1");
    assert_eq!(config.port, 9000);
    assert_eq!(config.clickhouse_url, "http://db:1");
    assert_eq!(config.clickhouse_user, "u");
    assert_eq!(config.clickhouse_password, "p");
    assert_eq!(config.clickhouse_db, "d");
    assert_eq!(config.hft_ws_url, "ws://feed");
    assert_eq!(config.jwt_secret, "s");
    assert_eq!(config.jwt_expiry_hours, 1);
    assert_eq!(config.symbols, vec!["ETH/USDC".to_string()]);
}

#[test]
fn symbols_are_trimmed_and_normalized() {
    let config = Config::from_env(Environment {
        symbols: Some(" sol-usdc , BTC/usdc,, \t,eth/usdc".to_string()),
        ..unset()
    });
    assert_eq!(
        config.symbols,
        vec!["SOL/USDC".to_string(), "BTC/USDC".to_string(), "ETH/USDC".to_string()]
    );
    let none = Config::from_env(Environment { symbols: Some("".to_string()), ..unset() });
    assert!(none.symbols.is_empty());
}

#[test]
fn orders_are_accepted_for_configured_symbols() {
    let config = Config::from_env(Environment {
        symbols: Some(" sol-usdc ,Btc/Usdc".to_string()),
        ..unset()
    });
    let prices = new_price_cache();
    let engine = Engine::new(&prices, &config.symbols);
    assert_eq!(engine.normalize_symbol("sol-usdc"), Some("SOL/USDC".to_string()));
    assert_eq!(engine.normalize_symbol("Btc/Usdc"), Some("BTC/USDC".to_string()));
    for symbol in &config.symbols {
        assert_eq!(engine.normalize_symbol(symbol).as_ref(), Some(symbol));
    }
}

#[test]
fn numbers_that_cannot_be_read_fall_back() {
    for port in ["", "x", "65536", "-1", "80 ", "8081.0"] {
        let config = Config::from_env(Environment { port: Some(port.to_string()), ..unset() });
        assert_eq!(config.port, 8081, "{}", port);
    }
    let config = Config::from_env(Environment {
        port: Some("65535".to_string()),
        jwt_expiry_hours: Some("18446744073709551616".to_string()),
        ..unset()
    });
    assert_eq!(config.port, 65535);
    assert_eq!(config.jwt_expiry_hours, 24);
}

#[test]
fn numbers_are_read_as_the_standard_library_reads_them() {
    for text in ["0", "7", "+7", "007", "65535", "65536", "", "+", "-0", " 1", "1 ", "1_0", "٣"] {
        let expected: Option<u64> = text.parse::<u16>().ok().map(|n| n as u64);
        assert_eq!(parse_unsigned(text, u16::MAX as u64), expected, "{:?}", text);
    }
    assert_eq!(parse_unsigned("18446744073709551615", u64::MAX), Some(u64::MAX));
    assert_eq!(parse_unsigned("18446744073709551616", u64::MAX), None);
}

#[test]
fn white_space_is_that_of_unicode() {
    let mut n: u32 = 0;
    while n <= 0x3100 {
        if let Some(c) = char::from_u32(n) {
            let mut text = String::new();
            text.push(c);
            assert_eq!(trim(&text).is_empty(), c.is_whitespace(), "{:x}", n);
        }
        n += 1;
    }
    assert_eq!(trim("\u{2003} a b \u{a0}\n"), "a b");
    assert_eq!(trim("ab"), "ab");
    assert_eq!(trim(""), "");
}

#[test]
fn bytes_are_counted_in_utf8() {
    for text in ["", "a", "abcde", "abcdef", "äöü", "aä€", "😀a", "😀😀", "日本"] {
        assert_eq!(has_bytes(text, 6), text.len() >= 6, "{}", text);
        assert!(has_bytes(text, 0));
    }
}

#[test]
fn pieces_lie_between_the_separators() {
    for text in ["", ",", "a", "a,b", ",a,,b,", "日,本"] {
        let expected: Vec<String> = text.split(',').map(|s| s.to_string()).collect();
        assert_eq!(split(text, ','), expected, "{}", text);
    }
}

#[test]
fn texts_are_ordered_as_strings_are() {
    let texts = ["", "a", "ab", "b", "A", "SOL/USDC", "SOL", "é", "z", "日", "😀", "limit", "market"];
    for a in texts {
        for b in texts {
            assert_eq!(is_before(a, b), a < b, "{} {}", a, b);
            assert_eq!(same_text(a, b), a == b);
        }
    }
}

#[test]
fn prefixes_and_characters() {
    assert_eq!(strip_prefix("Bearer abc", "Bearer "), Some("abc".to_string()));
    assert_eq!(strip_prefix("bearer abc", "Bearer "), None);
    assert_eq!(strip_prefix("Bea", "Bearer "), None);
    assert_eq!(strip_prefix("Bearer ", "Bearer "), Some("".to_string()));
    assert_eq!(replace_char("a-b--c", '-', '/'), "a/b//c");
}
