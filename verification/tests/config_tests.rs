use polymarket::config::{parse_u32, parse_u64, JWTConfig, PGConfig};
use polymarket::text::u64_text;

#[test]
fn unsigned_numbers_are_read_like_str_parse() {
    assert_eq!(parse_u64("0"), Some(0));
    assert_eq!(parse_u64("+42"), Some(42));
    assert_eq!(parse_u64("007"), Some(7));
    assert_eq!(parse_u64("18446744073709551615"), Some(u64::MAX));
    assert_eq!(parse_u64("18446744073709551616"), None);
    assert_eq!(parse_u64(""), None);
    assert_eq!(parse_u64("+"), None);
    assert_eq!(parse_u64("-1"), None);
    assert_eq!(parse_u64("1 "), None);
    assert_eq!(parse_u32("4294967295"), Some(u32::MAX));
    assert_eq!(parse_u32("4294967296"), None);
    for s in ["12", "+3", "99999999999", "abc", "", "4294967295"] {
        assert_eq!(parse_u32(s), s.parse::<u32>().ok());
        assert_eq!(parse_u64(s), s.parse::<u64>().ok());
    }
}

#[test]
fn pool_size_defaults_to_one() {
    let c = PGConfig::from_values("postgres://db".to_string(), None).unwrap();
    assert_eq!(c.pool_size_each_service, 1);
    assert_eq!(c.database_url, "postgres://db");
    let c = PGConfig::from_values("u".to_string(), Some("8".to_string())).unwrap();
    assert_eq!(c.pool_size_each_service, 8);
    assert!(PGConfig::from_values("u".to_string(), Some("eight".to_string())).is_none());
}

#[test]
fn token_lifetime_must_be_a_number() {
    let c = JWTConfig::from_values("k".to_string(), "60").unwrap();
    assert_eq!(c.jwt_expiration_time, 60);
    assert_eq!(c.jwt_secret_key, "k");
    assert!(JWTConfig::from_values("k".to_string(), "sixty").is_none());
}

#[test]
fn printed_numbers_read_back() {
    for n in [0u64, 7, 10, 99, 100_000, 999_999, u64::MAX] {
        assert_eq!(u64_text(n), n.to_string());
        assert_eq!(parse_u64(&u64_text(n)), Some(n));
    }
}
