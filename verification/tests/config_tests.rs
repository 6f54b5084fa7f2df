use peer_tracker::config::parse_decimal;
use peer_tracker::{Config, ConfigError, ConfigKey, RawSettings};

fn valid_raw() -> RawSettings {
    RawSettings {
        flush_interval: Some(b"3".to_vec()),
        numwant_default: Some(b"25".to_vec()),
        numwant_max: Some(b"50".to_vec()),
        announce_min: Some(b"1800".to_vec()),
        announce_max: Some(b"2100".to_vec()),
        upload_factor: Some(b"200".to_vec()),
        download_factor: Some(b"0".to_vec()),
        peer_expiry_interval: Some(b"30".to_vec()),
        active_peer_ttl: Some(b"7200".to_vec()),
        inactive_peer_ttl: Some(b"172800".to_vec()),
        apikey: Some(b"0123456789abcdef0123456789abcdef".to_vec()),
    }
}

#[test]
fn config_accepts_valid_values() {
    let c = Config::from_values(valid_raw()).unwrap();
    assert_eq!(c.flush_interval, 3);
    assert_eq!(c.numwant_default, 25);
    assert_eq!(c.numwant_max, 50);
    assert_eq!(c.announce_min, 1800);
    assert_eq!(c.announce_max, 2100);
    assert_eq!(c.upload_factor, 200);
    assert_eq!(c.download_factor, 0);
    assert_eq!(c.peer_expiry_interval, 30);
    assert_eq!(c.active_peer_ttl, 7200);
    assert_eq!(c.inactive_peer_ttl, 172800);
    assert_eq!(c.apikey, b"0123456789abcdef0123456789abcdef".to_vec());
}

#[test]
fn config_reports_missing_value_by_name() {
    let mut raw = valid_raw();
    raw.flush_interval = None;
    assert_eq!(
        Config::from_values(raw).unwrap_err(),
        ConfigError::Missing(ConfigKey::FlushInterval)
    );
    let mut raw = valid_raw();
    raw.apikey = None;
    assert_eq!(
        Config::from_values(raw).unwrap_err(),
        ConfigError::Missing(ConfigKey::ApiKey)
    );
}

#[test]
fn config_rejects_garbage_number() {
    let mut raw = valid_raw();
    raw.announce_min = Some(b"12abc".to_vec());
    assert_eq!(
        Config::from_values(raw).unwrap_err(),
        ConfigError::NotANumber(ConfigKey::AnnounceMin)
    );
}

#[test]
fn config_rejects_number_too_wide_for_field() {
    let mut raw = valid_raw();
    raw.upload_factor = Some(b"256".to_vec());
    assert_eq!(
        Config::from_values(raw).unwrap_err(),
        ConfigError::NotANumber(ConfigKey::UploadFactor)
    );
    let mut raw = valid_raw();
    raw.announce_max = Some(b"4294967296".to_vec());
    assert_eq!(
        Config::from_values(raw).unwrap_err(),
        ConfigError::NotANumber(ConfigKey::AnnounceMax)
    );
}

#[test]
fn config_rejects_short_apikey() {
    let mut raw = valid_raw();
    raw.apikey = Some(b"too-short".to_vec());
    assert_eq!(Config::from_values(raw).unwrap_err(), ConfigError::ApiKeyTooShort);
}

#[test]
fn config_rejects_inverted_announce_window() {
    let mut raw = valid_raw();
    raw.announce_min = Some(b"2100".to_vec());
    raw.announce_max = Some(b"1800".to_vec());
    assert_eq!(
        Config::from_values(raw).unwrap_err(),
        ConfigError::AnnounceWindowInverted
    );
}

#[test]
fn config_first_failure_wins() {
    let mut raw = valid_raw();
    raw.numwant_default = None;
    raw.download_factor = Some(b"nope".to_vec());
    assert_eq!(
        Config::from_values(raw).unwrap_err(),
        ConfigError::Missing(ConfigKey::NumwantDefault)
    );
}

#[test]
fn parse_decimal_handles_edges() {
    assert_eq!(parse_decimal(&b"".to_vec()), None);
    assert_eq!(parse_decimal(&b"0".to_vec()), Some(0));
    assert_eq!(parse_decimal(&b"007".to_vec()), Some(7));
    assert_eq!(
        parse_decimal(&b"18446744073709551615".to_vec()),
        Some(u64::MAX)
    );
    assert_eq!(parse_decimal(&b"18446744073709551616".to_vec()), None);
    assert_eq!(parse_decimal(&b"1 2".to_vec()), None);
    assert_eq!(parse_decimal(&b"-4".to_vec()), None);
}
