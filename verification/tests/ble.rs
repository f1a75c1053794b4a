use espcam::ble::{
    advertiser_conn_params, is_uuid_name_truncated, str_to_uuid, survey_result, survey_scan_settings, uptime_message,
    ScanError, SURVEY_WAIT_SECS, UUID_BLE_SERVICE_STR, UUID_BLE_UPTIME_CHARA_STR,
};
use espcam::config::Config;

#[test]
fn uuid_of_service_name_is_padded_with_zeros() {
    let uuid = str_to_uuid(UUID_BLE_SERVICE_STR);
    assert_eq!(
        uuid,
        [b'i', b'o', b'.', b't', b'e', b's', b't', b'.', b'b', b'l', b'e', 0, 0, 0, 0, 0]
    );
}

#[test]
fn uuid_of_characteristic_name_is_padded_with_zeros() {
    let uuid = str_to_uuid(UUID_BLE_UPTIME_CHARA_STR);
    assert_eq!(uuid, [b'u', b'p', b't', b'i', b'm', b'e', 0, 0, 0, 0, 0, 0, 0, 0, 0, 0]);
}

#[test]
fn uuid_of_empty_name_is_all_zero() {
    assert_eq!(str_to_uuid(""), [0u8; 16]);
}

#[test]
fn uuid_of_sixteen_bytes_is_the_name() {
    assert_eq!(str_to_uuid("0123456789abcdef"), *b"0123456789abcdef");
}

#[test]
fn uuid_of_long_name_keeps_the_first_sixteen_bytes() {
    assert_eq!(str_to_uuid("0123456789abcdefXYZ"), *b"0123456789abcdef");
}

#[test]
fn names_of_up_to_sixteen_bytes_are_not_truncated() {
    assert!(!is_uuid_name_truncated(""));
    assert!(!is_uuid_name_truncated(UUID_BLE_SERVICE_STR));
    assert!(!is_uuid_name_truncated("0123456789abcdef"));
}

#[test]
fn names_of_more_than_sixteen_bytes_are_truncated() {
    assert!(is_uuid_name_truncated("0123456789abcdefX"));
    // eight characters of two bytes each, and one more
    assert!(!is_uuid_name_truncated("\u{e9}\u{e9}\u{e9}\u{e9}\u{e9}\u{e9}\u{e9}\u{e9}"));
    assert!(is_uuid_name_truncated("\u{e9}\u{e9}\u{e9}\u{e9}\u{e9}\u{e9}\u{e9}\u{e9}a"));
}

#[test]
fn uuid_counts_bytes_not_characters() {
    let uuid = str_to_uuid("\u{e9}t\u{e9}");
    assert_eq!(uuid, [0xc3, 0xa9, b't', 0xc3, 0xa9, 0, 0, 0, 0, 0, 0, 0, 0, 0, 0, 0]);
}

#[test]
fn uptime_message_at_start() {
    assert_eq!(uptime_message(0), b"uptime: 0".to_vec());
}

#[test]
fn uptime_message_single_digit() {
    assert_eq!(uptime_message(9), b"uptime: 9".to_vec());
}

#[test]
fn uptime_message_round_numbers() {
    assert_eq!(uptime_message(10), b"uptime: 10".to_vec());
    assert_eq!(uptime_message(1000), b"uptime: 1000".to_vec());
}

#[test]
fn uptime_message_many_digits() {
    assert_eq!(uptime_message(86400), b"uptime: 86400".to_vec());
    assert_eq!(uptime_message(1234567890), b"uptime: 1234567890".to_vec());
}

#[test]
fn uptime_message_largest_counter() {
    assert_eq!(
        uptime_message(u128::MAX),
        b"uptime: 340282366920938463463374607431768211455".to_vec()
    );
}

#[test]
fn uptime_message_agrees_with_formatting() {
    let mut counter: u128 = 1;
    while counter < u128::MAX / 7 {
        assert_eq!(uptime_message(counter), format!("uptime: {}", counter).into_bytes());
        counter = counter * 7 + 3;
    }
}

#[test]
fn advertiser_asks_for_its_timing() {
    let params = advertiser_conn_params();
    assert_eq!(params.min_interval, 24);
    assert_eq!(params.max_interval, 48);
    assert_eq!(params.latency, 0);
    assert_eq!(params.timeout, 60);
}

#[test]
fn survey_settings() {
    let settings = survey_scan_settings();
    assert!(settings.active);
    assert!(settings.filter_duplicates);
    assert!(!settings.limited);
    assert_eq!(settings.interval, 100);
    assert_eq!(settings.window, 99);
    assert_eq!(settings.duration_ms, 10000);
    assert_eq!(SURVEY_WAIT_SECS, 15);
}

#[test]
fn survey_that_completes_gives_its_devices() {
    assert_eq!(survey_result(true, true, vec![3u8, 1, 2]), Ok(vec![3u8, 1, 2]));
    assert_eq!(survey_result(true, true, Vec::<u8>::new()), Ok(Vec::new()));
}

#[test]
fn survey_that_does_not_start_fails() {
    assert_eq!(survey_result(false, true, vec![1u8]), Err(ScanError::StartFailed));
    assert_eq!(survey_result(false, false, vec![1u8]), Err(ScanError::StartFailed));
}

#[test]
fn survey_that_does_not_complete_times_out() {
    assert_eq!(survey_result(true, false, vec![1u8]), Err(ScanError::TimedOut));
}

#[test]
fn config_holds_what_it_is_given() {
    let config = Config {
        wifi_ssid: "network",
        wifi_psk: "passphrase",
        bot_token: "bot",
        bot_owner_id: -42,
    };
    assert_eq!(config.wifi_ssid, "network");
    assert_eq!(config.wifi_psk, "passphrase");
    assert_eq!(config.bot_token, "bot");
    assert_eq!(config.bot_owner_id, -42);
    assert!(format!("{:?}", config).contains("network"));
}
