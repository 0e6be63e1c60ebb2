use aes_gcm::aead::Aead;
use aes_gcm::aead::KeyInit;
use aes_gcm::Aes128Gcm;
use aes_gcm::Nonce;
use base64::Engine;

use pico_limbo::config::EnabledFloodgateConfig;
use pico_limbo::floodgate::parse_data;
use pico_limbo::floodgate::FloodgateSettings;
use pico_limbo::identity::legacy_education_uuid;
use pico_limbo::identity::modern_education_uuid;
use pico_limbo::text::truncate_utf8;

const HEADER: &str = "^Floodgate^>";

fn config(legacy: bool) -> EnabledFloodgateConfig {
    EnabledFloodgateConfig {
        enabled: true,
        key_file: "key.pem".to_string(),
        username_prefix: ".".to_string(),
        replace_spaces: true,
        education: true,
        education_username_prefix: "+".to_string(),
        education_uuid_legacy: legacy,
    }
}

fn settings(key: [u8; 16]) -> FloodgateSettings {
    FloodgateSettings::from_config(&config(false), Ok(key.to_vec())).unwrap()
}

fn payload(key: [u8; 16], data: &str) -> String {
    let cipher = Aes128Gcm::new_from_slice(&key).unwrap();
    let iv = [7u8; 12];
    let nonce = Nonce::from_slice(&iv);
    let ciphertext = cipher.encrypt(nonce, data.as_bytes()).unwrap();

    format!(
        "{}{}!{}",
        HEADER,
        base64::engine::general_purpose::STANDARD.encode(iv),
        base64::engine::general_purpose::STANDARD.encode(ciphertext)
    )
}

#[test]
fn decrypts_standard_floodgate_payload() {
    let key = [1u8; 16];
    let data = "0\0Player\0-1\01\0en_US\02\01\0127.0.0.1\0\00\00\0123\0verify";
    let encoded = payload(key, data);
    let (hostname, parsed) = settings(key)
        .parse_hostname(&format!("lobby\0{encoded}\0example"))
        .unwrap();

    assert_eq!(hostname, "lobby\0example");
    let data = parsed.unwrap();
    assert_eq!(data.username, "Player");
    assert!(!data.education);
    assert_eq!(data.xuid, "-1");
}

#[test]
fn rejects_multiple_payloads() {
    let key = [2u8; 16];
    let data = "0\0Player\00\01\0en_US\02\01\0127.0.0.1\0\00\00\0123\0verify";
    let encoded = payload(key, data);
    assert!(settings(key)
        .parse_hostname(&format!("{encoded}\0{encoded}"))
        .is_err());
}

#[test]
fn parses_modern_education_uuid() {
    let data = parse_data(
        "0\0Student\000000000-0000-4000-8000-000000000001\01\0en_US\02\01\0127.0.0.1\0\00\00\0123\0verify\01\0tenant\00",
    )
    .unwrap();

    let (_, uuid) = settings([3u8; 16]).game_profile(&data).unwrap();
    let expected = modern_education_uuid("00000000-0000-4000-8000-000000000001").unwrap();
    assert_eq!(uuid, expected);
}

#[test]
fn parses_legacy_education_uuid() {
    let data = parse_data(
        "0\0Student\00\01\0en_US\02\01\0127.0.0.1\0\00\00\0123\0verify\01\0tenant\00",
    )
    .unwrap();

    let settings = FloodgateSettings::from_config(&config(true), Ok([4u8; 16].to_vec())).unwrap();
    let (_, uuid) = settings.game_profile(&data).unwrap();

    let expected = legacy_education_uuid("tenant", "Student");
    assert_eq!(uuid, expected);
}

#[test]
fn truncates_utf8_usernames() {
    assert_eq!(truncate_utf8("ééé", 3), "é");
    assert_eq!(truncate_utf8("abcdef", 3), "abc");
}
