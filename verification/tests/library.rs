use aes_gcm::aead::Aead;
use aes_gcm::aead::KeyInit;
use aes_gcm::Aes128Gcm;
use aes_gcm::Nonce;
use base64::Engine;
use sha2::Digest;

use pico_limbo::config::default_education_username_prefix;
use pico_limbo::config::default_key_file;
use pico_limbo::config::default_replace_spaces;
use pico_limbo::config::default_username_prefix;
use pico_limbo::config::EnabledFloodgateConfig;
use pico_limbo::config::FloodgateConfig;
use pico_limbo::floodgate::check_cipher_inputs;
use pico_limbo::floodgate::decrypt;
use pico_limbo::floodgate::floodgate_version;
use pico_limbo::floodgate::key_from_bytes;
use pico_limbo::floodgate::parse_data;
use pico_limbo::floodgate::payload_parts;
use pico_limbo::floodgate::plaintext_to_text;
use pico_limbo::floodgate::seal_payload;
use pico_limbo::floodgate::validate_prefix;
use pico_limbo::floodgate::FloodgateData;
use pico_limbo::floodgate::FloodgateSettings;
use pico_limbo::forwarding::BungeeCordForwardingConfig;
use pico_limbo::forwarding::ForwardingConfig;
use pico_limbo::forwarding::ModernForwardingConfig;
use pico_limbo::forwarding::StructuredForwarding;
use pico_limbo::forwarding::TaggedForwarding;
use pico_limbo::identity::legacy_education_uuid;
use pico_limbo::identity::legacy_education_uuid_from_digest;
use pico_limbo::identity::modern_education_uuid;
use pico_limbo::identity::modern_education_uuid_from;
use pico_limbo::identity::uuid_from_u64_pair;
use pico_limbo::numeric::format_count;
use pico_limbo::numeric::format_decimal;
use pico_limbo::numeric::parse_i64;
use pico_limbo::text::join_nul;
use pico_limbo::text::replace_spaces;
use pico_limbo::text::split_nul;
use pico_limbo::text::truncate_utf8;

const STANDARD: &str = "0\0Player\0-1\01\0en_US\02\01\0127.0.0.1\0\00\00\0123\0verify";
const EDUCATION: &str =
    "0\0Student\000000000-0000-4000-8000-000000000001\01\0en_US\02\01\0127.0.0.1\0\00\00\0123\0verify\01\0tenant\00";

fn config(prefix: &str, education: bool, legacy: bool, replace: bool) -> EnabledFloodgateConfig {
    EnabledFloodgateConfig {
        enabled: true,
        key_file: "key.pem".to_string(),
        username_prefix: prefix.to_string(),
        replace_spaces: replace,
        education,
        education_username_prefix: "+".to_string(),
        education_uuid_legacy: legacy,
    }
}

fn settings(key: [u8; 16]) -> FloodgateSettings {
    FloodgateSettings::from_config(&config(".", true, false, true), Ok(key.to_vec())).unwrap()
}

fn encrypt(key: [u8; 16], plaintext: &[u8]) -> String {
    let cipher = Aes128Gcm::new_from_slice(&key).unwrap();
    let iv = [9u8; 12];
    let ciphertext = cipher.encrypt(Nonce::from_slice(&iv), plaintext).unwrap();
    format!(
        "^Floodgate^>{}!{}",
        base64::engine::general_purpose::STANDARD.encode(iv),
        base64::engine::general_purpose::STANDARD.encode(ciphertext)
    )
}

fn data(username: &str, xuid: &str, education: bool, tenant: &str) -> FloodgateData {
    FloodgateData {
        username: username.to_string(),
        xuid: xuid.to_string(),
        education,
        tenant_id: tenant.to_string(),
    }
}

#[test]
fn split_and_join_round_trip() {
    let text = "a\0\0bc\0";
    let parts = split_nul(text);
    assert_eq!(parts, vec!["a", "", "bc", ""]);
    assert_eq!(join_nul(&parts), text);
    assert_eq!(split_nul(""), vec![""]);
    assert_eq!(join_nul(&Vec::new()), "");
}

#[test]
fn formats_numbers() {
    assert_eq!(format_decimal(0), "0");
    assert_eq!(format_decimal(-62), "-62");
    assert_eq!(format_decimal(i64::MIN), "-9223372036854775808");
    assert_eq!(format_count(4096), "4096");
}

#[test]
fn parses_i64_like_std() {
    assert_eq!(parse_i64("123"), Some(123));
    assert_eq!(parse_i64("+7"), Some(7));
    assert_eq!(parse_i64("-1"), Some(-1));
    assert_eq!(parse_i64("007"), Some(7));
    assert_eq!(parse_i64("-9223372036854775808"), Some(i64::MIN));
    assert_eq!(parse_i64("9223372036854775807"), Some(i64::MAX));
    assert_eq!(parse_i64("9223372036854775808"), None);
    assert_eq!(parse_i64("99999999999999999999x"), None);
    assert_eq!(parse_i64(""), None);
    assert_eq!(parse_i64("-"), None);
    assert_eq!(parse_i64("+"), None);
    assert_eq!(parse_i64("1 2"), None);
    assert_eq!(parse_i64("١"), None);
}

#[test]
fn truncation_keeps_whole_characters() {
    assert_eq!(truncate_utf8("ééé", 0), "");
    assert_eq!(truncate_utf8("ééé", 6), "ééé");
    assert_eq!(truncate_utf8("aé", 2), "a");
    assert_eq!(truncate_utf8("a😀b", 4), "a");
    assert_eq!(truncate_utf8("a😀b", 5), "a😀");
}

#[test]
fn replaces_only_spaces() {
    assert_eq!(replace_spaces(" a b  é "), "_a_b__é_");
    assert_eq!(replace_spaces("none"), "none");
}

#[test]
fn default_config_is_disabled() {
    match FloodgateConfig::default() {
        FloodgateConfig::Disabled(d) => {
            assert!(!d.enabled);
            assert_eq!(d.key_file, "key.pem");
            assert_eq!(d.username_prefix, ".");
            assert!(d.replace_spaces);
            assert!(!d.education);
            assert_eq!(d.education_username_prefix, "+");
            assert!(!d.education_uuid_legacy);
        }
        FloodgateConfig::Enabled(_) => panic!("Floodgate must be off by default"),
    }
    assert_eq!(default_key_file(), "key.pem");
    assert_eq!(default_username_prefix(), ".");
    assert!(default_replace_spaces());
    assert_eq!(default_education_username_prefix(), "+");
}

#[test]
fn default_settings_keep_hostnames() {
    let key = [5u8; 16];
    let hostname = format!("lobby\0{}", encrypt(key, STANDARD.as_bytes()));
    let (kept, parsed) = FloodgateSettings::default().parse_hostname(&hostname).unwrap();
    assert_eq!(kept, hostname);
    assert!(parsed.is_none());
}

#[test]
fn plain_hostnames_are_kept() {
    let (kept, parsed) = settings([1u8; 16]).parse_hostname("play.example.org\0proxy\0").unwrap();
    assert_eq!(kept, "play.example.org\0proxy\0");
    assert!(parsed.is_none());
}

#[test]
fn payload_alone_leaves_empty_hostname() {
    let key = [6u8; 16];
    let (kept, parsed) = settings(key).parse_hostname(&encrypt(key, STANDARD.as_bytes())).unwrap();
    assert_eq!(kept, "");
    assert_eq!(parsed.unwrap().username, "Player");
}

#[test]
fn rejects_unsupported_version() {
    let err = settings([1u8; 16]).parse_hostname("lobby\0^Floodgate^Ax").err().unwrap();
    assert_eq!(err, "Unsupported Floodgate data version: 3");
    let err = settings([1u8; 16]).parse_hostname("^Floodgate^\u{1}").err().unwrap();
    assert_eq!(err, "Unsupported Floodgate data version: -61");
}

#[test]
fn short_identifier_is_not_a_payload() {
    let (kept, parsed) = settings([1u8; 16]).parse_hostname("^Floodgate^").unwrap();
    assert_eq!(kept, "^Floodgate^");
    assert!(parsed.is_none());
    assert_eq!(floodgate_version(b"^Floodgate^"), None);
    assert_eq!(floodgate_version(b"^Floodgate^>"), Some(0));
    assert_eq!(floodgate_version(b"^Floodgate_>"), None);
}

#[test]
fn second_payload_is_refused() {
    let key = [2u8; 16];
    let payload = encrypt(key, STANDARD.as_bytes());
    let err = settings(key).parse_hostname(&format!("{payload}\0{payload}")).err().unwrap();
    assert_eq!(err, "Multiple Floodgate payloads were provided");
}

#[test]
fn education_needs_support() {
    let key = [3u8; 16];
    let off = FloodgateSettings::from_config(&config(".", false, false, true), Ok(key.to_vec())).unwrap();
    let err = off.parse_hostname(&encrypt(key, EDUCATION.as_bytes())).err().unwrap();
    assert_eq!(err, "Education Floodgate data received but education support is disabled");
    let (_, parsed) = settings(key).parse_hostname(&encrypt(key, EDUCATION.as_bytes())).unwrap();
    let parsed = parsed.unwrap();
    assert!(parsed.education);
    assert_eq!(parsed.tenant_id, "tenant");
    assert_eq!(parsed.xuid, "00000000-0000-4000-8000-000000000001");
}

#[test]
fn payload_errors() {
    let key = [4u8; 16];
    let s = settings(key);
    assert_eq!(s.parse_hostname("^Floodgate^>").err().unwrap(), "Invalid Floodgate header");
    assert_eq!(s.parse_hostname("^Floodgate^>abc").err().unwrap(), "Invalid Floodgate payload");
    let big = format!("^Floodgate^>{}", "A".repeat(8193));
    assert_eq!(s.parse_hostname(&big).err().unwrap(), "Floodgate payload is too large");
    assert_eq!(s.parse_hostname("^Floodgate^>*!AAAA").err().unwrap(), "Invalid Floodgate IV encoding");
    assert_eq!(
        s.parse_hostname("^Floodgate^>CQkJCQkJCQkJCQkJ!*").err().unwrap(),
        "Invalid Floodgate ciphertext encoding"
    );
    assert_eq!(s.parse_hostname("^Floodgate^>AAAA!AAAA").err().unwrap(), "Invalid Floodgate IV length");
    assert_eq!(
        s.parse_hostname("^Floodgate^>CQkJCQkJCQkJCQkJ!").err().unwrap(),
        "Invalid Floodgate ciphertext length"
    );
    let long = format!(
        "^Floodgate^>CQkJCQkJCQkJCQkJ!{}",
        base64::engine::general_purpose::STANDARD.encode(vec![0u8; 4097])
    );
    assert_eq!(s.parse_hostname(&long).err().unwrap(), "Invalid Floodgate ciphertext length");
    let wrong_key = encrypt([8u8; 16], STANDARD.as_bytes());
    assert_eq!(s.parse_hostname(&wrong_key).err().unwrap(), "Floodgate authentication failed");
    let not_text = encrypt(key, &[0xffu8, 0xfe]);
    assert_eq!(s.parse_hostname(&not_text).err().unwrap(), "Floodgate data is not valid UTF-8");
}

#[test]
fn data_errors() {
    assert_eq!(
        parse_data("0\0Player\0-1\01\0en_US\02\01\0127.0.0.1\0\00\00\0123").err().unwrap(),
        "Invalid Floodgate data field count: 12"
    );
    assert_eq!(
        parse_data("0\0Student\0x\01\0en_US\02\01\0127.0.0.1\0\00\00\0123\0verify\02\0tenant\00").err().unwrap(),
        "Invalid Floodgate data field count: 16"
    );
    assert_eq!(
        parse_data("0\0Player\0-1\01\0en_US\02\01\0127.0.0.1\0\02\00\0123\0verify").err().unwrap(),
        "Invalid Floodgate proxy flag"
    );
    let d = parse_data("0\0Player\0-1\01\0en_US\02\01\0127.0.0.1\0\01\00\0123\0verify").unwrap();
    assert_eq!(d.username, "Player");
    assert_eq!(d.tenant_id, "");
}

#[test]
fn decrypt_gives_plaintext() {
    let key = [7u8; 16];
    let part = encrypt(key, "hello\0world".as_bytes());
    assert_eq!(decrypt(&key, &part).unwrap(), "hello\0world");
    let (iv, ct) = payload_parts(part.as_bytes()).unwrap();
    assert_eq!(iv, b"CQkJCQkJCQkJCQkJ".to_vec());
    assert!(!ct.contains(&b'!'));
}

#[test]
fn cipher_input_checks() {
    assert_eq!(check_cipher_inputs(None, Some(vec![1])).err().unwrap(), "Invalid Floodgate IV encoding");
    assert_eq!(check_cipher_inputs(Some(vec![0; 12]), None).err().unwrap(), "Invalid Floodgate ciphertext encoding");
    assert_eq!(check_cipher_inputs(Some(vec![0; 11]), Some(vec![1])).err().unwrap(), "Invalid Floodgate IV length");
    assert_eq!(check_cipher_inputs(Some(vec![0; 12]), Some(vec![])).err().unwrap(), "Invalid Floodgate ciphertext length");
    assert_eq!(check_cipher_inputs(Some(vec![0; 12]), Some(vec![1; 4096])).unwrap(), (vec![0; 12], vec![1; 4096]));
    assert_eq!(plaintext_to_text(None).err().unwrap(), "Floodgate authentication failed");
    assert_eq!(plaintext_to_text(Some(vec![0xc3])).err().unwrap(), "Floodgate data is not valid UTF-8");
    assert_eq!(plaintext_to_text(Some("é".as_bytes().to_vec())).unwrap(), "é");
}

#[test]
fn config_checks() {
    let key = [1u8; 16].to_vec();
    assert_eq!(
        FloodgateSettings::from_config(&config("12345678901234567", true, false, true), Ok(key.clone())).err().unwrap(),
        "Floodgate username prefix must be at most 16 bytes"
    );
    let mut c = config(".", true, false, true);
    c.education_username_prefix = "a\0".to_string();
    assert_eq!(
        FloodgateSettings::from_config(&c, Ok(key.clone())).err().unwrap(),
        "Education username prefix must not contain NUL bytes"
    );
    assert_eq!(
        FloodgateSettings::from_config(&config(".", true, false, true), Ok(vec![1u8; 15])).err().unwrap(),
        "Floodgate AES key must be exactly 16 bytes, got 15"
    );
    assert_eq!(
        FloodgateSettings::from_config(&config(".", true, false, true), Err("no file".to_string())).err().unwrap(),
        "no file"
    );
    assert_eq!(validate_prefix("ééééééééé", "P").err().unwrap(), "P must be at most 16 bytes");
    assert!(validate_prefix("éééééééé", "P").is_ok());
    assert_eq!(key_from_bytes(&[3u8; 16]).unwrap(), [3u8; 16]);
    assert_eq!(key_from_bytes(&[]).err().unwrap(), "Floodgate AES key must be exactly 16 bytes, got 0");
}

#[test]
fn profile_names_fit_sixteen_bytes() {
    let s = settings([1u8; 16]);
    let (name, uuid) = s.game_profile(&data("A very long name", "-1", false, "")).unwrap();
    assert_eq!(name, ".A_very_long_nam");
    assert_eq!(uuid, u64::MAX as u128);
    let keep = FloodgateSettings::from_config(&config("ab", true, false, false), Ok([1u8; 16].to_vec())).unwrap();
    let (name, uuid) = keep.game_profile(&data("x y", "42", false, "")).unwrap();
    assert_eq!(name, "abx y");
    assert_eq!(uuid, 42);
    let wide = FloodgateSettings::from_config(&config("éééééééé", true, false, true), Ok([1u8; 16].to_vec())).unwrap();
    let (name, _) = wide.game_profile(&data("Steve", "1", false, "")).unwrap();
    assert_eq!(name, "éééééééé");
}

#[test]
fn profile_errors() {
    let s = settings([1u8; 16]);
    assert_eq!(
        s.game_profile(&data("Steve", "12a", false, "")).err().unwrap(),
        "Floodgate xuid is not a valid 64-bit integer"
    );
    assert_eq!(
        s.game_profile(&data("Steve", "not-an-oid", true, "t")).err().unwrap(),
        "EduFloodgate xuid is not a valid Entra OID"
    );
}

#[test]
fn education_profiles() {
    let s = settings([1u8; 16]);
    let (name, uuid) = s
        .game_profile(&data("Student Name", "00000000-0000-4000-8000-000000000001", true, "tenant"))
        .unwrap();
    assert_eq!(name, "+Student_Name");
    assert_eq!(uuid, 0x0000_0001_0000_0001_0000_0000_0000_0000u128);
}

#[test]
fn modern_uuid_bits() {
    let value = uuid::Uuid::parse_str("0123456789abcdef-fedcba9876543210".replace('-', "").as_str())
        .unwrap()
        .as_u128();
    let msb = (value >> 64) as u64;
    let lsb = value as u64;
    let upper = ((msb >> 16) << 12) | (msb & 0xFFF);
    let lower = (lsb << 2) >> 60;
    let expected = ((0x0000000100000001u64 as u128) << 64) | (((upper << 4) | lower) as u128);
    assert_eq!(modern_education_uuid_from(value), expected);
    assert_eq!(modern_education_uuid("0123456789abcdeffedcba9876543210").unwrap(), expected);
    assert_ne!(modern_education_uuid_from(value), value);
}

#[test]
fn legacy_uuid_from_sha256() {
    let digest = sha2::Sha256::digest(b"tenant:Student");
    let mut lsb = 0u64;
    for byte in digest.iter().take(8) {
        lsb = (lsb << 8) | u64::from(*byte);
    }
    let expected = ((0x0000000100000001u64 as u128) << 64) | lsb as u128;
    assert_eq!(legacy_education_uuid("tenant", "Student"), expected);
    assert_eq!(legacy_education_uuid_from_digest(&digest), expected);
    assert_eq!(
        legacy_education_uuid_from_digest(&[1, 2, 3, 4, 5, 6, 7, 8, 9]),
        0x0000_0001_0000_0001_0102_0304_0506_0708u128
    );
}

#[test]
fn uuid_pairs() {
    assert_eq!(uuid_from_u64_pair(1, 2), (1u128 << 64) | 2);
    assert_eq!(uuid_from_u64_pair(0, u64::MAX), u64::MAX as u128);
}

#[test]
fn structured_forwarding_selects_method() {
    let structured = |velocity: bool, bungee: bool, guard: bool| {
        ForwardingConfig::Structured(StructuredForwarding {
            velocity: ModernForwardingConfig { enabled: velocity, secret: "s".to_string() },
            bungee_cord: BungeeCordForwardingConfig {
                enabled: bungee,
                bungee_guard: guard,
                tokens: vec!["t".to_string()],
            },
        })
    };
    assert!(matches!(TaggedForwarding::from(structured(true, true, true)), TaggedForwarding::Modern { secret } if secret == "s"));
    assert!(matches!(TaggedForwarding::from(structured(false, true, true)), TaggedForwarding::BungeeGuard { tokens } if tokens == vec!["t".to_string()]));
    assert!(matches!(TaggedForwarding::from(structured(false, true, false)), TaggedForwarding::Legacy));
    assert!(matches!(TaggedForwarding::from(structured(false, false, true)), TaggedForwarding::Disabled));
    assert!(matches!(TaggedForwarding::from(ForwardingConfig::Tagged(TaggedForwarding::Legacy)), TaggedForwarding::Legacy));
    assert!(matches!(TaggedForwarding::from(ForwardingConfig::default()), TaggedForwarding::Disabled));
    assert!(matches!(TaggedForwarding::default(), TaggedForwarding::Disabled));
}

#[test]
fn sealed_payload_round_trip() {
    let key = [11u8; 16];
    let iv = [9u8; 12];
    let sealed = seal_payload(&key, &iv, STANDARD).unwrap();
    assert_eq!(sealed, encrypt(key, STANDARD.as_bytes()));
    assert_eq!(decrypt(&key, &sealed).unwrap(), STANDARD);
    let (kept, parsed) = settings(key).parse_hostname(&format!("lobby\0{sealed}")).unwrap();
    assert_eq!(kept, "lobby");
    assert_eq!(parsed.unwrap().xuid, "-1");
    let longest = "é".repeat(2040);
    let sealed = seal_payload(&key, &iv, &longest).unwrap();
    assert_eq!(decrypt(&key, &sealed).unwrap(), longest);
    assert!(seal_payload(&key, &iv, &"a".repeat(4081)).is_none());
    assert_eq!(decrypt(&key, &seal_payload(&key, &iv, "").unwrap()).unwrap(), "");
}
