use eppo_core::edge::{kv_store_key, token_hash};
use eppo_core::event_ingestion::sdk_key_decoder::decode_event_ingestion_url;
use eppo_core::numbers::{parse_decimal_micros, parse_semver, parse_u64, render_micros};
use eppo_core::sharder::get_md5_shard;

fn parts(items: &[&str]) -> Vec<String> {
    items.iter().map(|s| s.to_string()).collect()
}

#[test]
fn shard_value_is_stable() {
    // the MD5 sharder is bit-exact across platforms; this value must never
    // change
    let h = get_md5_shard(&parts(&["salt", "-", "alice"]), 10_000);
    assert_eq!(h, 3619);
    let again = get_md5_shard(&parts(&["salt", "-", "alice"]), 10_000);
    assert_eq!(h, again);
}

#[test]
fn shard_value_respects_modulus() {
    for total in [1u64, 2, 10, 10_000] {
        let h = get_md5_shard(&parts(&["s", "-", "bob"]), total);
        assert!(h < total);
    }
    assert_eq!(get_md5_shard(&parts(&["s", "-", "alice"]), 10), 0);
    assert_eq!(get_md5_shard(&parts(&["s", "-", "bob"]), 10), 7);
}

#[test]
fn decode_succeeds_with_valid_sdk_key() {
    let sdk_key = "zCsQuoHJxVPp895.ZWg9MTIzNDU2LmUudGVzdGluZy5lcHBvLmNsb3Vk";
    let hostname = decode_event_ingestion_url(sdk_key);
    assert_eq!(
        Some("https://123456.e.testing.eppo.cloud/v0/i".to_string()),
        hostname
    );
}

#[test]
fn decode_with_non_url_safe_characters() {
    let invalid_url = "eh=12+3456/.e.testing.eppo.cloud";
    let encoded_payload = base64::Engine::encode(
        &base64::engine::general_purpose::URL_SAFE_NO_PAD,
        invalid_url,
    );
    let sdk_key = format!("zCsQuoHJxVPp895.{encoded_payload}");
    let hostname = decode_event_ingestion_url(&sdk_key);
    assert_eq!(
        Some("https://12 3456/.e.testing.eppo.cloud/v0/i".to_string()),
        hostname
    );
}

#[test]
fn returns_none_when_no_event_hostname() {
    let no_payload = "zCsQuoHJxVPp895";
    let invalid_payload = "zCsQuoHJxVPp895.xxxxxx";

    assert_eq!(None, decode_event_ingestion_url(no_payload));
    assert_eq!(None, decode_event_ingestion_url(invalid_payload));
}

#[test]
fn decode_keeps_explicit_scheme_and_slash() {
    // host with explicit scheme and trailing slash: the path is appended
    // without doubling the separator and the scheme is kept
    let payload = base64::Engine::encode(
        &base64::engine::general_purpose::URL_SAFE_NO_PAD,
        "eh=http://localhost:8080/",
    );
    let sdk_key = format!("abc.{payload}");
    assert_eq!(
        Some("http://localhost:8080/v0/i".to_string()),
        decode_event_ingestion_url(&sdk_key)
    );
}

#[test]
fn test_token_hash() {
    // a known SDK key and its expected hash
    let sdk_key = "5qCSVzH1lCI11.ZWg9ZDhlYnhsLmV2ZW50cy5lcHBvLmxvY2FsaG9zdA";
    let expected_hash = "V--77TScV5Etm78nIMTSOdiroOh1__NsupwUwsetEVM";

    let result = token_hash(sdk_key);
    assert_eq!(result, expected_hash);
}

#[test]
fn kv_store_key_prefixes_the_hash() {
    assert_eq!(
        kv_store_key("abc".to_string()),
        "ufc-by-sdk-key-token-hash-abc"
    );
}

#[test]
fn parse_u64_accepts_digits_only() {
    assert_eq!(parse_u64("0"), Some(0));
    assert_eq!(parse_u64("10342"), Some(10342));
    assert_eq!(parse_u64("18446744073709551615"), Some(u64::MAX));
    assert_eq!(parse_u64("18446744073709551616"), None);
    assert_eq!(parse_u64(""), None);
    assert_eq!(parse_u64("12a"), None);
    assert_eq!(parse_u64("-3"), None);
}

#[test]
fn parse_semver_splits_three_components() {
    assert_eq!(parse_semver("1.2.3"), Some((1, 2, 3)));
    assert_eq!(parse_semver("10.0.200"), Some((10, 0, 200)));
    assert_eq!(parse_semver("1.2"), None);
    assert_eq!(parse_semver("1.2.3.4"), None);
    assert_eq!(parse_semver("1.2.x"), None);
    assert_eq!(parse_semver("..."), None);
    assert_eq!(parse_semver(""), None);
}

#[test]
fn render_micros_writes_plain_decimals() {
    assert_eq!(render_micros(0), "0");
    assert_eq!(render_micros(30_000_000), "30");
    assert_eq!(render_micros(-2_500_000), "-2.5");
    assert_eq!(render_micros(42_500_000), "42.5");
    assert_eq!(render_micros(100_000), "0.1");
    assert_eq!(render_micros(1_234_560), "1.23456");
    assert_eq!(render_micros(1_000_001), "1.000001");
    assert_eq!(render_micros(-1), "-0.000001");
}

#[test]
fn parse_decimal_micros_reads_fixed_point() {
    assert_eq!(parse_decimal_micros("0"), Some(0));
    assert_eq!(parse_decimal_micros("30"), Some(30_000_000));
    assert_eq!(parse_decimal_micros("-2"), Some(-2_000_000));
    assert_eq!(parse_decimal_micros("1.5"), Some(1_500_000));
    assert_eq!(parse_decimal_micros("-0.25"), Some(-250_000));
    assert_eq!(parse_decimal_micros("1.2345678"), Some(1_234_567));
    assert_eq!(parse_decimal_micros("1."), Some(1_000_000));
    assert_eq!(parse_decimal_micros(".5"), None);
    assert_eq!(parse_decimal_micros("1.2.3"), None);
    assert_eq!(parse_decimal_micros("abc"), None);
    assert_eq!(parse_decimal_micros(""), None);
}
