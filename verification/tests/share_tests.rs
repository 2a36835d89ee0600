use airgap_json_formatter::share::{
    compress_with_header, HEADER_LENGTH, VERSION_RANDOM_KEY,
    create_share_payload, decode_base64url, decode_share_payload, decompress_json, decompress_raw,
    derive_key_from_passphrase, decrypt_payload, encode_base64url, encrypt_payload,
    extract_header, generate_random_key, validate_timestamp, DecodeResult, ShareError,
};

const NOW: u64 = 1706367600;

// --- DecodeResult and ShareError ---

#[test]
fn test_decode_result_fields() {
    let result = DecodeResult {
        json: r#"{"a":1}"#.to_string(),
        created_at: 1706367600,
        mode: "quick".to_string(),
    };
    assert_eq!(result.json, r#"{"a":1}"#);
    assert_eq!(result.created_at, 1706367600);
    assert_eq!(result.mode, "quick");
}

#[test]
fn test_share_error_display() {
    assert_eq!(
        ShareError::Expired.message(),
        "This shared link has expired (links are valid for 5 minutes)"
    );
    assert_eq!(ShareError::InvalidPayload.message(), "Invalid share link format");
    assert_eq!(
        ShareError::DecryptionFailed.message(),
        "Unable to decrypt - the link may be corrupted"
    );
    assert_eq!(ShareError::InvalidBase64.message(), "Invalid share link encoding");
}

#[test]
fn test_error_codes() {
    assert_eq!(ShareError::Expired.error_code(), "expired");
    assert_eq!(ShareError::InvalidPayload.error_code(), "invalid_payload");
    assert_eq!(ShareError::DecryptionFailed.error_code(), "decryption_failed");
    assert_eq!(ShareError::InvalidBase64.error_code(), "invalid_base64");
}

#[test]
fn test_error_codes_and_messages_all_variants() {
    assert_eq!(ShareError::CompressionFailed.error_code(), "invalid_payload");
    assert_eq!(ShareError::EncryptionFailed.error_code(), "decryption_failed");
    assert_eq!(ShareError::PayloadTooLarge.error_code(), "invalid_payload");
    assert_eq!(ShareError::EmptyInput.error_code(), "invalid_payload");
    assert_eq!(ShareError::KeyDerivationFailed.error_code(), "decryption_failed");
    assert_eq!(ShareError::CompressionFailed.message(), "Compression failed");
    assert_eq!(ShareError::EncryptionFailed.message(), "Encryption failed");
    assert_eq!(
        ShareError::PayloadTooLarge.message(),
        "Payload too large (max 6000 chars encoded)"
    );
    assert_eq!(ShareError::EmptyInput.message(), "Input is empty");
    assert_eq!(ShareError::KeyDerivationFailed.message(), "Key derivation failed");
}

// --- Base64URL ---

#[test]
fn test_base64url_roundtrip() {
    let data = b"hello world";
    let encoded = encode_base64url(data);
    let decoded = decode_base64url(&encoded).unwrap();
    assert_eq!(decoded, data);
}

#[test]
fn test_base64url_no_padding() {
    let encoded = encode_base64url(b"ab");
    assert!(!encoded.contains('='));
}

#[test]
fn test_base64url_url_safe_chars() {
    let data: Vec<u8> = (0..=255).collect();
    let encoded = encode_base64url(&data);
    assert!(!encoded.contains('+'));
    assert!(!encoded.contains('/'));
}

#[test]
fn test_base64url_invalid_input() {
    let result = decode_base64url("not valid base64!!!");
    assert_eq!(result.unwrap_err(), ShareError::InvalidBase64);
}

#[test]
fn test_base64url_known_value() {
    assert_eq!(encode_base64url(b"ab"), "YWI");
    assert_eq!(decode_base64url("YWI").unwrap(), b"ab");
}

// --- PBKDF2 key derivation ---

#[test]
fn test_pbkdf2_deterministic() {
    let salt = [0u8; 16];
    let key1 = derive_key_from_passphrase("test", &salt).unwrap();
    let key2 = derive_key_from_passphrase("test", &salt).unwrap();
    assert_eq!(key1, key2);
}

#[test]
fn test_pbkdf2_different_passphrase() {
    let salt = [0u8; 16];
    let key1 = derive_key_from_passphrase("test1", &salt).unwrap();
    let key2 = derive_key_from_passphrase("test2", &salt).unwrap();
    assert_ne!(key1, key2);
}

#[test]
fn test_pbkdf2_different_salt() {
    let salt1 = [0u8; 16];
    let salt2 = [1u8; 16];
    let key1 = derive_key_from_passphrase("test", &salt1).unwrap();
    let key2 = derive_key_from_passphrase("test", &salt2).unwrap();
    assert_ne!(key1, key2);
}

#[test]
fn test_pbkdf2_key_is_not_input() {
    let salt = [7u8; 16];
    let key = derive_key_from_passphrase("secret", &salt).unwrap();
    assert_eq!(key.len(), 32);
    assert_ne!(key, vec![0u8; 32]);
    assert_ne!(&key[..6], b"secret");
}

// --- AES-256-GCM ---

#[test]
fn test_encrypt_decrypt_roundtrip() {
    let mut key = [0u8; 32];
    getrandom::getrandom(&mut key).unwrap();
    let plaintext = b"hello world";
    let encrypted = encrypt_payload(plaintext, &key).unwrap();
    let decrypted = decrypt_payload(&encrypted, &key).unwrap();
    assert_eq!(decrypted, plaintext);
}

#[test]
fn test_encrypt_changes_data() {
    let key = [9u8; 32];
    let plaintext = b"hello world";
    let encrypted = encrypt_payload(plaintext, &key).unwrap();
    assert_eq!(encrypted.len(), plaintext.len() + 28);
    assert_ne!(&encrypted[12..12 + plaintext.len()], plaintext.as_slice());
}

#[test]
fn test_decrypt_wrong_key() {
    let mut key1 = [0u8; 32];
    let mut key2 = [1u8; 32];
    getrandom::getrandom(&mut key1).unwrap();
    getrandom::getrandom(&mut key2).unwrap();
    let encrypted = encrypt_payload(b"data", &key1).unwrap();
    let result = decrypt_payload(&encrypted, &key2);
    assert_eq!(result.unwrap_err(), ShareError::DecryptionFailed);
}

#[test]
fn test_decrypt_too_short() {
    let result = decrypt_payload(&[0u8; 5], &[0u8; 32]);
    assert_eq!(result.unwrap_err(), ShareError::InvalidPayload);
}

#[test]
fn test_decrypt_invalid_key_length() {
    let result = decrypt_payload(&[0u8; 20], &[0u8; 16]);
    assert_eq!(result.unwrap_err(), ShareError::InvalidPayload);
}

// --- Frame header ---

#[test]
fn test_extract_header_valid() {
    let mut data = vec![0x01];
    data.extend_from_slice(&1706367600u64.to_be_bytes());
    data.extend_from_slice(b"remaining");
    let (version, ts, rest) = extract_header(&data).unwrap();
    assert_eq!(version, 0x01);
    assert_eq!(ts, 1706367600);
    assert_eq!(rest, b"remaining");
}

#[test]
fn test_extract_header_too_short() {
    let result = extract_header(&[0u8; 5]);
    assert_eq!(result.unwrap_err(), ShareError::InvalidPayload);
}

// --- Expiration ---

#[test]
fn test_expiration_boundary_not_expired() {
    let result = validate_timestamp(NOW - 299, NOW);
    assert!(result.is_ok(), "299s should not be expired");
}

#[test]
fn test_expiration_boundary_exactly_300() {
    let result = validate_timestamp(NOW - 300, NOW);
    assert!(result.is_ok(), "300s should not be expired (boundary)");
}

#[test]
fn test_expiration_boundary_expired() {
    let result = validate_timestamp(NOW - 301, NOW);
    assert_eq!(result.unwrap_err(), ShareError::Expired);
}

#[test]
fn test_expiration_future_timestamp_not_expired() {
    let result = validate_timestamp(NOW + 1000, NOW);
    assert!(result.is_ok(), "a timestamp in the future saturates to age zero");
}

// --- DEFLATE ---

#[test]
fn test_decompress_invalid_data() {
    let result = decompress_json(&[0xFF, 0xFE, 0xFD]);
    assert!(result.is_err());
}

#[test]
fn test_decompress_raw_inverts_deflate() {
    let raw: Vec<u8> = vec![0xFF, 0xFE, 0x00, 0x01, 0x02, 0xFF];
    let mut enc =
        flate2::write::DeflateEncoder::new(Vec::new(), flate2::Compression::default());
    std::io::Write::write_all(&mut enc, &raw).unwrap();
    let compressed = enc.finish().unwrap();
    assert_ne!(compressed, raw);
    let decompressed = decompress_raw(&compressed).unwrap();
    assert_eq!(decompressed, raw);
    // The bytes are not valid UTF-8, so the JSON variant rejects them.
    let as_json = decompress_json(&compressed);
    assert_eq!(as_json.unwrap_err(), ShareError::InvalidPayload);
}

// --- Full round trips ---

#[test]
fn test_roundtrip_random_key_mode() {
    let json = r#"{"test": "data", "count": 42}"#;
    let payload = create_share_payload(json, None, NOW).unwrap();
    assert!(payload.key.is_some());

    let result =
        decode_share_payload(&payload.data, payload.key.as_ref().unwrap(), false, NOW).unwrap();
    assert_eq!(result.json, json);
    assert_eq!(result.mode, "quick");
}

#[test]
fn test_roundtrip_passphrase_mode() {
    let json = r#"{"secret": "value"}"#;
    let passphrase = "my-secret-pass";
    let payload = create_share_payload(json, Some(passphrase), NOW).unwrap();
    assert!(payload.key.is_none());

    let result = decode_share_payload(&payload.data, passphrase, true, NOW).unwrap();
    assert_eq!(result.json, json);
    assert_eq!(result.mode, "protected");
}

#[test]
fn test_example_scenario() {
    let payload = create_share_payload("{\"a\":1}", None, NOW).unwrap();
    let key = payload.key.expect("random-key mode hands the key back");
    let result = decode_share_payload(&payload.data, &key, false, NOW).unwrap();
    assert_eq!(result.json, "{\"a\":1}");
    assert_eq!(result.mode, "quick");
    assert_eq!(result.created_at, NOW);
}

#[test]
fn test_expired_link() {
    let json = r#"{"test": true}"#;
    let payload = create_share_payload(json, None, NOW).unwrap();

    let result = decode_share_payload(&payload.data, payload.key.as_ref().unwrap(), false, NOW + 301);
    assert_eq!(result.unwrap_err(), ShareError::Expired);
}

#[test]
fn test_roundtrip_at_expiration_boundary() {
    let json = r#"{"test": true}"#;
    let payload = create_share_payload(json, None, NOW).unwrap();
    let key = payload.key.as_ref().unwrap();

    let at_299 = decode_share_payload(&payload.data, key, false, NOW + 299).unwrap();
    assert_eq!(at_299.json, json);
    let at_300 = decode_share_payload(&payload.data, key, false, NOW + 300).unwrap();
    assert_eq!(at_300.json, json);
    let at_301 = decode_share_payload(&payload.data, key, false, NOW + 301);
    assert_eq!(at_301.unwrap_err(), ShareError::Expired);
}

#[test]
fn test_tampered_data() {
    let json = r#"{"test": "data"}"#;
    let payload = create_share_payload(json, None, NOW).unwrap();
    let mut raw = decode_base64url(&payload.data).unwrap();
    // Flip a bit in the ciphertext (after nonce)
    if raw.len() > 20 {
        raw[20] ^= 0xFF;
    }
    let tampered_data = encode_base64url(&raw);
    let result = decode_share_payload(&tampered_data, payload.key.as_ref().unwrap(), false, NOW);
    assert_eq!(result.unwrap_err(), ShareError::DecryptionFailed);
}

#[test]
fn test_tampered_single_bit() {
    let json = r#"{"test": "data"}"#;
    let payload = create_share_payload(json, None, NOW).unwrap();
    let mut raw = decode_base64url(&payload.data).unwrap();
    let idx = raw.len() - 1;
    raw[idx] ^= 0x01;
    let tampered_data = encode_base64url(&raw);
    let result = decode_share_payload(&tampered_data, payload.key.as_ref().unwrap(), false, NOW);
    assert_eq!(result.unwrap_err(), ShareError::DecryptionFailed);
}

#[test]
fn test_wrong_key() {
    let json = r#"{"test": "data"}"#;
    let payload = create_share_payload(json, None, NOW).unwrap();
    let mut wrong_key = [0u8; 32];
    getrandom::getrandom(&mut wrong_key).unwrap();
    let wrong_key_b64 = encode_base64url(&wrong_key);
    let result = decode_share_payload(&payload.data, &wrong_key_b64, false, NOW);
    assert_eq!(result.unwrap_err(), ShareError::DecryptionFailed);
}

#[test]
fn test_wrong_passphrase() {
    let json = r#"{"test": "data"}"#;
    let payload = create_share_payload(json, Some("correct-pass"), NOW).unwrap();
    let result = decode_share_payload(&payload.data, "wrong-pass", true, NOW);
    assert_eq!(result.unwrap_err(), ShareError::DecryptionFailed);
}

#[test]
fn test_mode_mismatch_key_as_passphrase() {
    let json = r#"{"test": "data"}"#;
    let payload = create_share_payload(json, None, NOW).unwrap();
    let result = decode_share_payload(&payload.data, "some-pass", true, NOW);
    assert!(result.is_err());
}

#[test]
fn test_mode_mismatch_passphrase_as_key() {
    let json = r#"{"test": "data"}"#;
    let payload = create_share_payload(json, Some("a-passphrase"), NOW).unwrap();
    // Hand the decoder a well-formed random key for a passphrase payload.
    let key = generate_random_key().unwrap();
    let key_b64 = encode_base64url(&key);
    let result = decode_share_payload(&payload.data, &key_b64, false, NOW);
    assert!(result.is_err());
}

#[test]
fn test_truncated_data() {
    let short = encode_base64url(&[0u8; 5]);
    let mut key = [0u8; 32];
    getrandom::getrandom(&mut key).unwrap();
    let key_b64 = encode_base64url(&key);
    let result = decode_share_payload(&short, &key_b64, false, NOW);
    assert!(result.is_err());
}

#[test]
fn test_invalid_base64_input() {
    let result = decode_share_payload("!!!invalid!!!", "key", false, NOW);
    assert_eq!(result.unwrap_err(), ShareError::InvalidBase64);
}

#[test]
fn test_empty_input_encoding() {
    let result = create_share_payload("", None, NOW);
    assert_eq!(result.unwrap_err(), ShareError::EmptyInput);
}

#[test]
fn test_large_json_roundtrip() {
    let json = format!(r#"{{"data": "{}"}}"#, "x".repeat(1000));
    let payload = create_share_payload(&json, None, NOW).unwrap();
    let result =
        decode_share_payload(&payload.data, payload.key.as_ref().unwrap(), false, NOW).unwrap();
    assert_eq!(result.json, json);
}

// --- Random key generation ---

#[test]
fn test_generate_random_key_returns_32_bytes() {
    let key = generate_random_key().unwrap();
    assert_eq!(key.len(), 32);
}

#[test]
fn test_generate_random_key_unique() {
    let key1 = generate_random_key().unwrap();
    let key2 = generate_random_key().unwrap();
    assert_ne!(key1, key2, "Random keys should be unique");
}

// --- Payload size cap ---

#[test]
fn test_payload_too_large() {
    // Use truly random data as a hex string to prevent compression.
    let mut random_bytes = [0u8; 5000];
    getrandom::getrandom(&mut random_bytes).unwrap();
    let hex_data: String = random_bytes.iter().map(|b| format!("{:02x}", b)).collect();
    let large_json = format!(r#"{{"data":"{}"}}"#, hex_data);
    let result = create_share_payload(&large_json, None, NOW);
    assert_eq!(result.unwrap_err(), ShareError::PayloadTooLarge);
}

#[test]
fn test_payload_too_large_passphrase_mode() {
    let mut random_bytes = [0u8; 5000];
    getrandom::getrandom(&mut random_bytes).unwrap();
    let hex_data: String = random_bytes.iter().map(|b| format!("{:02x}", b)).collect();
    let large_json = format!(r#"{{"data":"{}"}}"#, hex_data);
    let result = create_share_payload(&large_json, Some("passphrase"), NOW);
    assert_eq!(result.unwrap_err(), ShareError::PayloadTooLarge);
}

// --- Nonce uniqueness ---

#[test]
fn test_nonce_uniqueness_different_ciphertexts() {
    let json = r#"{"same": "data"}"#;
    let payload1 = create_share_payload(json, None, NOW).unwrap();
    let payload2 = create_share_payload(json, None, NOW).unwrap();
    assert_ne!(
        payload1.data, payload2.data,
        "Same input should produce different ciphertext (random nonce)"
    );
}

// --- Unicode ---

#[test]
fn test_unicode_emoji_roundtrip() {
    let json = r#"{"emoji":"🎉","cjk":"日本語","arabic":"مرحبا"}"#;
    let payload = create_share_payload(json, None, NOW).unwrap();
    let result =
        decode_share_payload(&payload.data, payload.key.as_ref().unwrap(), false, NOW).unwrap();
    assert_eq!(result.json, json, "Unicode should round-trip losslessly");
}

#[test]
fn test_unicode_emoji_roundtrip_passphrase() {
    let json = r#"{"emoji":"🎉🚀","text":"你好世界"}"#;
    let passphrase = "unicode-pass-🔐";
    let payload = create_share_payload(json, Some(passphrase), NOW).unwrap();
    let result = decode_share_payload(&payload.data, passphrase, true, NOW).unwrap();
    assert_eq!(result.json, json, "Unicode should round-trip with passphrase");
}

// --- Empty passphrase selects random-key mode ---

#[test]
fn test_empty_passphrase_uses_random_key_mode() {
    let json = r#"{"a":true}"#;
    let payload = create_share_payload(json, Some(""), NOW).unwrap();
    let key = payload.key.expect("an empty passphrase falls back to random-key mode");
    let result = decode_share_payload(&payload.data, &key, false, NOW).unwrap();
    assert_eq!(result.mode, "quick");
}

// --- Frame compression ---

#[test]
fn test_compress_decompress_roundtrip() {
    let json = r#"{"key": "value", "nested": {"a": 1}}"#;
    let version = VERSION_RANDOM_KEY;
    let compressed = compress_with_header(json, version, NOW).unwrap();
    // Use decompress_raw since the wire format has a binary header (not valid UTF-8)
    let decompressed = decompress_raw(&compressed).unwrap();

    // decompressed = [version:1][timestamp:8][json...]
    assert_eq!(decompressed[0], version);
    let json_part = &decompressed[HEADER_LENGTH..];
    assert_eq!(std::str::from_utf8(json_part).unwrap(), json);
}

// --- Decompression cap ---

#[test]
fn test_decompression_cap_enforced() {
    // A highly compressible payload that inflates past the 10 MiB cap is
    // rejected; one that inflates to exactly the cap is accepted.
    let big = vec![0u8; 11 * 1024 * 1024];
    let mut enc = flate2::write::DeflateEncoder::new(Vec::new(), flate2::Compression::default());
    std::io::Write::write_all(&mut enc, &big).unwrap();
    let compressed = enc.finish().unwrap();
    assert_eq!(decompress_raw(&compressed).unwrap_err(), ShareError::InvalidPayload);

    let at_cap = vec![7u8; 10 * 1024 * 1024];
    let mut enc2 = flate2::write::DeflateEncoder::new(Vec::new(), flate2::Compression::default());
    std::io::Write::write_all(&mut enc2, &at_cap).unwrap();
    let compressed2 = enc2.finish().unwrap();
    assert_eq!(decompress_raw(&compressed2).unwrap().len(), 10 * 1024 * 1024);
}
