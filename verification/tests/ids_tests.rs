use archive_replicator::ids::{
    blob_hash_text, parse_blob_hash, parse_node_key, parse_relay_url, topic_id,
};

fn hex(bytes: &[u8]) -> String {
    bytes.iter().map(|b| format!("{:02x}", b)).collect()
}

/// Five bits a digit, the highest first, zeroes at the end.
fn base32(bytes: &[u8; 32]) -> String {
    let digits = b"abcdefghijklmnopqrstuvwxyz234567";
    (0..52)
        .map(|digit| {
            let value = (0..5).fold(0usize, |value, place| {
                let k = digit * 5 + place;
                let bit = if k < 256 { bytes[k / 8] >> (7 - k % 8) & 1 } else { 0 };
                value * 2 + bit as usize
            });
            digits[value] as char
        })
        .collect()
}

#[test]
fn hashes_are_written_in_lowercase_hexadecimal() {
    let mut hash = [0u8; 32];
    hash[0] = 0xaf;
    hash[1] = 0x13;
    hash[31] = 0x0b;
    let text = blob_hash_text(&hash);
    assert_eq!(text.len(), 64);
    assert!(text.starts_with("af13"));
    assert!(text.ends_with("000b"));
}

#[test]
fn hashes_read_back_from_their_text() {
    for seed in 0..=255u8 {
        let hash: [u8; 32] = core::array::from_fn(|i| seed.wrapping_mul(31).wrapping_add(i as u8));
        assert_eq!(parse_blob_hash(&blob_hash_text(&hash)), Some(hash));
    }
}

#[test]
fn hashes_are_read_from_hexadecimal() {
    let text = "af1349b9f5f9a1a6a0404dea36dcc9499bcb25c9adc112b7cc9a93cae41f3262";
    let hash = parse_blob_hash(text).unwrap();
    assert_eq!(hash[0], 0xaf);
    assert_eq!(hash[31], 0x62);
    assert_eq!(parse_blob_hash(&text.to_uppercase()), None);
    assert_eq!(parse_blob_hash(&text.replace('a', "g")), None);
}

#[test]
fn hashes_are_read_from_base32() {
    assert_eq!(parse_blob_hash(&"a".repeat(52)), Some([0u8; 32]));
    assert_eq!(parse_blob_hash(&"A".repeat(52)), Some([0u8; 32]));
    assert_eq!(parse_blob_hash(&"1".repeat(52)), None);
    for seed in 0..=255u8 {
        let hash: [u8; 32] = core::array::from_fn(|i| seed.wrapping_mul(57).wrapping_add(i as u8));
        assert_eq!(parse_blob_hash(&base32(&hash)), Some(hash));
        assert_eq!(parse_blob_hash(&base32(&hash).to_uppercase()), Some(hash));
    }
    // The four bits at the end are zero.
    assert_eq!(parse_blob_hash(&format!("{}b", "a".repeat(51))), None);
    assert!(parse_blob_hash(&format!("{}q", "a".repeat(51))).is_some());
    // Two bytes for each character: no digits, though fifty-two bytes.
    assert_eq!(parse_blob_hash(&"ä".repeat(26)), None);
}

#[test]
fn other_lengths_are_no_hashes() {
    assert_eq!(parse_blob_hash(""), None);
    for len in 0..200 {
        if len != 52 && len != 64 {
            assert_eq!(parse_blob_hash(&"a".repeat(len)), None);
            assert_eq!(parse_node_key(&"a".repeat(len)), None);
        }
    }
}

#[test]
fn node_keys_are_read() {
    let key = iroh::SecretKey::from_bytes(&[7u8; 32]).public();
    let text = key.to_string();
    assert_eq!(text, hex(key.as_bytes()));
    assert_eq!(parse_node_key(&text), Some(*key.as_bytes()));
    assert_eq!(parse_node_key(&text.to_uppercase()), None);
    assert_eq!(parse_node_key(&base32(key.as_bytes())), Some(*key.as_bytes()));
    assert_eq!(parse_node_key(&base32(key.as_bytes()).to_uppercase()), Some(*key.as_bytes()));
    assert_eq!(parse_node_key("not a key"), None);
}

#[test]
fn node_keys_are_points_of_the_curve() {
    let mut keys = 0;
    let mut others = 0;
    for first in 0..=255u8 {
        let mut bytes = [0u8; 32];
        bytes[0] = first;
        match iroh::PublicKey::from_bytes(&bytes) {
            Ok(_) => {
                keys += 1;
                assert_eq!(parse_node_key(&hex(&bytes)), Some(bytes));
            }
            Err(_) => {
                others += 1;
                assert_eq!(parse_node_key(&hex(&bytes)), None);
            }
        }
    }
    assert!(keys > 0);
    assert!(others > 0);
}

#[test]
fn relay_addresses_get_their_normal_form() {
    assert_eq!(
        parse_relay_url("https://Relay.Example.com"),
        Some("https://relay.example.com/".to_string())
    );
    assert_eq!(parse_relay_url("not an address"), None);
    assert_eq!(parse_relay_url(""), None);
}

#[test]
fn topics_are_named_by_their_digest() {
    assert_eq!(
        hex(&topic_id("")),
        "af1349b9f5f9a1a6a0404dea36dcc9499bcb25c9adc112b7cc9a93cae41f3262"
    );
    assert_eq!(
        hex(&topic_id("abc")),
        "6437b3ac38465133ffb63b75273a8db548c558465d79db03fd359c6cd5bd9d85"
    );
    assert_eq!(topic_id("wesense"), *blake3::hash(b"wesense").as_bytes());
}
