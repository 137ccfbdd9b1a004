use raqbot::secret::SecretResponse;
use raqbot::wire::DecodeError;

fn sample_bytes() -> Vec<u8> {
    let mut b: Vec<u8> = Vec::new();
    b.extend(0u8..16); // secret
    b.extend(16u8..32); // player
    b.extend([0x00, 0x00, 0x5f, 0x86]); // port 24454
    b.push(9);
    b.extend(b"localhost");
    b.push(1); // codec
    b.extend([0x00, 0x00, 0x04, 0x00]); // mtu 1024
    b.extend([0x40, 0x48, 0, 0, 0, 0, 0, 0]); // 48.0
    b.extend([0x00, 0x00, 0x03, 0xe8]); // keep alive 1000
    b.push(1); // groups
    b.push(0); // recording
    b
}

fn sample() -> SecretResponse {
    let mut secret = [0u8; 16];
    let mut player = [0u8; 16];
    for i in 0..16 {
        secret[i] = i as u8;
        player[i] = 16 + i as u8;
    }
    SecretResponse {
        secret,
        player,
        port: 24454,
        voice_host: "localhost".to_string(),
        codec: 1,
        mtu_size: 1024,
        voice_chat_distance_bits: 48.0f64.to_bits(),
        keep_alive: 1000,
        groups_enabled: true,
        allow_recording: false,
    }
}

fn assert_same(a: &SecretResponse, b: &SecretResponse) {
    assert_eq!(a.secret, b.secret);
    assert_eq!(a.player, b.player);
    assert_eq!(a.port, b.port);
    assert_eq!(a.voice_host, b.voice_host);
    assert_eq!(a.codec, b.codec);
    assert_eq!(a.mtu_size, b.mtu_size);
    assert_eq!(a.voice_chat_distance_bits, b.voice_chat_distance_bits);
    assert_eq!(a.keep_alive, b.keep_alive);
    assert_eq!(a.groups_enabled, b.groups_enabled);
    assert_eq!(a.allow_recording, b.allow_recording);
}

#[test]
fn decode_reconstructs_all_ten_fields() {
    let resp = SecretResponse::decode(&sample_bytes()).unwrap();
    assert_same(&resp, &sample());
    assert_eq!(f64::from_bits(resp.voice_chat_distance_bits), 48.0);
}

#[test]
fn encode_gives_the_field_order() {
    assert_eq!(sample().encode().unwrap(), sample_bytes());
}

#[test]
fn decode_inverts_encode() {
    let mut resp = sample();
    resp.port = -1;
    resp.mtu_size = i32::MIN;
    resp.keep_alive = i32::MAX;
    resp.voice_chat_distance_bits = u64::MAX;
    resp.voice_host = "h\u{e9}\u{4e16}\u{1f600}.example".to_string();
    resp.allow_recording = true;
    resp.groups_enabled = false;
    let bytes = resp.encode().unwrap();
    assert_same(&SecretResponse::decode(&bytes).unwrap(), &resp);
}

#[test]
fn truncation_at_every_field_boundary_is_truncated_input() {
    let bytes = sample_bytes();
    // secret, player, port, length prefix, host, codec, mtu, distance,
    // keep-alive, groups flag
    for cut in [0usize, 16, 32, 36, 37, 46, 47, 51, 59, 63, 64] {
        match SecretResponse::decode(&bytes[..cut]) {
            Err(e) => assert_eq!(e, DecodeError::TruncatedInput),
            Ok(_) => panic!("decoded a payload cut at {}", cut),
        }
    }
}

#[test]
fn truncation_anywhere_is_truncated_input() {
    let bytes = sample_bytes();
    assert_eq!(bytes.len(), 65);
    for cut in 0..bytes.len() {
        assert_eq!(SecretResponse::decode(&bytes[..cut]).err(), Some(DecodeError::TruncatedInput));
    }
}

#[test]
fn empty_payload_is_truncated_input() {
    assert_eq!(SecretResponse::decode(&[]).err(), Some(DecodeError::TruncatedInput));
}

#[test]
fn trailing_bytes_are_ignored() {
    let mut bytes = sample_bytes();
    bytes.extend([0xde, 0xad, 0xbe, 0xef]);
    assert_same(&SecretResponse::decode(&bytes).unwrap(), &sample());
}

#[test]
fn host_that_is_not_utf8_is_invalid_utf8() {
    let mut bytes = sample_bytes();
    bytes[37] = 0xff;
    assert_eq!(SecretResponse::decode(&bytes).err(), Some(DecodeError::InvalidUtf8));
}

#[test]
fn invalid_host_wins_over_a_missing_tail() {
    let mut bytes = sample_bytes();
    bytes[37] = 0xff;
    assert_eq!(SecretResponse::decode(&bytes[..46]).err(), Some(DecodeError::InvalidUtf8));
}

#[test]
fn any_nonzero_byte_is_a_true_flag() {
    let mut bytes = sample_bytes();
    bytes[63] = 2;
    bytes[64] = 0xff;
    let resp = SecretResponse::decode(&bytes).unwrap();
    assert!(resp.groups_enabled);
    assert!(resp.allow_recording);
}

#[test]
fn empty_host_is_accepted() {
    let mut resp = sample();
    resp.voice_host = String::new();
    let bytes = resp.encode().unwrap();
    assert_eq!(bytes.len(), 56);
    assert_eq!(bytes[36], 0);
    assert_same(&SecretResponse::decode(&bytes).unwrap(), &resp);
}

#[test]
fn long_host_takes_a_two_byte_prefix() {
    let mut resp = sample();
    resp.voice_host = "a".repeat(300);
    let bytes = resp.encode().unwrap();
    assert_eq!(&bytes[36..38], &[0xac, 0x02]);
    assert_eq!(bytes.len(), 36 + 2 + 300 + 19);
    assert_same(&SecretResponse::decode(&bytes).unwrap(), &resp);
    assert_eq!(
        SecretResponse::decode(&bytes[..36 + 2 + 299]).err(),
        Some(DecodeError::TruncatedInput)
    );
}

#[test]
fn padded_length_prefix_is_read() {
    // 9 written in two bytes: 0x89 0x00
    let mut bytes = sample_bytes();
    bytes[36] = 0x89;
    bytes.insert(37, 0x00);
    assert_same(&SecretResponse::decode(&bytes).unwrap(), &sample());
}

#[test]
fn length_prefix_beyond_the_payload_is_truncated_input() {
    let mut bytes = sample_bytes();
    bytes[36] = 0x7f;
    assert_eq!(SecretResponse::decode(&bytes).err(), Some(DecodeError::TruncatedInput));
}

#[test]
fn unfinished_length_prefix_is_truncated_input() {
    let mut bytes = sample_bytes();
    bytes.truncate(36);
    bytes.extend([0x80, 0x80]);
    assert_eq!(SecretResponse::decode(&bytes).err(), Some(DecodeError::TruncatedInput));
}
