use raqbot::event::Event;
use raqbot::handshake::{
    handle, handle_packet, Action, Phase, State, VoiceSettings, VOICECHAT_COMPAT_VERSION,
};
use raqbot::secret::SecretResponse;
use raqbot::wire::DecodeError;

fn answer() -> SecretResponse {
    SecretResponse {
        secret: [7u8; 16],
        player: [9u8; 16],
        port: 24454,
        voice_host: "voice.example".to_string(),
        codec: 0,
        mtu_size: 1024,
        voice_chat_distance_bits: 48.0f64.to_bits(),
        keep_alive: 1000,
        groups_enabled: true,
        allow_recording: true,
    }
}

fn assert_installed(state: &State, resp: &SecretResponse) {
    let settings = state.voice_settings().expect("settings are installed");
    assert_eq!(settings.secret, resp.secret);
    assert_eq!(settings.player, resp.player);
    assert_eq!(settings.host, resp.voice_host);
    assert_eq!(settings.port, resp.port);
    assert_eq!(settings.groups_enabled, resp.groups_enabled);
}

#[test]
fn compat_version_is_fixed() {
    assert_eq!(VOICECHAT_COMPAT_VERSION, 15);
}

#[test]
fn brand_asks_for_one_request() {
    let mut state = State::new();
    assert_eq!(state.phase(), Phase::Idle);
    match handle_packet(&mut state, "minecraft:brand", b"\x07vanilla") {
        Action::SendRequest(message) => {
            assert_eq!(message.identifier, "voicechat:request_secret");
            assert_eq!(message.data, vec![0u8, 0, 0, 15]);
        }
        other => panic!("expected a request, got {:?}", other),
    }
    assert_eq!(state.phase(), Phase::Idle);
    state.request_sent(true);
    assert_eq!(state.phase(), Phase::RequestSent);
    assert!(state.voice_settings().is_none());
}

#[test]
fn failed_send_stays_idle() {
    let mut state = State::new();
    assert!(matches!(handle_packet(&mut state, "minecraft:brand", b""), Action::SendRequest(_)));
    state.request_sent(false);
    assert_eq!(state.phase(), Phase::Idle);
    assert!(matches!(handle_packet(&mut state, "minecraft:brand", b""), Action::SendRequest(_)));
    state.request_sent(true);
    assert_eq!(state.phase(), Phase::RequestSent);
}

#[test]
fn valid_answer_establishes() {
    let mut state = State::new();
    handle_packet(&mut state, "minecraft:brand", b"");
    state.request_sent(true);
    let resp = answer();
    let action = handle_packet(&mut state, "voicechat:secret", &resp.encode().unwrap());
    assert!(matches!(action, Action::SettingsInstalled));
    assert_eq!(state.phase(), Phase::Established);
    assert_installed(&state, &resp);
}

#[test]
fn invalid_answer_changes_nothing() {
    let mut state = State::new();
    handle_packet(&mut state, "minecraft:brand", b"");
    state.request_sent(true);
    let bytes = answer().encode().unwrap();
    match handle_packet(&mut state, "voicechat:secret", &bytes[..40]) {
        Action::ReportDecodeError(e) => assert_eq!(e, DecodeError::TruncatedInput),
        other => panic!("expected an error, got {:?}", other),
    }
    assert_eq!(state.phase(), Phase::RequestSent);
    assert!(state.voice_settings().is_none());

    let mut bad = bytes.clone();
    bad[37] = 0xff;
    match handle_packet(&mut state, "voicechat:secret", &bad) {
        Action::ReportDecodeError(e) => assert_eq!(e, DecodeError::InvalidUtf8),
        other => panic!("expected an error, got {:?}", other),
    }
    assert_eq!(state.phase(), Phase::RequestSent);
    assert!(state.voice_settings().is_none());
}

#[test]
fn later_answer_replaces_the_settings() {
    let mut state = State::new();
    let first = answer();
    handle_packet(&mut state, "voicechat:secret", &first.encode().unwrap());
    assert_eq!(state.phase(), Phase::Established);
    assert_installed(&state, &first);

    let mut second = answer();
    second.secret = [1u8; 16];
    second.voice_host = "other.example".to_string();
    second.port = 1;
    second.groups_enabled = false;
    handle_packet(&mut state, "voicechat:secret", &second.encode().unwrap());
    assert_eq!(state.phase(), Phase::Established);
    assert_installed(&state, &second);

    // a broken answer after that leaves the second one installed
    let action = handle_packet(&mut state, "voicechat:secret", &[1, 2, 3]);
    assert!(matches!(action, Action::ReportDecodeError(DecodeError::TruncatedInput)));
    assert_eq!(state.phase(), Phase::Established);
    assert_installed(&state, &second);
}

#[test]
fn brand_after_establishing_keeps_the_settings() {
    let mut state = State::new();
    let resp = answer();
    handle_packet(&mut state, "voicechat:secret", &resp.encode().unwrap());
    assert!(matches!(handle_packet(&mut state, "minecraft:brand", b""), Action::SendRequest(_)));
    state.request_sent(true);
    assert_eq!(state.phase(), Phase::Established);
    assert_installed(&state, &resp);
}

#[test]
fn other_channels_and_events_are_ignored() {
    let mut state = State::new();
    let bytes = answer().encode().unwrap();
    assert!(matches!(handle_packet(&mut state, "voicechat:request_secret", &bytes), Action::Ignore));
    assert!(matches!(handle_packet(&mut state, "minecraft:register", &bytes), Action::Ignore));
    assert!(matches!(handle_packet(&mut state, "Voicechat:secret", &bytes), Action::Ignore));
    assert!(matches!(handle(&mut state, &Event::Initialize), Action::Ignore));
    assert!(matches!(handle(&mut state, &Event::Chat("hello".to_string())), Action::Ignore));
    assert!(matches!(handle(&mut state, &Event::Other), Action::Ignore));
    assert_eq!(state.phase(), Phase::Idle);
    assert!(state.voice_settings().is_none());
}

#[test]
fn events_drive_the_handshake() {
    let mut state = State::new();
    let brand = Event::CustomPayload { identifier: "minecraft:brand".to_string(), data: vec![] };
    assert!(matches!(handle(&mut state, &brand), Action::SendRequest(_)));
    state.request_sent(true);
    let resp = answer();
    let secret = Event::CustomPayload {
        identifier: "voicechat:secret".to_string(),
        data: resp.encode().unwrap(),
    };
    assert!(matches!(handle(&mut state, &secret), Action::SettingsInstalled));
    assert_eq!(state.phase(), Phase::Established);
    assert_installed(&state, &resp);
}

#[test]
fn settings_keep_five_fields() {
    let resp = answer();
    let settings = VoiceSettings::from(resp.clone());
    assert_eq!(settings.secret, resp.secret);
    assert_eq!(settings.player, resp.player);
    assert_eq!(settings.host, "voice.example");
    assert_eq!(settings.port, 24454);
    assert!(settings.groups_enabled);
}
