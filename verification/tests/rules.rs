use raqbot::event::Event;
use raqbot::plugin_message::{receive_dispatch, write_plugin_message, Channel};
use raqbot::resource_location::{
    resource_location, same_bytes, same_identifier, MINECRAFT_BRAND_CHANNEL, MINECRAFT_NAMESPACE,
    MINECRAFT_REGISTER_CHANNEL,
};
use raqbot::respawn::{respawn_listener, ClientCommand};
use raqbot::secret::{
    SecretRequest, VOICECHAT_NAMESPACE, VOICECHAT_REQUEST_SECRET_CHANNEL, VOICECHAT_SECRET_CHANNEL,
};
use raqbot::shutdown::{Plugin, Step};

#[test]
fn channel_constants_are_namespace_and_path() {
    assert_eq!(resource_location(MINECRAFT_NAMESPACE, "brand"), MINECRAFT_BRAND_CHANNEL);
    assert_eq!(resource_location(MINECRAFT_NAMESPACE, "register"), MINECRAFT_REGISTER_CHANNEL);
    assert_eq!(
        resource_location(VOICECHAT_NAMESPACE, "request_secret"),
        VOICECHAT_REQUEST_SECRET_CHANNEL
    );
    assert_eq!(resource_location(VOICECHAT_NAMESPACE, "secret"), VOICECHAT_SECRET_CHANNEL);
    assert_eq!(resource_location("", ""), ":");
}

#[test]
fn identifiers_compare_byte_for_byte() {
    assert!(same_identifier("voicechat:secret", "voicechat:secret"));
    assert!(!same_identifier("voicechat:secret", "voicechat:Secret"));
    assert!(!same_identifier("voicechat:secret", "voicechat:secre"));
    assert!(same_identifier("", ""));
    assert!(same_bytes(&[1, 2, 3], &[1, 2, 3]));
    assert!(!same_bytes(&[1, 2, 3], &[1, 2, 4]));
    assert!(!same_bytes(&[1, 2, 3], &[1, 2]));
}

#[test]
fn outbound_envelope_carries_the_encoded_request() {
    let message =
        write_plugin_message("voicechat:request_secret", &SecretRequest { compat_version: 15 });
    assert_eq!(message.identifier, "voicechat:request_secret");
    assert_eq!(message.data, vec![0u8, 0, 0, 15]);
}

#[test]
fn inbound_envelopes_are_sorted_by_channel() {
    let data = [1u8, 2, 3];
    assert_eq!(receive_dispatch("minecraft:brand", &data), Some((Channel::Brand, &data[..])));
    assert_eq!(receive_dispatch("minecraft:register", &data), Some((Channel::Register, &data[..])));
    assert_eq!(receive_dispatch("voicechat:secret", &data), Some((Channel::Secret, &data[..])));
    assert_eq!(receive_dispatch("voicechat:request_secret", &data), None);
    assert_eq!(receive_dispatch("minecraft:Brand", &data), None);
    assert_eq!(receive_dispatch("", &data), None);
}

#[test]
fn respawn_when_exactly_one_player_died() {
    assert_eq!(respawn_listener(1), Some(ClientCommand::PerformRespawn));
    assert_eq!(respawn_listener(0), None);
    assert_eq!(respawn_listener(2), None);
}

#[test]
fn shutdown_waits_from_initialize_on() {
    let plugin = Plugin::default();
    assert_eq!(plugin.handle(&Event::Initialize), Step::AwaitInterrupt);
    assert_eq!(plugin.handle(&Event::Other), Step::Nothing);
    assert_eq!(plugin.handle(&Event::Chat("stop".to_string())), Step::Nothing);
    assert_eq!(plugin.interrupted(true), Step::Shutdown);
    assert_eq!(plugin.interrupted(false), Step::Nothing);
}
