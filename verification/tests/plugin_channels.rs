use raqbot::event::Event;
use raqbot::plugin_channels::{parse_advertisement, Plugin, Verdict};
use std::collections::HashSet;

fn set(items: &[&str]) -> HashSet<String> {
    items.iter().map(|s| s.to_string()).collect()
}

fn missing(verdict: Verdict) -> Vec<String> {
    match verdict {
        Verdict::MissingRequiredChannels(m) => m,
        other => panic!("expected missing channels, got {:?}", other),
    }
}

#[test]
fn advertisement_drops_empty_tokens() {
    let channels = parse_advertisement(&[0x61, 0x00, 0x00, 0x62, 0x00]);
    assert_eq!(channels, vec!["a".to_string(), "b".to_string()]);
    let as_set: HashSet<String> = channels.into_iter().collect();
    assert_eq!(as_set, set(&["a", "b"]));
}

#[test]
fn advertisement_edge_cases() {
    assert!(parse_advertisement(&[]).is_empty());
    assert!(parse_advertisement(&[0, 0, 0]).is_empty());
    assert_eq!(parse_advertisement(b"x:y"), vec!["x:y".to_string()]);
    assert_eq!(parse_advertisement(b"\0x:y"), vec!["x:y".to_string()]);
    assert_eq!(
        parse_advertisement(b"x:y\0x:z\0x:y"),
        vec!["x:y".to_string(), "x:z".to_string(), "x:y".to_string()]
    );
}

#[test]
fn advertisement_drops_tokens_that_are_not_utf8() {
    assert_eq!(parse_advertisement(b"a\0\xff\xfe\0b"), vec!["a".to_string(), "b".to_string()]);
}

#[test]
fn missing_channel_is_fatal() {
    let mut plugin = Plugin::require_plugins(vec!["x:y", "x:z"]);
    let verdict = plugin.handle_custom_payload_packet("minecraft:register", b"x:y");
    assert_eq!(missing(verdict), vec!["x:z".to_string()]);
}

#[test]
fn extra_channels_pass() {
    let mut plugin = Plugin::require_plugins(vec!["x:y", "x:z"]);
    let verdict = plugin.handle_custom_payload_packet("minecraft:register", b"x:y\0x:z\0x:extra");
    assert!(matches!(verdict, Verdict::Passed));
}

#[test]
fn identifiers_are_case_sensitive() {
    let mut plugin = Plugin::require_plugins(vec!["x:y"]);
    let verdict = plugin.handle_custom_payload_packet("minecraft:register", b"X:Y\0x:yy\0x:");
    assert_eq!(missing(verdict), vec!["x:y".to_string()]);
}

#[test]
fn only_the_first_advertisement_is_judged() {
    let mut plugin = Plugin::require_plugins(vec!["x:y"]);
    let first = plugin.handle_custom_payload_packet("minecraft:register", b"x:y");
    assert!(matches!(first, Verdict::Passed));
    let second = plugin.handle_custom_payload_packet("minecraft:register", b"other");
    assert!(matches!(second, Verdict::Ignored));

    let mut plugin = Plugin::require_plugins(vec!["x:y"]);
    let first = plugin.handle_custom_payload_packet("minecraft:register", b"");
    assert_eq!(missing(first), vec!["x:y".to_string()]);
    let second = plugin.handle_custom_payload_packet("minecraft:register", b"x:y");
    assert!(matches!(second, Verdict::Ignored));
}

#[test]
fn other_channels_are_ignored_and_do_not_use_up_the_check() {
    let mut plugin = Plugin::require_plugins(vec!["x:y"]);
    let verdict = plugin.handle_custom_payload_packet("minecraft:brand", b"x:y");
    assert!(matches!(verdict, Verdict::Ignored));
    let verdict = plugin.handle_custom_payload_packet("minecraft:register", b"nothing");
    assert_eq!(missing(verdict), vec!["x:y".to_string()]);
}

#[test]
fn events_other_than_plugin_messages_are_ignored() {
    let mut plugin = Plugin::require_plugins(vec!["x:y"]);
    assert!(matches!(plugin.handle(&Event::Initialize), Verdict::Ignored));
    assert!(matches!(plugin.handle(&Event::Chat("x:y".to_string())), Verdict::Ignored));
    assert!(matches!(plugin.handle(&Event::Other), Verdict::Ignored));
    let event = Event::CustomPayload {
        identifier: "minecraft:register".to_string(),
        data: b"a\0b".to_vec(),
    };
    assert_eq!(missing(plugin.handle(&event)), vec!["x:y".to_string()]);
}

#[test]
fn required_channels_are_kept_once() {
    let plugin = Plugin::require_plugins(vec!["x:y", "x:z", "x:y", "x:y"]);
    assert_eq!(plugin.required_plugins(), &vec!["x:y", "x:z"]);
    let mut plugin = plugin;
    let verdict = plugin.handle_custom_payload_packet("minecraft:register", b"");
    assert_eq!(missing(verdict), vec!["x:y".to_string(), "x:z".to_string()]);
}

#[test]
fn nothing_required_always_passes() {
    let mut plugin = Plugin::default();
    assert!(plugin.required_plugins().is_empty());
    let verdict = plugin.handle_custom_payload_packet("minecraft:register", b"");
    assert!(matches!(verdict, Verdict::Passed));
}

#[test]
fn missing_from_keeps_the_order_of_the_requirements() {
    let plugin = Plugin::require_plugins(vec!["c", "a", "b"]);
    let offered = vec!["a".to_string()];
    assert_eq!(plugin.missing_from(&offered), vec!["c".to_string(), "b".to_string()]);
}

#[test]
fn clone_keeps_requirements_and_progress() {
    let mut plugin = Plugin::require_plugins(vec!["x:y", "x:z"]);
    let fresh = plugin.clone();
    assert_eq!(fresh.required_plugins(), plugin.required_plugins());
    plugin.handle_custom_payload_packet("minecraft:register", b"x:y\0x:z");
    let mut used = plugin.clone();
    assert!(matches!(
        used.handle_custom_payload_packet("minecraft:register", b""),
        Verdict::Ignored
    ));
    let mut fresh = fresh;
    assert_eq!(
        missing(fresh.handle_custom_payload_packet("minecraft:register", b"x:z")),
        vec!["x:y".to_string()]
    );
}
