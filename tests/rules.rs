use goxlr_obs_sync::channels::{text_eq, Channels, FaderName};
use goxlr_obs_sync::config::{ChannelMap, ChannelMapping, ConfigError};
use goxlr_obs_sync::curve::{to_amplitude, AUDIBLE_FLOOR, REFERENCE_LEVEL, SILENCE_FLOOR};
use goxlr_obs_sync::discovery::{decimal_string, websocket_address};
use goxlr_obs_sync::mute::{resolve_muted, MuteFunction, MuteState};

#[test]
fn curve_endpoints() {
    assert_eq!(to_amplitude(0), SILENCE_FLOOR);
    assert_eq!(to_amplitude(255), REFERENCE_LEVEL);
    assert_eq!(to_amplitude(1), AUDIBLE_FLOOR + 23);
    assert_eq!(to_amplitude(128), -2989);
}

#[test]
fn curve_never_decreases() {
    let mut last = to_amplitude(0);
    for raw in 1..=255u8 {
        let a = to_amplitude(raw);
        assert!(last <= a);
        last = a;
    }
    assert!(to_amplitude(0) < to_amplitude(1));
}

#[test]
fn mute_truth_table() {
    assert!(resolve_muted(MuteFunction::ToStream, MuteState::MutedToX));
    assert!(resolve_muted(MuteFunction::All, MuteState::MutedToX));
    assert!(resolve_muted(MuteFunction::ToStream, MuteState::MutedToAll));
    assert!(!resolve_muted(MuteFunction::ToVoiceChat, MuteState::MutedToX));
    assert!(!resolve_muted(MuteFunction::ToPhones, MuteState::MutedToX));
    assert!(resolve_muted(MuteFunction::ToLineOut, MuteState::MutedToAll));
    for f in [
        MuteFunction::All,
        MuteFunction::ToStream,
        MuteFunction::ToVoiceChat,
        MuteFunction::ToPhones,
        MuteFunction::ToLineOut,
    ] {
        assert!(!resolve_muted(f, MuteState::Unmuted));
    }
}

#[test]
fn names_are_read() {
    assert_eq!(Channels::from_name("Music"), Some(Channels::Music));
    assert_eq!(Channels::from_name("LineOut"), Some(Channels::LineOut));
    assert_eq!(Channels::from_name("music"), None);
    assert_eq!(FaderName::from_name("C"), Some(FaderName::C));
    assert_eq!(FaderName::from_name("E"), None);
    assert_eq!(MuteFunction::from_name("ToStream"), Some(MuteFunction::ToStream));
    assert_eq!(MuteState::from_name("MutedToAll"), Some(MuteState::MutedToAll));
    assert_eq!(MuteState::from_name(""), None);
    assert!(text_eq("abc", "abc"));
    assert!(!text_eq("abc", "abd"));
    assert!(!text_eq("ab", "abc"));
}

#[test]
fn channel_indices_follow_device_order() {
    assert_eq!(Channels::Mic.index(), 0);
    assert_eq!(Channels::Music.index(), 7);
    assert_eq!(Channels::LineOut.index(), 10);
    assert_eq!(FaderName::D.index(), 3);
}

#[test]
fn duplicate_mapping_is_rejected() {
    let r = ChannelMap::new(vec![
        ChannelMapping { source: Channels::Music, sink: String::from("Music") },
        ChannelMapping { source: Channels::Music, sink: String::from("Other") },
    ]);
    assert_eq!(r.unwrap_err(), ConfigError::DuplicateChannel);
}

#[test]
fn mapping_lookup() {
    let map = ChannelMap::new(vec![
        ChannelMapping { source: Channels::Music, sink: String::from("Music") },
        ChannelMapping { source: Channels::System, sink: String::from("Desktop") },
    ])
    .unwrap();
    assert_eq!(map.len(), 2);
    assert_eq!(map.source(1), Channels::System);
    assert_eq!(map.sink_for(Channels::System).map(|s| s.as_str()), Some("Desktop"));
    assert_eq!(map.sink_for(Channels::Game), None);
}

#[test]
fn websocket_address_local_bind() {
    assert_eq!(
        websocket_address(true, "0.0.0.0", 14564).unwrap(),
        "ws://localhost:14564/api/websocket"
    );
    assert_eq!(
        websocket_address(true, "localhost", 80).unwrap(),
        "ws://localhost:80/api/websocket"
    );
}

#[test]
fn websocket_address_other_bind() {
    assert_eq!(
        websocket_address(true, "192.168.1.20", 14564).unwrap(),
        "ws://192.168.1.20:14564/api/websocket"
    );
}

#[test]
fn websocket_disabled() {
    assert_eq!(websocket_address(false, "0.0.0.0", 14564).unwrap_err(), ConfigError::WebsocketDisabled);
}

#[test]
fn decimal_digits() {
    assert_eq!(decimal_string(0), "0");
    assert_eq!(decimal_string(7), "7");
    assert_eq!(decimal_string(10), "10");
    assert_eq!(decimal_string(65535), "65535");
}
