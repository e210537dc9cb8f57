use goxlr_obs_sync::channels::{Channels, FaderName};
use goxlr_obs_sync::config::{ChannelMap, ChannelMapping};
use goxlr_obs_sync::curve::{to_amplitude, REFERENCE_LEVEL, SILENCE_FLOOR};
use goxlr_obs_sync::detector::{ChangeDetector, ChangeEvent};
use goxlr_obs_sync::engine::SyncEngine;
use goxlr_obs_sync::mirror::StatusMirror;
use goxlr_obs_sync::mute::{MuteFunction, MuteState};
use goxlr_obs_sync::patch::{Field, PatchOp, PatchValue};
use goxlr_obs_sync::pointer::{field_at, split_pointer, unescape_token, OpKind, RawOp};
use goxlr_obs_sync::snapshot::{FaderBinding, ProtocolError, Snapshot};

fn binding(channel: Channels, function: MuteFunction, state: MuteState) -> FaderBinding {
    FaderBinding { channel, function, state }
}

fn snapshot(volumes: [u8; 11], faders: [FaderBinding; 4]) -> Snapshot {
    Snapshot::new(String::from("S1"), volumes.to_vec(), faders.to_vec()).unwrap()
}

fn plain_faders() -> [FaderBinding; 4] {
    [
        binding(Channels::Mic, MuteFunction::All, MuteState::Unmuted),
        binding(Channels::Chat, MuteFunction::All, MuteState::Unmuted),
        binding(Channels::Music, MuteFunction::All, MuteState::MutedToX),
        binding(Channels::System, MuteFunction::All, MuteState::Unmuted),
    ]
}

fn music_map() -> ChannelMap {
    ChannelMap::new(vec![ChannelMapping { source: Channels::Music, sink: String::from("Music") }])
        .unwrap()
}

fn two_channel_map() -> ChannelMap {
    ChannelMap::new(vec![
        ChannelMapping { source: Channels::Music, sink: String::from("Music") },
        ChannelMapping { source: Channels::Game, sink: String::from("Game") },
    ])
    .unwrap()
}

fn path(tokens: &[&str]) -> Vec<String> {
    tokens.iter().map(|t| String::from(*t)).collect()
}

fn raw(kind: OpKind, tokens: &[&str], value: PatchValue) -> RawOp {
    RawOp { kind, path: format!("/{}", tokens.join("/")), value }
}

fn deliver_all(engine: &mut SyncEngine, events: &[ChangeEvent]) {
    for e in events {
        engine.delivered(*e);
    }
}

#[test]
fn end_to_end_music_scenario() {
    let mut engine = SyncEngine::new(music_map());
    let events = engine.on_status(snapshot([0; 11], plain_faders()));
    assert_eq!(
        events,
        vec![
            ChangeEvent::VolumeChanged { channel: Channels::Music, amplitude: SILENCE_FLOOR },
            ChangeEvent::MuteChanged { channel: Channels::Music, muted: true },
        ]
    );
    deliver_all(&mut engine, &events);
    let patch = vec![raw(
        OpKind::Replace,
        &["mixers", "S1", "levels", "volumes", "Music"],
        PatchValue::Number(255),
    )];
    let events = engine.on_patch(patch).unwrap();
    assert_eq!(
        events,
        vec![ChangeEvent::VolumeChanged { channel: Channels::Music, amplitude: REFERENCE_LEVEL }]
    );
}

#[test]
fn repeated_status_is_silent() {
    let mut engine = SyncEngine::new(two_channel_map());
    let first = engine.on_status(snapshot([100; 11], plain_faders()));
    assert_eq!(first.len(), 4);
    deliver_all(&mut engine, &first);
    assert!(engine.on_status(snapshot([100; 11], plain_faders())).is_empty());
}

#[test]
fn empty_patch_is_silent() {
    let mut engine = SyncEngine::new(two_channel_map());
    let first = engine.on_status(snapshot([100; 11], plain_faders()));
    deliver_all(&mut engine, &first);
    assert!(engine.on_patch(Vec::new()).unwrap().is_empty());
}

#[test]
fn undelivered_events_go_out_again() {
    let mut engine = SyncEngine::new(music_map());
    let first = engine.on_status(snapshot([50; 11], plain_faders()));
    assert_eq!(first.len(), 2);
    assert_eq!(engine.on_status(snapshot([50; 11], plain_faders())), first);
}

#[test]
fn first_status_emits_every_channel() {
    let mut engine = SyncEngine::new(two_channel_map());
    let mut volumes = [0u8; 11];
    volumes[Channels::Music.index()] = 255;
    volumes[Channels::Game.index()] = 128;
    let events = engine.on_status(snapshot(volumes, plain_faders()));
    assert_eq!(
        events,
        vec![
            ChangeEvent::VolumeChanged { channel: Channels::Music, amplitude: 0 },
            ChangeEvent::MuteChanged { channel: Channels::Music, muted: true },
            ChangeEvent::VolumeChanged { channel: Channels::Game, amplitude: to_amplitude(128) },
            ChangeEvent::MuteChanged { channel: Channels::Game, muted: false },
        ]
    );
}

#[test]
fn reconnect_emits_everything_again() {
    let mut engine = SyncEngine::new(music_map());
    let first = engine.on_status(snapshot([10; 11], plain_faders()));
    deliver_all(&mut engine, &first);
    engine.reconnect();
    assert_eq!(engine.on_patch(Vec::new()).unwrap_err(), ProtocolError::NoSnapshot);
    assert_eq!(engine.on_status(snapshot([10; 11], plain_faders())), first);
}

#[test]
fn unbound_channel_is_unmuted_and_tracked() {
    let mut engine = SyncEngine::new(two_channel_map());
    let first = engine.on_status(snapshot([20; 11], plain_faders()));
    assert_eq!(first[3], ChangeEvent::MuteChanged { channel: Channels::Game, muted: false });
    deliver_all(&mut engine, &first);
    let events = engine
        .on_patch(vec![raw(
            OpKind::Replace,
            &["mixers", "S1", "levels", "volumes", "Game"],
            PatchValue::Number(200),
        )])
        .unwrap();
    assert_eq!(
        events,
        vec![ChangeEvent::VolumeChanged { channel: Channels::Game, amplitude: to_amplitude(200) }]
    );
}

#[test]
fn last_bound_fader_governs() {
    let faders = [
        binding(Channels::Music, MuteFunction::All, MuteState::MutedToAll),
        binding(Channels::Chat, MuteFunction::All, MuteState::Unmuted),
        binding(Channels::Music, MuteFunction::ToVoiceChat, MuteState::MutedToX),
        binding(Channels::System, MuteFunction::All, MuteState::Unmuted),
    ];
    let s = snapshot([0; 11], faders);
    assert_eq!(s.bound_slot(Channels::Music), Some(2));
    assert!(!s.muted(Channels::Music));
    assert_eq!(s.bound_slot(Channels::Game), None);
    assert!(!s.muted(Channels::Game));
}

#[test]
fn mute_change_through_patch() {
    let mut engine = SyncEngine::new(music_map());
    let first = engine.on_status(snapshot([0; 11], plain_faders()));
    deliver_all(&mut engine, &first);
    let events = engine
        .on_patch(vec![raw(
            OpKind::Replace,
            &["mixers", "S1", "fader_status", "C", "mute_state"],
            PatchValue::Text(String::from("Unmuted")),
        )])
        .unwrap();
    assert_eq!(events, vec![ChangeEvent::MuteChanged { channel: Channels::Music, muted: false }]);
}

#[test]
fn failed_patch_leaves_status_unchanged() {
    let mut engine = SyncEngine::new(music_map());
    let first = engine.on_status(snapshot([0; 11], plain_faders()));
    deliver_all(&mut engine, &first);
    let patch = vec![
        raw(OpKind::Replace, &["mixers", "S1", "levels", "volumes", "Music"], PatchValue::Number(90)),
        raw(OpKind::Replace, &["mixers", "S1", "levels", "volumes", "Game"], PatchValue::Number(300)),
    ];
    assert_eq!(engine.on_patch(patch).unwrap_err(), ProtocolError::TypeMismatch);
    assert!(engine.on_status(snapshot([0; 11], plain_faders())).is_empty());
}

#[test]
fn patch_errors() {
    let mut engine = SyncEngine::new(music_map());
    assert_eq!(engine.on_patch(Vec::new()).unwrap_err(), ProtocolError::NoSnapshot);
    engine.on_status(snapshot([0; 11], plain_faders()));
    let bad_channel =
        vec![raw(OpKind::Replace, &["mixers", "S1", "levels", "volumes", "Nope"], PatchValue::Number(1))];
    assert_eq!(engine.on_patch(bad_channel).unwrap_err(), ProtocolError::MalformedPath);
    let removal = vec![raw(OpKind::Remove, &["mixers", "S1", "fader_status", "A", "channel"], PatchValue::Other)];
    assert_eq!(engine.on_patch(removal).unwrap_err(), ProtocolError::TypeMismatch);
    let moved = vec![raw(OpKind::Move, &["mixers", "S1", "fader_status", "A", "channel"], PatchValue::Other)];
    assert_eq!(engine.on_patch(moved).unwrap_err(), ProtocolError::Unsupported);
    let wrong_text = vec![raw(
        OpKind::Replace,
        &["mixers", "S1", "fader_status", "A", "mute_type"],
        PatchValue::Text(String::from("Loud")),
    )];
    assert_eq!(engine.on_patch(wrong_text).unwrap_err(), ProtocolError::TypeMismatch);
}

#[test]
fn unmirrored_paths_are_ignored() {
    let mut engine = SyncEngine::new(music_map());
    let first = engine.on_status(snapshot([0; 11], plain_faders()));
    deliver_all(&mut engine, &first);
    let patch = vec![
        raw(OpKind::Replace, &["mixers", "S2", "levels", "volumes", "Music"], PatchValue::Number(9)),
        raw(OpKind::Replace, &["config", "daemon_version"], PatchValue::Text(String::from("1.0"))),
        raw(OpKind::Replace, &["mixers", "S1", "fader_status", "B", "scribble"], PatchValue::Other),
        raw(OpKind::Test, &["mixers", "S1", "levels", "volumes", "Music"], PatchValue::Number(0)),
    ];
    assert!(engine.on_patch(patch).unwrap().is_empty());
}

#[test]
fn paths_are_read() {
    let serial = String::from("S1");
    assert_eq!(
        field_at(&path(&["mixers", "S1", "levels", "volumes", "Chat"]), &serial),
        Ok(Some(Field::Volume(Channels::Chat)))
    );
    assert_eq!(
        field_at(&path(&["mixers", "S1", "fader_status", "D", "mute_type"]), &serial),
        Ok(Some(Field::FaderFunction(FaderName::D)))
    );
    assert_eq!(field_at(&path(&["mixers", "S1"]), &serial), Err(ProtocolError::MalformedPath));
    assert_eq!(
        field_at(&path(&["mixers", "S1", "fader_status", "Q", "channel"]), &serial),
        Err(ProtocolError::MalformedPath)
    );
    assert_eq!(
        field_at(&path(&["mixers", "S1", "levels", "volumes", "Music", "x"]), &serial),
        Err(ProtocolError::MalformedPath)
    );
    assert_eq!(field_at(&path(&["mixers", "S1", "hardware"]), &serial), Ok(None));
    assert_eq!(field_at(&path(&[]), &serial), Ok(None));
}

#[test]
fn mirror_applies_patch_twice_like_once() {
    let mut once = StatusMirror::new();
    once.apply_full(snapshot([0; 11], plain_faders()));
    let patch = vec![
        PatchOp::Assign(Field::Volume(Channels::Mic), PatchValue::Number(10)),
        PatchOp::Assign(Field::Volume(Channels::Mic), PatchValue::Number(20)),
        PatchOp::Assign(Field::FaderChannel(FaderName::B), PatchValue::Text(String::from("Game"))),
    ];
    once.apply_patch(&patch).unwrap();
    let s = once.current().unwrap();
    assert_eq!(s.volume(Channels::Mic), 20);
    assert_eq!(s.fader(FaderName::B).channel, Channels::Game);
    let before = format!("{:?}", s);
    once.apply_patch(&patch).unwrap();
    assert_eq!(format!("{:?}", once.current().unwrap()), before);
}

#[test]
fn mirror_without_snapshot() {
    let mut m = StatusMirror::new();
    assert!(m.current().is_none());
    assert_eq!(m.apply_patch(&Vec::new()), Err(ProtocolError::NoSnapshot));
    assert!(m.current().is_none());
}

#[test]
fn snapshot_shape_is_checked() {
    assert_eq!(
        Snapshot::new(String::from("S1"), vec![0; 10], plain_faders().to_vec()).unwrap_err(),
        ProtocolError::TypeMismatch
    );
    assert!(Snapshot::new(String::from("S1"), vec![0; 11], vec![]).is_err());
}

#[test]
fn detector_record_and_reset() {
    let mut d = ChangeDetector::new(music_map());
    let s = snapshot([0; 11], plain_faders());
    let events = d.detect(&s);
    assert_eq!(events.len(), 2);
    d.record(events[0]);
    assert_eq!(d.detect(&s), vec![events[1]]);
    d.record(events[1]);
    assert!(d.detect(&s).is_empty());
    d.record(ChangeEvent::VolumeChanged { channel: Channels::Mic, amplitude: 5 });
    assert!(d.detect(&s).is_empty());
    d.reset();
    assert_eq!(d.detect(&s), events);
}

#[test]
fn pointers_are_split() {
    assert_eq!(split_pointer(""), Some(vec![]));
    assert_eq!(split_pointer("/"), Some(path(&[""])));
    assert_eq!(
        split_pointer("/mixers/S1/levels/volumes/Music"),
        Some(path(&["mixers", "S1", "levels", "volumes", "Music"]))
    );
    assert_eq!(split_pointer("/a~1b/c~0d//"), Some(path(&["a/b", "c~d", "", ""])));
    assert_eq!(split_pointer("mixers/S1"), None);
}

#[test]
fn escapes_are_read() {
    assert_eq!(unescape_token("plain"), "plain");
    assert_eq!(unescape_token("~01"), "~1");
    assert_eq!(unescape_token("~1~0"), "/~");
    assert_eq!(unescape_token("~"), "~");
    assert_eq!(unescape_token("a~2"), "a~2");
}

#[test]
fn pointer_without_leading_slash_is_malformed() {
    let mut engine = SyncEngine::new(music_map());
    engine.on_status(snapshot([0; 11], plain_faders()));
    let patch = vec![RawOp {
        kind: OpKind::Replace,
        path: String::from("mixers/S1/levels/volumes/Music"),
        value: PatchValue::Number(3),
    }];
    assert_eq!(engine.on_patch(patch).unwrap_err(), ProtocolError::MalformedPath);
}
