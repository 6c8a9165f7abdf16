//! End-to-end scenarios through the sound manager.

use soundsense_rs::manager::{SoundManager, SoundMessage, UIMessage};
use soundsense_rs::player::PlaybackAction;
use soundsense_rs::soundpack::{RawChannel, RawEntry, SoundFile};
use soundsense_rs::threshold::Threshold;

fn entry(pattern: &str, priority: Threshold, file: &str, is_loop: bool) -> RawEntry {
    RawEntry {
        pattern: pattern.to_string(),
        priority,
        files: vec![SoundFile { path: file.to_string(), weight: 1 }],
        is_loop,
        concurrent: false,
        halts_others: false,
        delay_ms: None,
    }
}

fn demo_pack() -> Vec<RawChannel> {
    vec![
        RawChannel {
            name: "music".to_string(),
            entries: vec![entry("song of dawn", Threshold::Everything, "dawn.mp3", true)],
        },
        RawChannel {
            name: "combat"
                .to_string(),
            entries: vec![
                entry("has struck", Threshold::Critical, "strike.mp3", false),
                entry("bounces off", Threshold::Fluff, "bounce.mp3", false),
            ],
        },
        RawChannel {
            name: "weather".to_string(),
            entries: vec![entry("rain", Threshold::Everything, "rain.mp3", true)],
        },
    ]
}

fn loaded_manager() -> SoundManager {
    let mut m = SoundManager::new(1);
    let (ui, acts) = m.apply_soundpack(demo_pack());
    assert_eq!(acts.len(), 0);
    assert_eq!(ui.len(), 1);
    m
}

#[test]
fn scenario_a_loading_reports_channels_and_fresh_states() {
    let mut m = SoundManager::new(1);
    let (ui, _) = m.apply_soundpack(demo_pack());
    assert_eq!(
        ui,
        vec![UIMessage::LoadedSoundpack(vec![
            "music".to_string(),
            "combat".to_string(),
            "weather".to_string(),
        ])]
    );
    assert_eq!(m.players.len(), 3);
    for p in &m.players {
        assert_eq!(p.volume, 0);
        assert!(!p.paused);
        assert_eq!(p.threshold.as_level(), Threshold::Everything.as_level());
        assert!(p.active_loop.is_none());
        assert!(p.one_shots.is_empty());
    }
}

#[test]
fn scenario_b_threshold_gates_dispatch() {
    let mut m = loaded_manager();
    let (_, _) = m.handle_message(SoundMessage::ThresholdChange(
        "combat".to_string(),
        Threshold::Critical,
    ));
    // a Fluff-level entry is no longer admitted
    let acts = m.process_line("the arrow bounces off the shield");
    assert_eq!(acts.len(), 0);
    // a Critical-level entry still fires
    let acts = m.process_line("the spear has struck the elephant");
    assert_eq!(acts.len(), 1);
    match &acts[0] {
        PlaybackAction::StartOneShot { channel, file, .. } => {
            assert_eq!(channel, "combat");
            assert_eq!(file, "strike.mp3");
        }
        other => panic!("expected a one-shot start, got {:?}", other),
    }
}

#[test]
fn scenario_c_volume_change_is_clamped() {
    let mut m = loaded_manager();
    let (ui, acts) = m.handle_message(SoundMessage::VolumeChange("music".to_string(), 150));
    assert_eq!(ui.len(), 0);
    assert_eq!(m.players[0].volume, 100);
    assert_eq!(
        acts,
        vec![PlaybackAction::SetVolume { channel: "music".to_string(), volume: 100 }]
    );
    let (_, _) = m.handle_message(SoundMessage::VolumeChange("music".to_string(), -3));
    assert_eq!(m.players[0].volume, 0);
    // the boundary values pass unchanged
    let (_, _) = m.handle_message(SoundMessage::VolumeChange("music".to_string(), 100));
    assert_eq!(m.players[0].volume, 100);
    let (_, _) = m.handle_message(SoundMessage::VolumeChange("music".to_string(), 0));
    assert_eq!(m.players[0].volume, 0);
}

#[test]
fn scenario_d_reconfiguring_discards_the_old_loop() {
    let mut m = loaded_manager();
    let acts = m.process_line("heavy rain falls");
    assert_eq!(acts.len(), 1);
    let handle = match &acts[0] {
        PlaybackAction::StartLoop { channel, handle, .. } => {
            assert_eq!(channel, "weather");
            *handle
        }
        other => panic!("expected a loop start, got {:?}", other),
    };
    assert_eq!(m.players[2].active_loop, Some(handle));
    let (ui, acts) = m.apply_soundpack(demo_pack());
    assert_eq!(ui.len(), 1);
    assert_eq!(acts, vec![PlaybackAction::StopHandle { handle }]);
    assert!(m.players[2].active_loop.is_none());
}

#[test]
fn reconfiguring_keeps_settings_of_surviving_channels() {
    let mut m = loaded_manager();
    let (_, _) = m.handle_message(SoundMessage::VolumeChange("combat".to_string(), 60));
    let (_, _) = m.handle_message(SoundMessage::PlayPause("combat".to_string()));
    let (_, _) = m.apply_soundpack(vec![
        RawChannel { name: "combat".to_string(), entries: vec![] },
        RawChannel { name: "trade".to_string(), entries: vec![] },
    ]);
    assert_eq!(m.players.len(), 2);
    assert_eq!(m.players[0].name, "combat");
    assert_eq!(m.players[0].volume, 60);
    assert!(m.players[0].paused);
    assert_eq!(m.players[1].name, "trade");
    assert_eq!(m.players[1].volume, 0);
    assert!(!m.players[1].paused);
}

#[test]
fn ignore_precedence_suppresses_matching_entries() {
    let mut m = loaded_manager();
    let ui = m.apply_ignore_list(&vec!["rain".to_string()]);
    assert_eq!(ui, vec![UIMessage::LoadedIgnoreList]);
    // the line matches the weather entry, but the ignore list wins
    let acts = m.process_line("heavy rain falls");
    assert_eq!(acts.len(), 0);
    assert!(m.players[2].active_loop.is_none());
    // unrelated lines still dispatch
    let acts = m.process_line("the spear has struck the elephant");
    assert_eq!(acts.len(), 1);
}

#[test]
fn first_match_wins_across_channels() {
    let mut m = SoundManager::new(1);
    let (_, _) = m.apply_soundpack(vec![
        RawChannel {
            name: "music".to_string(),
            entries: vec![entry("dragon", Threshold::Everything, "early.mp3", false)],
        },
        RawChannel {
            name: "combat".to_string(),
            entries: vec![entry("dragon", Threshold::Everything, "late.mp3", false)],
        },
    ]);
    let acts = m.process_line("a dragon arrives");
    assert_eq!(acts.len(), 1);
    match &acts[0] {
        PlaybackAction::StartOneShot { channel, file, .. } => {
            assert_eq!(channel, "music");
            assert_eq!(file, "early.mp3");
        }
        other => panic!("expected a one-shot start, got {:?}", other),
    }
}

#[test]
fn first_match_wins_within_a_channel() {
    let mut m = SoundManager::new(1);
    let (_, _) = m.apply_soundpack(vec![RawChannel {
        name: "combat".to_string(),
        entries: vec![
            entry("dragon", Threshold::Everything, "first.mp3", false),
            entry("dragon arrives", Threshold::Everything, "second.mp3", false),
        ],
    }]);
    let acts = m.process_line("a dragon arrives");
    assert_eq!(acts.len(), 1);
    match &acts[0] {
        PlaybackAction::StartOneShot { file, .. } => assert_eq!(file, "first.mp3"),
        other => panic!("expected a one-shot start, got {:?}", other),
    }
}

#[test]
fn a_new_loop_always_replaces_the_old_one() {
    let mut m = loaded_manager();
    let acts = m.process_line("rain begins");
    let first = match &acts[0] {
        PlaybackAction::StartLoop { handle, .. } => *handle,
        other => panic!("expected a loop start, got {:?}", other),
    };
    let acts = m.process_line("more rain");
    assert_eq!(acts.len(), 2);
    assert_eq!(acts[0], PlaybackAction::StopHandle { handle: first });
    let second = match &acts[1] {
        PlaybackAction::StartLoop { handle, .. } => *handle,
        other => panic!("expected a loop start, got {:?}", other),
    };
    assert_eq!(m.players[2].active_loop, Some(second));
    assert_ne!(first, second);
}

#[test]
fn pause_involution_restores_the_flag() {
    let mut m = loaded_manager();
    assert!(!m.players[0].paused);
    let (ui, _) = m.handle_message(SoundMessage::PlayPause("music".to_string()));
    assert_eq!(
        ui,
        vec![UIMessage::ChannelWasPlayPaused("music".to_string(), true)]
    );
    let (ui, _) = m.handle_message(SoundMessage::PlayPause("music".to_string()));
    assert_eq!(
        ui,
        vec![UIMessage::ChannelWasPlayPaused("music".to_string(), false)]
    );
    assert!(!m.players[0].paused);
}

#[test]
fn paused_channels_reject_new_triggers() {
    let mut m = loaded_manager();
    let (_, _) = m.handle_message(SoundMessage::PlayPause("weather".to_string()));
    let acts = m.process_line("heavy rain falls");
    assert_eq!(acts.len(), 0);
    assert!(m.players[2].active_loop.is_none());
}

#[test]
fn skip_on_an_idle_channel_is_a_quiet_no_op() {
    let mut m = loaded_manager();
    let (ui, acts) = m.handle_message(SoundMessage::SkipCurrentSound("combat".to_string()));
    assert_eq!(
        ui,
        vec![UIMessage::ChannelSoundWasSkipped("combat".to_string())]
    );
    assert_eq!(acts.len(), 0);
}

#[test]
fn skip_stops_everything_on_the_channel() {
    let mut m = loaded_manager();
    let acts = m.process_line("rain begins");
    let handle = match &acts[0] {
        PlaybackAction::StartLoop { handle, .. } => *handle,
        other => panic!("expected a loop start, got {:?}", other),
    };
    let (ui, acts) = m.handle_message(SoundMessage::SkipCurrentSound("weather".to_string()));
    assert_eq!(ui.len(), 1);
    assert_eq!(acts, vec![PlaybackAction::StopHandle { handle }]);
    assert!(m.players[2].active_loop.is_none());
}

#[test]
fn unknown_channel_names_are_no_ops() {
    let mut m = loaded_manager();
    let (ui, acts) = m.handle_message(SoundMessage::VolumeChange("nosuch".to_string(), 50));
    assert_eq!(ui.len(), 0);
    assert_eq!(acts.len(), 0);
    let (ui, acts) = m.handle_message(SoundMessage::SkipCurrentSound("nosuch".to_string()));
    assert_eq!(ui.len(), 0);
    assert_eq!(acts.len(), 0);
}

#[test]
fn loading_a_bad_pack_reports_and_keeps_the_old_one() {
    let mut m = loaded_manager();
    let (ui, acts) = m.apply_soundpack(vec![RawChannel { name: "".to_string(), entries: vec![] }]);
    assert_eq!(acts.len(), 0);
    assert_eq!(ui.len(), 1);
    match &ui[0] {
        UIMessage::SoundThreadPanicked(src, _) => assert_eq!(src, "soundpack"),
        other => panic!("expected an error report, got {:?}", other),
    }
    // the previous configuration still dispatches
    let acts = m.process_line("heavy rain falls");
    assert_eq!(acts.len(), 1);
}

#[test]
fn volume_settings_apply_by_name_with_clamping() {
    let mut m = loaded_manager();
    let ui = m.apply_volume_settings(vec![
        ("music".to_string(), 40u8),
        ("nosuch".to_string(), 10u8),
        ("combat".to_string(), 200u8),
    ]);
    assert_eq!(ui.len(), 1);
    assert_eq!(m.players[0].volume, 40);
    assert_eq!(m.players[1].volume, 100);
    assert_eq!(m.players[2].volume, 0);
    let snapshot = m.volume_snapshot();
    assert_eq!(
        snapshot,
        vec![
            ("music".to_string(), 40u8),
            ("combat".to_string(), 100u8),
            ("weather".to_string(), 0u8),
        ]
    );
}

#[test]
fn concurrent_one_shots_stack_and_exclusive_ones_replace() {
    let mut m = SoundManager::new(1);
    let (_, _) = m.apply_soundpack(vec![RawChannel {
        name: "combat".to_string(),
        entries: vec![
            RawEntry {
                pattern: "clang".to_string(),
                priority: Threshold::Everything,
                files: vec![SoundFile { path: "clang.mp3".to_string(), weight: 1 }],
                is_loop: false,
                concurrent: true,
                halts_others: false,
                delay_ms: None,
            },
            entry("thud", Threshold::Everything, "thud.mp3", false),
        ],
    }]);
    m.process_line("clang");
    m.process_line("clang");
    assert_eq!(m.players[0].one_shots.len(), 2);
    // the exclusive entry stops both before starting
    let acts = m.process_line("thud");
    assert_eq!(acts.len(), 3);
    assert!(matches!(acts[0], PlaybackAction::StopHandle { .. }));
    assert!(matches!(acts[1], PlaybackAction::StopHandle { .. }));
    assert!(matches!(acts[2], PlaybackAction::StartOneShot { .. }));
    assert_eq!(m.players[0].one_shots.len(), 1);
}

#[test]
fn reaping_removes_finished_one_shots_but_never_the_loop() {
    let mut m = loaded_manager();
    m.process_line("the spear has struck the elephant");
    m.process_line("heavy rain falls");
    assert_eq!(m.players[1].one_shots, vec![0]);
    assert_eq!(m.players[2].active_loop, Some(1));
    m.reap_finished(&vec![0, 1]);
    assert!(m.players[1].one_shots.is_empty());
    assert_eq!(m.players[2].active_loop, Some(1));
}
