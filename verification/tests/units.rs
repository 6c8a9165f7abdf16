//! Unit tests for the engine's leaf components.

use soundsense_rs::ignore::IgnoreList;
use soundsense_rs::select::{pick_weighted, total_weight_of, SoundRng};
use soundsense_rs::settings::{format_volume_settings, parse_volume_settings};
use soundsense_rs::soundpack::{LoadError, RawChannel, RawEntry, SoundFile, SoundpackDefinition};
use soundsense_rs::tailer::GamelogCursor;
use soundsense_rs::threshold::Threshold;

#[test]
fn threshold_cycle_wraps_from_everything_to_nothing() {
    assert!(matches!(
        Threshold::next_threshold(Threshold::Everything),
        Threshold::Nothing
    ));
}

#[test]
fn threshold_cycle_of_five_returns_to_start() {
    let starts = [
        Threshold::Nothing,
        Threshold::Critical,
        Threshold::Important,
        Threshold::Fluff,
        Threshold::Everything,
    ];
    for start in starts {
        let mut t = start;
        for _ in 0..5 {
            t = Threshold::next_threshold(t);
        }
        assert_eq!(t.as_level(), start.as_level());
    }
}

#[test]
fn threshold_admission_is_bounded_by_level() {
    assert!(!Threshold::Nothing.admits(Threshold::Nothing));
    assert!(!Threshold::Nothing.admits(Threshold::Critical));
    assert!(Threshold::Everything.admits(Threshold::Everything));
    assert!(Threshold::Everything.admits(Threshold::Critical));
    assert!(Threshold::Critical.admits(Threshold::Critical));
    assert!(!Threshold::Critical.admits(Threshold::Fluff));
}

#[test]
fn ignore_list_matches_case_insensitively() {
    let lines = vec!["he.lo".to_string()];
    let list = IgnoreList::load(&lines);
    assert_eq!(list.len(), 1);
    assert!(list.is_ignored("well HeXlO there"));
    assert!(list.is_ignored("hexlo"));
    assert!(!list.is_ignored("helo"));
}

#[test]
fn ignore_list_skips_invalid_patterns() {
    let lines = vec!["foo(".to_string(), "bar".to_string()];
    let list = IgnoreList::load(&lines);
    assert_eq!(list.len(), 1);
    assert!(list.is_ignored("BAR"));
    assert!(!list.is_ignored("foo("));
}

#[test]
fn weighted_pick_follows_cumulative_brackets() {
    let files = vec![
        SoundFile { path: "a.mp3".to_string(), weight: 0 },
        SoundFile { path: "b.mp3".to_string(), weight: 2 },
        SoundFile { path: "c.mp3".to_string(), weight: 3 },
    ];
    assert_eq!(total_weight_of(&files), 5);
    assert_eq!(pick_weighted(&files, 0), 1);
    assert_eq!(pick_weighted(&files, 1), 1);
    assert_eq!(pick_weighted(&files, 2), 2);
    assert_eq!(pick_weighted(&files, 4), 2);
    // the zero-weight file is never selected
    for draw in 0..5 {
        assert_ne!(pick_weighted(&files, draw), 0);
    }
}

#[test]
fn rng_is_deterministic_from_its_seed() {
    let mut a = SoundRng::new(7);
    let mut b = SoundRng::new(7);
    for _ in 0..10 {
        assert_eq!(a.next(), b.next());
    }
    let mut c = SoundRng::new(8);
    let mut d = SoundRng::new(7);
    assert_ne!(c.next(), d.next());
}

#[test]
fn soundpack_load_skips_malformed_entries_and_keeps_order() {
    let raw = vec![RawChannel {
        name: "music".to_string(),
        entries: vec![
            RawEntry {
                pattern: "broken(".to_string(),
                priority: Threshold::Everything,
                files: vec![SoundFile { path: "x.mp3".to_string(), weight: 1 }],
                is_loop: false,
                concurrent: false,
                halts_others: false,
                delay_ms: None,
            },
            RawEntry {
                pattern: "song".to_string(),
                priority: Threshold::Everything,
                files: vec![],
                is_loop: false,
                concurrent: false,
                halts_others: false,
                delay_ms: None,
            },
            RawEntry {
                pattern: "song".to_string(),
                priority: Threshold::Everything,
                files: vec![SoundFile { path: "y.mp3".to_string(), weight: 0 }],
                is_loop: false,
                concurrent: false,
                halts_others: false,
                delay_ms: None,
            },
            RawEntry {
                pattern: "song".to_string(),
                priority: Threshold::Everything,
                files: vec![SoundFile { path: "z.mp3".to_string(), weight: 1 }],
                is_loop: true,
                concurrent: false,
                halts_others: false,
                delay_ms: Some(250),
            },
        ],
    }];
    let pack = SoundpackDefinition::load(raw).unwrap();
    assert_eq!(pack.channels.len(), 1);
    assert_eq!(pack.channels[0].name, "music");
    assert_eq!(pack.channels[0].entries.len(), 1);
    assert_eq!(pack.channels[0].entries[0].files[0].path, "z.mp3");
    assert!(pack.channels[0].entries[0].is_loop);
}

#[test]
fn soundpack_with_no_usable_channel_is_a_load_error() {
    let raw = vec![RawChannel { name: "".to_string(), entries: vec![] }];
    match SoundpackDefinition::load(raw) {
        Err(err) => assert_eq!(err, LoadError::NoValidChannels),
        Ok(_) => panic!("expected a load error"),
    }
}

#[test]
fn soundpack_duplicate_channel_names_keep_the_first() {
    let raw = vec![
        RawChannel { name: "music".to_string(), entries: vec![] },
        RawChannel { name: "music".to_string(), entries: vec![] },
        RawChannel { name: "combat".to_string(), entries: vec![] },
    ];
    let pack = SoundpackDefinition::load(raw).unwrap();
    let names = pack.channel_names();
    assert_eq!(names, vec!["music".to_string(), "combat".to_string()]);
}

#[test]
fn cursor_splits_complete_lines_and_carries_the_rest() {
    let mut cursor = GamelogCursor::new(0);
    let lines = cursor.feed("first line\nsecond ", 18);
    assert_eq!(lines, vec!["first line".to_string()]);
    assert_eq!(cursor.offset, 18);
    let lines = cursor.feed("half\nthird\n", 11);
    assert_eq!(
        lines,
        vec!["second half".to_string(), "third".to_string()]
    );
    assert_eq!(cursor.offset, 29);
    assert_eq!(cursor.pending, "");
}

#[test]
fn cursor_resets_when_the_file_shrinks() {
    let mut cursor = GamelogCursor::new(0);
    cursor.feed("partial", 7);
    assert!(!cursor.observe_size(7));
    assert_eq!(cursor.offset, 7);
    assert!(cursor.observe_size(3));
    assert_eq!(cursor.offset, 0);
    assert_eq!(cursor.pending, "");
}

#[test]
fn settings_text_round_trips_through_the_parser() {
    let pairs = vec![
        ("music".to_string(), 40u8),
        ("combat".to_string(), 100u8),
        ("weather".to_string(), 0u8),
    ];
    let text = format_volume_settings(&pairs);
    assert_eq!(text, "music=40\ncombat=100\nweather=0\n");
    let parsed = parse_volume_settings(&text);
    assert_eq!(parsed, pairs);
}

#[test]
fn settings_parser_clamps_and_skips_junk() {
    let parsed = parse_volume_settings("music=150\n\n=5\nnovalue\ncombat=abc\nweather=7");
    assert_eq!(
        parsed,
        vec![("music".to_string(), 100u8), ("weather".to_string(), 7u8)]
    );
}
