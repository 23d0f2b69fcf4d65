use niri::config::sounds::{Sounds, SoundsPart};
use niri::sounds::{play, Cooldowns, Kind, FOCUS_SUPPRESS_WINDOW_NS, SAME_KIND_COOLDOWN_NS};

const MS: u128 = 1_000_000;

fn all_sounds() -> Sounds {
    Sounds {
        on: true,
        window_open: Some(String::from("/s/open.ogg")),
        window_close: Some(String::from("/s/close.ogg")),
        focus_change: Some(String::from("/s/focus.ogg")),
        workspace_switch: Some(String::from("/s/switch.ogg")),
    }
}

#[test]
fn kinds_have_distinct_indices() {
    assert_eq!(Kind::WindowOpen.index(), 0);
    assert_eq!(Kind::WindowClose.index(), 1);
    assert_eq!(Kind::FocusChange.index(), 2);
    assert_eq!(Kind::WorkspaceSwitch.index(), 3);
    assert!(Kind::FocusChange.is_focus_change());
    assert!(!Kind::WindowOpen.is_focus_change());
}

#[test]
fn cooldowns_are_fifty_and_hundred_fifty_ms() {
    assert_eq!(SAME_KIND_COOLDOWN_NS, 50 * MS);
    assert_eq!(FOCUS_SUPPRESS_WINDOW_NS, 150 * MS);
}

#[test]
fn first_sound_plays_its_file() {
    let mut c = Cooldowns::new();
    assert_eq!(
        play(&all_sounds(), Kind::WindowClose, &mut c, 5 * MS),
        Some(String::from("/s/close.ogg"))
    );
}

#[test]
fn nothing_plays_when_off() {
    let mut sounds = all_sounds();
    sounds.on = false;
    let mut c = Cooldowns::new();
    assert_eq!(play(&sounds, Kind::WindowOpen, &mut c, 0), None);
    sounds.on = true;
    assert_eq!(
        play(&sounds, Kind::WindowOpen, &mut c, 0),
        Some(String::from("/s/open.ogg"))
    );
}

#[test]
fn nothing_plays_without_a_file() {
    let mut sounds = all_sounds();
    sounds.workspace_switch = None;
    let mut c = Cooldowns::new();
    assert_eq!(play(&sounds, Kind::WorkspaceSwitch, &mut c, 0), None);
    assert_eq!(
        play(&sounds, Kind::WindowOpen, &mut c, 0),
        Some(String::from("/s/open.ogg"))
    );
}

#[test]
fn same_kind_waits_fifty_ms() {
    let sounds = all_sounds();
    let mut c = Cooldowns::new();
    assert!(play(&sounds, Kind::WorkspaceSwitch, &mut c, 100 * MS).is_some());
    assert!(play(&sounds, Kind::WorkspaceSwitch, &mut c, 149 * MS).is_none());
    assert!(play(&sounds, Kind::WorkspaceSwitch, &mut c, 150 * MS).is_some());
}

#[test]
fn silenced_sound_does_not_restart_the_cooldown() {
    let sounds = all_sounds();
    let mut c = Cooldowns::new();
    assert!(play(&sounds, Kind::WindowOpen, &mut c, 0).is_some());
    assert!(play(&sounds, Kind::WindowOpen, &mut c, 40 * MS).is_none());
    assert!(play(&sounds, Kind::WindowOpen, &mut c, 60 * MS).is_some());
}

#[test]
fn focus_change_yields_to_window_open() {
    let sounds = all_sounds();
    let mut c = Cooldowns::new();
    assert!(play(&sounds, Kind::WindowOpen, &mut c, 1000 * MS).is_some());
    assert!(play(&sounds, Kind::FocusChange, &mut c, 1001 * MS).is_none());
    assert!(play(&sounds, Kind::FocusChange, &mut c, 1149 * MS).is_none());
    assert!(play(&sounds, Kind::FocusChange, &mut c, 1150 * MS).is_some());
}

#[test]
fn focus_change_does_not_silence_other_kinds() {
    let sounds = all_sounds();
    let mut c = Cooldowns::new();
    assert!(play(&sounds, Kind::FocusChange, &mut c, 0).is_some());
    assert!(play(&sounds, Kind::WindowClose, &mut c, MS).is_some());
    assert!(play(&sounds, Kind::WindowOpen, &mut c, 2 * MS).is_some());
    assert!(play(&sounds, Kind::FocusChange, &mut c, 3 * MS).is_none());
}

#[test]
fn earlier_clock_reading_counts_as_no_time_passed() {
    let sounds = all_sounds();
    let mut c = Cooldowns::new();
    assert!(play(&sounds, Kind::WindowOpen, &mut c, 500 * MS).is_some());
    assert!(play(&sounds, Kind::WindowOpen, &mut c, 10 * MS).is_none());
}

#[test]
fn sounds_default_is_on_without_files() {
    let s = Sounds::default();
    assert!(s.on);
    assert_eq!(s.window_open, None);
    assert_eq!(s.window_close, None);
    assert_eq!(s.focus_change, None);
    assert_eq!(s.workspace_switch, None);
}

#[test]
fn sounds_merge_sets_files_and_toggles() {
    let mut s = Sounds::default();
    let part = SoundsPart {
        off: true,
        window_open: Some(String::from("/a.ogg")),
        ..SoundsPart::default()
    };
    s.merge_with(&part);
    assert!(!s.on);
    assert_eq!(s.window_open.as_deref(), Some("/a.ogg"));
    assert_eq!(s.window_close, None);

    let part = SoundsPart {
        on: true,
        focus_change: Some(String::from("/f.ogg")),
        ..SoundsPart::default()
    };
    s.merge_with(&part);
    assert!(s.on);
    assert_eq!(s.window_open.as_deref(), Some("/a.ogg"));
    assert_eq!(s.focus_change.as_deref(), Some("/f.ogg"));
}

#[test]
fn sounds_off_wins_over_on() {
    let mut s = Sounds::default();
    s.merge_with(&SoundsPart {
        on: true,
        off: true,
        ..SoundsPart::default()
    });
    assert!(!s.on);
}

#[test]
fn empty_sounds_part_changes_nothing() {
    let mut s = all_sounds();
    s.merge_with(&SoundsPart::default());
    assert_eq!(s, all_sounds());
}

#[test]
fn sounds_merge_twice_is_merge_once() {
    let part = SoundsPart {
        off: true,
        window_close: Some(String::from("/c.ogg")),
        ..SoundsPart::default()
    };
    let mut once = all_sounds();
    once.merge_with(&part);
    let mut twice = once.clone();
    twice.merge_with(&part);
    assert_eq!(once, twice);
}

#[test]
fn a_run_of_requests_stays_rate_limited() {
    let sounds = all_sounds();
    let mut c = Cooldowns::new();
    let requests = [
        (Kind::WindowOpen, 0),
        (Kind::FocusChange, 10 * MS),
        (Kind::WindowOpen, 30 * MS),
        (Kind::WindowOpen, 55 * MS),
        (Kind::FocusChange, 160 * MS),
        (Kind::FocusChange, 200 * MS),
        (Kind::FocusChange, 215 * MS),
        (Kind::WorkspaceSwitch, 220 * MS),
        (Kind::FocusChange, 300 * MS),
        (Kind::FocusChange, 400 * MS),
    ];
    let played: Vec<(Kind, u128)> = requests
        .iter()
        .filter(|(kind, now)| play(&sounds, *kind, &mut c, *now).is_some())
        .copied()
        .collect();
    assert_eq!(
        played,
        [
            (Kind::WindowOpen, 0),
            (Kind::WindowOpen, 55 * MS),
            (Kind::FocusChange, 215 * MS),
            (Kind::WorkspaceSwitch, 220 * MS),
            (Kind::FocusChange, 400 * MS),
        ]
    );
}
