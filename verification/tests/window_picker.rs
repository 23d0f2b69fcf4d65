use std::collections::{HashMap, HashSet};

use niri::ui::window_picker::{
    letter_from_keysym, make_labels, WindowInfo, WindowPickerKeyResult, WindowPickerSession,
    WindowPickerUi, MAX_WINDOWS,
};
use xkeysym::Keysym;

fn window(id: u64, focus_timestamp: Option<u128>) -> WindowInfo {
    WindowInfo {
        id,
        width: 800,
        height: 600,
        focus_timestamp,
    }
}

fn open_ui(windows: &[WindowInfo]) -> WindowPickerUi {
    let session = WindowPickerSession::collect(&windows.to_vec(), 1_000).unwrap();
    let mut ui = WindowPickerUi::new();
    ui.open(session);
    ui
}

fn ids(ui: &WindowPickerUi) -> Vec<u64> {
    let session = ui.session().unwrap();
    (0..session.len()).map(|i| session.id(i)).collect()
}

fn labels(ui: &WindowPickerUi) -> Vec<String> {
    let session = ui.session().unwrap();
    (0..session.len()).map(|i| session.label(i).to_string()).collect()
}

fn letter_key(c: char) -> u32 {
    Keysym::a.raw() + (c as u32 - 'A' as u32)
}

#[test]
fn label_scheme_switches_to_uniform_pairs() {
    assert_eq!(make_labels(3), ["A", "B", "C"]);
    let labels = make_labels(28);
    assert_eq!(labels[0], "AA");
    assert_eq!(labels[25], "AZ");
    assert_eq!(labels[26], "BA");
    assert_eq!(labels[27], "BB");
}

#[test]
fn labels_for_no_window_are_empty() {
    assert!(make_labels(0).is_empty());
}

#[test]
fn twenty_six_windows_use_single_letters() {
    let labels = make_labels(26);
    assert_eq!(labels.len(), 26);
    assert_eq!(labels[0], "A");
    assert_eq!(labels[25], "Z");
}

#[test]
fn labels_stop_at_max_windows() {
    let labels = make_labels(1000);
    assert_eq!(labels.len(), MAX_WINDOWS);
    assert_eq!(labels[MAX_WINDOWS - 1], "ZZ");
    let distinct: HashSet<&String> = labels.iter().collect();
    assert_eq!(distinct.len(), MAX_WINDOWS);
    assert!(labels.iter().all(|l| l.len() == 2));
}

#[test]
fn letters_come_from_letter_keys_in_either_case() {
    assert_eq!(letter_from_keysym(Keysym::a.raw()), Some('A'));
    assert_eq!(letter_from_keysym(Keysym::z.raw()), Some('Z'));
    assert_eq!(letter_from_keysym(Keysym::A.raw()), Some('A'));
    assert_eq!(letter_from_keysym(Keysym::Z.raw()), Some('Z'));
    assert_eq!(letter_from_keysym(Keysym::m.raw()), Some('M'));
    assert_eq!(letter_from_keysym(Keysym::Escape.raw()), None);
    assert_eq!(letter_from_keysym(Keysym::_1.raw()), None);
    assert_eq!(letter_from_keysym(Keysym::bracketleft.raw()), None);
}

#[test]
fn collect_orders_by_recent_focus() {
    let ui = open_ui(&[
        window(1, Some(10)),
        window(2, None),
        window(3, Some(30)),
        window(4, Some(20)),
    ]);
    assert_eq!(ids(&ui), [3, 4, 1, 2]);
    assert_eq!(labels(&ui), ["A", "B", "C", "D"]);
    let session = ui.session().unwrap();
    assert_eq!(session.prefix(), None);
    assert_eq!(session.opened_at(), 1_000);
}

#[test]
fn collect_keeps_listing_order_for_equal_focus() {
    let ui = open_ui(&[
        window(5, Some(7)),
        window(6, None),
        window(7, Some(7)),
        window(8, None),
    ]);
    assert_eq!(ids(&ui), [5, 7, 6, 8]);
}

#[test]
fn collect_skips_hidden_and_repeated_windows() {
    let mut hidden = window(2, Some(99));
    hidden.width = 0;
    let mut flat = window(3, Some(98));
    flat.height = 0;
    let ui = open_ui(&[
        window(1, Some(1)),
        hidden,
        flat,
        window(1, Some(50)),
        window(4, Some(2)),
    ]);
    assert_eq!(ids(&ui), [4, 1]);
}

#[test]
fn collect_without_visible_windows_is_none() {
    let mut hidden = window(2, Some(99));
    hidden.width = -5;
    assert!(WindowPickerSession::collect(&vec![], 0).is_none());
    assert!(WindowPickerSession::collect(&vec![hidden], 0).is_none());
}

#[test]
fn collect_caps_the_number_of_windows() {
    let windows: Vec<WindowInfo> = (0..700u64).map(|id| window(id, Some(u128::from(id)))).collect();
    let session = WindowPickerSession::collect(&windows, 0).unwrap();
    assert_eq!(session.len(), MAX_WINDOWS);
    assert_eq!(session.id(0), 699);
    assert_eq!(session.label(0), "AA");
    assert_eq!(session.label(MAX_WINDOWS - 1), "ZZ");
    assert_eq!(session.id(MAX_WINDOWS - 1), 699 - (MAX_WINDOWS as u64 - 1));
}

#[test]
fn single_letter_selects_its_window() {
    let mut ui = open_ui(&[window(11, Some(3)), window(12, Some(2)), window(13, Some(1))]);
    assert_eq!(ui.handle_key(Keysym::b.raw()), WindowPickerKeyResult::Selected(12));
    assert_eq!(ui.handle_key(Keysym::C.raw()), WindowPickerKeyResult::Selected(13));
    assert_eq!(ui.handle_key(Keysym::z.raw()), WindowPickerKeyResult::Handled);
    assert!(ui.is_open());
}

#[test]
fn other_keys_are_handled_without_effect() {
    let mut ui = open_ui(&[window(11, Some(3))]);
    assert_eq!(ui.handle_key(Keysym::_5.raw()), WindowPickerKeyResult::Handled);
    assert!(ui.is_open());
    assert_eq!(ids(&ui), [11]);
}

#[test]
fn escape_closes_the_picker() {
    let mut ui = open_ui(&[window(11, Some(3))]);
    assert_eq!(ui.handle_key(Keysym::Escape.raw()), WindowPickerKeyResult::Handled);
    assert!(!ui.is_open());
    assert_eq!(ui.handle_key(Keysym::a.raw()), WindowPickerKeyResult::Handled);
    assert!(!ui.is_open());
}

fn many_windows(n: u64) -> Vec<WindowInfo> {
    (0..n).map(|id| window(id, Some(u128::from(1000 - id)))).collect()
}

#[test]
fn two_letters_select_their_window() {
    let mut ui = open_ui(&many_windows(28));
    assert_eq!(ui.handle_key(Keysym::b.raw()), WindowPickerKeyResult::Handled);
    assert_eq!(ui.session().unwrap().prefix(), Some('B'));
    assert_eq!(ui.handle_key(Keysym::a.raw()), WindowPickerKeyResult::Selected(26));
}

#[test]
fn typing_each_label_selects_its_window() {
    let windows = many_windows(30);
    let ui = open_ui(&windows);
    let all_labels = labels(&ui);
    let all_ids = ids(&ui);
    for (label, id) in all_labels.iter().zip(all_ids) {
        let mut ui = open_ui(&windows);
        let mut chars = label.chars();
        let first = chars.next().unwrap();
        let second = chars.next().unwrap();
        assert_eq!(ui.handle_key(letter_key(first)), WindowPickerKeyResult::Handled);
        assert_eq!(
            ui.handle_key(letter_key(second)),
            WindowPickerKeyResult::Selected(id)
        );
    }
}

#[test]
fn unmatched_second_letter_keeps_the_prefix() {
    let mut ui = open_ui(&many_windows(28));
    ui.handle_key(Keysym::b.raw());
    assert_eq!(ui.handle_key(Keysym::z.raw()), WindowPickerKeyResult::Handled);
    assert_eq!(ui.session().unwrap().prefix(), Some('B'));
    assert_eq!(ui.handle_key(Keysym::b.raw()), WindowPickerKeyResult::Selected(27));
}

#[test]
fn first_letter_without_labels_is_ignored() {
    let mut ui = open_ui(&many_windows(28));
    assert_eq!(ui.handle_key(Keysym::c.raw()), WindowPickerKeyResult::Handled);
    assert_eq!(ui.session().unwrap().prefix(), None);
}

#[test]
fn backspace_forgets_the_typed_letter() {
    let mut ui = open_ui(&many_windows(28));
    ui.handle_key(Keysym::a.raw());
    assert_eq!(ui.session().unwrap().prefix(), Some('A'));
    assert_eq!(ui.handle_key(Keysym::BackSpace.raw()), WindowPickerKeyResult::Handled);
    assert_eq!(ui.session().unwrap().prefix(), None);
    assert!(ui.is_open());
}

#[test]
fn typed_letter_dims_other_labels() {
    let mut ui = open_ui(&many_windows(28));
    assert!(!ui.session().unwrap().is_dimmed(0));
    ui.handle_key(Keysym::b.raw());
    let session = ui.session().unwrap();
    assert!(session.is_dimmed(0));
    assert!(!session.is_dimmed(26));
    assert!(!session.is_dimmed(27));
}

#[test]
fn retaining_all_windows_changes_nothing() {
    let mut ui = open_ui(&many_windows(28));
    ui.handle_key(Keysym::a.raw());
    let live: HashSet<u64> = (0..28).collect();
    assert!(!ui.retain_windows(&live));
    assert_eq!(ui.session().unwrap().prefix(), Some('A'));
    assert_eq!(ui.session().unwrap().len(), 28);
}

#[test]
fn retaining_drops_closed_windows_and_keeps_labels() {
    let mut ui = open_ui(&many_windows(28));
    ui.handle_key(Keysym::a.raw());
    let live: HashSet<u64> = (0..28).filter(|id| *id != 1).collect();
    assert!(ui.retain_windows(&live));
    let session = ui.session().unwrap();
    assert_eq!(session.len(), 27);
    assert_eq!(session.prefix(), None);
    assert_eq!(session.label(1), "AC");
    assert_eq!(session.id(1), 2);
    assert_eq!(ui.handle_key(Keysym::b.raw()), WindowPickerKeyResult::Handled);
    assert_eq!(ui.handle_key(Keysym::a.raw()), WindowPickerKeyResult::Selected(26));
}

#[test]
fn retaining_no_window_closes_the_picker() {
    let mut ui = open_ui(&many_windows(3));
    assert!(ui.retain_windows(&HashSet::new()));
    assert!(!ui.is_open());
    assert!(!ui.retain_windows(&HashSet::new()));
}

#[test]
fn close_reports_whether_it_was_open() {
    let mut ui = open_ui(&many_windows(3));
    assert!(ui.close());
    assert!(!ui.close());
    assert!(ui.session().is_none());
}

#[test]
fn opening_animation_runs_for_its_duration() {
    let ui = open_ui(&many_windows(3));
    assert!(ui.are_animations_ongoing(1_000, 180));
    assert!(ui.are_animations_ongoing(1_000 + 179_999_999, 180));
    assert!(!ui.are_animations_ongoing(1_000 + 180_000_000, 180));
    assert!(ui.are_animations_ongoing(0, 180));
    assert!(!ui.are_animations_ongoing(1_000, 0));
    assert!(!WindowPickerUi::new().are_animations_ongoing(1_000, 180));
}

#[test]
fn picker_windows_are_the_entries_still_shown() {
    let ui = open_ui(&many_windows(5));
    let session = ui.session().unwrap();
    let mut sizes: HashMap<u64, (i32, i32)> = HashMap::new();
    sizes.insert(0, (100, 100));
    sizes.insert(1, (0, 100));
    sizes.insert(3, (100, 100));
    sizes.insert(4, (100, -1));
    assert_eq!(session.picker_windows(&sizes), [0, 3]);
    assert!(session.picker_windows(&HashMap::new()).is_empty());
}

#[test]
fn open_sessions_are_never_empty() {
    let ui = open_ui(&many_windows(1));
    assert_eq!(ui.session().unwrap().len(), 1);
}
