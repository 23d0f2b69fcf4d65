use vstd::prelude::*;

use crate::ui::keysyms;
use std::collections::{HashMap, HashSet};

verus! {

/// The largest number of windows the picker shows: every two-letter label is used once.
pub const MAX_WINDOWS: usize = 676;

/// The letter with the given position in the alphabet, as an upper-case character.
pub open spec fn letter(i: int) -> char {
    (65 + i) as char
}

/// The label of the window at position `idx` among `count` windows: one letter while
/// all windows fit into the alphabet, two letters otherwise.
pub open spec fn label_text(count: nat, idx: nat) -> Seq<char> {
    if count <= 26 {
        seq![letter(idx as int)]
    } else {
        seq![letter(idx as int / 26), letter(idx as int % 26)]
    }
}

/// How many of `count` windows get a label, and so how many the picker shows: at most
/// `MAX_WINDOWS`.
pub open spec fn label_count(count: nat) -> nat {
    if count <= MAX_WINDOWS {
        count
    } else {
        MAX_WINDOWS as nat
    }
}

/// `char::to_string` from std: the string holding just `c`.
#[verifier::external_body]
fn char_to_string(c: char) -> (s: String)
    ensures
        s@ == seq![c],
{
    c.to_string()
}

fn letter_char(i: u8) -> (c: char)
    requires
        i < 26,
    ensures
        c == letter(i as int),
{
    (65u8 + i) as char
}

/// Labels for `count` windows, in window order.
pub fn make_labels(count: usize) -> (labels: Vec<String>)
    ensures
        labels.len() == label_count(count as nat),
        forall|i: int|
            0 <= i < labels.len() ==> (#[trigger] labels[i])@ == label_text(count as nat, i as nat),
{
    let mut labels: Vec<String> = Vec::new();
    if count <= 26 {
        let mut idx: usize = 0;
        while idx < count
            invariant
                count <= 26,
                idx <= count,
                labels.len() == idx,
                forall|i: int|
                    0 <= i < labels.len() ==> (#[trigger] labels[i])@ == label_text(
                        count as nat,
                        i as nat,
                    ),
            decreases count - idx,
        {
            labels.push(char_to_string(letter_char(idx as u8)));
            idx = idx + 1;
        }
        return labels;
    }
    let n: usize = if count < MAX_WINDOWS { count } else { MAX_WINDOWS };
    let mut idx: usize = 0;
    while idx < n
        invariant
            26 < count,
            n == label_count(count as nat),
            n <= MAX_WINDOWS,
            idx <= n,
            labels.len() == idx,
            forall|i: int|
                0 <= i < labels.len() ==> (#[trigger] labels[i])@ == label_text(
                    count as nat,
                    i as nat,
                ),
        decreases n - idx,
    {
        let first = letter_char((idx / 26) as u8);
        let second = letter_char((idx % 26) as u8);
        let mut label = char_to_string(first);
        let tail = char_to_string(second);
        label.append(tail.as_str());
        labels.push(label);
        idx = idx + 1;
    }
    labels
}

/// The upper-case letter that a raw keysym stands for, if it is a letter key.
pub open spec fn keysym_letter(raw: u32) -> Option<char> {
    if 0x61 <= raw <= 0x7a {
        Some(letter(raw - 0x61))
    } else if 0x41 <= raw <= 0x5a {
        Some(letter(raw - 0x41))
    } else {
        None
    }
}

/// The upper-case letter that a raw keysym stands for, if it is a letter key (either case).
pub fn letter_from_keysym(raw: u32) -> (c: Option<char>)
    ensures
        c == keysym_letter(raw),
{
    let lower_a = keysyms::lower_a();
    let lower_z = keysyms::lower_z();
    if lower_a <= raw && raw <= lower_z {
        return Some(letter_char((raw - lower_a) as u8));
    }
    let upper_a = keysyms::upper_a();
    let upper_z = keysyms::upper_z();
    if upper_a <= raw && raw <= upper_z {
        return Some(letter_char((raw - upper_a) as u8));
    }
    None
}

/// Whether a label begins with the character `c`.
pub open spec fn starts_with(label: Seq<char>, c: char) -> bool {
    label.len() > 0 && label[0] == c
}

/// Whether a label begins with the two characters `p` and `c`.
pub open spec fn begins_with_pair(label: Seq<char>, p: char, c: char) -> bool {
    label.len() >= 2 && label[0] == p && label[1] == c
}

/// The id of the first entry whose label begins with `c`.
pub open spec fn first_starting_with(entries: Seq<(u64, Seq<char>)>, c: char) -> Option<u64>
    decreases entries.len(),
{
    if entries.len() == 0 {
        None
    } else if starts_with(entries[0].1, c) {
        Some(entries[0].0)
    } else {
        first_starting_with(entries.drop_first(), c)
    }
}

/// The id of the first entry whose label begins with `p` followed by `c`.
pub open spec fn first_with_pair(entries: Seq<(u64, Seq<char>)>, p: char, c: char) -> Option<u64>
    decreases entries.len(),
{
    if entries.len() == 0 {
        None
    } else if begins_with_pair(entries[0].1, p, c) {
        Some(entries[0].0)
    } else {
        first_with_pair(entries.drop_first(), p, c)
    }
}

/// What the picker answers to a key press.
#[derive(Debug, Clone, Copy, PartialEq, Eq, Structural)]
pub enum WindowPickerKeyResult {
    /// The key was consumed without choosing a window.
    Handled,
    /// The window with this id was chosen.
    Selected(u64),
}

/// `Selected` for a found id, `Handled` otherwise.
pub open spec fn selection(found: Option<u64>) -> WindowPickerKeyResult {
    match found {
        Some(id) => WindowPickerKeyResult::Selected(id),
        None => WindowPickerKeyResult::Handled,
    }
}

/// The state of an open picker: its entries (window id and label), in display order, the
/// first letter typed of a two-letter label, and when it was opened (in nanoseconds).
pub struct SessionModel {
    pub entries: Seq<(u64, Seq<char>)>,
    pub prefix: Option<char>,
    pub opened_at: u128,
}

/// Whether the session's labels are single letters.
pub open spec fn single_letter_labels(s: SessionModel) -> bool {
    s.entries.len() > 0 && s.entries[0].1.len() == 1
}

/// The effect of a key press on the picker: its next state and its answer.
pub open spec fn key_transition(ui: Option<SessionModel>, raw: u32) -> (
    Option<SessionModel>,
    WindowPickerKeyResult,
) {
    match ui {
        None => (None, WindowPickerKeyResult::Handled),
        Some(s) => if raw == 0xff1b {
            (None, WindowPickerKeyResult::Handled)
        } else if raw == 0xff08 {
            (
                Some(SessionModel { entries: s.entries, prefix: None, opened_at: s.opened_at }),
                WindowPickerKeyResult::Handled,
            )
        } else {
            match keysym_letter(raw) {
                None => (ui, WindowPickerKeyResult::Handled),
                Some(c) => if single_letter_labels(s) {
                    (ui, selection(first_starting_with(s.entries, c)))
                } else {
                    match s.prefix {
                        Some(p) => (ui, selection(first_with_pair(s.entries, p, c))),
                        None => if first_starting_with(s.entries, c) is Some {
                            (
                                Some(
                                    SessionModel {
                                        entries: s.entries,
                                        prefix: Some(c),
                                        opened_at: s.opened_at,
                                    },
                                ),
                                WindowPickerKeyResult::Handled,
                            )
                        } else {
                            (ui, WindowPickerKeyResult::Handled)
                        },
                    }
                },
            }
        },
    }
}

/// Every entry has a label of the same length, one or two characters, and no two entries
/// share a label.
pub open spec fn well_labelled(s: SessionModel) -> bool {
    let n = s.entries.len();
    &&& n > 0
    &&& s.entries[0].1.len() == 1 || s.entries[0].1.len() == 2
    &&& forall|k: int| 0 <= k < n ==> (#[trigger] s.entries[k]).1.len() == s.entries[0].1.len()
    &&& forall|j: int, k: int|
        0 <= j < n && 0 <= k < n && j != k ==> (#[trigger] s.entries[j]).1 != (
        #[trigger] s.entries[k]).1
}

struct PickerEntry {
    id: u64,
    label: String,
}

/// The entries of a session as (window id, label) pairs.
spec fn entries_model(entries: Seq<PickerEntry>) -> Seq<(u64, Seq<char>)> {
    entries.map_values(|e: PickerEntry| (e.id, e.label@))
}

/// An open window picker: the windows offered, with their labels, and the typed prefix.
pub struct WindowPickerSession {
    entries: Vec<PickerEntry>,
    prefix: Option<char>,
    opened_at: u128,
}

impl WindowPickerSession {
    /// A session always offers at least one window, and its labels are of one length (one or
    /// two letters) and pairwise different.
    #[verifier::type_invariant]
    spec fn well_formed(self) -> bool {
        well_labelled(self@)
    }
}

impl View for WindowPickerSession {
    type V = SessionModel;

    closed spec fn view(&self) -> SessionModel {
        SessionModel {
            entries: entries_model(self.entries@),
            prefix: self.prefix,
            opened_at: self.opened_at,
        }
    }
}

fn label_len(label: &String) -> (n: usize)
    ensures
        n == label@.len(),
{
    label.as_str().unicode_len()
}

fn label_starts_with(label: &String, c: char) -> (b: bool)
    ensures
        b == starts_with(label@, c),
{
    let s = label.as_str();
    s.unicode_len() > 0 && s.get_char(0) == c
}

fn label_begins_with_pair(label: &String, p: char, c: char) -> (b: bool)
    ensures
        b == begins_with_pair(label@, p, c),
{
    let s = label.as_str();
    s.unicode_len() >= 2 && s.get_char(0) == p && s.get_char(1) == c
}

impl WindowPickerSession {
    fn find_starting_with(&self, c: char) -> (found: Option<u64>)
        ensures
            found == first_starting_with(self@.entries, c),
    {
        let ghost m = self@.entries;
        let mut i: usize = 0;
        assert(m.skip(0) =~= m);
        while i < self.entries.len()
            invariant
                m == self@.entries,
                m.len() == self.entries.len(),
                i <= m.len(),
                first_starting_with(m, c) == first_starting_with(m.skip(i as int), c),
            decreases self.entries.len() - i,
        {
            assert(m.skip(i as int).drop_first() =~= m.skip(i + 1));
            assert(m[i as int] == (self.entries[i as int].id, self.entries[i as int].label@)) by {
                reveal(entries_model);
            }
            if label_starts_with(&self.entries[i].label, c) {
                return Some(self.entries[i].id);
            }
            i = i + 1;
        }
        None
    }

    fn find_pair(&self, p: char, c: char) -> (found: Option<u64>)
        ensures
            found == first_with_pair(self@.entries, p, c),
    {
        let ghost m = self@.entries;
        let mut i: usize = 0;
        assert(m.skip(0) =~= m);
        while i < self.entries.len()
            invariant
                m == self@.entries,
                m.len() == self.entries.len(),
                i <= m.len(),
                first_with_pair(m, p, c) == first_with_pair(m.skip(i as int), p, c),
            decreases self.entries.len() - i,
        {
            assert(m.skip(i as int).drop_first() =~= m.skip(i + 1));
            assert(m[i as int] == (self.entries[i as int].id, self.entries[i as int].label@)) by {
                reveal(entries_model);
            }
            if label_begins_with_pair(&self.entries[i].label, p, c) {
                return Some(self.entries[i].id);
            }
            i = i + 1;
        }
        None
    }

    fn has_single_letter_labels(&self) -> (b: bool)
        ensures
            b == single_letter_labels(self@),
    {
        if self.entries.len() == 0 {
            return false;
        }
        assert(self@.entries[0] == (self.entries[0].id, self.entries[0].label@)) by {
            reveal(entries_model);
        }
        label_len(&self.entries[0].label) == 1
    }
}

/// A mapped window as the picker sees it when it opens: its id, its size, and when it was
/// last focused (in nanoseconds on the compositor clock; `None` if never).
#[derive(Debug, Clone, Copy, PartialEq, Eq, Structural)]
pub struct WindowInfo {
    pub id: u64,
    pub width: i32,
    pub height: i32,
    pub focus_timestamp: Option<u128>,
}

/// Whether a window has a visible size.
pub open spec fn has_size(w: WindowInfo) -> bool {
    w.width > 0 && w.height > 0
}

/// The windows the picker offers, in the given order: those with a visible size, each id
/// only at its first such appearance.
pub open spec fn candidates(ws: Seq<WindowInfo>) -> Seq<WindowInfo>
    decreases ws.len(),
{
    if ws.len() == 0 {
        Seq::empty()
    } else {
        let prev = candidates(ws.drop_last());
        let w = ws.last();
        if has_size(w) && !prev.map_values(|x: WindowInfo| x.id).contains(w.id) {
            prev.push(w)
        } else {
            prev
        }
    }
}

/// Whether focus timestamp `x` is more recent than `y`; never focused is the oldest.
pub open spec fn newer(x: Option<u128>, y: Option<u128>) -> bool {
    match (x, y) {
        (Some(a), Some(b)) => a > b,
        (Some(_), None) => true,
        _ => false,
    }
}

/// Whether candidate `a` is listed before candidate `b`: more recently focused first, and in
/// the given order when equally recent.
pub open spec fn precedes(c: Seq<WindowInfo>, a: int, b: int) -> bool {
    newer(c[a].focus_timestamp, c[b].focus_timestamp) || (c[a].focus_timestamp
        == c[b].focus_timestamp && a < b)
}

/// `o` lists the first `n` positions of `c`, each once, in `precedes` order.
pub open spec fn orders_prefix(c: Seq<WindowInfo>, o: Seq<usize>, n: int) -> bool {
    &&& o.len() == n
    &&& forall|k: int| 0 <= k < o.len() ==> #[trigger] o[k] < n
    &&& forall|k: int, l: int| 0 <= k < l < o.len() ==> #[trigger] o[k] != #[trigger] o[l]
    &&& forall|k: int, l: int|
        0 <= k < l < o.len() ==> precedes(c, #[trigger] o[k] as int, #[trigger] o[l] as int)
}

/// `o` lists every position of `c` once, in `precedes` order.
pub open spec fn is_focus_order(c: Seq<WindowInfo>, o: Seq<usize>) -> bool {
    orders_prefix(c, o, c.len() as int)
}

proof fn lemma_precedes_total(c: Seq<WindowInfo>, a: int, b: int)
    requires
        a != b,
    ensures
        precedes(c, a, b) || precedes(c, b, a),
{
}

proof fn lemma_precedes_transitive(c: Seq<WindowInfo>, a: int, b: int, d: int)
    requires
        precedes(c, a, b),
        precedes(c, b, d),
    ensures
        precedes(c, a, d),
{
}

fn is_newer(x: Option<u128>, y: Option<u128>) -> (b: bool)
    ensures
        b == newer(x, y),
{
    match (x, y) {
        (Some(a), Some(b)) => a > b,
        (Some(_), None) => true,
        _ => false,
    }
}

fn same_timestamp(x: Option<u128>, y: Option<u128>) -> (b: bool)
    ensures
        b == (x == y),
{
    match (x, y) {
        (Some(a), Some(b)) => a == b,
        (None, None) => true,
        _ => false,
    }
}

fn comes_before(c: &Vec<WindowInfo>, a: usize, b: usize) -> (r: bool)
    requires
        a < c.len(),
        b < c.len(),
    ensures
        r == precedes(c@, a as int, b as int),
{
    let x = c[a].focus_timestamp;
    let y = c[b].focus_timestamp;
    is_newer(x, y) || (same_timestamp(x, y) && a < b)
}

fn select_candidates(windows: &Vec<WindowInfo>) -> (c: Vec<WindowInfo>)
    ensures
        c@ == candidates(windows@),
{
    broadcast use vstd::std_specs::hash::group_hash_axioms;

    let mut seen: HashSet<u64> = HashSet::new();
    let mut c: Vec<WindowInfo> = Vec::new();
    let mut i: usize = 0;
    while i < windows.len()
        invariant
            i <= windows.len(),
            c@ == candidates(windows@.take(i as int)),
            seen@ == c@.map_values(|x: WindowInfo| x.id).to_set(),
        decreases windows.len() - i,
    {
        let w = windows[i];
        assert(windows@.take(i + 1).drop_last() =~= windows@.take(i as int));
        assert(windows@.take(i + 1).last() == w);
        let ghost old_ids = c@.map_values(|x: WindowInfo| x.id);
        if w.width > 0 && w.height > 0 && seen.insert(w.id) {
            c.push(w);
            assert(c@.map_values(|x: WindowInfo| x.id) =~= old_ids.push(w.id));
            assert forall|y: u64| old_ids.push(w.id).contains(y) <==> old_ids.contains(y) || y
                == w.id by {
                if old_ids.contains(y) {
                    let k = choose|k: int| 0 <= k < old_ids.len() && old_ids[k] == y;
                    assert(old_ids.push(w.id)[k] == y);
                }
                if y == w.id {
                    assert(old_ids.push(w.id)[old_ids.len() as int] == y);
                }
            }
            assert(old_ids.push(w.id).to_set() =~= old_ids.to_set().insert(w.id));
        }
        i = i + 1;
    }
    assert(windows@.take(windows.len() as int) =~= windows@);
    c
}

fn focus_order(c: &Vec<WindowInfo>) -> (order: Vec<usize>)
    ensures
        is_focus_order(c@, order@),
{
    let mut order: Vec<usize> = Vec::new();
    let mut i: usize = 0;
    while i < c.len()
        invariant
            i <= c.len(),
            orders_prefix(c@, order@, i as int),
        decreases c.len() - i,
    {
        let mut p: usize = 0;
        while p < order.len()
            invariant
                i < c.len(),
                orders_prefix(c@, order@, i as int),
                p <= order.len(),
                forall|q: int| 0 <= q < p ==> precedes(c@, #[trigger] order@[q] as int, i as int),
            ensures
                p <= order.len(),
                forall|q: int| 0 <= q < p ==> precedes(c@, #[trigger] order@[q] as int, i as int),
                p == order.len() || !precedes(c@, order@[p as int] as int, i as int),
            decreases order.len() - p,
        {
            if !comes_before(c, order[p], i) {
                break;
            }
            p = p + 1;
        }
        let ghost old_order = order@;
        proof {
            assert forall|q: int| p <= q < old_order.len() implies precedes(
                c@,
                i as int,
                #[trigger] old_order[q] as int,
            ) by {
                lemma_precedes_total(c@, i as int, old_order[p as int] as int);
                if q > p {
                    lemma_precedes_transitive(
                        c@,
                        i as int,
                        old_order[p as int] as int,
                        old_order[q] as int,
                    );
                }
            }
        }
        order.insert(p, i);
        proof {
            let n = order@;
            assert(n =~= old_order.insert(p as int, i));
            assert forall|k: int| 0 <= k < n.len() implies #[trigger] n[k] < i + 1 by {
                if k > p {
                    assert(n[k] == old_order[k - 1]);
                }
            }
            assert forall|k: int, l: int| 0 <= k < l < n.len() implies #[trigger] n[k]
                != #[trigger] n[l] && precedes(c@, n[k] as int, n[l] as int) by {
                if l < p {
                } else if l == p {
                } else if k < p {
                    assert(n[l] == old_order[l - 1]);
                } else if k == p {
                    assert(n[l] == old_order[l - 1]);
                } else {
                    assert(n[l] == old_order[l - 1]);
                    assert(n[k] == old_order[k - 1]);
                }
            }
        }
        i = i + 1;
    }
    order
}

/// The sessions that opening the picker over `ws` at time `opened_at` yields: none when no
/// window has a visible size; otherwise the candidates, most recently focused first (ties
/// in the given order), at most `MAX_WINDOWS` of them, labelled in display order, with no
/// letter typed yet.
pub open spec fn collected(ws: Seq<WindowInfo>, opened_at: u128, r: Option<SessionModel>) -> bool {
    let c = candidates(ws);
    let n = label_count(c.len());
    match r {
        None => c.len() == 0,
        Some(s) => {
            &&& c.len() > 0
            &&& s.prefix is None
            &&& s.opened_at == opened_at
            &&& s.entries.len() == n
            &&& exists|o: Seq<usize>|
                {
                    &&& is_focus_order(c, o)
                    &&& forall|k: int|
                        0 <= k < n ==> #[trigger] s.entries[k] == (
                            c[o[k] as int].id,
                            label_text(n, k as nat),
                        )
                }
        },
    }
}

impl WindowPickerSession {
    /// Opens a session over the windows of the layout, at time `opened_at`.
    pub fn collect(windows: &Vec<WindowInfo>, opened_at: u128) -> (r: Option<Self>)
        ensures
            collected(
                windows@,
                opened_at,
                match r {
                    Some(s) => Some(s@),
                    None => None,
                },
            ),
            picker_well_formed(
                match r {
                    Some(s) => Some(s@),
                    None => None,
                },
            ),
    {
        let c = select_candidates(windows);
        let order = focus_order(&c);
        let n: usize = if c.len() <= MAX_WINDOWS { c.len() } else { MAX_WINDOWS };
        if n == 0 {
            return None;
        }
        let labels = make_labels(n);
        let mut entries: Vec<PickerEntry> = Vec::new();
        let mut k: usize = 0;
        while k < n
            invariant
                n == label_count(c@.len()),
                n <= c@.len(),
                labels.len() == n,
                forall|i: int| 0 <= i < n ==> (#[trigger] labels[i])@ == label_text(n as nat, i as nat),
                is_focus_order(c@, order@),
                k <= n,
                entries.len() == k,
                forall|i: int|
                    0 <= i < k ==> (#[trigger] entries@[i]).id == c@[order@[i] as int].id
                        && entries@[i].label@ == label_text(n as nat, i as nat),
            decreases n - k,
        {
            let label = labels[k].clone();
            entries.push(PickerEntry { id: c[order[k]].id, label });
            k = k + 1;
        }
        proof {
            reveal(entries_model);
            let m = entries_model(entries@);
            assert(label_count(n as nat) == n);
            crate::ui::picker_laws::labels_are_uniform(n as nat, 0);
            assert forall|k: int| 0 <= k < n implies (#[trigger] m[k]).1.len() == m[0].1.len() by {
                crate::ui::picker_laws::labels_are_uniform(n as nat, k as nat);
            }
            assert forall|j: int, k: int| 0 <= j < n && 0 <= k < n && j != k implies (
            #[trigger] m[j]).1 != (#[trigger] m[k]).1 by {
                crate::ui::picker_laws::labels_are_distinct(n as nat, j as nat, k as nat);
            }
            assert(well_labelled(SessionModel { entries: m, prefix: None, opened_at }));
        }
        let session = WindowPickerSession { entries, prefix: None, opened_at };
        proof {
            reveal(entries_model);
            assert(forall|i: int|
                0 <= i < n ==> #[trigger] session@.entries[i] == (
                    c@[order@[i] as int].id,
                    label_text(n as nat, i as nat),
                ));
        }
        Some(session)
    }
}

/// The entries of `entries` whose window is still alive.
pub open spec fn live_entries(entries: Seq<(u64, Seq<char>)>, live: Set<u64>) -> Seq<(u64, Seq<char>)> {
    entries.filter(|e: (u64, Seq<char>)| live.contains(e.0))
}

/// The effect of dropping the entries of windows that are gone, and whether any was dropped.
/// Labels of the remaining entries stay as they were; a typed letter is forgotten; a picker
/// left without entries closes.
pub open spec fn retain_transition(ui: Option<SessionModel>, live: Set<u64>) -> (
    Option<SessionModel>,
    bool,
) {
    match ui {
        None => (None, false),
        Some(s) => {
            let kept = live_entries(s.entries, live);
            if kept.len() == s.entries.len() {
                (ui, false)
            } else if kept.len() == 0 {
                (None, true)
            } else {
                (Some(SessionModel { entries: kept, prefix: None, opened_at: s.opened_at }), true)
            }
        },
    }
}

impl WindowPickerSession {
    fn live_entries(&self, live_ids: &HashSet<u64>) -> (kept: Vec<PickerEntry>)
        ensures
            entries_model(kept@) == live_entries(self@.entries, live_ids@),
    {
        broadcast use vstd::std_specs::hash::group_hash_axioms;

        let ghost m = self@.entries;
        let ghost pred = |e: (u64, Seq<char>)| live_ids@.contains(e.0);
        let mut kept: Vec<PickerEntry> = Vec::new();
        let mut i: usize = 0;
        proof {
            reveal(entries_model);
        }
        while i < self.entries.len()
            invariant
                m == self@.entries,
                m == entries_model(self.entries@),
                m.len() == self.entries.len(),
                i <= m.len(),
                entries_model(kept@) == m.take(i as int).filter(pred),
                pred == (|e: (u64, Seq<char>)| live_ids@.contains(e.0)),
            decreases self.entries.len() - i,
        {
            reveal(entries_model);
            assert(m.take(i + 1).drop_last() =~= m.take(i as int));
            assert(m.take(i + 1).last() == m[i as int]);
            assert(m[i as int] == (self.entries[i as int].id, self.entries[i as int].label@));
            let ghost before = kept@;
            reveal(Seq::filter);
            assert(m.take(i + 1).filter(pred) == if pred(m[i as int]) {
                m.take(i as int).filter(pred).push(m[i as int])
            } else {
                m.take(i as int).filter(pred)
            });
            let alive = live_ids.contains(&self.entries[i].id);
            assert(alive == pred(m[i as int]));
            if alive {
                let label = self.entries[i].label.clone();
                kept.push(PickerEntry { id: self.entries[i].id, label });
                assert(entries_model(kept@) =~= entries_model(before).push(m[i as int]));
            }
            i = i + 1;
        }
        assert(m.take(m.len() as int) =~= m);
        kept
    }
}

/// Whether the entry with this label is drawn dimmed: a letter is typed and the label does not
/// begin with it.
pub open spec fn dimmed(prefix: Option<char>, label: Seq<char>) -> bool {
    match prefix {
        Some(p) => !starts_with(label, p),
        None => false,
    }
}

impl WindowPickerSession {
    /// How many windows the session offers.
    pub fn len(&self) -> (n: usize)
        ensures
            n == self@.entries.len(),
            well_labelled(self@),
    {
        proof {
            use_type_invariant(self);
        }
        proof {
            reveal(entries_model);
        }
        self.entries.len()
    }

    /// The window id of entry `i`.
    pub fn id(&self, i: usize) -> (id: u64)
        requires
            i < self@.entries.len(),
        ensures
            id == self@.entries[i as int].0,
    {
        proof {
            reveal(entries_model);
        }
        self.entries[i].id
    }

    /// The label of entry `i`.
    pub fn label(&self, i: usize) -> (label: &str)
        requires
            i < self@.entries.len(),
        ensures
            label@ == self@.entries[i as int].1,
    {
        proof {
            reveal(entries_model);
        }
        self.entries[i].label.as_str()
    }

    /// The first letter of a two-letter label typed so far.
    pub fn prefix(&self) -> (p: Option<char>)
        ensures
            p == self@.prefix,
    {
        self.prefix
    }

    /// When the session was opened, in nanoseconds on the compositor clock.
    pub fn opened_at(&self) -> (t: u128)
        ensures
            t == self@.opened_at,
    {
        self.opened_at
    }

    /// Whether entry `i` is drawn dimmed, because a typed letter rules it out.
    pub fn is_dimmed(&self, i: usize) -> (b: bool)
        requires
            i < self@.entries.len(),
        ensures
            b == dimmed(self@.prefix, self@.entries[i as int].1),
    {
        proof {
            reveal(entries_model);
        }
        match self.prefix {
            Some(p) => !label_starts_with(&self.entries[i].label, p),
            None => false,
        }
    }
}

/// The positions, among the first `n` entries, of those whose window is still mapped with a
/// visible size (`sizes` maps window ids to width and height), in display order.
pub open spec fn shown_positions(
    entries: Seq<(u64, Seq<char>)>,
    sizes: Map<u64, (i32, i32)>,
    n: int,
) -> Seq<usize>
    decreases n,
{
    if n <= 0 {
        Seq::empty()
    } else {
        let prev = shown_positions(entries, sizes, n - 1);
        let id = entries[n - 1].0;
        if sizes.contains_key(id) && sizes[id].0 > 0 && sizes[id].1 > 0 {
            prev.push((n - 1) as usize)
        } else {
            prev
        }
    }
}

impl WindowPickerSession {
    /// The positions of the entries drawn on screen: those whose window is still mapped with a
    /// visible size, given the current size of each mapped window.
    pub fn picker_windows(&self, sizes: &HashMap<u64, (i32, i32)>) -> (shown: Vec<usize>)
        ensures
            shown@ == shown_positions(self@.entries, sizes@, self@.entries.len() as int),
    {
        broadcast use vstd::std_specs::hash::group_hash_axioms;

        proof {
            reveal(entries_model);
        }
        let mut shown: Vec<usize> = Vec::new();
        let mut i: usize = 0;
        while i < self.entries.len()
            invariant
                i <= self.entries.len(),
                self@.entries == entries_model(self.entries@),
                self@.entries.len() == self.entries.len(),
                shown@ == shown_positions(self@.entries, sizes@, i as int),
            decreases self.entries.len() - i,
        {
            proof {
                reveal(entries_model);
            }
            let id = self.entries[i].id;
            assert(self@.entries[i as int].0 == id);
            if let Some(size) = sizes.get(&id) {
                if size.0 > 0 && size.1 > 0 {
                    shown.push(i);
                }
            }
            i = i + 1;
        }
        shown
    }
}

/// Time passed from `since` to `now`, in nanoseconds; zero if `now` is earlier.
pub open spec fn elapsed(now: u128, since: u128) -> nat {
    if now >= since {
        (now - since) as nat
    } else {
        0
    }
}

/// Whether an opening animation of `duration_ms` milliseconds that started at `opened_at`
/// is still running at `now`.
pub open spec fn animating(opened_at: u128, now: u128, duration_ms: u16) -> bool {
    duration_ms != 0 && elapsed(now, opened_at) < duration_ms * 1_000_000
}

impl WindowPickerSession {
    /// Whether the opening animation, lasting `duration_ms`, still runs at time `now`.
    pub fn animation_is_ongoing(&self, now: u128, duration_ms: u16) -> (b: bool)
        ensures
            b == animating(self@.opened_at, now, duration_ms),
    {
        let elapsed: u128 = if now >= self.opened_at { now - self.opened_at } else { 0 };
        duration_ms != 0 && elapsed < (duration_ms as u128) * 1_000_000
    }
}

/// The picker's state is closed, or open with well-labelled entries.
pub open spec fn picker_well_formed(ui: Option<SessionModel>) -> bool {
    match ui {
        Some(s) => well_labelled(s),
        None => true,
    }
}

/// The window picker overlay: closed, or open with a session.
pub struct WindowPickerUi {
    session: Option<WindowPickerSession>,
}

impl View for WindowPickerUi {
    type V = Option<SessionModel>;

    closed spec fn view(&self) -> Option<SessionModel> {
        match self.session {
            Some(s) => Some(s@),
            None => None,
        }
    }
}

impl WindowPickerUi {
    fn settle(&self)
        ensures
            picker_well_formed(self@),
    {
        match &self.session {
            Some(s) => {
                proof {
                    use_type_invariant(s);
                }
            },
            None => {},
        }
    }

    /// A closed picker.
    pub fn new() -> (ui: Self)
        ensures
            ui@ is None,
    {
        WindowPickerUi { session: None }
    }

    /// Whether the picker is open.
    pub fn is_open(&self) -> (b: bool)
        ensures
            b <==> self@ is Some,
            picker_well_formed(self@),
    {
        self.settle();
        self.session.is_some()
    }

    /// The open session, if any.
    pub fn session(&self) -> (s: Option<&WindowPickerSession>)
        ensures
            match s {
                Some(s) => self@ == Some(s@),
                None => self@ is None,
            },
            picker_well_formed(self@),
    {
        self.settle();
        self.session.as_ref()
    }

    /// Opens the picker with the given session, replacing any open one.
    pub fn open(&mut self, session: WindowPickerSession)
        ensures
            final(self)@ == Some(session@),
            picker_well_formed(final(self)@),
    {
        proof {
            use_type_invariant(&session);
        }
        self.session = Some(session);
    }

    /// Closes the picker; tells whether it was open.
    pub fn close(&mut self) -> (was_open: bool)
        ensures
            was_open <==> old(self)@ is Some,
            final(self)@ is None,
    {
        let was_open = self.session.is_some();
        self.session = None;
        was_open
    }

    /// Whether the opening animation, lasting `duration_ms`, still runs at time `now`.
    pub fn are_animations_ongoing(&self, now: u128, duration_ms: u16) -> (b: bool)
        ensures
            b == match self@ {
                Some(s) => animating(s.opened_at, now, duration_ms),
                None => false,
            },
            picker_well_formed(self@),
    {
        self.settle();
        match &self.session {
            Some(session) => session.animation_is_ongoing(now, duration_ms),
            None => false,
        }
    }

    /// Drops the entries of windows that are no longer alive; tells whether any was dropped.
    pub fn retain_windows(&mut self, live_ids: &HashSet<u64>) -> (changed: bool)
        ensures
            (final(self)@, changed) == retain_transition(old(self)@, live_ids@),
            picker_well_formed(final(self)@),
    {
        self.settle();
        proof {
            if let Some(s) = self@ {
                crate::ui::picker_laws::retaining_keeps_labels(s, live_ids@);
            }
        }
        match &mut self.session {
            None => false,
            Some(session) => {
                proof {
                    use_type_invariant(&*session);
                    crate::ui::picker_laws::retaining_keeps_labels(session@, live_ids@);
                }
                let kept = session.live_entries(live_ids);
                if kept.len() == session.entries.len() {
                    return false;
                }
                if kept.len() == 0 {
                    self.session = None;
                    return true;
                }
                session.entries = kept;
                session.prefix = None;
                true
            },
        }
    }

    /// Reacts to a key press, given as a raw keysym value.
    pub fn handle_key(&mut self, raw: u32) -> (r: WindowPickerKeyResult)
        ensures
            (final(self)@, r) == key_transition(old(self)@, raw),
            picker_well_formed(final(self)@),
    {
        self.settle();
        proof {
            if let Some(s) = self@ {
                crate::ui::picker_laws::keys_keep_entries(s, raw);
            }
        }
        let escape = keysyms::escape();
        let backspace = keysyms::backspace();
        match &mut self.session {
            None => WindowPickerKeyResult::Handled,
            Some(session) => {
                proof {
                    use_type_invariant(&*session);
                }
                if raw == escape {
                    self.session = None;
                    return WindowPickerKeyResult::Handled;
                }
                if raw == backspace {
                    session.prefix = None;
                    return WindowPickerKeyResult::Handled;
                }
                let letter = match letter_from_keysym(raw) {
                    Some(c) => c,
                    None => {
                        return WindowPickerKeyResult::Handled;
                    },
                };
                if session.has_single_letter_labels() {
                    return match session.find_starting_with(letter) {
                        Some(id) => WindowPickerKeyResult::Selected(id),
                        None => WindowPickerKeyResult::Handled,
                    };
                }
                match session.prefix {
                    Some(prefix) => {
                        match session.find_pair(prefix, letter) {
                            Some(id) => WindowPickerKeyResult::Selected(id),
                            None => WindowPickerKeyResult::Handled,
                        }
                    },
                    None => {
                        if session.find_starting_with(letter).is_some() {
                            session.prefix = Some(letter);
                        }
                        WindowPickerKeyResult::Handled
                    },
                }
            },
        }
    }
}

} // verus!
