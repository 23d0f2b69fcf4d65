use vstd::prelude::*;

use crate::ui::window_picker::{
    begins_with_pair, candidates, collected, first_starting_with, first_with_pair, has_size,
    is_focus_order, key_transition, precedes, keysym_letter, label_count, label_text, letter,
    live_entries, retain_transition, single_letter_labels, starts_with,
    animating, dimmed, shown_positions, well_labelled, SessionModel, WindowInfo, WindowPickerKeyResult, MAX_WINDOWS,
};

verus! {

proof fn lemma_first_starting_with_at(entries: Seq<(u64, Seq<char>)>, c: char, k: int)
    requires
        0 <= k < entries.len(),
        starts_with(entries[k].1, c),
        forall|j: int| 0 <= j < k ==> !starts_with(#[trigger] entries[j].1, c),
    ensures
        first_starting_with(entries, c) == Some(entries[k].0),
    decreases k,
{
    if k > 0 {
        let rest = entries.drop_first();
        assert forall|j: int| 0 <= j < k - 1 implies !starts_with(#[trigger] rest[j].1, c) by {
            assert(rest[j] == entries[j + 1]);
        }
        lemma_first_starting_with_at(rest, c, k - 1);
    }
}

proof fn lemma_first_with_pair_at(entries: Seq<(u64, Seq<char>)>, p: char, c: char, k: int)
    requires
        0 <= k < entries.len(),
        begins_with_pair(entries[k].1, p, c),
        forall|j: int| 0 <= j < k ==> !begins_with_pair(#[trigger] entries[j].1, p, c),
    ensures
        first_with_pair(entries, p, c) == Some(entries[k].0),
    decreases k,
{
    if k > 0 {
        let rest = entries.drop_first();
        assert forall|j: int| 0 <= j < k - 1 implies !begins_with_pair(
            #[trigger] rest[j].1,
            p,
            c,
        ) by {
            assert(rest[j] == entries[j + 1]);
        }
        lemma_first_with_pair_at(rest, p, c, k - 1);
    }
}

proof fn lemma_first_starting_with_found(entries: Seq<(u64, Seq<char>)>, c: char)
    requires
        first_starting_with(entries, c) is Some,
    ensures
        exists|k: int|
            0 <= k < entries.len() && (#[trigger] entries[k]).0 == first_starting_with(
                entries,
                c,
            )->0,
    decreases entries.len(),
{
    if !starts_with(entries[0].1, c) {
        let rest = entries.drop_first();
        lemma_first_starting_with_found(rest, c);
        let k = choose|k: int|
            0 <= k < rest.len() && (#[trigger] rest[k]).0 == first_starting_with(rest, c)->0;
        assert(entries[k + 1] == rest[k]);
    } else {
        assert(entries[0].0 == first_starting_with(entries, c)->0);
    }
}

proof fn lemma_first_with_pair_found(entries: Seq<(u64, Seq<char>)>, p: char, c: char)
    requires
        first_with_pair(entries, p, c) is Some,
    ensures
        exists|k: int|
            0 <= k < entries.len() && (#[trigger] entries[k]).0 == first_with_pair(
                entries,
                p,
                c,
            )->0,
    decreases entries.len(),
{
    if !begins_with_pair(entries[0].1, p, c) {
        let rest = entries.drop_first();
        lemma_first_with_pair_found(rest, p, c);
        let k = choose|k: int|
            0 <= k < rest.len() && (#[trigger] rest[k]).0 == first_with_pair(rest, p, c)->0;
        assert(entries[k + 1] == rest[k]);
    } else {
        assert(entries[0].0 == first_with_pair(entries, p, c)->0);
    }
}

/// In a picker whose labels are single letters, pressing the key of an entry's letter (in
/// either case) chooses that entry's window and leaves the picker as it was.
pub proof fn typing_a_letter_selects_its_window(s: SessionModel, k: int, raw: u32)
    requires
        well_labelled(s),
        single_letter_labels(s),
        0 <= k < s.entries.len(),
        keysym_letter(raw) == Some(s.entries[k].1[0]),
    ensures
        key_transition(Some(s), raw) == (
            Some(s),
            WindowPickerKeyResult::Selected(s.entries[k].0),
        ),
{
    let e = s.entries;
    let c = e[k].1[0];
    assert forall|j: int| 0 <= j < k implies !starts_with(#[trigger] e[j].1, c) by {
        if starts_with(e[j].1, c) {
            assert(e[j].1.len() == 1);
            assert(e[k].1.len() == 1);
            assert(e[j].1 =~= e[k].1);
        }
    }
    lemma_first_starting_with_at(e, c, k);
}

/// In a picker whose labels are letter pairs and where nothing is typed yet, pressing the keys
/// of an entry's two letters first remembers the first letter, then chooses that entry's
/// window.
pub proof fn typing_a_pair_selects_its_window(s: SessionModel, k: int, raw1: u32, raw2: u32)
    requires
        well_labelled(s),
        !single_letter_labels(s),
        s.prefix is None,
        0 <= k < s.entries.len(),
        keysym_letter(raw1) == Some(s.entries[k].1[0]),
        keysym_letter(raw2) == Some(s.entries[k].1[1]),
    ensures
        ({
            let after_first = Some(
                SessionModel {
                    entries: s.entries,
                    prefix: Some(s.entries[k].1[0]),
                    opened_at: s.opened_at,
                },
            );
            &&& key_transition(Some(s), raw1) == (after_first, WindowPickerKeyResult::Handled)
            &&& key_transition(after_first, raw2) == (
                after_first,
                WindowPickerKeyResult::Selected(s.entries[k].0),
            )
        }),
{
    let e = s.entries;
    let p = e[k].1[0];
    let c = e[k].1[1];
    assert(e[k].1.len() == 2);
    assert forall|j: int| 0 <= j < k implies !begins_with_pair(#[trigger] e[j].1, p, c) by {
        if begins_with_pair(e[j].1, p, c) {
            assert(e[j].1.len() == 2);
            assert(e[j].1 =~= e[k].1);
        }
    }
    lemma_first_with_pair_at(e, p, c, k);
    lemma_first_letter_found(e, p, k);
}

proof fn lemma_first_letter_found(e: Seq<(u64, Seq<char>)>, p: char, k: int)
    requires
        0 <= k < e.len(),
        starts_with(e[k].1, p),
    ensures
        first_starting_with(e, p) is Some,
    decreases k,
{
    if k > 0 && !starts_with(e[0].1, p) {
        let rest = e.drop_first();
        assert(rest[k - 1] == e[k]);
        lemma_first_letter_found(rest, p, k - 1);
    }
}

/// A key press never changes which windows the picker offers nor their labels: it either
/// closes the picker or keeps its entries.
pub proof fn keys_keep_entries(s: SessionModel, raw: u32)
    ensures
        match key_transition(Some(s), raw).0 {
            Some(t) => t.entries == s.entries && t.opened_at == s.opened_at,
            None => raw == 0xff1b,
        },
{
}

/// Escape closes the picker, whatever its state.
pub proof fn escape_closes(ui: Option<SessionModel>)
    ensures
        key_transition(ui, 0xff1b) == (None::<SessionModel>, WindowPickerKeyResult::Handled),
{
}

/// The window a key press chooses is always one the picker offers.
pub proof fn selection_is_offered(s: SessionModel, raw: u32, id: u64)
    requires
        key_transition(Some(s), raw).1 == WindowPickerKeyResult::Selected(id),
    ensures
        exists|k: int| 0 <= k < s.entries.len() && (#[trigger] s.entries[k]).0 == id,
{
    let c = keysym_letter(raw)->0;
    if single_letter_labels(s) {
        lemma_first_starting_with_found(s.entries, c);
    } else {
        lemma_first_with_pair_found(s.entries, s.prefix->0, c);
    }
}


/// Whether `c` is one of the 26 upper-case letters.
pub open spec fn is_letter(c: char) -> bool {
    exists|t: int| 0 <= t < 26 && c == letter(t)
}

/// Every upper-case letter can be typed, with its upper-case or its lower-case key.
pub proof fn every_letter_has_keys(t: int)
    requires
        0 <= t < 26,
    ensures
        keysym_letter((0x41 + t) as u32) == Some(letter(t)),
        keysym_letter((0x61 + t) as u32) == Some(letter(t)),
{
}

/// The labels handed out for `count` windows are pairwise different.
pub proof fn labels_are_distinct(count: nat, i: nat, j: nat)
    requires
        i < label_count(count),
        j < label_count(count),
        i != j,
    ensures
        label_text(count, i) != label_text(count, j),
{
    if count <= 26 {
        assert(label_text(count, i)[0] != label_text(count, j)[0]);
    } else {
        vstd::arithmetic::div_mod::lemma_fundamental_div_mod(i as int, 26);
        vstd::arithmetic::div_mod::lemma_fundamental_div_mod(j as int, 26);
        assert(i / 26 < 26 && j / 26 < 26) by {
            vstd::arithmetic::div_mod::lemma_div_is_ordered(i as int, 675, 26);
            vstd::arithmetic::div_mod::lemma_div_is_ordered(j as int, 675, 26);
        }
        if i as int / 26 == j as int / 26 {
            assert(label_text(count, i)[1] != label_text(count, j)[1]);
        } else {
            assert(label_text(count, i)[0] != label_text(count, j)[0]);
        }
    }
}

/// All labels handed out for `count` windows are made of upper-case letters, one each while
/// the windows fit into the alphabet and two each beyond that.
pub proof fn labels_are_uniform(count: nat, i: nat)
    requires
        i < label_count(count),
    ensures
        label_text(count, i).len() == (if count <= 26 {
            1nat
        } else {
            2nat
        }),
        forall|k: int| 0 <= k < label_text(count, i).len() ==> is_letter(label_text(count, i)[k]),
{
    if count <= 26 {
        assert(is_letter(label_text(count, i)[0]));
    } else {
        assert(i / 26 < 26) by {
            vstd::arithmetic::div_mod::lemma_div_is_ordered(i as int, 675, 26);
        }
        assert(is_letter(label_text(count, i)[0]));
        assert(is_letter(label_text(count, i)[1]));
    }
}

proof fn lemma_candidates_distinct(ws: Seq<WindowInfo>)
    ensures
        forall|a: int, b: int|
            0 <= a < b < candidates(ws).len() ==> (#[trigger] candidates(ws)[a]).id != (
            #[trigger] candidates(ws)[b]).id,
        forall|a: int|
            0 <= a < candidates(ws).len() ==> ws.contains(#[trigger] candidates(ws)[a]) && has_size(
                candidates(ws)[a],
            ),
    decreases ws.len(),
{
    if ws.len() > 0 {
        let prev = candidates(ws.drop_last());
        lemma_candidates_distinct(ws.drop_last());
        let w = ws.last();
        let ids = prev.map_values(|x: WindowInfo| x.id);
        assert forall|a: int| 0 <= a < prev.len() implies ws.contains(#[trigger] prev[a]) by {
            let i = choose|i: int| 0 <= i < ws.drop_last().len() && ws.drop_last()[i] == prev[a];
            assert(ws[i] == prev[a]);
        }
        assert(ws[ws.len() - 1] == w);
        if has_size(w) && !ids.contains(w.id) {
            let c = prev.push(w);
            assert forall|a: int, b: int| 0 <= a < b < c.len() implies (#[trigger] c[a]).id != (
            #[trigger] c[b]).id by {
                if b == prev.len() {
                    assert(ids[a] == prev[a].id);
                }
            }
        }
    }
}

/// Opening the picker gives a session with nothing typed, at most `MAX_WINDOWS` entries, one
/// per window (no window twice, each with a visible size), and well-formed labels.
pub proof fn collected_sessions_are_well_formed(ws: Seq<WindowInfo>, t: u128, s: SessionModel)
    requires
        collected(ws, t, Some(s)),
    ensures
        well_labelled(s),
        s.prefix is None,
        s.entries.len() <= MAX_WINDOWS,
        forall|j: int, k: int|
            0 <= j < k < s.entries.len() ==> (#[trigger] s.entries[j]).0 != (
            #[trigger] s.entries[k]).0,
        forall|k: int|
            0 <= k < s.entries.len() ==> exists|i: int|
                0 <= i < ws.len() && ws[i].id == (#[trigger] s.entries[k]).0 && has_size(ws[i]),
{
    let c = candidates(ws);
    let n = label_count(c.len());
    let o = choose|o: Seq<usize>|
        {
            &&& is_focus_order(c, o)
            &&& forall|k: int|
                0 <= k < n ==> #[trigger] s.entries[k] == (
                    c[o[k] as int].id,
                    label_text(n, k as nat),
                )
        };
    lemma_candidates_distinct(ws);
    assert(label_count(n) == n);
    assert forall|k: int| 0 <= k < n implies (#[trigger] s.entries[k]).1.len() == s.entries[0].1.len() by {
        labels_are_uniform(n, k as nat);
        labels_are_uniform(n, 0);
    }
    labels_are_uniform(n, 0);
    assert forall|j: int, k: int| 0 <= j < n && 0 <= k < n && j != k implies (
    #[trigger] s.entries[j]).1 != (#[trigger] s.entries[k]).1 by {
        labels_are_distinct(n, j as nat, k as nat);
    }
    assert forall|j: int, k: int| 0 <= j < k < n implies (#[trigger] s.entries[j]).0 != (
    #[trigger] s.entries[k]).0 by {
        assert(o[j] != o[k]);
        if o[j] < o[k] {
            assert(c[o[j] as int].id != c[o[k] as int].id);
        } else {
            assert(c[o[k] as int].id != c[o[j] as int].id);
        }
    }
    assert forall|k: int| 0 <= k < n implies exists|i: int|
        0 <= i < ws.len() && ws[i].id == (#[trigger] s.entries[k]).0 && has_size(ws[i]) by {
        let w = c[o[k] as int];
        assert(ws.contains(w));
        let i = choose|i: int| 0 <= i < ws.len() && ws[i] == w;
        assert(ws[i].id == s.entries[k].0);
    }
}

pub(crate) proof fn lemma_filter_keeps_labels(
    s: Seq<(u64, Seq<char>)>,
    pred: spec_fn((u64, Seq<char>)) -> bool,
    len: nat,
)
    requires
        forall|k: int| 0 <= k < s.len() ==> (#[trigger] s[k]).1.len() == len,
        forall|j: int, k: int|
            0 <= j < s.len() && 0 <= k < s.len() && j != k ==> (#[trigger] s[j]).1 != (
            #[trigger] s[k]).1,
    ensures
        forall|k: int|
            0 <= k < s.filter(pred).len() ==> (#[trigger] s.filter(pred)[k]).1.len() == len
                && s.contains(s.filter(pred)[k]) && pred(s.filter(pred)[k]),
        forall|j: int, k: int|
            0 <= j < s.filter(pred).len() && 0 <= k < s.filter(pred).len() && j != k ==> (
            #[trigger] s.filter(pred)[j]).1 != (#[trigger] s.filter(pred)[k]).1,
    decreases s.len(),
{
    reveal(Seq::filter);
    if s.len() > 0 {
        let rest = s.drop_last();
        lemma_filter_keeps_labels(rest, pred, len);
        let f = s.filter(pred);
        let fr = rest.filter(pred);
        assert forall|k: int| 0 <= k < fr.len() implies s.contains(#[trigger] fr[k]) by {
            let i = choose|i: int| 0 <= i < rest.len() && rest[i] == fr[k];
            assert(s[i] == fr[k]);
        }
        if pred(s.last()) {
            assert(f == fr.push(s.last()));
            assert forall|k: int| 0 <= k < fr.len() implies (#[trigger] fr[k]).1 != s.last().1 by {
                let i = choose|i: int| 0 <= i < rest.len() && rest[i] == fr[k];
                assert(s[i] == fr[k]);
                assert(s[s.len() - 1] == s.last());
            }
            assert forall|j: int, k: int|
                0 <= j < f.len() && 0 <= k < f.len() && j != k implies (#[trigger] f[j]).1 != (
                #[trigger] f[k]).1 by {
                if j == fr.len() {
                    assert(f[k] == fr[k]);
                } else if k == fr.len() {
                    assert(f[j] == fr[j]);
                } else {
                    assert(f[j] == fr[j]);
                    assert(f[k] == fr[k]);
                }
            }
            assert(s[s.len() - 1] == s.last());
            assert forall|k: int| 0 <= k < f.len() implies (#[trigger] f[k]).1.len() == len
                && s.contains(f[k]) && pred(f[k]) by {
                if k < fr.len() {
                    assert(f[k] == fr[k]);
                }
            }
        } else {
            assert(f == fr);
        }
    }
}

proof fn lemma_full_filter_keeps_all(
    s: Seq<(u64, Seq<char>)>,
    pred: spec_fn((u64, Seq<char>)) -> bool,
)
    requires
        s.filter(pred).len() == s.len(),
    ensures
        forall|k: int| 0 <= k < s.len() ==> pred(#[trigger] s[k]),
    decreases s.len(),
{
    reveal(Seq::filter);
    if s.len() > 0 {
        let rest = s.drop_last();
        rest.lemma_filter_len(pred);
        if pred(s.last()) {
            lemma_full_filter_keeps_all(rest, pred);
            assert forall|k: int| 0 <= k < s.len() implies pred(#[trigger] s[k]) by {
                if k < rest.len() {
                    assert(s[k] == rest[k]);
                }
            }
        }
    }
}

/// Dropping the entries of closed windows keeps the labels well-formed: the entries left are
/// entries the picker had, with the same labels, all of live windows.
pub proof fn retaining_keeps_labels(s: SessionModel, live: Set<u64>)
    requires
        well_labelled(s),
    ensures
        match retain_transition(Some(s), live).0 {
            Some(t) => {
                &&& well_labelled(t)
                &&& forall|k: int|
                    0 <= k < t.entries.len() ==> s.entries.contains(#[trigger] t.entries[k])
                        && live.contains(t.entries[k].0)
            },
            None => forall|k: int|
                0 <= k < s.entries.len() ==> !live.contains(#[trigger] s.entries[k].0),
        },
{
    let pred = |e: (u64, Seq<char>)| live.contains(e.0);
    let kept = live_entries(s.entries, live);
    assert(kept == s.entries.filter(pred));
    lemma_filter_keeps_labels(s.entries, pred, s.entries[0].1.len());
    if kept.len() == 0 {
        assert forall|k: int| 0 <= k < s.entries.len() implies !live.contains(
            #[trigger] s.entries[k].0,
        ) by {
            if live.contains(s.entries[k].0) {
                s.entries.lemma_filter_contains(pred, k);
            }
        }
    } else if kept.len() < s.entries.len() {
        assert(kept[0].1.len() == s.entries[0].1.len());
    } else {
        lemma_full_filter_keeps_all(s.entries, pred);
        assert forall|k: int| 0 <= k < s.entries.len() implies s.entries.contains(
            #[trigger] s.entries[k],
        ) && live.contains(s.entries[k].0) by {
            assert(pred(s.entries[k]));
        }
    }
}


proof fn lemma_focus_order_covers(c: Seq<WindowInfo>, o: Seq<usize>, x: int)
    requires
        is_focus_order(c, o),
        0 <= x < c.len(),
    ensures
        exists|i: int| 0 <= i < o.len() && o[i] as int == x,
{
    let m = o.map_values(|v: usize| v as int);
    assert(m.no_duplicates()) by {
        assert forall|i: int, j: int| 0 <= i < m.len() && 0 <= j < m.len() && i != j implies m[i]
            != m[j] by {
            if i < j {
                assert(o[i] != o[j]);
            } else {
                assert(o[j] != o[i]);
            }
        }
    }
    m.unique_seq_to_set();
    let range = vstd::set_lib::set_int_range(0, c.len() as int);
    vstd::set_lib::lemma_int_range(0, c.len() as int);
    assert(m.to_set().subset_of(range)) by {
        assert forall|v: int| m.to_set().contains(v) implies range.contains(v) by {
            let i = choose|i: int| 0 <= i < m.len() && m[i] == v;
            assert(o[i] < c.len());
        }
    }
    vstd::set_lib::lemma_set_subset_finite(range, m.to_set());
    vstd::set_lib::lemma_subset_equality(m.to_set(), range);
    assert(range.contains(x));
    assert(m.to_set().contains(x));
    let i = choose|i: int| 0 <= i < m.len() && m[i] == x;
    assert(o[i] as int == x);
}

proof fn lemma_focus_orders_agree_at(c: Seq<WindowInfo>, o1: Seq<usize>, o2: Seq<usize>, j: int)
    requires
        is_focus_order(c, o1),
        is_focus_order(c, o2),
        0 <= j < o1.len(),
        forall|i: int| 0 <= i < j ==> o1[i] == o2[i],
    ensures
        o1[j] == o2[j],
{
    let a = o1[j];
    let b = o2[j];
    if a != b {
        lemma_focus_order_covers(c, o1, b as int);
        let p = choose|i: int| 0 <= i < o1.len() && o1[i] as int == b as int;
        lemma_focus_order_covers(c, o2, a as int);
        let q = choose|i: int| 0 <= i < o2.len() && o2[i] as int == a as int;
        if p < j {
            assert(o2[p] == b);
        }
        if q < j {
            assert(o1[q] == a);
        }
        assert(precedes(c, o1[j] as int, o1[p] as int));
        assert(precedes(c, o2[j] as int, o2[q] as int));
    }
}

proof fn lemma_focus_orders_agree_below(c: Seq<WindowInfo>, o1: Seq<usize>, o2: Seq<usize>, j: int)
    requires
        is_focus_order(c, o1),
        is_focus_order(c, o2),
        0 <= j <= o1.len(),
    ensures
        forall|i: int| 0 <= i < j ==> o1[i] == o2[i],
    decreases j,
{
    if j > 0 {
        lemma_focus_orders_agree_below(c, o1, o2, j - 1);
        lemma_focus_orders_agree_at(c, o1, o2, j - 1);
    }
}

/// Only one order lists every candidate once with more recently focused windows first and
/// ties in the given order, so the session that opening the picker yields is fully determined.
pub proof fn focus_order_is_unique(c: Seq<WindowInfo>, o1: Seq<usize>, o2: Seq<usize>)
    requires
        is_focus_order(c, o1),
        is_focus_order(c, o2),
    ensures
        o1 == o2,
{
    lemma_focus_orders_agree_below(c, o1, o2, o1.len() as int);
    assert(o1 =~= o2);
}


/// The upper-case character a letter key types: lower-case keys type their upper-case letter.
pub open spec fn typed_code(raw: u32) -> int {
    if raw >= 0x61 {
        raw - 0x20
    } else {
        raw as int
    }
}

/// Exactly the keys A-Z and a-z are letters, and each types its upper-case letter.
pub proof fn letter_keys_type_their_letter(raw: u32)
    ensures
        keysym_letter(raw) is Some <==> (0x41 <= raw <= 0x5a || 0x61 <= raw <= 0x7a),
        keysym_letter(raw) is Some ==> keysym_letter(raw)->0 as int == typed_code(raw),
{
}

/// A key that is neither Escape, nor BackSpace, nor a letter changes nothing and chooses
/// nothing.
pub proof fn other_keys_change_nothing(ui: Option<SessionModel>, raw: u32)
    requires
        raw != 0xff1b,
        raw != 0xff08,
        !(0x41 <= raw <= 0x5a),
        !(0x61 <= raw <= 0x7a),
    ensures
        key_transition(ui, raw) == (ui, WindowPickerKeyResult::Handled),
{
}

/// A closed picker ignores every key.
pub proof fn closed_picker_ignores_keys(raw: u32)
    ensures
        key_transition(None, raw) == (None::<SessionModel>, WindowPickerKeyResult::Handled),
{
}

/// BackSpace forgets the typed letter and keeps everything else.
pub proof fn backspace_forgets_the_letter(s: SessionModel)
    ensures
        key_transition(Some(s), 0xff08) == (
            Some(SessionModel { entries: s.entries, prefix: None, opened_at: s.opened_at }),
            WindowPickerKeyResult::Handled,
        ),
{
}

/// Letter keys never close the picker.
pub proof fn letters_keep_the_picker_open(s: SessionModel, raw: u32)
    requires
        0x41 <= raw <= 0x5a || 0x61 <= raw <= 0x7a,
    ensures
        key_transition(Some(s), raw).0 is Some,
{
}

/// The window a letter chooses is the first entry whose label the keys typed spell: with
/// one-letter labels, the first label beginning with the letter; otherwise the first label
/// beginning with the remembered letter followed by this one. Choosing never changes the
/// picker.
pub proof fn selection_spells_the_label(s: SessionModel, raw: u32, id: u64)
    requires
        key_transition(Some(s), raw).1 == WindowPickerKeyResult::Selected(id),
    ensures
        key_transition(Some(s), raw).0 == Some(s),
        0x41 <= raw <= 0x5a || 0x61 <= raw <= 0x7a,
        exists|k: int|
            {
                &&& 0 <= k < s.entries.len()
                &&& #[trigger] s.entries[k].0 == id
                &&& if s.entries.len() > 0 && s.entries[0].1.len() == 1 {
                    &&& s.entries[k].1.len() > 0
                    &&& s.entries[k].1[0] as int == typed_code(raw)
                    &&& forall|j: int|
                        0 <= j < k ==> !(s.entries[j].1.len() > 0 && s.entries[j].1[0] as int
                            == typed_code(raw))
                } else {
                    &&& s.prefix is Some
                    &&& s.entries[k].1.len() >= 2
                    &&& s.entries[k].1[0] == s.prefix->0
                    &&& s.entries[k].1[1] as int == typed_code(raw)
                    &&& forall|j: int|
                        0 <= j < k ==> !(s.entries[j].1.len() >= 2 && s.entries[j].1[0]
                            == s.prefix->0 && s.entries[j].1[1] as int == typed_code(raw))
                }
            },
{
    let c = keysym_letter(raw)->0;
    letter_keys_type_their_letter(raw);
    if single_letter_labels(s) {
        lemma_first_starting_with_is_first(s.entries, c);
    } else {
        lemma_first_with_pair_is_first(s.entries, s.prefix->0, c);
    }
}

proof fn lemma_first_starting_with_is_first(e: Seq<(u64, Seq<char>)>, c: char)
    requires
        first_starting_with(e, c) is Some,
    ensures
        exists|k: int|
            {
                &&& 0 <= k < e.len()
                &&& #[trigger] e[k].0 == first_starting_with(e, c)->0
                &&& e[k].1.len() > 0
                &&& e[k].1[0] == c
                &&& forall|j: int| 0 <= j < k ==> !(e[j].1.len() > 0 && e[j].1[0] == c)
            },
    decreases e.len(),
{
    if !starts_with(e[0].1, c) {
        let rest = e.drop_first();
        lemma_first_starting_with_is_first(rest, c);
        let k = choose|k: int|
            {
                &&& 0 <= k < rest.len()
                &&& #[trigger] rest[k].0 == first_starting_with(rest, c)->0
                &&& rest[k].1.len() > 0
                &&& rest[k].1[0] == c
                &&& forall|j: int| 0 <= j < k ==> !(rest[j].1.len() > 0 && rest[j].1[0] == c)
            };
        assert(e[k + 1] == rest[k]);
        assert forall|j: int| 0 <= j < k + 1 implies !(e[j].1.len() > 0 && e[j].1[0] == c) by {
            if j > 0 {
                assert(e[j] == rest[j - 1]);
            }
        }
    } else {
        assert(e[0].0 == first_starting_with(e, c)->0);
    }
}

proof fn lemma_first_with_pair_is_first(e: Seq<(u64, Seq<char>)>, p: char, c: char)
    requires
        first_with_pair(e, p, c) is Some,
    ensures
        exists|k: int|
            {
                &&& 0 <= k < e.len()
                &&& #[trigger] e[k].0 == first_with_pair(e, p, c)->0
                &&& e[k].1.len() >= 2
                &&& e[k].1[0] == p
                &&& e[k].1[1] == c
                &&& forall|j: int|
                    0 <= j < k ==> !(e[j].1.len() >= 2 && e[j].1[0] == p && e[j].1[1] == c)
            },
    decreases e.len(),
{
    if !begins_with_pair(e[0].1, p, c) {
        let rest = e.drop_first();
        lemma_first_with_pair_is_first(rest, p, c);
        let k = choose|k: int|
            {
                &&& 0 <= k < rest.len()
                &&& #[trigger] rest[k].0 == first_with_pair(rest, p, c)->0
                &&& rest[k].1.len() >= 2
                &&& rest[k].1[0] == p
                &&& rest[k].1[1] == c
                &&& forall|j: int|
                    0 <= j < k ==> !(rest[j].1.len() >= 2 && rest[j].1[0] == p && rest[j].1[1]
                        == c)
            };
        assert(e[k + 1] == rest[k]);
        assert forall|j: int|
            0 <= j < k + 1 implies !(e[j].1.len() >= 2 && e[j].1[0] == p && e[j].1[1] == c) by {
            if j > 0 {
                assert(e[j] == rest[j - 1]);
            }
        }
    } else {
        assert(e[0].0 == first_with_pair(e, p, c)->0);
    }
}

/// With one-letter labels, a letter chooses the first entry whose label begins with it; with
/// letter pairs and a remembered letter, the first entry whose label begins with both; with
/// letter pairs and nothing remembered, a letter that begins some label is remembered. When
/// no label fits, the key is answered `Handled` and nothing changes.
pub proof fn letters_choose_the_first_fitting_entry(s: SessionModel, raw: u32, k: int)
    requires
        0x41 <= raw <= 0x5a || 0x61 <= raw <= 0x7a,
        0 <= k < s.entries.len(),
    ensures
        s.entries[0].1.len() == 1 && s.entries[k].1.len() > 0 && s.entries[k].1[0] as int
            == typed_code(raw) && (forall|j: int|
            0 <= j < k ==> !(s.entries[j].1.len() > 0 && s.entries[j].1[0] as int == typed_code(
                raw,
            ))) ==> key_transition(Some(s), raw) == (
            Some(s),
            WindowPickerKeyResult::Selected(s.entries[k].0),
        ),
        s.entries[0].1.len() != 1 && s.prefix is Some && s.entries[k].1.len() >= 2
            && s.entries[k].1[0] == s.prefix->0 && s.entries[k].1[1] as int == typed_code(raw)
            && (forall|j: int|
            0 <= j < k ==> !(s.entries[j].1.len() >= 2 && s.entries[j].1[0] == s.prefix->0
                && s.entries[j].1[1] as int == typed_code(raw))) ==> key_transition(Some(s), raw)
            == (Some(s), WindowPickerKeyResult::Selected(s.entries[k].0)),
        s.entries[0].1.len() != 1 && s.prefix is None && s.entries[k].1.len() > 0
            && s.entries[k].1[0] as int == typed_code(raw) ==> key_transition(Some(s), raw) == (
            Some(
                SessionModel {
                    entries: s.entries,
                    prefix: Some(s.entries[k].1[0]),
                    opened_at: s.opened_at,
                },
            ),
            WindowPickerKeyResult::Handled,
        ),
{
    letter_keys_type_their_letter(raw);
    let c = keysym_letter(raw)->0;
    let e = s.entries;
    if e[k].1.len() > 0 && e[k].1[0] as int == typed_code(raw) {
        assert(e[k].1[0] == c);
        if (forall|j: int| 0 <= j < k ==> !(e[j].1.len() > 0 && e[j].1[0] as int == typed_code(raw))) {
            assert forall|j: int| 0 <= j < k implies !starts_with(#[trigger] e[j].1, c) by {
                if starts_with(e[j].1, c) {
                    assert(e[j].1[0] as int == c as int);
                }
            }
            lemma_first_starting_with_at(e, c, k);
        }
        lemma_first_letter_found(e, c, k);
    }
    if s.prefix is Some && e[k].1.len() >= 2 && e[k].1[0] == s.prefix->0 && e[k].1[1] as int
        == typed_code(raw) && (forall|j: int|
        0 <= j < k ==> !(e[j].1.len() >= 2 && e[j].1[0] == s.prefix->0 && e[j].1[1] as int
            == typed_code(raw))) {
        let p = s.prefix->0;
        assert(e[k].1[1] == c);
        assert forall|j: int| 0 <= j < k implies !begins_with_pair(#[trigger] e[j].1, p, c) by {
            if begins_with_pair(e[j].1, p, c) {
                assert(e[j].1[1] as int == c as int);
            }
        }
        lemma_first_with_pair_at(e, p, c, k);
    }
}

/// With a typed letter, an entry is dimmed exactly when its label does not begin with that
/// letter; with nothing typed, no entry is dimmed.
pub proof fn dimming_follows_the_typed_letter(prefix: Option<char>, label: Seq<char>)
    ensures
        prefix is None ==> !dimmed(prefix, label),
        prefix is Some ==> (dimmed(prefix, label) <==> !(label.len() > 0 && label[0]
            == prefix->0)),
{
}


/// Labels count the windows in letters: up to 26 windows, window `i` gets the `i`-th letter
/// of the alphabet; beyond that, two letters read as a base-26 number give `i`. At most 676
/// windows get a label, and every window gets one up to that.
pub proof fn labels_count_in_letters(count: nat, i: nat)
    requires
        i < label_count(count),
    ensures
        label_count(count) <= count,
        label_count(count) <= 676,
        count <= 676 ==> label_count(count) == count,
        count <= 26 ==> label_text(count, i).len() == 1 && label_text(count, i)[0] as int - 65
            == i,
        count > 26 ==> label_text(count, i).len() == 2 && 0 <= label_text(count, i)[0] as int
            - 65 < 26 && 0 <= label_text(count, i)[1] as int - 65 < 26 && (label_text(count, i)[0]
            as int - 65) * 26 + (label_text(count, i)[1] as int - 65) == i,
{
    if count > 26 {
        vstd::arithmetic::div_mod::lemma_fundamental_div_mod(i as int, 26);
        assert(i / 26 < 26) by {
            vstd::arithmetic::div_mod::lemma_div_is_ordered(i as int, 675, 26);
        }
        assert(26 * (i as int / 26) == (i as int / 26) * 26) by (nonlinear_arith);
    }
}


/// Window `i` of `ws` has a visible size and no earlier window with a visible size has its id.
pub open spec fn first_visible_at(ws: Seq<WindowInfo>, i: int) -> bool {
    &&& 0 <= i < ws.len()
    &&& ws[i].width > 0
    &&& ws[i].height > 0
    &&& forall|j: int|
        0 <= j < i ==> !(ws[j].width > 0 && ws[j].height > 0 && #[trigger] ws[j].id == ws[i].id)
}

/// Window `w` is the first visible appearance of its id in `ws`.
pub open spec fn appears_first_visible(ws: Seq<WindowInfo>, w: WindowInfo) -> bool {
    exists|i: int| first_visible_at(ws, i) && ws[i] == w
}

/// Every window the picker offers is a first visible appearance in `ws`.
#[verifier::opaque]
pub open spec fn offered_are_first_visible(ws: Seq<WindowInfo>) -> bool {
    forall|a: int|
        0 <= a < candidates(ws).len() ==> appears_first_visible(ws, #[trigger] candidates(ws)[a])
}

/// Every first visible appearance in `ws` is offered.
#[verifier::opaque]
pub open spec fn first_visible_are_offered(ws: Seq<WindowInfo>) -> bool {
    forall|i: int|
        first_visible_at(ws, i) ==> exists|a: int|
            0 <= a < candidates(ws).len() && #[trigger] candidates(ws)[a] == ws[i]
}

/// The offered windows keep the order in which they first appear in `ws`.
#[verifier::opaque]
pub open spec fn offered_in_given_order(ws: Seq<WindowInfo>) -> bool {
    forall|a: int, b: int, i: int, j: int|
        #![trigger first_visible_at(ws, i), first_visible_at(ws, j), candidates(ws)[a], candidates(ws)[b]]
        0 <= a < b < candidates(ws).len() && first_visible_at(ws, i) && first_visible_at(ws, j)
            && ws[i] == candidates(ws)[a] && ws[j] == candidates(ws)[b] ==> i < j
}

proof fn lemma_prefix_first_visible(ws: Seq<WindowInfo>, i: int)
    requires
        ws.len() > 0,
        0 <= i < ws.len() - 1,
    ensures
        first_visible_at(ws, i) == first_visible_at(ws.drop_last(), i),
{
    assert forall|j: int| 0 <= j <= i implies ws[j] == ws.drop_last()[j] by {}
}

proof fn lemma_last_first_visible(ws: Seq<WindowInfo>)
    requires
        ws.len() > 0,
        offered_are_first_visible(ws.drop_last()),
        first_visible_are_offered(ws.drop_last()),
    ensures
        first_visible_at(ws, ws.len() - 1) <==> (has_size(ws.last()) && !candidates(
            ws.drop_last(),
        ).map_values(|x: WindowInfo| x.id).contains(ws.last().id)),
{
    reveal(offered_are_first_visible);
    reveal(first_visible_are_offered);
    let n = ws.len() - 1;
    let prev_ws = ws.drop_last();
    let prev = candidates(prev_ws);
    let w = ws[n];
    assert(ws.last() == w);
    let ids = prev.map_values(|x: WindowInfo| x.id);
    if has_size(w) && ids.contains(w.id) {
        let a = choose|a: int| 0 <= a < ids.len() && ids[a] == w.id;
        assert(prev[a].id == w.id);
        let i = choose|i: int| first_visible_at(prev_ws, i) && prev_ws[i] == prev[a];
        assert(ws[i] == prev_ws[i]);
    }
    if has_size(w) && !ids.contains(w.id) {
        assert forall|j: int| 0 <= j < n implies !(ws[j].width > 0 && ws[j].height > 0
            && #[trigger] ws[j].id == ws[n].id) by {
            if ws[j].width > 0 && ws[j].height > 0 && ws[j].id == w.id {
                assert(ws[j] == prev_ws[j]);
                lemma_first_visible_exists(prev_ws, j);
                let f = choose|f: int|
                    first_visible_at(prev_ws, f) && prev_ws[f].id == prev_ws[j].id;
                let a = choose|a: int| 0 <= a < prev.len() && prev[a] == prev_ws[f];
                assert(ids[a] == w.id);
            }
        }
    }
}

proof fn lemma_offered_one(ws: Seq<WindowInfo>, a: int)
    requires
        ws.len() > 0,
        offered_are_first_visible(ws.drop_last()),
        first_visible_are_offered(ws.drop_last()),
        0 <= a < candidates(ws).len(),
    ensures
        appears_first_visible(ws, candidates(ws)[a]),
{
    lemma_last_first_visible(ws);
    reveal(offered_are_first_visible);
    let n = ws.len() - 1;
    let prev_ws = ws.drop_last();
    let prev = candidates(prev_ws);
    let c = candidates(ws);
    let w = ws[n];
    assert(ws.last() == w);
    if a < prev.len() {
        assert(c[a] == prev[a]);
        let i = choose|i: int| first_visible_at(prev_ws, i) && prev_ws[i] == prev[a];
        lemma_prefix_first_visible(ws, i);
        assert(ws[i] == prev_ws[i]);
        assert(first_visible_at(ws, i) && ws[i] == c[a]);
    } else {
        assert(c.len() != prev.len());
        assert(c == prev.push(w));
        assert(first_visible_at(ws, n) && ws[n] == c[a]);
    }
}

proof fn lemma_offered_are_first_visible_step(ws: Seq<WindowInfo>)
    requires
        ws.len() > 0,
        offered_are_first_visible(ws.drop_last()),
        first_visible_are_offered(ws.drop_last()),
    ensures
        offered_are_first_visible(ws),
{
    reveal(offered_are_first_visible);
    assert forall|a: int| 0 <= a < candidates(ws).len() implies appears_first_visible(
        ws,
        #[trigger] candidates(ws)[a],
    ) by {
        lemma_offered_one(ws, a);
    }
}

proof fn lemma_first_visible_are_offered_step(ws: Seq<WindowInfo>)
    requires
        ws.len() > 0,
        offered_are_first_visible(ws.drop_last()),
        first_visible_are_offered(ws.drop_last()),
    ensures
        first_visible_are_offered(ws),
{
    lemma_last_first_visible(ws);
    reveal(first_visible_are_offered);
    let n = ws.len() - 1;
    let prev_ws = ws.drop_last();
    let prev = candidates(prev_ws);
    let c = candidates(ws);
    assert forall|i: int| first_visible_at(ws, i) implies exists|a: int|
        0 <= a < c.len() && #[trigger] c[a] == ws[i] by {
        if i < n {
            lemma_prefix_first_visible(ws, i);
            assert(ws[i] == prev_ws[i]);
            let a = choose|a: int| 0 <= a < prev.len() && prev[a] == prev_ws[i];
            assert(c[a] == prev[a]);
        } else {
            assert(ws.last() == ws[n]);
            assert(c[prev.len() as int] == ws[n]);
        }
    }
}

proof fn lemma_offered_in_given_order_step(ws: Seq<WindowInfo>)
    requires
        ws.len() > 0,
        offered_are_first_visible(ws.drop_last()),
        first_visible_are_offered(ws.drop_last()),
        offered_in_given_order(ws.drop_last()),
    ensures
        offered_in_given_order(ws),
{
    lemma_last_first_visible(ws);
    lemma_candidates_distinct(ws.drop_last());
    reveal(offered_in_given_order);
    let n = ws.len() - 1;
    let prev_ws = ws.drop_last();
    let prev = candidates(prev_ws);
    let c = candidates(ws);
    let w = ws[n];
    assert(ws.last() == w);
    let ids = prev.map_values(|x: WindowInfo| x.id);
    assert forall|a: int, b: int, i: int, j: int|
        #![trigger first_visible_at(ws, i), first_visible_at(ws, j), c[a], c[b]]
        0 <= a < b < c.len() && first_visible_at(ws, i) && first_visible_at(ws, j) && ws[i]
            == c[a] && ws[j] == c[b] implies i < j by {
        if b < prev.len() {
            assert(c[a] == prev[a] && c[b] == prev[b]);
            if i == n {
                assert(ids[a] == w.id);
            }
            if j == n {
                assert(ids[b] == w.id);
            }
            lemma_prefix_first_visible(ws, i);
            lemma_prefix_first_visible(ws, j);
            assert(ws[i] == prev_ws[i]);
            assert(ws[j] == prev_ws[j]);
            assert(first_visible_at(prev_ws, i) && first_visible_at(prev_ws, j));
        } else {
            assert(c[b] == w);
            assert(c[a] == prev[a]);
            if j < n {
                assert(!(ws[j].width > 0 && ws[j].height > 0 && ws[j].id == ws[n].id));
            }
            if i == n {
                assert(ids[a] == w.id);
            }
        }
    }
}

/// The picker offers each window with a visible size once, at its first such appearance, and
/// keeps the given order among them.
pub proof fn candidates_are_the_visible_windows(ws: Seq<WindowInfo>)
    ensures
        offered_are_first_visible(ws),
        first_visible_are_offered(ws),
        offered_in_given_order(ws),
    decreases ws.len(),
{
    if ws.len() == 0 {
        reveal(offered_are_first_visible);
        reveal(first_visible_are_offered);
        reveal(offered_in_given_order);
    } else {
        candidates_are_the_visible_windows(ws.drop_last());
        lemma_offered_are_first_visible_step(ws);
        lemma_first_visible_are_offered_step(ws);
        lemma_offered_in_given_order_step(ws);
    }
}

proof fn lemma_first_visible_exists(ws: Seq<WindowInfo>, j: int)
    requires
        0 <= j < ws.len(),
        ws[j].width > 0,
        ws[j].height > 0,
    ensures
        exists|f: int| first_visible_at(ws, f) && ws[f].id == ws[j].id,
    decreases j,
{
    if !first_visible_at(ws, j) {
        let k = choose|k: int|
            0 <= k < j && ws[k].width > 0 && ws[k].height > 0 && #[trigger] ws[k].id == ws[j].id;
        lemma_first_visible_exists(ws, k);
    }
}


/// Some window of `ws` with this id has a visible size (and so a first visible appearance).
pub open spec fn has_visible_window(ws: Seq<WindowInfo>, id: u64) -> bool {
    exists|i: int| first_visible_at(ws, i) && ws[i].id == id
}

/// The session offers the window with this id.
pub open spec fn offers(s: SessionModel, id: u64) -> bool {
    exists|k: int| 0 <= k < s.entries.len() && s.entries[k].0 == id
}

/// Whether the window first visible at `i1`, focused at `x`, is listed before the one first
/// visible at `i2`, focused at `y`: more recently focused first, never focused last, and in
/// the given order when equally recent.
pub open spec fn listed_before(x: Option<u128>, y: Option<u128>, i1: int, i2: int) -> bool {
    match (x, y) {
        (Some(a), Some(b)) => a > b || (a == b && i1 < i2),
        (Some(_), None) => true,
        (None, Some(_)) => false,
        (None, None) => i1 < i2,
    }
}

/// Opening the picker offers no session exactly when no window has a visible size.
pub proof fn collect_needs_a_visible_window(ws: Seq<WindowInfo>, t: u128)
    ensures
        collected(ws, t, None) <==> forall|i: int|
            0 <= i < ws.len() ==> !(#[trigger] ws[i].width > 0 && ws[i].height > 0),
{
    candidates_are_the_visible_windows(ws);
    reveal(offered_are_first_visible);
    reveal(first_visible_are_offered);
    if candidates(ws).len() > 0 {
        assert(appears_first_visible(ws, candidates(ws)[0]));
        let i = choose|i: int| first_visible_at(ws, i) && ws[i] == candidates(ws)[0];
        assert(ws[i].width > 0 && ws[i].height > 0);
    } else {
        assert forall|i: int| 0 <= i < ws.len() implies !(#[trigger] ws[i].width > 0
            && ws[i].height > 0) by {
            if ws[i].width > 0 && ws[i].height > 0 {
                lemma_first_visible_exists(ws, i);
                let f = choose|f: int| first_visible_at(ws, f) && ws[f].id == ws[i].id;
                assert(first_visible_at(ws, f));
            }
        }
    }
}

proof fn lemma_entry_is_candidate(ws: Seq<WindowInfo>, o: Seq<usize>, i: int, id: u64, a: int)
    requires
        is_focus_order(candidates(ws), o),
        first_visible_at(ws, i),
        ws[i].id == id,
        0 <= a < o.len(),
        candidates(ws)[o[a] as int].id == id,
    ensures
        candidates(ws)[o[a] as int] == ws[i],
{
    candidates_are_the_visible_windows(ws);
    lemma_candidates_distinct(ws);
    reveal(first_visible_are_offered);
    let c = candidates(ws);
    let b = choose|b: int| 0 <= b < c.len() && #[trigger] c[b] == ws[i];
    if b != o[a] as int {
        if b < o[a] {
            assert(c[b].id != c[o[a] as int].id);
        } else {
            assert(c[o[a] as int].id != c[b].id);
        }
    }
}

proof fn lemma_collect_entries_visible(ws: Seq<WindowInfo>, t: u128, s: SessionModel)
    requires
        collected(ws, t, Some(s)),
    ensures
        forall|k: int|
            0 <= k < s.entries.len() ==> has_visible_window(ws, (#[trigger] s.entries[k]).0),
{
    let c = candidates(ws);
    let n = label_count(c.len());
    let o = choose|o: Seq<usize>|
        {
            &&& is_focus_order(c, o)
            &&& forall|k: int|
                0 <= k < n ==> #[trigger] s.entries[k] == (
                    c[o[k] as int].id,
                    label_text(n, k as nat),
                )
        };
    candidates_are_the_visible_windows(ws);
    reveal(offered_are_first_visible);
    assert forall|k: int| 0 <= k < n implies has_visible_window(ws, (#[trigger] s.entries[k]).0) by {
        assert(appears_first_visible(ws, c[o[k] as int]));
        let i = choose|i: int| first_visible_at(ws, i) && ws[i] == c[o[k] as int];
        assert(ws[i].id == s.entries[k].0);
    }
}

proof fn lemma_collect_all_offered(ws: Seq<WindowInfo>, t: u128, s: SessionModel)
    requires
        collected(ws, t, Some(s)),
    ensures
        s.entries.len() < 676 ==> forall|i: int|
            #[trigger] first_visible_at(ws, i) ==> offers(s, ws[i].id),
{
    let c = candidates(ws);
    let n = label_count(c.len());
    let o = choose|o: Seq<usize>|
        {
            &&& is_focus_order(c, o)
            &&& forall|k: int|
                0 <= k < n ==> #[trigger] s.entries[k] == (
                    c[o[k] as int].id,
                    label_text(n, k as nat),
                )
        };
    candidates_are_the_visible_windows(ws);
    reveal(first_visible_are_offered);
    if n < 676 {
        assert forall|i: int| #[trigger] first_visible_at(ws, i) implies offers(s, ws[i].id) by {
            let b = choose|b: int| 0 <= b < c.len() && #[trigger] c[b] == ws[i];
            lemma_focus_order_covers(c, o, b);
            let k = choose|k: int| 0 <= k < o.len() && o[k] as int == b;
            assert(s.entries[k].0 == ws[i].id);
        }
    }
}

proof fn lemma_collect_order(ws: Seq<WindowInfo>, t: u128, s: SessionModel)
    requires
        collected(ws, t, Some(s)),
    ensures
        forall|j: int, k: int, i1: int, i2: int|
            #![trigger s.entries[j], s.entries[k], first_visible_at(ws, i1), first_visible_at(ws, i2)]
            0 <= j < k < s.entries.len() && first_visible_at(ws, i1) && ws[i1].id
                == s.entries[j].0 && first_visible_at(ws, i2) && ws[i2].id == s.entries[k].0
                ==> listed_before(ws[i1].focus_timestamp, ws[i2].focus_timestamp, i1, i2),
{
    let c = candidates(ws);
    let n = label_count(c.len());
    let o = choose|o: Seq<usize>|
        {
            &&& is_focus_order(c, o)
            &&& forall|k: int|
                0 <= k < n ==> #[trigger] s.entries[k] == (
                    c[o[k] as int].id,
                    label_text(n, k as nat),
                )
        };
    candidates_are_the_visible_windows(ws);
    reveal(offered_in_given_order);
    assert forall|j: int, k: int, i1: int, i2: int|
        #![trigger s.entries[j], s.entries[k], first_visible_at(ws, i1), first_visible_at(ws, i2)]
        0 <= j < k < n && first_visible_at(ws, i1) && ws[i1].id == s.entries[j].0
            && first_visible_at(ws, i2) && ws[i2].id == s.entries[k].0 implies listed_before(
        ws[i1].focus_timestamp,
        ws[i2].focus_timestamp,
        i1,
        i2,
    ) by {
        lemma_entry_is_candidate(ws, o, i1, s.entries[j].0, j);
        lemma_entry_is_candidate(ws, o, i2, s.entries[k].0, k);
        assert(precedes(c, o[j] as int, o[k] as int));
        if (o[j] as int) < (o[k] as int) {
            assert(first_visible_at(ws, i1) && first_visible_at(ws, i2) && c[o[j] as int]
                == ws[i1] && c[o[k] as int] == ws[i2]);
        }
    }
}

proof fn lemma_collect_labels(ws: Seq<WindowInfo>, t: u128, s: SessionModel)
    requires
        collected(ws, t, Some(s)),
    ensures
        forall|k: int|
            0 <= k < s.entries.len() && s.entries.len() <= 26 ==> (#[trigger] s.entries[k]).1.len()
                == 1 && s.entries[k].1[0] as int - 65 == k,
        forall|k: int|
            0 <= k < s.entries.len() && s.entries.len() > 26 ==> (#[trigger] s.entries[k]).1.len()
                == 2 && 0 <= s.entries[k].1[1] as int - 65 < 26 && (s.entries[k].1[0] as int - 65)
                * 26 + (s.entries[k].1[1] as int - 65) == k,
{
    let c = candidates(ws);
    let n = label_count(c.len());
    let o = choose|o: Seq<usize>|
        {
            &&& is_focus_order(c, o)
            &&& forall|k: int|
                0 <= k < n ==> #[trigger] s.entries[k] == (
                    c[o[k] as int].id,
                    label_text(n, k as nat),
                )
        };
    assert forall|k: int| 0 <= k < n && n <= 26 implies (#[trigger] s.entries[k]).1.len() == 1
        && s.entries[k].1[0] as int - 65 == k by {
        labels_count_in_letters(n, k as nat);
    }
    assert forall|k: int| 0 <= k < n && n > 26 implies (#[trigger] s.entries[k]).1.len() == 2
        && 0 <= s.entries[k].1[1] as int - 65 < 26 && (s.entries[k].1[0] as int - 65) * 26 + (
    s.entries[k].1[1] as int - 65) == k by {
        labels_count_in_letters(n, k as nat);
    }
}

/// Opening the picker offers, as long as fewer than 676 entries are shown, every window with a
/// visible size (once, by its first such appearance), lists them most recently focused first
/// (never focused last, ties in the given order), labels entry `k` with the letters that count
/// to `k`, and starts with nothing typed.
pub proof fn collect_offers_windows_by_recency(ws: Seq<WindowInfo>, t: u128, s: SessionModel)
    requires
        collected(ws, t, Some(s)),
    ensures
        s.prefix is None,
        s.opened_at == t,
        0 < s.entries.len() <= 676,
        forall|k: int|
            0 <= k < s.entries.len() ==> has_visible_window(ws, (#[trigger] s.entries[k]).0),
        s.entries.len() < 676 ==> forall|i: int|
            #[trigger] first_visible_at(ws, i) ==> offers(s, ws[i].id),
        forall|j: int, k: int, i1: int, i2: int|
            #![trigger s.entries[j], s.entries[k], first_visible_at(ws, i1), first_visible_at(ws, i2)]
            0 <= j < k < s.entries.len() && first_visible_at(ws, i1) && ws[i1].id
                == s.entries[j].0 && first_visible_at(ws, i2) && ws[i2].id == s.entries[k].0
                ==> listed_before(ws[i1].focus_timestamp, ws[i2].focus_timestamp, i1, i2),
        forall|k: int|
            0 <= k < s.entries.len() && s.entries.len() <= 26 ==> (#[trigger] s.entries[k]).1.len()
                == 1 && s.entries[k].1[0] as int - 65 == k,
        forall|k: int|
            0 <= k < s.entries.len() && s.entries.len() > 26 ==> (#[trigger] s.entries[k]).1.len()
                == 2 && 0 <= s.entries[k].1[1] as int - 65 < 26 && (s.entries[k].1[0] as int - 65)
                * 26 + (s.entries[k].1[1] as int - 65) == k,
{
    lemma_collect_entries_visible(ws, t, s);
    lemma_collect_all_offered(ws, t, s);
    lemma_collect_order(ws, t, s);
    lemma_collect_labels(ws, t, s);
}


/// `x` comes before `y` in `s`.
pub open spec fn in_order<A>(s: Seq<A>, x: A, y: A) -> bool {
    exists|i: int, j: int| 0 <= i < j < s.len() && s[i] == x && s[j] == y
}

proof fn lemma_filter_keeps_order(
    s: Seq<(u64, Seq<char>)>,
    pred: spec_fn((u64, Seq<char>)) -> bool,
)
    ensures
        forall|a: int, b: int|
            0 <= a < b < s.filter(pred).len() ==> in_order(
                s,
                #[trigger] s.filter(pred)[a],
                #[trigger] s.filter(pred)[b],
            ),
    decreases s.len(),
{
    reveal(Seq::filter);
    if s.len() > 0 {
        let rest = s.drop_last();
        lemma_filter_keeps_order(rest, pred);
        let f = s.filter(pred);
        let fr = rest.filter(pred);
        let n = s.len() - 1;
        assert forall|a: int, b: int| 0 <= a < b < f.len() implies in_order(
            s,
            #[trigger] f[a],
            #[trigger] f[b],
        ) by {
            if pred(s.last()) {
                assert(f == fr.push(s.last()));
            } else {
                assert(f == fr);
            }
            assert(f[a] == fr[a]);
            if b < fr.len() {
                assert(f[b] == fr[b]);
                assert(in_order(rest, fr[a], fr[b]));
                let (i, j) = choose|i: int, j: int|
                    0 <= i < j < rest.len() && rest[i] == fr[a] && rest[j] == fr[b];
                assert(s[i] == rest[i] && s[j] == rest[j]);
            } else {
                assert(f[b] == s.last());
                rest.filter_lemma(pred);
                assert(rest.filter(pred).contains(fr[a])) by {
                    assert(fr[a] == fr[a]);
                }
                rest.lemma_filter_contains_rev(pred, fr[a]);
                let i = choose|i: int| 0 <= i < rest.len() && rest[i] == fr[a];
                assert(s[i] == rest[i]);
                assert(s[n] == s.last());
            }
        }
    }
}

/// Dropping closed windows keeps exactly the entries of live windows, in their order, with
/// their labels: it reports a change exactly when some entry's window is gone; with no change
/// the picker stays as it was; after a change the typed letter is forgotten; and the picker
/// closes when no entry is left.
pub proof fn retaining_keeps_exactly_the_live_entries(s: SessionModel, live: Set<u64>)
    ensures
        retain_transition(Some(s), live).1 <==> exists|k: int|
            0 <= k < s.entries.len() && !live.contains(#[trigger] s.entries[k].0),
        !retain_transition(Some(s), live).1 ==> retain_transition(Some(s), live).0 == Some(s),
        retain_transition(Some(s), live).0 matches Some(u) ==> {
            &&& retain_transition(Some(s), live).1 ==> u.prefix is None
            &&& u.opened_at == s.opened_at
            &&& forall|k: int|
                0 <= k < s.entries.len() && live.contains(#[trigger] s.entries[k].0)
                    ==> u.entries.contains(s.entries[k])
            &&& forall|k: int|
                0 <= k < u.entries.len() ==> live.contains((#[trigger] u.entries[k]).0)
                    && s.entries.contains(u.entries[k])
            &&& forall|a: int, b: int|
                0 <= a < b < u.entries.len() ==> in_order(
                    s.entries,
                    #[trigger] u.entries[a],
                    #[trigger] u.entries[b],
                )
        },
        retain_transition(Some(s), live).0 is None ==> forall|k: int|
            0 <= k < s.entries.len() ==> !live.contains(#[trigger] s.entries[k].0),
{
    let pred = |e: (u64, Seq<char>)| live.contains(e.0);
    let kept = live_entries(s.entries, live);
    assert(kept == s.entries.filter(pred));
    s.entries.filter_lemma(pred);
    lemma_filter_keeps_order(s.entries, pred);
    assert forall|k: int|
        0 <= k < s.entries.len() && live.contains(#[trigger] s.entries[k].0) implies kept.contains(
        s.entries[k],
    ) by {
        s.entries.lemma_filter_contains(pred, k);
    }
    assert forall|k: int| 0 <= k < kept.len() implies live.contains((#[trigger] kept[k]).0)
        && s.entries.contains(kept[k]) by {
        assert(pred(kept[k]));
        assert(kept.contains(kept[k]));
        s.entries.lemma_filter_contains_rev(pred, kept[k]);
    }
    if kept.len() == s.entries.len() {
        lemma_full_filter_keeps_all(s.entries, pred);
        assert forall|k: int| 0 <= k < s.entries.len() implies live.contains(
            #[trigger] s.entries[k].0,
        ) by {
            assert(pred(s.entries[k]));
        }
    } else {
        if forall|k: int| 0 <= k < s.entries.len() ==> live.contains(#[trigger] s.entries[k].0) {
            lemma_filter_all_kept(s.entries, pred);
        }
    }
}

proof fn lemma_filter_all_kept(s: Seq<(u64, Seq<char>)>, pred: spec_fn((u64, Seq<char>)) -> bool)
    requires
        forall|k: int| 0 <= k < s.len() ==> pred(#[trigger] s[k]),
    ensures
        s.filter(pred) == s,
    decreases s.len(),
{
    reveal(Seq::filter);
    if s.len() > 0 {
        let rest = s.drop_last();
        assert forall|k: int| 0 <= k < rest.len() implies pred(#[trigger] rest[k]) by {
            assert(rest[k] == s[k]);
        }
        lemma_filter_all_kept(rest, pred);
        assert(pred(s[s.len() - 1]));
        assert(s.filter(pred) =~= s);
    }
}

/// The opening animation runs for `duration_ms` milliseconds from the opening time, not at all
/// when the duration is zero, and counts a clock reading before the opening as its start.
pub proof fn animation_runs_for_its_duration(opened_at: u128, now: u128, duration_ms: u16)
    ensures
        duration_ms == 0 ==> !animating(opened_at, now, duration_ms),
        duration_ms > 0 && now <= opened_at ==> animating(opened_at, now, duration_ms),
        duration_ms > 0 && opened_at <= now < opened_at + duration_ms * 1_000_000 ==> animating(
            opened_at,
            now,
            duration_ms,
        ),
        now >= opened_at + duration_ms * 1_000_000 ==> !animating(opened_at, now, duration_ms),
{
}

/// The entries drawn are, in display order and each once, exactly those whose window is still
/// mapped with a positive width and height.
pub proof fn shown_entries_are_the_visible_ones(
    entries: Seq<(u64, Seq<char>)>,
    sizes: Map<u64, (i32, i32)>,
    n: int,
)
    requires
        0 <= n <= entries.len(),
        entries.len() <= usize::MAX,
    ensures
        forall|a: int, b: int|
            0 <= a < b < shown_positions(entries, sizes, n).len() ==> #[trigger] shown_positions(
                entries,
                sizes,
                n,
            )[a] < #[trigger] shown_positions(entries, sizes, n)[b],
        forall|a: int|
            0 <= a < shown_positions(entries, sizes, n).len() ==> {
                let p = #[trigger] shown_positions(entries, sizes, n)[a];
                &&& p < n
                &&& sizes.contains_key(entries[p as int].0)
                &&& sizes[entries[p as int].0].0 > 0
                &&& sizes[entries[p as int].0].1 > 0
            },
        forall|p: int|
            0 <= p < n && sizes.contains_key(#[trigger] entries[p].0) && sizes[entries[p].0].0 > 0
                && sizes[entries[p].0].1 > 0 ==> shown_positions(entries, sizes, n).contains(
                p as usize,
            ),
    decreases n,
{
    if n > 0 {
        shown_entries_are_the_visible_ones(entries, sizes, n - 1);
        let prev = shown_positions(entries, sizes, n - 1);
        let cur = shown_positions(entries, sizes, n);
        let id = entries[n - 1].0;
        let shown = sizes.contains_key(id) && sizes[id].0 > 0 && sizes[id].1 > 0;
        assert(((n - 1) as usize) as int == n - 1);
        if shown {
            assert(cur == prev.push((n - 1) as usize));
        } else {
            assert(cur == prev);
        }
        assert forall|a: int| 0 <= a < prev.len() implies #[trigger] cur[a] == prev[a] by {}
        assert forall|a: int, b: int| 0 <= a < b < cur.len() implies #[trigger] cur[a]
            < #[trigger] cur[b] by {
            if b == prev.len() {
                assert(prev[a] < n - 1);
            } else {
                assert(prev[a] < prev[b]);
            }
        }
        assert forall|a: int| 0 <= a < cur.len() implies {
            let p = #[trigger] cur[a];
            &&& p < n
            &&& sizes.contains_key(entries[p as int].0)
            &&& sizes[entries[p as int].0].0 > 0
            &&& sizes[entries[p as int].0].1 > 0
        } by {
            if a < prev.len() {
                assert(cur[a] == prev[a]);
            }
        }
        assert forall|p: int|
            0 <= p < n && sizes.contains_key(#[trigger] entries[p].0) && sizes[entries[p].0].0 > 0
                && sizes[entries[p].0].1 > 0 implies cur.contains(p as usize) by {
            if p < n - 1 {
                let a = choose|a: int| 0 <= a < prev.len() && prev[a] == p as usize;
                assert(cur[a] == prev[a]);
            } else {
                assert(cur[prev.len() as int] == p as usize);
            }
        }
    }
}

} // verus!
