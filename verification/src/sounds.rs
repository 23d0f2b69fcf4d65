use vstd::prelude::*;

use crate::config::sounds::{path_view, Sounds};

verus! {

/// The events that can be accompanied by a sound.
#[derive(Debug, Clone, Copy, PartialEq, Eq, Structural)]
pub enum Kind {
    WindowOpen,
    WindowClose,
    FocusChange,
    WorkspaceSwitch,
}

impl Kind {
    /// Position of this kind in per-kind tables.
    pub open spec fn spec_index(self) -> nat {
        match self {
            Kind::WindowOpen => 0,
            Kind::WindowClose => 1,
            Kind::FocusChange => 2,
            Kind::WorkspaceSwitch => 3,
        }
    }

    /// Position of this kind in per-kind tables.
    pub fn index(self) -> (i: usize)
        ensures
            i == self.spec_index(),
            i < 4,
    {
        match self {
            Kind::WindowOpen => 0,
            Kind::WindowClose => 1,
            Kind::FocusChange => 2,
            Kind::WorkspaceSwitch => 3,
        }
    }

    /// Whether this is the focus-change kind.
    pub fn is_focus_change(self) -> (b: bool)
        ensures
            b <==> self == Kind::FocusChange,
    {
        self == Kind::FocusChange
    }
}


/// How long a sound of one kind silences further sounds of that kind, in nanoseconds.
pub const SAME_KIND_COOLDOWN_NS: u128 = 50_000_000;

/// How long any other sound silences focus-change sounds, in nanoseconds: opening or closing a
/// focused window also changes focus, and only one sound should play for it.
pub const FOCUS_SUPPRESS_WINDOW_NS: u128 = 150_000_000;

/// Time passed from `since` to `now`, in nanoseconds; zero if `now` is earlier.
pub open spec fn elapsed(now: u128, since: u128) -> nat {
    if now >= since {
        (now - since) as nat
    } else {
        0
    }
}

/// When sounds last played: the last sound of any kind other than focus change, and the last
/// sound of each kind (indexed by `Kind::spec_index`), in nanoseconds.
pub struct CooldownsModel {
    pub last_non_focus: Option<u128>,
    pub last_per_kind: Seq<Option<u128>>,
}

/// Whether a sound played at `last` still silences a sound at `now` for `window` nanoseconds.
pub open spec fn within(last: Option<u128>, now: u128, window: u128) -> bool {
    match last {
        Some(t) => elapsed(now, t) < window,
        None => false,
    }
}

/// Whether a sound of `kind` requested at `now` is silenced.
pub open spec fn suppressed(c: CooldownsModel, kind: Kind, now: u128) -> bool {
    ||| kind == Kind::FocusChange && within(c.last_non_focus, now, FOCUS_SUPPRESS_WINDOW_NS)
    ||| within(c.last_per_kind[kind.spec_index() as int], now, SAME_KIND_COOLDOWN_NS)
}

/// The record after a sound of `kind` played at `now`.
pub open spec fn recorded(c: CooldownsModel, kind: Kind, now: u128) -> CooldownsModel {
    CooldownsModel {
        last_non_focus: if kind == Kind::FocusChange {
            c.last_non_focus
        } else {
            Some(now)
        },
        last_per_kind: c.last_per_kind.update(kind.spec_index() as int, Some(now)),
    }
}

/// The file configured for `kind`, if sounds are on.
pub open spec fn configured_path(s: Sounds, kind: Kind) -> Option<Seq<char>> {
    if !s.on {
        None
    } else {
        match kind {
            Kind::WindowOpen => path_view(s.window_open),
            Kind::WindowClose => path_view(s.window_close),
            Kind::FocusChange => path_view(s.focus_change),
            Kind::WorkspaceSwitch => path_view(s.workspace_switch),
        }
    }
}

/// What a request for a sound of `kind` at `now` does: the record afterwards, and the file to
/// play, if any. Nothing plays when sounds are off, when no file is set for the kind, or while
/// the kind cools down; then nothing is recorded either.
pub open spec fn play_step(c: CooldownsModel, s: Sounds, kind: Kind, now: u128) -> (
    CooldownsModel,
    Option<Seq<char>>,
) {
    match configured_path(s, kind) {
        None => (c, None),
        Some(p) => if suppressed(c, kind, now) {
            (c, None)
        } else {
            (recorded(c, kind, now), Some(p))
        },
    }
}

/// When sounds last played, to keep them from piling up.
pub struct Cooldowns {
    last_non_focus: Option<u128>,
    last_per_kind: [Option<u128>; 4],
}

impl View for Cooldowns {
    type V = CooldownsModel;

    closed spec fn view(&self) -> CooldownsModel {
        CooldownsModel { last_non_focus: self.last_non_focus, last_per_kind: self.last_per_kind@ }
    }
}

/// Whether a sound at `last` still silences one at `now` for `window` nanoseconds.
fn is_within(last: Option<u128>, now: u128, window: u128) -> (b: bool)
    ensures
        b == within(last, now, window),
{
    match last {
        Some(t) => {
            let passed: u128 = if now >= t { now - t } else { 0 };
            passed < window
        },
        None => false,
    }
}

impl Cooldowns {
    /// A record in which no sound has played yet.
    pub fn new() -> (c: Self)
        ensures
            valid_record(c@),
            c@.last_non_focus is None,
            c@.last_per_kind == seq![None::<u128>, None, None, None],
    {
        let c = Cooldowns { last_non_focus: None, last_per_kind: [None, None, None, None] };
        assert(c@.last_per_kind =~= seq![None::<u128>, None, None, None]);
        c
    }

    /// Whether a sound of `kind` at `now` is silenced; if not, records it as played.
    fn try_record(&mut self, kind: Kind, now: u128) -> (played: bool)
        ensures
            played == !suppressed(old(self)@, kind, now),
            final(self)@ == if played {
                recorded(old(self)@, kind, now)
            } else {
                old(self)@
            },
    {
        if kind.is_focus_change() && is_within(self.last_non_focus, now, FOCUS_SUPPRESS_WINDOW_NS) {
            return false;
        }
        let idx = kind.index();
        if is_within(self.last_per_kind[idx], now, SAME_KIND_COOLDOWN_NS) {
            return false;
        }
        self.last_per_kind[idx] = Some(now);
        if !kind.is_focus_change() {
            self.last_non_focus = Some(now);
        }
        proof {
            assert(self@.last_per_kind =~= old(self)@.last_per_kind.update(
                kind.spec_index() as int,
                Some(now),
            ));
        }
        true
    }
}

/// Decides what a request for a sound of `kind` at time `now` (in nanoseconds) plays: the
/// file to play, if any, recording it in `cooldowns`.
pub fn play(sounds: &Sounds, kind: Kind, cooldowns: &mut Cooldowns, now: u128) -> (path: Option<
    String,
>)
    ensures
        (final(cooldowns)@, path_view(path)) == play_step(old(cooldowns)@, *sounds, kind, now),
        valid_record(final(cooldowns)@),
{
    proof {
        cooldowns_are_valid(&*cooldowns);
    }
    if !sounds.on {
        return None;
    }
    let configured = match kind {
        Kind::WindowOpen => &sounds.window_open,
        Kind::WindowClose => &sounds.window_close,
        Kind::FocusChange => &sounds.focus_change,
        Kind::WorkspaceSwitch => &sounds.workspace_switch,
    };
    match configured {
        None => None,
        Some(p) => {
            if cooldowns.try_record(kind, now) {
                Some(p.clone())
            } else {
                None
            }
        },
    }
}


/// A record with one slot per kind.
pub open spec fn valid_record(c: CooldownsModel) -> bool {
    c.last_per_kind.len() == 4
}

/// Every record keeps one slot per kind.
pub proof fn cooldowns_are_valid(c: &Cooldowns)
    ensures
        valid_record(c@),
{
    assert(c.last_per_kind@.len() == 4);
}

/// A request for a sound: the settings in force, the kind, and the time in nanoseconds.
pub type SoundRequest = (Sounds, Kind, u128);

/// Serving a run of requests one after the other, starting from record `c`: the record at the
/// end, and for each request whether a sound played.
pub open spec fn run(c: CooldownsModel, reqs: Seq<SoundRequest>) -> (CooldownsModel, Seq<bool>)
    decreases reqs.len(),
{
    if reqs.len() == 0 {
        (c, Seq::empty())
    } else {
        let (before, played) = run(c, reqs.drop_last());
        let r = reqs.last();
        let (after, path) = play_step(before, r.0, r.1, r.2);
        (after, played.push(path is Some))
    }
}

/// Whether requests come at non-decreasing times.
pub open spec fn in_time_order(reqs: Seq<SoundRequest>) -> bool {
    forall|i: int, j: int| 0 <= i < j < reqs.len() ==> reqs[i].2 <= reqs[j].2
}

/// What the record remembers after a run ending at time `last`: for every sound that played,
/// the slot of its kind (and, for other kinds than focus change, the last non-focus time) holds
/// a time between that sound's and `last`.
pub open spec fn remembers(
    c: CooldownsModel,
    reqs: Seq<SoundRequest>,
    played: Seq<bool>,
    last: u128,
) -> bool {
    &&& forall|i: int|
        0 <= i < reqs.len() && #[trigger] played[i] ==> {
            let t = c.last_per_kind[reqs[i].1.spec_index() as int];
            &&& t is Some
            &&& reqs[i].2 <= t->0 <= last
        }
    &&& forall|i: int|
        0 <= i < reqs.len() && #[trigger] played[i] && reqs[i].1 != Kind::FocusChange ==> {
            &&& c.last_non_focus is Some
            &&& reqs[i].2 <= c.last_non_focus->0 <= last
        }
}

/// Plays in a run are spaced: two sounds of one kind at least 50 ms apart, and a
/// focus-change sound at least 150 ms after any sound of another kind.
pub open spec fn spaced(reqs: Seq<SoundRequest>, played: Seq<bool>) -> bool {
    &&& forall|i: int, j: int|
        0 <= i < j < reqs.len() && #[trigger] played[i] && #[trigger] played[j] && reqs[i].1
            == reqs[j].1 ==> reqs[j].2 >= reqs[i].2 + 50_000_000
    &&& forall|i: int, j: int|
        0 <= i < j < reqs.len() && #[trigger] played[i] && #[trigger] played[j] && reqs[i].1
            != Kind::FocusChange && reqs[j].1 == Kind::FocusChange ==> reqs[j].2 >= reqs[i].2
            + 150_000_000
}

proof fn lemma_run(c: CooldownsModel, reqs: Seq<SoundRequest>)
    requires
        valid_record(c),
        in_time_order(reqs),
    ensures
        valid_record(run(c, reqs).0),
        run(c, reqs).1.len() == reqs.len(),
        reqs.len() > 0 ==> remembers(run(c, reqs).0, reqs, run(c, reqs).1, reqs.last().2),
        spaced(reqs, run(c, reqs).1),
    decreases reqs.len(),
{
    if reqs.len() > 0 {
        let prev = reqs.drop_last();
        lemma_run(c, prev);
        let (before, played) = run(c, prev);
        let r = reqs.last();
        let (after, path) = play_step(before, r.0, r.1, r.2);
        let played2 = played.push(path is Some);
        let n = prev.len() as int;
        assert(run(c, reqs) == (after, played2));
        assert forall|i: int| 0 <= i < n implies #[trigger] reqs[i] == prev[i] && reqs[i].2 <= r.2 by {
            assert(reqs[n] == r);
        }
        assert forall|i: int| 0 <= i < n implies #[trigger] played2[i] == played[i] by {}
        // What the record remembers of earlier plays, bounded by the new request's time.
        if n > 0 {
            assert(prev.last().2 <= r.2) by {
                assert(prev.last() == reqs[n - 1]);
                assert(reqs[n] == r);
            }
        }
        assert forall|i: int|
            0 <= i < reqs.len() && #[trigger] played2[i] implies ({
                let t = after.last_per_kind[reqs[i].1.spec_index() as int];
                &&& t is Some
                &&& reqs[i].2 <= t->0 <= r.2
            }) by {
            if i == n {
                assert(reqs[i] == r);
            } else {
                assert(reqs[i] == prev[i]);
                assert(played2[i] == played[i]);
            }
        }
        assert forall|i: int|
            0 <= i < reqs.len() && #[trigger] played2[i] && reqs[i].1 != Kind::FocusChange implies {
            &&& after.last_non_focus is Some
            &&& reqs[i].2 <= after.last_non_focus->0 <= r.2
        } by {
            if i == n {
                assert(reqs[i] == r);
            } else {
                assert(reqs[i] == prev[i]);
                assert(played2[i] == played[i]);
            }
        }
        assert forall|i: int, j: int|
            0 <= i < j < reqs.len() && #[trigger] played2[i] && #[trigger] played2[j] && reqs[i].1
                == reqs[j].1 implies reqs[j].2 >= reqs[i].2 + 50_000_000 by {
            assert(played2[i] == played[i]);
            assert(reqs[i] == prev[i]);
            if j == n {
                assert(reqs[j] == r);
            } else {
                assert(played2[j] == played[j]);
                assert(reqs[j] == prev[j]);
            }
        }
        assert forall|i: int, j: int|
            0 <= i < j < reqs.len() && #[trigger] played2[i] && #[trigger] played2[j] && reqs[i].1
                != Kind::FocusChange && reqs[j].1 == Kind::FocusChange implies reqs[j].2
                >= reqs[i].2 + 150_000_000 by {
            assert(played2[i] == played[i]);
            assert(reqs[i] == prev[i]);
            if j == n {
                assert(reqs[j] == r);
            } else {
                assert(played2[j] == played[j]);
                assert(reqs[j] == prev[j]);
            }
        }
    }
}

/// Sounds are rate-limited over any run of requests made at non-decreasing times, whatever
/// was played before it: two sounds of one kind play at least 50 ms apart, and a
/// focus-change sound plays at least 150 ms after any sound of another kind.
pub proof fn sounds_are_rate_limited(c: CooldownsModel, reqs: Seq<SoundRequest>)
    requires
        valid_record(c),
        in_time_order(reqs),
    ensures
        spaced(reqs, run(c, reqs).1),
        run(c, reqs).1.len() == reqs.len(),
{
    lemma_run(c, reqs);
}

/// With sounds switched off, nothing plays and nothing is recorded.
pub proof fn sounds_off_are_silent(c: CooldownsModel, s: Sounds, kind: Kind, now: u128)
    requires
        !s.on,
    ensures
        play_step(c, s, kind, now) == (c, None::<Seq<char>>),
{
}

/// Before any sound played, every configured sound plays.
pub proof fn first_sounds_play(s: Sounds, kind: Kind, now: u128)
    ensures
        play_step(
            CooldownsModel {
                last_non_focus: None,
                last_per_kind: seq![None::<u128>, None, None, None],
            },
            s,
            kind,
            now,
        ).1 == configured_path(s, kind),
{
}

/// After a sound of some kind played, no sound of that kind plays for the next 50 ms.
pub proof fn same_kind_cools_down(
    c: CooldownsModel,
    s1: Sounds,
    s2: Sounds,
    kind: Kind,
    t1: u128,
    t2: u128,
)
    requires
        valid_record(c),
        play_step(c, s1, kind, t1).1 is Some,
        t1 <= t2 < t1 + 50_000_000,
    ensures
        ({
            let c1 = play_step(c, s1, kind, t1).0;
            play_step(c1, s2, kind, t2) == (c1, None::<Seq<char>>)
        }),
{
}

/// After a sound of a kind other than focus change played, no focus-change sound plays for
/// the next 150 ms.
pub proof fn focus_sound_yields_to_others(
    c: CooldownsModel,
    s1: Sounds,
    s2: Sounds,
    kind: Kind,
    t1: u128,
    t2: u128,
)
    requires
        valid_record(c),
        kind != Kind::FocusChange,
        play_step(c, s1, kind, t1).1 is Some,
        t1 <= t2 < t1 + 150_000_000,
    ensures
        ({
            let c1 = play_step(c, s1, kind, t1).0;
            play_step(c1, s2, Kind::FocusChange, t2) == (c1, None::<Seq<char>>)
        }),
{
}

/// A sound of one kind does not silence sounds of another kind, except that any sound
/// silences focus-change sounds for a while.
pub proof fn kinds_cool_down_separately(c: CooldownsModel, k1: Kind, k2: Kind, t1: u128, t2: u128)
    requires
        valid_record(c),
        k1 != k2,
        k2 != Kind::FocusChange,
    ensures
        suppressed(recorded(c, k1, t1), k2, t2) == suppressed(c, k2, t2),
{
}

/// Whatever is requested, the record keeps one slot per kind.
pub proof fn records_stay_valid(c: CooldownsModel, s: Sounds, kind: Kind, now: u128)
    requires
        valid_record(c),
    ensures
        valid_record(play_step(c, s, kind, now).0),
{
}


/// The file played for a request is the one configured for the request's kind, and nothing
/// plays for a kind without a file or while sounds are off.
pub proof fn plays_the_file_of_its_kind(c: CooldownsModel, s: Sounds, now: u128)
    ensures
        play_step(c, s, Kind::WindowOpen, now).1 is Some ==> s.on && s.window_open is Some
            && play_step(c, s, Kind::WindowOpen, now).1->0 == s.window_open->0@,
        play_step(c, s, Kind::WindowClose, now).1 is Some ==> s.on && s.window_close is Some
            && play_step(c, s, Kind::WindowClose, now).1->0 == s.window_close->0@,
        play_step(c, s, Kind::FocusChange, now).1 is Some ==> s.on && s.focus_change is Some
            && play_step(c, s, Kind::FocusChange, now).1->0 == s.focus_change->0@,
        play_step(c, s, Kind::WorkspaceSwitch, now).1 is Some ==> s.on && s.workspace_switch is Some
            && play_step(c, s, Kind::WorkspaceSwitch, now).1->0 == s.workspace_switch->0@,
{
}

/// No sound played in the last 150 ms (or in the future), and no sound of any kind in the
/// last 50 ms.
pub open spec fn quiet_at(c: CooldownsModel, now: u128) -> bool {
    &&& c.last_non_focus matches Some(t) ==> t + 150_000_000 <= now
    &&& forall|i: int|
        0 <= i < 4 ==> (#[trigger] c.last_per_kind[i] matches Some(t) ==> t + 50_000_000 <= now)
}

/// When the record is quiet, every request plays the file configured for its kind, and the
/// record then holds the request's time for that kind.
pub proof fn quiet_requests_play(c: CooldownsModel, s: Sounds, now: u128)
    requires
        valid_record(c),
        quiet_at(c, now),
        s.on,
    ensures
        s.window_open matches Some(f) ==> play_step(c, s, Kind::WindowOpen, now).1 == Some(f@)
            && play_step(c, s, Kind::WindowOpen, now).0.last_per_kind[0] == Some(now)
            && play_step(c, s, Kind::WindowOpen, now).0.last_non_focus == Some(now),
        s.window_close matches Some(f) ==> play_step(c, s, Kind::WindowClose, now).1 == Some(f@)
            && play_step(c, s, Kind::WindowClose, now).0.last_per_kind[1] == Some(now)
            && play_step(c, s, Kind::WindowClose, now).0.last_non_focus == Some(now),
        s.focus_change matches Some(f) ==> play_step(c, s, Kind::FocusChange, now).1 == Some(f@)
            && play_step(c, s, Kind::FocusChange, now).0.last_per_kind[2] == Some(now)
            && play_step(c, s, Kind::FocusChange, now).0.last_non_focus == c.last_non_focus,
        s.workspace_switch matches Some(f) ==> play_step(c, s, Kind::WorkspaceSwitch, now).1
            == Some(f@) && play_step(c, s, Kind::WorkspaceSwitch, now).0.last_per_kind[3] == Some(
            now,
        ) && play_step(c, s, Kind::WorkspaceSwitch, now).0.last_non_focus == Some(now),
{
    assert(c.last_per_kind[0] matches Some(t) ==> t + 50_000_000 <= now);
    assert(c.last_per_kind[1] matches Some(t) ==> t + 50_000_000 <= now);
    assert(c.last_per_kind[2] matches Some(t) ==> t + 50_000_000 <= now);
    assert(c.last_per_kind[3] matches Some(t) ==> t + 50_000_000 <= now);
}

/// A request that plays nothing leaves the record as it was.
pub proof fn silent_requests_change_nothing(c: CooldownsModel, s: Sounds, kind: Kind, now: u128)
    requires
        play_step(c, s, kind, now).1 is None,
    ensures
        play_step(c, s, kind, now).0 == c,
{
}

} // verus!
