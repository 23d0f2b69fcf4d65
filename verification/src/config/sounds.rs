use vstd::prelude::*;

verus! {

/// A path setting as its text, if set.
pub open spec fn path_view(p: Option<String>) -> Option<Seq<char>> {
    match p {
        Some(s) => Some(s@),
        None => None,
    }
}

/// The `on` flag after merging a part that may say `on` and may say `off`: `off` wins.
pub open spec fn merged_flag(on: bool, part_on: bool, part_off: bool) -> bool {
    if part_off {
        false
    } else {
        on || part_on
    }
}

/// A setting after merging a part: the part's value where it gives one.
pub open spec fn merged_path(old: Option<Seq<char>>, part: Option<Seq<char>>) -> Option<Seq<char>> {
    match part {
        Some(p) => Some(p),
        None => old,
    }
}

/// Sound settings: whether sounds play, and the file played for each event.
#[derive(Debug, Clone, PartialEq)]
pub struct Sounds {
    pub on: bool,
    pub window_open: Option<String>,
    pub window_close: Option<String>,
    pub focus_change: Option<String>,
    pub workspace_switch: Option<String>,
}

impl Default for Sounds {
    fn default() -> (s: Self)
        ensures
            s.on,
            s.window_open is None,
            s.window_close is None,
            s.focus_change is None,
            s.workspace_switch is None,
    {
        Sounds {
            on: true,
            window_open: None,
            window_close: None,
            focus_change: None,
            workspace_switch: None,
        }
    }
}

/// One `sounds` section of a configuration file, as written.
#[derive(Debug, PartialEq)]
pub struct SoundsPart {
    pub on: bool,
    pub off: bool,
    pub window_open: Option<String>,
    pub window_close: Option<String>,
    pub focus_change: Option<String>,
    pub workspace_switch: Option<String>,
}

impl Default for SoundsPart {
    fn default() -> (p: Self)
        ensures
            !p.on,
            !p.off,
            p.window_open is None,
            p.window_close is None,
            p.focus_change is None,
            p.workspace_switch is None,
    {
        SoundsPart {
            on: false,
            off: false,
            window_open: None,
            window_close: None,
            focus_change: None,
            workspace_switch: None,
        }
    }
}

/// Merges a toggle flag: a part's `on` switches it on, its `off` switches it off and wins.
pub fn merge_flag(on: &mut bool, part_on: bool, part_off: bool)
    ensures
        *final(on) == merged_flag(*old(on), part_on, part_off),
{
    *on = *on || part_on;
    if part_off {
        *on = false;
    }
}

fn merge_path(dst: &mut Option<String>, part: &Option<String>)
    ensures
        path_view(*final(dst)) == merged_path(path_view(*old(dst)), path_view(*part)),
{
    if let Some(x) = part {
        *dst = Some(x.clone());
    }
}

/// The settings after merging `part` into `s`.
pub open spec fn sounds_merged(s: Sounds, part: SoundsPart, t: Sounds) -> bool {
    &&& t.on == merged_flag(s.on, part.on, part.off)
    &&& path_view(t.window_open) == merged_path(path_view(s.window_open), path_view(part.window_open))
    &&& path_view(t.window_close) == merged_path(
        path_view(s.window_close),
        path_view(part.window_close),
    )
    &&& path_view(t.focus_change) == merged_path(
        path_view(s.focus_change),
        path_view(part.focus_change),
    )
    &&& path_view(t.workspace_switch) == merged_path(
        path_view(s.workspace_switch),
        path_view(part.workspace_switch),
    )
}

impl Sounds {
    /// Applies the settings a configuration part gives.
    pub fn merge_with(&mut self, part: &SoundsPart)
        ensures
            sounds_merged(*old(self), *part, *final(self)),
    {
        merge_flag(&mut self.on, part.on, part.off);
        merge_path(&mut self.window_open, &part.window_open);
        merge_path(&mut self.window_close, &part.window_close);
        merge_path(&mut self.focus_change, &part.focus_change);
        merge_path(&mut self.workspace_switch, &part.workspace_switch);
    }
}

} // verus!
