use vstd::prelude::*;

use crate::config::sounds::{path_view, sounds_merged, Sounds, SoundsPart};
use crate::config::window_picker::{
    backdrop_merged, blur_merged, label_merged, picker_merged, WindowPickerLabel,
    WindowPickerLabelPart, WindowPicker,
    WindowPickerBackdrop, WindowPickerBackdropPart, WindowPickerBlur, WindowPickerBlurPart,
    WindowPickerPart,
};

verus! {

/// Sound settings `a` and `b` say the same.
pub open spec fn same_sounds(a: Sounds, b: Sounds) -> bool {
    &&& a.on == b.on
    &&& path_view(a.window_open) == path_view(b.window_open)
    &&& path_view(a.window_close) == path_view(b.window_close)
    &&& path_view(a.focus_change) == path_view(b.focus_change)
    &&& path_view(a.workspace_switch) == path_view(b.workspace_switch)
}

/// A sounds part that sets nothing.
pub open spec fn empty_sounds_part(p: SoundsPart) -> bool {
    &&& !p.on
    &&& !p.off
    &&& p.window_open is None
    &&& p.window_close is None
    &&& p.focus_change is None
    &&& p.workspace_switch is None
}

/// Merging a sounds part that sets nothing changes nothing.
pub proof fn empty_sounds_part_changes_nothing(s: Sounds, p: SoundsPart, t: Sounds)
    requires
        empty_sounds_part(p),
        sounds_merged(s, p, t),
    ensures
        same_sounds(s, t),
{
}

/// Merging the same sounds part twice is the same as merging it once.
pub proof fn sounds_merge_is_idempotent(s: Sounds, p: SoundsPart, t: Sounds, u: Sounds)
    requires
        sounds_merged(s, p, t),
        sounds_merged(t, p, u),
    ensures
        same_sounds(t, u),
{
}

/// A part that says `off` switches sounds off, even if it also says `on`; one that says only
/// `on` switches them on.
pub proof fn sounds_off_wins(s: Sounds, p: SoundsPart, t: Sounds)
    requires
        sounds_merged(s, p, t),
    ensures
        p.off ==> !t.on,
        p.on && !p.off ==> t.on,
        !p.on && !p.off ==> t.on == s.on,
{
}

/// Merging a blur part that sets nothing changes nothing; merging a part twice is merging it
/// once; `off` wins over `on`.
pub proof fn blur_merge_laws<F>(b: WindowPickerBlur<F>, p: WindowPickerBlurPart<F>)
    ensures
        blur_merged(b, WindowPickerBlurPart { on: false, off: false, passes: None, offset: None })
            == b,
        blur_merged(blur_merged(b, p), p) == blur_merged(b, p),
        p.off ==> !blur_merged(b, p).on,
{
}

/// Merging a backdrop part twice is merging it once.
pub proof fn backdrop_merge_is_idempotent<F, C>(
    b: WindowPickerBackdrop<F, C>,
    p: WindowPickerBackdropPart<F, C>,
)
    ensures
        backdrop_merged(backdrop_merged(b, p), p) == backdrop_merged(b, p),
{
}

/// Picker settings `a` and `b` say the same.
pub open spec fn same_picker<F, C>(a: WindowPicker<F, C>, b: WindowPicker<F, C>) -> bool {
    picker_merged(a, WindowPickerPart::<F, C>::empty(), b)
}

impl<F, C> WindowPickerPart<F, C> {
    /// A picker part that sets nothing.
    pub open spec fn empty() -> Self {
        WindowPickerPart {
            area_width: None,
            area_height: None,
            max_scale: None,
            gap: None,
            label: None,
            backdrop: None,
            animation_ms_open: None,
            animation_ms_close: None,
        }
    }
}

/// Merging a picker part that sets nothing changes nothing.
pub proof fn empty_picker_part_changes_nothing<F, C>(
    w: WindowPicker<F, C>,
    t: WindowPicker<F, C>,
)
    requires
        picker_merged(w, WindowPickerPart::<F, C>::empty(), t),
    ensures
        same_picker(w, t),
{
}

/// Merging the same picker part twice is the same as merging it once.
pub proof fn picker_merge_is_idempotent<F, C>(
    w: WindowPicker<F, C>,
    p: WindowPickerPart<F, C>,
    t: WindowPicker<F, C>,
    u: WindowPicker<F, C>,
)
    requires
        picker_merged(w, p, t),
        picker_merged(t, p, u),
    ensures
        same_picker(t, u),
{
    match p.backdrop {
        Some(bp) => backdrop_merge_is_idempotent(w.backdrop, bp),
        None => {},
    }
}

/// Merging a sounds part sets each file the part gives, keeps each file it does not give, and
/// switches sounds on or off as the part says (`off` winning).
pub proof fn sounds_merge_sets_given_files(s: Sounds, p: SoundsPart, t: Sounds)
    requires
        sounds_merged(s, p, t),
    ensures
        p.window_open is Some ==> t.window_open is Some && t.window_open->0@ == p.window_open->0@,
        p.window_open is None ==> (t.window_open is Some <==> s.window_open is Some),
        p.window_open is None && s.window_open is Some ==> t.window_open->0@ == s.window_open->0@,
        p.window_close is Some ==> t.window_close is Some && t.window_close->0@ == p.window_close->0@,
        p.window_close is None ==> (t.window_close is Some <==> s.window_close is Some),
        p.window_close is None && s.window_close is Some ==> t.window_close->0@ == s.window_close->0@,
        p.focus_change is Some ==> t.focus_change is Some && t.focus_change->0@ == p.focus_change->0@,
        p.focus_change is None ==> (t.focus_change is Some <==> s.focus_change is Some),
        p.focus_change is None && s.focus_change is Some ==> t.focus_change->0@ == s.focus_change->0@,
        p.workspace_switch is Some ==> t.workspace_switch is Some && t.workspace_switch->0@ == p.workspace_switch->0@,
        p.workspace_switch is None ==> (t.workspace_switch is Some <==> s.workspace_switch is Some),
        p.workspace_switch is None && s.workspace_switch is Some ==> t.workspace_switch->0@ == s.workspace_switch->0@,
        p.off ==> !t.on,
        p.on && !p.off ==> t.on,
        !p.on && !p.off ==> t.on == s.on,
{
}

/// Merging a blur part sets each value the part gives and keeps the others; `off` switches
/// blur off even beside `on`, `on` alone switches it on.
pub proof fn blur_merge_sets_given_fields<F>(b: WindowPickerBlur<F>, p: WindowPickerBlurPart<F>)
    ensures
        p.passes matches Some(v) ==> blur_merged(b, p).passes == v,
        p.passes is None ==> blur_merged(b, p).passes == b.passes,
        p.offset matches Some(v) ==> blur_merged(b, p).offset == v,
        p.offset is None ==> blur_merged(b, p).offset == b.offset,
        p.off ==> !blur_merged(b, p).on,
        p.on && !p.off ==> blur_merged(b, p).on,
        !p.on && !p.off ==> blur_merged(b, p).on == b.on,
{
}

/// Merging a backdrop part sets each value the part gives and keeps the others; a blur
/// section merges into the blur settings.
pub proof fn backdrop_merge_sets_given_fields<F, C>(
    b: WindowPickerBackdrop<F, C>,
    p: WindowPickerBackdropPart<F, C>,
)
    ensures
        p.brightness matches Some(v) ==> backdrop_merged(b, p).brightness == v,
        p.brightness is None ==> backdrop_merged(b, p).brightness == b.brightness,
        p.color matches Some(v) ==> backdrop_merged(b, p).color == v,
        p.color is None ==> backdrop_merged(b, p).color == b.color,
        p.saturation matches Some(v) ==> backdrop_merged(b, p).saturation == v,
        p.saturation is None ==> backdrop_merged(b, p).saturation == b.saturation,
        p.blur matches Some(bp) ==> backdrop_merged(b, p).blur == blur_merged(b.blur, bp),
        p.blur is None ==> backdrop_merged(b, p).blur == b.blur,
{
}

/// Merging a label part sets each value the part gives and keeps the others.
pub proof fn label_merge_sets_given_fields<F, C>(
    l: WindowPickerLabel<F, C>,
    p: WindowPickerLabelPart<F, C>,
    t: WindowPickerLabel<F, C>,
)
    requires
        label_merged(l, p, t),
    ensures
        p.font is Some ==> t.font@ == p.font->0@,
        p.font is None ==> t.font@ == l.font@,
        p.size matches Some(v) ==> t.size == v,
        p.size is None ==> t.size == l.size,
        p.text_color matches Some(v) ==> t.text_color == v,
        p.text_color is None ==> t.text_color == l.text_color,
        p.background_color matches Some(v) ==> t.background_color == v,
        p.background_color is None ==> t.background_color == l.background_color,
        p.border_color matches Some(v) ==> t.border_color == v,
        p.border_color is None ==> t.border_color == l.border_color,
        p.padding_x matches Some(v) ==> t.padding_x == v,
        p.padding_x is None ==> t.padding_x == l.padding_x,
        p.padding_y matches Some(v) ==> t.padding_y == v,
        p.padding_y is None ==> t.padding_y == l.padding_y,
        p.gap matches Some(v) ==> t.gap == v,
        p.gap is None ==> t.gap == l.gap,
        p.corner_radius matches Some(v) ==> t.corner_radius == v,
        p.corner_radius is None ==> t.corner_radius == l.corner_radius,
{
}

/// Merging a picker part sets each value the part gives and keeps the others; label and
/// backdrop sections merge into the label and backdrop settings.
pub proof fn picker_merge_sets_given_fields<F, C>(
    w: WindowPicker<F, C>,
    p: WindowPickerPart<F, C>,
    t: WindowPicker<F, C>,
)
    requires
        picker_merged(w, p, t),
    ensures
        p.area_width matches Some(v) ==> t.area_width == v,
        p.area_width is None ==> t.area_width == w.area_width,
        p.area_height matches Some(v) ==> t.area_height == v,
        p.area_height is None ==> t.area_height == w.area_height,
        p.max_scale matches Some(v) ==> t.max_scale == v,
        p.max_scale is None ==> t.max_scale == w.max_scale,
        p.gap matches Some(v) ==> t.gap == v,
        p.gap is None ==> t.gap == w.gap,
        p.animation_ms_open matches Some(v) ==> t.animation_ms_open == v,
        p.animation_ms_open is None ==> t.animation_ms_open == w.animation_ms_open,
        p.animation_ms_close matches Some(v) ==> t.animation_ms_close == v,
        p.animation_ms_close is None ==> t.animation_ms_close == w.animation_ms_close,
        p.label matches Some(lp) ==> label_merged(w.label, lp, t.label),
        p.label is None ==> t.label.font@ == w.label.font@,
        p.label is None ==> t.label.size == w.label.size,
        p.label is None ==> t.label.text_color == w.label.text_color,
        p.label is None ==> t.label.background_color == w.label.background_color,
        p.label is None ==> t.label.border_color == w.label.border_color,
        p.label is None ==> t.label.padding_x == w.label.padding_x,
        p.label is None ==> t.label.padding_y == w.label.padding_y,
        p.label is None ==> t.label.gap == w.label.gap,
        p.label is None ==> t.label.corner_radius == w.label.corner_radius,
        p.backdrop matches Some(bp) ==> t.backdrop == backdrop_merged(w.backdrop, bp),
        p.backdrop is None ==> t.backdrop == w.backdrop,
{
}

} // verus!
