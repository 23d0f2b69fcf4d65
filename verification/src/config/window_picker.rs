use vstd::prelude::*;

use crate::config::sounds::{merge_flag, merged_flag, merged_path, path_view};

verus! {

// The settings below are generic over `F`, the type of the fractional settings (sizes, gaps,
// factors), and `C`, the type of colours: merging only moves such values around.

/// A setting after merging a part: the part's value where it gives one.
pub open spec fn merged_value<T>(old: T, part: Option<T>) -> T {
    match part {
        Some(v) => v,
        None => old,
    }
}

fn merge_value<T: Copy>(dst: &mut T, part: &Option<T>)
    ensures
        *final(dst) == merged_value(*old(dst), *part),
{
    if let Some(x) = part {
        *dst = *x;
    }
}

/// Blur of the desktop behind the picker.
#[derive(Debug, Clone, Copy, PartialEq)]
pub struct WindowPickerBlur<F> {
    pub on: bool,
    pub passes: u8,
    pub offset: F,
}

/// One `blur` section of a configuration file, as written.
#[derive(Debug, Clone, Copy, PartialEq)]
pub struct WindowPickerBlurPart<F> {
    pub on: bool,
    pub off: bool,
    pub passes: Option<u8>,
    pub offset: Option<F>,
}

impl<F> Default for WindowPickerBlurPart<F> {
    fn default() -> (p: Self)
        ensures
            !p.on,
            !p.off,
            p.passes is None,
            p.offset is None,
    {
        WindowPickerBlurPart { on: false, off: false, passes: None, offset: None }
    }
}

/// The blur settings after merging `p` into `b`.
pub open spec fn blur_merged<F>(b: WindowPickerBlur<F>, p: WindowPickerBlurPart<F>) -> WindowPickerBlur<F> {
    WindowPickerBlur {
        on: merged_flag(b.on, p.on, p.off),
        passes: merged_value(b.passes, p.passes),
        offset: merged_value(b.offset, p.offset),
    }
}

impl<F: Copy> WindowPickerBlur<F> {
    /// Applies the settings a configuration part gives.
    pub fn merge_with(&mut self, part: &WindowPickerBlurPart<F>)
        ensures
            *final(self) == blur_merged(*old(self), *part),
    {
        merge_flag(&mut self.on, part.on, part.off);
        merge_value(&mut self.passes, &part.passes);
        merge_value(&mut self.offset, &part.offset);
    }
}

/// How the desktop behind the picker is dimmed, tinted, desaturated and blurred.
#[derive(Debug, Clone, Copy, PartialEq)]
pub struct WindowPickerBackdrop<F, C> {
    pub brightness: F,
    pub color: C,
    pub saturation: F,
    pub blur: WindowPickerBlur<F>,
}

/// One `backdrop` section of a configuration file, as written.
#[derive(Debug, Clone, Copy, PartialEq)]
pub struct WindowPickerBackdropPart<F, C> {
    pub brightness: Option<F>,
    pub color: Option<C>,
    pub saturation: Option<F>,
    pub blur: Option<WindowPickerBlurPart<F>>,
}

impl<F, C> Default for WindowPickerBackdropPart<F, C> {
    fn default() -> (p: Self)
        ensures
            p.brightness is None,
            p.color is None,
            p.saturation is None,
            p.blur is None,
    {
        WindowPickerBackdropPart { brightness: None, color: None, saturation: None, blur: None }
    }
}

/// The backdrop settings after merging `p` into `b`.
pub open spec fn backdrop_merged<F, C>(
    b: WindowPickerBackdrop<F, C>,
    p: WindowPickerBackdropPart<F, C>,
) -> WindowPickerBackdrop<F, C> {
    WindowPickerBackdrop {
        brightness: merged_value(b.brightness, p.brightness),
        color: merged_value(b.color, p.color),
        saturation: merged_value(b.saturation, p.saturation),
        blur: match p.blur {
            Some(bp) => blur_merged(b.blur, bp),
            None => b.blur,
        },
    }
}

impl<F: Copy, C: Copy> WindowPickerBackdrop<F, C> {
    /// Applies the settings a configuration part gives.
    pub fn merge_with(&mut self, part: &WindowPickerBackdropPart<F, C>)
        ensures
            *final(self) == backdrop_merged(*old(self), *part),
    {
        merge_value(&mut self.brightness, &part.brightness);
        merge_value(&mut self.saturation, &part.saturation);
        if let Some(blur) = &part.blur {
            self.blur.merge_with(blur);
        }
        merge_value(&mut self.color, &part.color);
    }
}


fn merge_text(dst: &mut String, part: &Option<String>)
    ensures
        final(dst)@ == match *part {
            Some(x) => x@,
            None => old(dst)@,
        },
{
    if let Some(x) = part {
        *dst = x.clone();
    }
}

/// How the letter labels above the previews look.
#[derive(Debug, Clone, PartialEq)]
pub struct WindowPickerLabel<F, C> {
    pub font: String,
    pub size: F,
    pub text_color: C,
    pub background_color: C,
    pub border_color: C,
    pub padding_x: F,
    pub padding_y: F,
    pub gap: F,
    pub corner_radius: F,
}

/// One `label` section of a configuration file, as written.
#[derive(Debug, Clone, PartialEq)]
pub struct WindowPickerLabelPart<F, C> {
    pub font: Option<String>,
    pub size: Option<F>,
    pub text_color: Option<C>,
    pub background_color: Option<C>,
    pub border_color: Option<C>,
    pub padding_x: Option<F>,
    pub padding_y: Option<F>,
    pub gap: Option<F>,
    pub corner_radius: Option<F>,
}

impl<F, C> Default for WindowPickerLabelPart<F, C> {
    fn default() -> (p: Self)
        ensures
            p.font is None,
            p.size is None,
            p.text_color is None,
            p.background_color is None,
            p.border_color is None,
            p.padding_x is None,
            p.padding_y is None,
            p.gap is None,
            p.corner_radius is None,
    {
        WindowPickerLabelPart {
            font: None,
            size: None,
            text_color: None,
            background_color: None,
            border_color: None,
            padding_x: None,
            padding_y: None,
            gap: None,
            corner_radius: None,
        }
    }
}

/// The label settings `t` are those of `l` after merging `p`.
pub open spec fn label_merged<F, C>(
    l: WindowPickerLabel<F, C>,
    p: WindowPickerLabelPart<F, C>,
    t: WindowPickerLabel<F, C>,
) -> bool {
    &&& Some(t.font@) == merged_path(Some(l.font@), path_view(p.font))
    &&& t.size == merged_value(l.size, p.size)
    &&& t.text_color == merged_value(l.text_color, p.text_color)
    &&& t.background_color == merged_value(l.background_color, p.background_color)
    &&& t.border_color == merged_value(l.border_color, p.border_color)
    &&& t.padding_x == merged_value(l.padding_x, p.padding_x)
    &&& t.padding_y == merged_value(l.padding_y, p.padding_y)
    &&& t.gap == merged_value(l.gap, p.gap)
    &&& t.corner_radius == merged_value(l.corner_radius, p.corner_radius)
}

impl<F: Copy, C: Copy> WindowPickerLabel<F, C> {
    /// Applies the settings a configuration part gives.
    pub fn merge_with(&mut self, part: &WindowPickerLabelPart<F, C>)
        ensures
            label_merged(*old(self), *part, *final(self)),
    {
        merge_text(&mut self.font, &part.font);
        merge_value(&mut self.text_color, &part.text_color);
        merge_value(&mut self.background_color, &part.background_color);
        merge_value(&mut self.border_color, &part.border_color);
        merge_value(&mut self.size, &part.size);
        merge_value(&mut self.padding_x, &part.padding_x);
        merge_value(&mut self.padding_y, &part.padding_y);
        merge_value(&mut self.gap, &part.gap);
        merge_value(&mut self.corner_radius, &part.corner_radius);
    }
}

/// Settings of the keyboard-driven window picker.
#[derive(Debug, Clone, PartialEq)]
pub struct WindowPicker<F, C> {
    pub area_width: F,
    pub area_height: F,
    pub max_scale: F,
    pub gap: F,
    pub label: WindowPickerLabel<F, C>,
    pub backdrop: WindowPickerBackdrop<F, C>,
    pub animation_ms_open: u16,
    pub animation_ms_close: u16,
}

/// One `window-picker` section of a configuration file, as written.
#[derive(Debug, Clone, PartialEq)]
pub struct WindowPickerPart<F, C> {
    pub area_width: Option<F>,
    pub area_height: Option<F>,
    pub max_scale: Option<F>,
    pub gap: Option<F>,
    pub label: Option<WindowPickerLabelPart<F, C>>,
    pub backdrop: Option<WindowPickerBackdropPart<F, C>>,
    pub animation_ms_open: Option<u16>,
    pub animation_ms_close: Option<u16>,
}

impl<F, C> Default for WindowPickerPart<F, C> {
    fn default() -> (p: Self)
        ensures
            p.area_width is None,
            p.area_height is None,
            p.max_scale is None,
            p.gap is None,
            p.label is None,
            p.backdrop is None,
            p.animation_ms_open is None,
            p.animation_ms_close is None,
    {
        WindowPickerPart {
            area_width: None,
            area_height: None,
            max_scale: None,
            gap: None,
            label: None,
            backdrop: None,
            animation_ms_open: None,
            animation_ms_close: None,
        }
    }
}

/// The picker settings `t` are those of `w` after merging `p`.
pub open spec fn picker_merged<F, C>(
    w: WindowPicker<F, C>,
    p: WindowPickerPart<F, C>,
    t: WindowPicker<F, C>,
) -> bool {
    &&& t.area_width == merged_value(w.area_width, p.area_width)
    &&& t.area_height == merged_value(w.area_height, p.area_height)
    &&& t.max_scale == merged_value(w.max_scale, p.max_scale)
    &&& t.gap == merged_value(w.gap, p.gap)
    &&& match p.label {
        Some(lp) => label_merged(w.label, lp, t.label),
        None => label_merged(w.label, WindowPickerLabelPart::<F, C>::empty(), t.label),
    }
    &&& t.backdrop == match p.backdrop {
        Some(bp) => backdrop_merged(w.backdrop, bp),
        None => w.backdrop,
    }
    &&& t.animation_ms_open == merged_value(w.animation_ms_open, p.animation_ms_open)
    &&& t.animation_ms_close == merged_value(w.animation_ms_close, p.animation_ms_close)
}

impl<F, C> WindowPickerLabelPart<F, C> {
    /// A label part that sets nothing.
    pub open spec fn empty() -> Self {
        WindowPickerLabelPart {
            font: None,
            size: None,
            text_color: None,
            background_color: None,
            border_color: None,
            padding_x: None,
            padding_y: None,
            gap: None,
            corner_radius: None,
        }
    }
}

impl<F: Copy, C: Copy> WindowPicker<F, C> {
    /// Applies the settings a configuration part gives.
    pub fn merge_with(&mut self, part: &WindowPickerPart<F, C>)
        ensures
            picker_merged(*old(self), *part, *final(self)),
    {
        merge_value(&mut self.area_width, &part.area_width);
        merge_value(&mut self.area_height, &part.area_height);
        merge_value(&mut self.max_scale, &part.max_scale);
        merge_value(&mut self.gap, &part.gap);
        if let Some(label) = &part.label {
            self.label.merge_with(label);
        }
        if let Some(backdrop) = &part.backdrop {
            self.backdrop.merge_with(backdrop);
        }
        merge_value(&mut self.animation_ms_open, &part.animation_ms_open);
        merge_value(&mut self.animation_ms_close, &part.animation_ms_close);
    }
}

} // verus!
