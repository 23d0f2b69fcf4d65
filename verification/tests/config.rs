use niri::config::window_picker::{
    WindowPicker, WindowPickerBackdrop, WindowPickerBackdropPart, WindowPickerBlur,
    WindowPickerBlurPart, WindowPickerLabel, WindowPickerLabelPart, WindowPickerPart,
};

type Rgba = [f32; 4];

fn base() -> WindowPicker<f64, Rgba> {
    WindowPicker {
        area_width: 0.8,
        area_height: 0.8,
        max_scale: 0.65,
        gap: 24.,
        label: WindowPickerLabel {
            font: String::from("Sans Bold"),
            size: 24.,
            text_color: [1., 1., 1., 1.],
            background_color: [0.1, 0.1, 0.1, 0.9],
            border_color: [0.4, 0.8, 0.8, 1.],
            padding_x: 14.,
            padding_y: 7.,
            gap: 12.,
            corner_radius: 8.,
        },
        backdrop: WindowPickerBackdrop {
            brightness: 0.55,
            color: [0.06, 0.07, 0.1, 0.2],
            saturation: 0.85,
            blur: WindowPickerBlur {
                on: true,
                passes: 3,
                offset: 3.,
            },
        },
        animation_ms_open: 180,
        animation_ms_close: 180,
    }
}

#[test]
fn picker_part_overrides_what_it_sets() {
    let mut picker = base();
    let part = WindowPickerPart {
        area_width: Some(0.7),
        area_height: Some(0.75),
        max_scale: Some(0.5),
        gap: Some(18.),
        label: Some(WindowPickerLabelPart {
            font: Some(String::from("Monospace Bold")),
            size: Some(30.),
            text_color: Some([0.07, 0.13, 0.2, 1.]),
            padding_x: Some(16.),
            padding_y: Some(9.),
            gap: Some(14.),
            corner_radius: Some(6.),
            ..WindowPickerLabelPart::default()
        }),
        backdrop: Some(WindowPickerBackdropPart {
            brightness: Some(0.4),
            saturation: Some(0.7),
            blur: Some(WindowPickerBlurPart {
                off: true,
                passes: Some(5),
                offset: Some(4.),
                ..WindowPickerBlurPart::default()
            }),
            ..WindowPickerBackdropPart::default()
        }),
        animation_ms_open: Some(220),
        animation_ms_close: Some(350),
    };
    picker.merge_with(&part);
    assert_eq!(picker.area_width, 0.7);
    assert_eq!(picker.area_height, 0.75);
    assert_eq!(picker.max_scale, 0.5);
    assert_eq!(picker.gap, 18.);
    assert_eq!(picker.label.font, "Monospace Bold");
    assert_eq!(picker.label.size, 30.);
    assert_eq!(picker.label.text_color, [0.07, 0.13, 0.2, 1.]);
    assert_eq!(picker.label.background_color, base().label.background_color);
    assert_eq!(picker.label.padding_x, 16.);
    assert_eq!(picker.label.padding_y, 9.);
    assert_eq!(picker.label.gap, 14.);
    assert_eq!(picker.label.corner_radius, 6.);
    assert_eq!(picker.backdrop.brightness, 0.4);
    assert_eq!(picker.backdrop.saturation, 0.7);
    assert_eq!(picker.backdrop.color, base().backdrop.color);
    assert!(!picker.backdrop.blur.on);
    assert_eq!(picker.backdrop.blur.passes, 5);
    assert_eq!(picker.backdrop.blur.offset, 4.);
    assert_eq!(picker.animation_ms_open, 220);
    assert_eq!(picker.animation_ms_close, 350);
}

#[test]
fn empty_picker_part_changes_nothing() {
    let mut picker = base();
    picker.merge_with(&WindowPickerPart::default());
    assert_eq!(picker, base());
}

#[test]
fn picker_merge_twice_is_merge_once() {
    let part = WindowPickerPart {
        gap: Some(4.),
        label: Some(WindowPickerLabelPart {
            size: Some(12.),
            ..WindowPickerLabelPart::default()
        }),
        backdrop: Some(WindowPickerBackdropPart {
            color: Some([0., 0., 0., 0.5]),
            ..WindowPickerBackdropPart::default()
        }),
        ..WindowPickerPart::default()
    };
    let mut once = base();
    once.merge_with(&part);
    let mut twice = once.clone();
    twice.merge_with(&part);
    assert_eq!(once, twice);
    assert_eq!(once.gap, 4.);
    assert_eq!(once.label.size, 12.);
    assert_eq!(once.backdrop.color, [0., 0., 0., 0.5]);
}

#[test]
fn blur_on_and_off() {
    let mut blur = WindowPickerBlur {
        on: false,
        passes: 3,
        offset: 3.,
    };
    blur.merge_with(&WindowPickerBlurPart {
        on: true,
        ..WindowPickerBlurPart::default()
    });
    assert!(blur.on);
    blur.merge_with(&WindowPickerBlurPart {
        on: true,
        off: true,
        ..WindowPickerBlurPart::default()
    });
    assert!(!blur.on);
    blur.merge_with(&WindowPickerBlurPart::default());
    assert!(!blur.on);
    assert_eq!(blur.passes, 3);
    assert_eq!(blur.offset, 3.);
}

#[test]
fn backdrop_merge_keeps_unset_fields() {
    let mut backdrop = base().backdrop;
    backdrop.merge_with(&WindowPickerBackdropPart {
        brightness: Some(0.2),
        ..WindowPickerBackdropPart::default()
    });
    assert_eq!(backdrop.brightness, 0.2);
    assert_eq!(backdrop.saturation, 0.85);
    assert_eq!(backdrop.blur, base().backdrop.blur);
}

#[test]
fn label_merge_keeps_unset_fields() {
    let mut label = base().label;
    label.merge_with(&WindowPickerLabelPart {
        border_color: Some([1., 0., 0., 1.]),
        ..WindowPickerLabelPart::default()
    });
    assert_eq!(label.border_color, [1., 0., 0., 1.]);
    assert_eq!(label.font, "Sans Bold");
    assert_eq!(label.size, 24.);
}
