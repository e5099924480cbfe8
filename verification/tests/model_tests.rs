use postit::colors::{NoteColor, Rgb8};
use postit::note::{default_width, Note};
use postit::settings::{default_opacity, AppSettings, SizePreset, MAX_NOTE_WIDTH};

#[test]
fn palette_background_and_border_values() {
    assert_eq!(NoteColor::Yellow.bg(), Rgb8 { r: 255, g: 241, b: 118 });
    assert_eq!(NoteColor::Pink.bg(), Rgb8 { r: 244, g: 143, b: 177 });
    assert_eq!(NoteColor::Gray.border(), Rgb8 { r: 158, g: 158, b: 158 });
    assert_eq!(NoteColor::Orange.border(), Rgb8 { r: 255, g: 160, b: 30 });
    for c in NoteColor::ALL {
        assert_eq!(c.text(), Rgb8 { r: 62, g: 39, b: 35 });
    }
}

#[test]
fn palette_lists_every_color_once_in_order() {
    assert_eq!(
        NoteColor::ALL,
        [
            NoteColor::Yellow,
            NoteColor::Pink,
            NoteColor::Blue,
            NoteColor::Green,
            NoteColor::Orange,
            NoteColor::Gray
        ]
    );
}

#[test]
fn border_is_darker_than_background() {
    for c in NoteColor::ALL {
        let (bg, border) = (c.bg(), c.border());
        assert!(border.r <= bg.r && border.g <= bg.g && border.b <= bg.b);
        assert!(
            (border.r as u32 + border.g as u32 + border.b as u32)
                < (bg.r as u32 + bg.g as u32 + bg.b as u32)
        );
    }
}

#[test]
fn new_note_defaults() {
    let n = Note::new(7, NoteColor::Blue, 10, 20, Some("firefox".to_string()));
    assert_eq!(n.id, 7);
    assert_eq!(n.text, "");
    assert_eq!(n.color, NoteColor::Blue);
    assert_eq!((n.x, n.y), (10, 20));
    assert!(!n.always_visible);
    assert_eq!(n.bound_app.as_deref(), Some("firefox"));
    assert_eq!(n.output, None);
    assert_eq!(n.width, 152);
    assert_eq!(default_width(), 152);
}

#[test]
fn duplicate_copies_every_field() {
    let mut n = Note::new(3, NoteColor::Green, 1, 2, None);
    n.text = "hello".to_string();
    n.output = Some("DP-1".to_string());
    let d = n.duplicate();
    assert_eq!(d.text, "hello");
    assert_eq!(d.output.as_deref(), Some("DP-1"));
    assert_eq!((d.id, d.x, d.y, d.width), (3, 1, 2, 152));
}

#[test]
fn preset_metrics_default() {
    let p = SizePreset::Default;
    assert_eq!(p.note_height(), 40);
    assert_eq!(p.note_expanded_height(), 76);
    assert_eq!(p.default_note_width(), 152);
    assert_eq!(p.min_note_width(), 240);
    assert_eq!(p.text_size(), 14);
    assert_eq!(p.input_padding(), 4);
    assert_eq!(p.menu_button_text_size(), 12);
    assert_eq!(p.menu_button_padding(), 4);
    assert_eq!(p.swatch_size(), 14);
    assert_eq!(p.swatch_padding(), 1);
    assert_eq!(p.swatch_spacing(), 4);
    assert_eq!(p.icon_text_size(), 14);
    assert_eq!(p.icon_button_padding(), 4);
    assert_eq!(p.options_row_spacing(), 6);
    assert_eq!(p.options_row_padding(), [2, 6]);
    assert_eq!(p.grip_width(), 12);
    assert_eq!(p.grip_icon_text_size(), 12);
    assert_eq!(p.resize_handle_width(), 10);
}

#[test]
fn preset_metrics_small() {
    let p = SizePreset::Small;
    assert_eq!(p.note_height(), 30);
    assert_eq!(p.note_expanded_height(), 60);
    assert_eq!(p.default_note_width(), 120);
    assert_eq!(p.min_note_width(), 200);
    assert_eq!(p.text_size(), 11);
    assert_eq!(p.input_padding(), 3);
    assert_eq!(p.menu_button_text_size(), 10);
    assert_eq!(p.menu_button_padding(), 3);
    assert_eq!(p.swatch_size(), 11);
    assert_eq!(p.swatch_padding(), 1);
    assert_eq!(p.swatch_spacing(), 3);
    assert_eq!(p.icon_text_size(), 11);
    assert_eq!(p.icon_button_padding(), 3);
    assert_eq!(p.options_row_spacing(), 5);
    assert_eq!(p.options_row_padding(), [2, 5]);
    assert_eq!(p.grip_width(), 9);
    assert_eq!(p.grip_icon_text_size(), 9);
    assert_eq!(p.resize_handle_width(), 8);
}

fn options_row_width(p: SizePreset) -> i32 {
    let swatch = p.swatch_size() as i32 + 2 * p.swatch_padding() as i32;
    let icon = p.icon_text_size() as i32 + 2 * p.icon_button_padding() as i32;
    let inner = 6 * swatch + 5 * p.swatch_spacing() as i32 + 4 * icon;
    inner + 4 * p.options_row_spacing() as i32 + 2 * p.options_row_padding()[1] as i32
}

#[test]
fn min_width_fits_the_options_row() {
    assert_eq!(options_row_width(SizePreset::Default), 240);
    assert_eq!(SizePreset::Default.min_note_width(), options_row_width(SizePreset::Default));
    assert_eq!(options_row_width(SizePreset::Small), 191);
    assert!(SizePreset::Small.min_note_width() >= options_row_width(SizePreset::Small));
    assert!(SizePreset::Small.min_note_width() <= MAX_NOTE_WIDTH);
}

#[test]
fn settings_defaults_and_opacity_clamp() {
    let s = AppSettings::default();
    assert_eq!(s.size_preset, SizePreset::Default);
    assert_eq!(s.opacity, 100);
    assert_eq!(default_opacity(), 100);
    assert_eq!(SizePreset::default(), SizePreset::Default);
    assert_eq!(AppSettings { size_preset: SizePreset::Small, opacity: 70 }.opacity_percent(), 70);
    assert_eq!(AppSettings { size_preset: SizePreset::Small, opacity: 250 }.opacity_percent(), 100);
}
