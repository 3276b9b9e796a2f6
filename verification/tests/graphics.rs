use std::path::PathBuf;

use image::{DynamicImage, ImageBuffer};
use notema_image::cache::AsciiArt;
use notema_image::geometry::Size;
use notema_image::graphics::{
    build_protocol, decode_limits, decode_limits_for_font, detect_picker, encoded_or_none,
    is_encodable, is_iterm2, prefer_iterm2_over_kitty, FontSize, MAX_IMAGE_DIMENSION,
};
use notema_image::key::{CacheKey, ImageAsset};
use notema_image::runtime::{choose_backend, is_graphics, Backend};
use notema_image::worker::{BuildMode, Built};
use ratatui::text::Text;
use ratatui_image::errors::Errors;
use ratatui_image::picker::{Picker, ProtocolType};
use ratatui_image::protocol::Protocol;

fn key(width: u16, height: u16) -> CacheKey {
    let asset = ImageAsset {
        entry_path: PathBuf::from("entry.md"),
        file_name: "cat.png".to_string(),
    };
    CacheKey::new(&asset, Size { width, height })
}

/// A picker for cells of 10 by 20 pixels.
fn picker(protocol: ProtocolType) -> Picker {
    let mut picker = Picker::halfblocks();
    picker.set_protocol_type(protocol);
    picker
}

#[allow(deprecated)]
fn picker_without_pixels(protocol: ProtocolType) -> Picker {
    let mut picker = Picker::from_fontsize(ratatui_image::FontSize::new(0, 20));
    picker.set_protocol_type(protocol);
    picker
}

fn text(value: &str) -> Option<String> {
    Some(value.to_string())
}

#[test]
fn iterm2_is_known_by_either_variable() {
    assert!(is_iterm2(&text("iTerm.app"), &None));
    assert!(is_iterm2(&None, &text("iTerm2")));
    assert!(is_iterm2(&text("tmux"), &text("iTerm2")));
    assert!(is_iterm2(&text("iTerm.app"), &text("other")));
}

#[test]
fn other_terminals_are_not_iterm2() {
    assert!(!is_iterm2(&None, &None));
    assert!(!is_iterm2(&text("iTerm2"), &text("iTerm.app")));
    assert!(!is_iterm2(&text("iterm.app"), &text("iTerm2 ")));
    assert!(!is_iterm2(&text(""), &text("")));
}

#[test]
fn kitty_gives_way_on_iterm2_only() {
    let mut kitty = picker(ProtocolType::Kitty);
    prefer_iterm2_over_kitty(&mut kitty, false);
    assert_eq!(kitty.protocol_type(), ProtocolType::Kitty);
    prefer_iterm2_over_kitty(&mut kitty, true);
    assert_eq!(kitty.protocol_type(), ProtocolType::Iterm2);
    prefer_iterm2_over_kitty(&mut kitty, true);
    assert_eq!(kitty.protocol_type(), ProtocolType::Iterm2);
    assert_eq!((kitty.font_size().width, kitty.font_size().height), (10, 20));
}

#[test]
fn other_protocols_stay_on_iterm2() {
    for protocol in [ProtocolType::Halfblocks, ProtocolType::Sixel, ProtocolType::Iterm2] {
        let mut picker = picker(protocol);
        prefer_iterm2_over_kitty(&mut picker, true);
        assert_eq!(picker.protocol_type(), protocol);
    }
}

#[test]
fn detection_applies_the_iterm2_preference() {
    let found = detect_picker(Ok(picker(ProtocolType::Kitty)), &text("iTerm.app"), &None);
    assert_eq!(found.unwrap().protocol_type(), ProtocolType::Iterm2);
    let found = detect_picker(Ok(picker(ProtocolType::Kitty)), &text("kitty"), &None);
    assert_eq!(found.unwrap().protocol_type(), ProtocolType::Kitty);
}

#[test]
fn a_failed_query_detects_nothing() {
    assert!(detect_picker(Err(Errors::NoCap), &text("iTerm.app"), &None).is_none());
}

#[test]
fn graphics_protocols_get_the_graphics_backend() {
    for protocol in [ProtocolType::Kitty, ProtocolType::Sixel, ProtocolType::Iterm2] {
        let (backend, mode) = choose_backend(Some(picker(protocol)));
        assert_eq!(backend, Backend::Graphics);
        match mode {
            BuildMode::Graphics(kept) => assert_eq!(kept.protocol_type(), protocol),
            BuildMode::Ascii => panic!("a graphics backend builds graphics"),
        }
    }
}

#[test]
fn everything_else_gets_ascii_art() {
    let (backend, mode) = choose_backend(Some(picker(ProtocolType::Halfblocks)));
    assert_eq!(backend, Backend::Ascii);
    assert!(matches!(mode, BuildMode::Ascii));
    let (backend, mode) = choose_backend(None);
    assert_eq!(backend, Backend::Ascii);
    assert!(matches!(mode, BuildMode::Ascii));
}

#[test]
fn the_iterm2_preference_keeps_the_backend() {
    let (before, _) = choose_backend(Some(picker(ProtocolType::Kitty)));
    let found = detect_picker(Ok(picker(ProtocolType::Kitty)), &text("iTerm.app"), &None);
    let (after, _) = choose_backend(found);
    assert_eq!(before, after);
}

#[test]
fn half_blocks_are_no_graphics_protocol() {
    assert!(!is_graphics(notema_image::graphics::ProtocolType::Halfblocks));
    assert!(is_graphics(notema_image::graphics::ProtocolType::Sixel));
    assert!(is_graphics(notema_image::graphics::ProtocolType::Kitty));
    assert!(is_graphics(notema_image::graphics::ProtocolType::Iterm2));
}

#[test]
fn decoding_is_capped_to_the_viewport() {
    let font = FontSize { width: 10, height: 20 };
    assert_eq!(decode_limits_for_font(font, &key(78, 22)), (780, 440));
    assert_eq!(decode_limits(&picker(ProtocolType::Kitty), &key(78, 22)), (780, 440));
}

#[test]
fn decoding_is_capped_to_the_ceiling() {
    let font = FontSize { width: u16::MAX, height: 20 };
    assert_eq!(MAX_IMAGE_DIMENSION, 3000);
    assert_eq!(decode_limits_for_font(font, &key(u16::MAX, 150)), (3000, 3000));
    assert_eq!(decode_limits_for_font(font, &key(1, 149)), (3000, 2980));
}

#[test]
fn decoding_is_never_capped_to_nothing() {
    let mut empty = key(1, 7);
    empty.width = 0;
    let font = FontSize { width: 10, height: 0 };
    assert_eq!(decode_limits_for_font(font, &empty), (1, 7));
}

#[test]
fn images_that_fit_keep_their_size() {
    let image = DynamicImage::new_rgb8(100, 100);
    let built = build_protocol(&picker(ProtocolType::Halfblocks), Some(image), &key(78, 22));
    let size = built.unwrap().size();
    assert_eq!((size.width, size.height), (10, 5));
}

#[test]
fn larger_images_are_scaled_into_the_key() {
    for protocol in [
        ProtocolType::Halfblocks,
        ProtocolType::Sixel,
        ProtocolType::Kitty,
        ProtocolType::Iterm2,
    ] {
        let image = DynamicImage::new_rgb8(400, 200);
        let built = build_protocol(&picker(protocol), Some(image), &key(20, 10)).unwrap();
        assert_eq!((built.size().width, built.size().height), (20, 5));
        assert!(match protocol {
            ProtocolType::Halfblocks => matches!(built, Protocol::Halfblocks(_)),
            ProtocolType::Sixel => matches!(built, Protocol::Sixel(_)),
            ProtocolType::Kitty => matches!(built, Protocol::Kitty(_)),
            ProtocolType::Iterm2 => matches!(built, Protocol::ITerm2(_)),
        });
    }
}

#[test]
fn builds_fit_whatever_the_shape() {
    for (width, height) in [(1, 1), (1, 3000), (3000, 1), (799, 441), (0, 0), (0, 500)] {
        let image = DynamicImage::new_luma8(width, height);
        let built = build_protocol(&picker(ProtocolType::Halfblocks), Some(image), &key(7, 3));
        let size = built.unwrap().size();
        assert!(size.width <= 7 && size.height <= 3);
    }
}

#[test]
fn undecodable_images_fail_to_build() {
    assert!(build_protocol(&picker(ProtocolType::Kitty), None, &key(7, 3)).is_none());
}

#[test]
fn cells_without_pixels_fail_to_build() {
    for protocol in [ProtocolType::Halfblocks, ProtocolType::Kitty] {
        let image = DynamicImage::new_rgb8(10, 10);
        let picker = picker_without_pixels(protocol);
        assert!(build_protocol(&picker, Some(image), &key(7, 3)).is_none());
    }
}

#[test]
fn cells_without_pixels_do_in_the_widest_area() {
    let image = DynamicImage::new_rgb8(10, 20);
    let picker = picker_without_pixels(ProtocolType::Kitty);
    let built = build_protocol(&picker, Some(image), &key(u16::MAX, 3)).unwrap();
    assert_eq!((built.size().width, built.size().height), (u16::MAX, 1));
}

#[test]
fn huge_images_are_scaled_into_the_key() {
    for protocol in [
        ProtocolType::Halfblocks,
        ProtocolType::Sixel,
        ProtocolType::Kitty,
        ProtocolType::Iterm2,
    ] {
        for width in [65535, 65536, 70000] {
            let image = DynamicImage::new_luma8(width, 10);
            let built = build_protocol(&picker(protocol), Some(image), &key(7, 3)).unwrap();
            assert_eq!((built.size().width, built.size().height), (7, 1));
        }
        let image = DynamicImage::new_luma8(10, 70000);
        let built = build_protocol(&picker(protocol), Some(image), &key(7, 3)).unwrap();
        assert_eq!((built.size().width, built.size().height), (1, 3));
    }
}

#[test]
fn huge_images_are_kept_where_they_fit() {
    let image = DynamicImage::new_luma8(70000, 10);
    let built = build_protocol(&picker(ProtocolType::Kitty), Some(image), &key(7000, 1)).unwrap();
    assert_eq!((built.size().width, built.size().height), (7000, 1));
}

#[test]
fn sizes_beyond_the_key_fail_to_build() {
    let picker = picker(ProtocolType::Kitty);
    let bounds = Size { width: 8000, height: 3 };
    assert!(!is_encodable(&picker, &DynamicImage::new_luma8(70001, 10), bounds));
    let image = DynamicImage::new_luma8(70001, 10);
    assert!(build_protocol(&picker, Some(image), &key(8000, 3)).is_none());
}

/// An image with four bytes per pixel in a buffer of `length` bytes.
fn padded_image(width: u32, height: u32, length: usize) -> DynamicImage {
    DynamicImage::ImageRgba8(ImageBuffer::from_raw(width, height, vec![0; length]).unwrap())
}

#[test]
fn spare_bytes_stay_out_of_png_and_sixels() {
    for protocol in [ProtocolType::Iterm2, ProtocolType::Sixel] {
        let picker = picker(protocol);
        let exact = padded_image(10, 20, 800);
        assert!(build_protocol(&picker, Some(exact), &key(7, 3)).is_some());
        let padded = padded_image(10, 20, 801);
        assert!(build_protocol(&picker, Some(padded), &key(7, 3)).is_none());
    }
}

#[test]
fn spare_bytes_do_not_matter_elsewhere() {
    for protocol in [ProtocolType::Halfblocks, ProtocolType::Kitty] {
        let padded = padded_image(10, 20, 801);
        let built = build_protocol(&picker(protocol), Some(padded), &key(7, 3)).unwrap();
        assert_eq!((built.size().width, built.size().height), (1, 1));
    }
    for protocol in [ProtocolType::Iterm2, ProtocolType::Sixel] {
        let padded = padded_image(15, 25, 1501);
        let built = build_protocol(&picker(protocol), Some(padded), &key(7, 3)).unwrap();
        assert_eq!((built.size().width, built.size().height), (2, 2));
    }
}

#[test]
fn encodable_images_are_told_from_others() {
    let bounds = Size { width: 7, height: 3 };
    let png = picker(ProtocolType::Iterm2);
    let sixel = picker(ProtocolType::Sixel);
    assert!(is_encodable(&png, &padded_image(10, 20, 800), bounds));
    assert!(!is_encodable(&png, &padded_image(10, 20, 801), bounds));
    assert!(is_encodable(&png, &padded_image(15, 25, 1501), bounds));
    assert!(is_encodable(&sixel, &padded_image(10, 20, 801), bounds));
    assert!(is_encodable(&png, &DynamicImage::new_rgb32f(10, 20), bounds));
    assert!(is_encodable(&png, &DynamicImage::new_luma_a16(10, 20), bounds));
    assert!(is_encodable(&png, &DynamicImage::new_luma8(70000, 1), bounds));
    let without_pixels = picker_without_pixels(ProtocolType::Sixel);
    assert!(!is_encodable(&without_pixels, &padded_image(10, 20, 800), bounds));
}

#[test]
fn every_integer_color_type_is_encoded() {
    for protocol in [
        ProtocolType::Halfblocks,
        ProtocolType::Sixel,
        ProtocolType::Kitty,
        ProtocolType::Iterm2,
    ] {
        let picker = picker(protocol);
        let images = [
            DynamicImage::new_luma8(30, 50),
            DynamicImage::new_luma_a8(30, 50),
            DynamicImage::new_rgb8(30, 50),
            DynamicImage::new_rgba8(30, 50),
            DynamicImage::new_luma16(30, 50),
            DynamicImage::new_luma_a16(30, 50),
            DynamicImage::new_rgb16(30, 50),
            DynamicImage::new_rgba16(30, 50),
        ];
        for image in images {
            let built = build_protocol(&picker, Some(image), &key(7, 3)).unwrap();
            assert!(built.size().width <= 7 && built.size().height <= 3);
        }
    }
}

#[test]
fn png_has_no_float_pixels() {
    for protocol in [ProtocolType::Halfblocks, ProtocolType::Sixel, ProtocolType::Kitty] {
        let image = DynamicImage::new_rgb32f(30, 60);
        assert!(build_protocol(&picker(protocol), Some(image), &key(7, 3)).is_some());
    }
    let image = DynamicImage::new_rgb32f(30, 60);
    assert!(build_protocol(&picker(ProtocolType::Iterm2), Some(image), &key(7, 3)).is_none());
}

#[test]
fn empty_images_cannot_be_sixels_or_png() {
    for protocol in [ProtocolType::Sixel, ProtocolType::Iterm2] {
        let image = DynamicImage::new_rgb8(0, 0);
        assert!(build_protocol(&picker(protocol), Some(image), &key(7, 3)).is_none());
    }
    let image = DynamicImage::new_rgb8(0, 0);
    assert!(build_protocol(&picker(ProtocolType::Kitty), Some(image), &key(7, 3)).is_some());
}

#[test]
fn encoding_errors_leave_nothing() {
    assert!(encoded_or_none(Err(Errors::Tmux("broken"))).is_none());
    let image = DynamicImage::new_rgb8(10, 20);
    let built = build_protocol(&picker(ProtocolType::Halfblocks), Some(image), &key(7, 3));
    assert!(encoded_or_none(Ok(built.unwrap())).is_some());
}

#[test]
fn the_mode_decides_what_is_built() {
    let graphics = BuildMode::Graphics(picker(ProtocolType::Kitty));
    let image = DynamicImage::new_rgb8(10, 20);
    let art = AsciiArt { cols: 3, rows: 2, text: Text::raw("abc\ndef") };
    assert!(matches!(
        graphics.build(&key(7, 3), Some(image), None),
        Some(Built::Graphics(_))
    ));
    assert!(graphics.build(&key(7, 3), None, None).is_none());
    match BuildMode::Ascii.build(&key(7, 3), None, Some(art)) {
        Some(Built::Ascii(art)) => assert_eq!((art.cols, art.rows), (3, 2)),
        _ => panic!("ASCII art is passed on"),
    }
    assert!(BuildMode::Ascii.build(&key(7, 3), None, None).is_none());
}
