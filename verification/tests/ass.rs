use std::collections::HashMap;

use arib_caption::model::{Caption, CaptionChar, CharBody, CharStyle, Drcs, Enclosure, Rgba, Scale};
use arib_caption::render::ass::{
    alpha, appearance, colour, escape, glyph_of, ink, plane_of, runs, text_of, timestamp,
};
use arib_caption::render::timeline::Timed;

fn cell(x: i32, y: i32, text: &str) -> CaptionChar {
    CaptionChar {
        body: CharBody::Text {
            text: text.to_string(),
            pua: None,
        },
        x,
        y,
        char_width: 36,
        char_height: 36,
        char_horizontal_spacing: 4,
        char_vertical_spacing: 24,
        char_horizontal_scale: Scale::Half,
        char_vertical_scale: Scale::One,
        text_color: Rgba::new(255, 255, 255, 255),
        back_color: Rgba::new(0, 0, 0, 128),
        stroke_color: Rgba::transparent(),
        style: CharStyle::default(),
        enclosure: Enclosure::default(),
    }
}

fn stencil() -> Drcs {
    let rows = [0b1111u8, 0b0110, 0b0110, 0b0110];
    let mut bits = 0u16;
    for (i, row) in rows.iter().enumerate() {
        bits |= (*row as u16) << (12 - i * 4);
    }
    Drcs {
        width: 4,
        height: 4,
        depth: 2,
        depth_bits: 1,
        pixels: bits.to_be_bytes().to_vec(),
        md5: "test".into(),
        alternative: None,
    }
}

#[test]
fn colours_are_backwards_and_alpha_counts_transparency() {
    // BGR, and opaque is alpha 00.
    assert_eq!(colour(Rgba::new(255, 255, 0, 255)), "&H00FFFF&");
    assert_eq!(alpha(Rgba::new(255, 255, 0, 255)), "&H00&");
    assert_eq!(alpha(Rgba::new(0, 0, 0, 128)), "&H7F&");
    assert_eq!(colour(Rgba::new(0x12, 0x34, 0x56, 0)), "&H563412&");
}

#[test]
fn times_are_hundredths() {
    assert_eq!(timestamp(1_500), "0:00:01.50");
    assert_eq!(timestamp(4_250), "0:00:04.25");
    // Rounded to the nearest hundredth, and nothing before zero.
    assert_eq!(timestamp(61_005), "0:01:01.01");
    assert_eq!(timestamp(61_004), "0:01:01.00");
    assert_eq!(timestamp(-10), "0:00:00.00");
    assert_eq!(timestamp(2 * 3_600_000 + 3_000), "2:00:03.00");
}

#[test]
fn a_brace_cannot_open_a_tag() {
    assert_eq!(escape("{\\b1}x"), "\\{\\b1\\}x");
    assert_eq!(escape("あい"), "あい");
}

#[test]
fn the_plane_is_the_first_one_a_caption_declares() {
    assert_eq!(plane_of(&[]), (960, 540));
    let mut unset = Caption::default();
    unset.plane_width = 0;
    let mut hd = Caption::default();
    hd.plane_width = 1920;
    hd.plane_height = 1080;
    let timed = |c: Caption| Timed { start_ms: 0, end_ms: 1, value: c };
    assert_eq!(plane_of(&[timed(unset), timed(hd.clone()), timed(Caption::default())]), (1920, 1080));
}

#[test]
fn runs_join_neighbours_exactly_where_they_belong_together() {
    assert_eq!(runs(0, &[]), vec![]);
    assert_eq!(runs(1, &[]), vec![(0, 1)]);
    assert_eq!(runs(5, &[true, false, true, true]), vec![(0, 2), (2, 5)]);
    assert_eq!(runs(3, &[false, false]), vec![(0, 1), (1, 2), (2, 3)]);
}

#[test]
fn the_first_character_says_only_what_is_not_plain() {
    let first = cell(0, 0, "あ");
    assert_eq!(appearance(&first, None), "\\1c&HFFFFFF&\\1a&H00&");
    // The same appearance again says nothing.
    let second = cell(20, 0, "い");
    assert_eq!(appearance(&second, Some(&first)), "");
}

#[test]
fn a_colour_change_is_inline() {
    let first = cell(0, 0, "あ");
    let mut second = cell(20, 0, "い");
    second.text_color = Rgba::new(255, 255, 0, 255);
    assert_eq!(appearance(&second, Some(&first)), "\\1c&H00FFFF&\\1a&H00&");
}

#[test]
fn stroke_goes_on_changes_and_comes_off() {
    let plain = cell(0, 0, "あ");
    let mut stroked = cell(20, 0, "い");
    stroked.style.stroke = true;
    stroked.stroke_color = Rgba::new(0, 0, 255, 255);
    assert_eq!(appearance(&stroked, Some(&plain)), "\\bord2\\3c&HFF0000&\\3a&H00&");
    let mut recoloured = stroked.clone();
    recoloured.stroke_color = Rgba::new(255, 0, 0, 255);
    assert_eq!(appearance(&recoloured, Some(&stroked)), "\\bord2\\3c&H0000FF&\\3a&H00&");
    assert_eq!(appearance(&plain, Some(&stroked)), "\\bord0");
    // A stroke flag in a transparent colour draws nothing, so says nothing.
    let mut invisible = cell(40, 0, "う");
    invisible.style.stroke = true;
    assert_eq!(appearance(&invisible, Some(&plain)), "");
}

#[test]
fn bold_italic_and_underline_are_set_and_cleared() {
    let mut bold = cell(0, 0, "あ");
    bold.style.bold = true;
    bold.style.underline = true;
    assert_eq!(appearance(&bold, None), "\\1c&HFFFFFF&\\1a&H00&\\b1\\u1");
    let plain = cell(20, 0, "い");
    assert_eq!(appearance(&plain, Some(&bold)), "\\b0\\u0");
}

#[test]
fn a_drcs_cell_with_no_glyph_shows_geta() {
    let mut ch = cell(0, 0, "");
    ch.body = CharBody::Drcs { code: 0x41 };
    assert_eq!(text_of(&ch), "〓");
    assert_eq!(text_of(&cell(0, 0, "字")), "字");
}

#[test]
fn only_a_transmitted_glyph_with_pixels_is_drawn() {
    let mut drcs = HashMap::new();
    drcs.insert(0x41u32, stencil());
    let mut empty = stencil();
    empty.pixels.clear();
    drcs.insert(0x42u32, empty);
    let mut ch = cell(0, 0, "");
    ch.body = CharBody::Drcs { code: 0x41 };
    assert!(glyph_of(&ch, &drcs).is_some());
    ch.body = CharBody::Drcs { code: 0x42 };
    assert!(glyph_of(&ch, &drcs).is_none());
    ch.body = CharBody::Drcs { code: 0x43 };
    assert!(glyph_of(&ch, &drcs).is_none());
    // A replaced glyph is text, not a drawing.
    ch.body = CharBody::DrcsReplaced { text: "字".into(), code: 0x41 };
    assert!(glyph_of(&ch, &drcs).is_none());
}

/// The full top row, then the column below it merged down three rows rather
/// than drawn as three.
#[test]
fn a_drcs_glyph_becomes_rectangles_in_reading_order() {
    assert_eq!(ink(&stencil(), 1), vec![(0, 0, 4, 1), (1, 1, 2, 3)]);
    // The background is everything else.
    assert_eq!(ink(&stencil(), 0), vec![(0, 1, 1, 3), (3, 1, 1, 3)]);
}

#[test]
fn a_multi_level_glyph_is_split_by_level() {
    // 2 bits a pixel, 2 × 2: levels 3 2 / 3 1.
    let g = Drcs {
        width: 2,
        height: 2,
        depth: 4,
        depth_bits: 2,
        pixels: vec![0b1110_1101],
        md5: String::new(),
        alternative: None,
    };
    assert_eq!(ink(&g, 3), vec![(0, 0, 1, 2)]);
    assert_eq!(ink(&g, 2), vec![(1, 0, 1, 1)]);
    assert_eq!(ink(&g, 1), vec![(1, 1, 1, 1)]);
    assert_eq!(ink(&g, 0), vec![]);
}
