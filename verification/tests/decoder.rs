use arib_caption::b24::controls::c0;
use arib_caption::decoder::machine::MAX_PLANE_DOTS;
use arib_caption::decoder::{management_format_to_swf, writing_mode_for_swf, plane_dots};
use arib_caption::model::{CaptionKind, CharBody, Duration, Rgba, WritingMode};
use arib_caption::pes::Group;
use arib_caption::{DecodeError, Decoder, Options};

/// Wrap a statement body in the data group and PES framing a decoder wants.
fn statement_pes(body: &[u8]) -> Vec<u8> {
    let unit_len = body.len();
    let mut group = vec![0x00]; // TMD free
    let loop_len = 5 + unit_len;
    group.extend_from_slice(&[(loop_len >> 16) as u8, (loop_len >> 8) as u8, loop_len as u8]);
    group.extend_from_slice(&[
        0x1f,
        0x20,
        (unit_len >> 16) as u8,
        (unit_len >> 8) as u8,
        unit_len as u8,
    ]);
    group.extend_from_slice(body);

    let mut payload = vec![0x80, 0xff, 0xf0];
    // data_group_id 1 (statement, language 1), version 0, links 0.
    payload.extend_from_slice(&[0x04, 0x00, 0x00]);
    payload.extend_from_slice(&[(group.len() >> 8) as u8, group.len() as u8]);
    payload.extend_from_slice(&group);
    payload
}

fn management_pes(format: u8, group: Group) -> Vec<u8> {
    let body = [
        0x00, // TMD free
        0x01, // one language
        0x00, // language tag 0, DMF 0
        b'j',
        b'p',
        b'n',
        format << 4, // format, TCS 0, roll-up 0
        0x00,
        0x00,
        0x00, // empty data-unit loop
    ];
    let group_byte = match group {
        Group::A => 0x00,
        Group::B => 0x80,
    };
    let mut payload = vec![0x80, 0xff, 0xf0];
    payload.extend_from_slice(&[group_byte, 0x00, 0x00, 0x00, body.len() as u8]);
    payload.extend_from_slice(&body);
    payload
}

fn vertical_decoder() -> Decoder {
    let mut decoder = Decoder::new(CaptionKind::Caption, Options::default());
    decoder.set_swf(8);
    decoder.reset_state();
    decoder
}

fn active_cell_position(decoder: &mut Decoder) -> (i32, i32) {
    let ch = decoder.make_char(CharBody::Text {
        text: "x".into(),
        pua: None,
    });
    (ch.x, ch.y)
}

#[test]
fn management_formats_map_to_swf_without_treating_all_values_as_one_based() {
    for raw in 0..=4 {
        assert_eq!(management_format_to_swf(raw), Some(raw));
    }
    for raw in 6..=13 {
        assert_eq!(management_format_to_swf(raw), Some(raw - 1));
    }
    for reserved in [5, 14, 15] {
        assert_eq!(management_format_to_swf(reserved), None);
    }
}

#[test]
fn a_reserved_management_format_does_not_mutate_prior_state() {
    let mut decoder = Decoder::new(CaptionKind::Caption, Options::default());
    assert!(matches!(
        decoder.decode(&management_pes(10, Group::A), None),
        Ok(None)
    ));
    let before = decoder.settings();

    assert!(matches!(
        decoder.decode(&management_pes(5, Group::B), None),
        Err(DecodeError::Malformed("reserved management writing format"))
    ));
    assert_eq!(decoder.settings(), before);

    // Group B was not marked as consumed by the rejected management group.
    assert!(matches!(
        decoder.decode(&management_pes(9, Group::B), None),
        Ok(None)
    ));
    assert_eq!(decoder.settings().prev_management_group, Some(Group::B));
    assert_eq!(decoder.settings().swf, 8);
    assert_eq!(decoder.settings().writing_mode, WritingMode::VerticalRl);
}

#[test]
fn every_defined_swf_has_an_explicit_direction() {
    let expected = [
        WritingMode::HorizontalTb,
        WritingMode::VerticalRl,
        WritingMode::HorizontalTb,
        WritingMode::VerticalRl,
        WritingMode::HorizontalTb,
        WritingMode::HorizontalTb,
        WritingMode::VerticalRl,
        WritingMode::HorizontalTb,
        WritingMode::VerticalRl,
        WritingMode::HorizontalTb,
        WritingMode::VerticalRl,
        WritingMode::HorizontalTb,
        WritingMode::VerticalRl,
    ];
    for (swf, writing_mode) in expected.into_iter().enumerate() {
        assert_eq!(writing_mode_for_swf(swf as u8), Some(writing_mode));
    }
    assert_eq!(writing_mode_for_swf(13), None);
}

#[test]
fn modern_swf_dimensions_and_established_metrics_are_explicit() {
    let cases = [
        (5, 1920, 1080, 4, 24),
        (6, 1920, 1080, 4, 24),
        (7, 960, 540, 4, 24),
        (8, 960, 540, 12, 24),
        (9, 720, 480, 4, 16),
        (10, 720, 480, 8, 24),
        (11, 1280, 720, 4, 24),
        (12, 1280, 720, 4, 24),
    ];
    let mut decoder = Decoder::new(CaptionKind::Caption, Options::default());

    for (swf, width, height, horizontal_spacing, vertical_spacing) in cases {
        decoder.set_swf(swf);
        decoder.reset_state();
        let s = decoder.settings();
        assert_eq!(
            (
                s.plane_width,
                s.plane_height,
                s.area_width,
                s.area_height,
                s.char_horizontal_spacing,
                s.char_vertical_spacing,
            ),
            (width, height, width, height, horizontal_spacing, vertical_spacing),
            "SWF {swf}"
        );
    }
}

#[test]
fn legacy_swf_keeps_fallback_geometry_while_honouring_direction() {
    let modes = [
        WritingMode::HorizontalTb,
        WritingMode::VerticalRl,
        WritingMode::HorizontalTb,
        WritingMode::VerticalRl,
        WritingMode::HorizontalTb,
    ];
    let mut decoder = Decoder::new(CaptionKind::Caption, Options::default());

    for (swf, writing_mode) in modes.into_iter().enumerate() {
        decoder.set_swf(swf as u8);
        decoder.reset_state();
        let s = decoder.settings();
        assert_eq!(s.writing_mode, writing_mode);
        assert_eq!((s.plane_width, s.plane_height), (960, 540));
        assert_eq!((s.char_horizontal_spacing, s.char_vertical_spacing), (4, 24));
    }
}

#[test]
fn ordinary_vertical_glyphs_advance_downward_and_form_column_bounds() {
    let body = [
        0x9b, b'8', 0x20, b'S', // CSI SWF 8: 960x540 vertical
        0x1b, 0x24, 0x42, 0x0f, // kanji in G0, LS0
        0x30, 0x21, 0x30, 0x22, // two ordinary glyphs
    ];
    let mut decoder = Decoder::new(CaptionKind::Caption, Options::default());
    let caption = decoder
        .decode(&statement_pes(&body), None)
        .expect("decodes")
        .expect("caption");

    assert_eq!(caption.regions.len(), 1);
    let region = &caption.regions[0];
    assert_eq!(region.writing_mode, WritingMode::VerticalRl);
    assert_eq!((region.x, region.y, region.width, region.height), (912, 0, 48, 120));
    assert_eq!((region.chars[0].x, region.chars[0].y), (912, 0));
    assert_eq!((region.chars[1].x, region.chars[1].y), (912, 60));
}

#[test]
fn vertical_controls_follow_character_and_line_axes() {
    let mut decoder = vertical_decoder();

    assert_eq!(decoder.handle_c0(&[c0::APS, 0x40 | 1, 0x40 | 2], 1), Some(3));
    assert_eq!(active_cell_position(&mut decoder), (864, 120));

    assert_eq!(decoder.handle_c0(&[c0::APF], 1), Some(1));
    assert_eq!(active_cell_position(&mut decoder), (864, 180));
    assert_eq!(decoder.handle_c0(&[c0::APB], 1), Some(1));
    assert_eq!(active_cell_position(&mut decoder), (864, 120));

    assert_eq!(decoder.handle_c0(&[c0::APD], 1), Some(1));
    assert_eq!(active_cell_position(&mut decoder), (816, 120));
    assert_eq!(decoder.handle_c0(&[c0::APU], 1), Some(1));
    assert_eq!(active_cell_position(&mut decoder), (864, 120));

    assert_eq!(decoder.handle_c0(&[c0::PAPF, 0x40 | 3], 1), Some(2));
    assert_eq!(active_cell_position(&mut decoder), (864, 300));

    assert_eq!(decoder.handle_c0(&[c0::APR], 1), Some(1));
    assert_eq!(active_cell_position(&mut decoder), (816, 0));
}

#[test]
fn vertical_character_and_line_steps_wrap_in_their_own_axes() {
    let mut decoder = vertical_decoder();

    decoder.handle_c0(&[c0::APS, 0x40, 0x40 | 8], 1);
    assert_eq!(active_cell_position(&mut decoder), (912, 480));
    decoder.handle_c0(&[c0::APF], 1);
    assert_eq!(active_cell_position(&mut decoder), (864, 0));
    decoder.handle_c0(&[c0::APB], 1);
    assert_eq!(active_cell_position(&mut decoder), (912, 480));

    decoder.handle_c0(&[c0::APS, 0x40 | 19, 0x40], 1);
    assert_eq!(active_cell_position(&mut decoder), (0, 0));
    decoder.handle_c0(&[c0::APD], 1);
    assert_eq!(active_cell_position(&mut decoder), (912, 0));
    decoder.handle_c0(&[c0::APU], 1);
    assert_eq!(active_cell_position(&mut decoder), (0, 0));
}

#[test]
fn acps_remains_a_physical_coordinate_in_vertical_mode() {
    let mut decoder = vertical_decoder();

    assert_eq!(decoder.handle_csi(b"123;456 a"), Some(9));

    assert_eq!(active_cell_position(&mut decoder), (123, 396));
}

#[test]
fn changing_direction_splits_regions_within_one_density() {
    let body = [
        0x9b, b'7', 0x20, b'S', // 960x540 horizontal
        0x1b, 0x24, 0x42, 0x0f, // kanji in G0, LS0
        c0::APS, 0x40, 0x40, 0x30, 0x21, //
        0x9b, b'8', 0x20, b'S', // same density, vertical
        c0::APS, 0x40, 0x40, 0x30, 0x22,
    ];
    let mut decoder = Decoder::new(CaptionKind::Caption, Options::default());
    let caption = decoder
        .decode(&statement_pes(&body), None)
        .expect("decodes")
        .expect("caption");

    assert_eq!(caption.regions.len(), 2);
    assert_eq!(caption.regions[0].writing_mode, WritingMode::HorizontalTb);
    assert_eq!(caption.regions[1].writing_mode, WritingMode::VerticalRl);
    assert_eq!((caption.regions[0].x, caption.regions[0].y), (0, 0));
    assert_eq!((caption.regions[1].x, caption.regions[1].y), (912, 0));
}

/// Positioning is the part with no room for interpretation: APS counts
/// character cells, and the pen's y is the *bottom* of the row, so a
/// character's own y sits one section height above it.
#[test]
fn aps_positions_a_character_by_cell() {
    let mut decoder = Decoder::new(CaptionKind::Caption, Options::default());
    let body = [
        0x1b, 0x24, 0x42, // designate kanji into G0
        0x0f, // LS0
        0x1c, 0x40 | 2, 0x40 | 3, // APS: row 2, column 3
        0x30, 0x21, // ku 15, ten 0 → 亜
    ];
    let caption = decoder
        .decode(&statement_pes(&body), Some(1_000))
        .expect("decodes")
        .expect("a caption");

    assert_eq!(caption.text, "亜");
    assert_eq!(caption.pts_ms, Some(1_000));
    assert_eq!(caption.duration, Duration::Indefinite);
    assert_eq!(caption.regions.len(), 1);

    let region = &caption.regions[0];
    // Default profile A metrics: 36x36 cells, 4 and 24 of spacing → a
    // section of 40x60.
    assert_eq!(region.x, 3 * 40);
    assert_eq!(region.y, 3 * 60 - 60);
    assert_eq!(region.height, 60);
    assert_eq!(region.width, 40);
    assert!(!region.is_ruby);

    let ch = &region.chars[0];
    assert_eq!(ch.x, 120);
    assert_eq!(ch.y, 120);
    assert_eq!(ch.section_width(), 40);
    assert_eq!(ch.section_height(), 60);
}

/// A run of characters on one line is one region; a jump starts another.
#[test]
fn a_position_jump_starts_a_new_region() {
    let mut decoder = Decoder::new(CaptionKind::Caption, Options::default());
    let body = [
        0x1b, 0x24, 0x42, 0x0f, //
        0x1c, 0x40, 0x40, // APS(0, 0)
        0x30, 0x21, 0x30, 0x22, // two characters, contiguous
        0x1c, 0x40 | 3, 0x40 | 10, // APS elsewhere
        0x30, 0x23,
    ];
    let caption = decoder
        .decode(&statement_pes(&body), None)
        .expect("decodes")
        .expect("a caption");
    assert_eq!(caption.regions.len(), 2);
    assert_eq!(caption.regions[0].chars.len(), 2);
    assert_eq!(caption.regions[1].chars.len(), 1);
    assert_eq!(caption.text.chars().count(), 3);
}

#[test]
fn a_region_box_is_the_run_of_its_cells() {
    let mut decoder = Decoder::new(CaptionKind::Caption, Options::default());
    let body = [
        0x1b, 0x24, 0x42, 0x0f, //
        0x1c, 0x40 | 2, 0x40 | 4, // APS(2, 4)
        0x30, 0x21, 0x30, 0x22, 0x30, 0x23, // three characters, contiguous
    ];
    let caption = decoder
        .decode(&statement_pes(&body), None)
        .expect("decodes")
        .expect("a caption");
    assert_eq!(caption.regions.len(), 1);
    let region = &caption.regions[0];
    assert_eq!(region.chars.len(), 3);
    let mut total = 0;
    for pair in region.chars.windows(2) {
        assert_eq!(pair[1].x, pair[0].x + pair[0].section_width());
        assert_eq!(pair[1].y, pair[0].y);
    }
    for ch in &region.chars {
        assert!(region.x <= ch.x && ch.x + ch.section_width() <= region.x + region.width);
        assert!(region.y <= ch.y && ch.y + ch.section_height() <= region.y + region.height);
        total += ch.section_width();
    }
    assert_eq!(region.x, region.chars[0].x);
    assert_eq!(region.width, total);
    assert_eq!(region.height, region.chars[0].section_height());
}

/// TIME with the 0x20 parameter sets how long the caption stays up, in
/// units of 100 ms, accumulating across commands.
#[test]
fn time_control_sets_the_duration() {
    let mut decoder = Decoder::new(CaptionKind::Caption, Options::default());
    let body = [
        0x1b, 0x24, 0x42, 0x0f, 0x30, 0x21, //
        0x9d, 0x20, 0x40 | 23, // TIME: 2.3 s
    ];
    let caption = decoder
        .decode(&statement_pes(&body), None)
        .expect("decodes")
        .expect("a caption");
    assert_eq!(caption.duration, Duration::Millis(2300));
}

/// Clear-screen carries no text but must still be reported: it is how the
/// caption before it stops being shown.
#[test]
fn clear_screen_alone_is_still_a_caption() {
    let mut decoder = Decoder::new(CaptionKind::Caption, Options::default());
    let caption = decoder
        .decode(&statement_pes(&[0x0c]), Some(500))
        .expect("decodes")
        .expect("a caption");
    assert!(caption.clear_screen);
    assert!(caption.is_empty());
    assert_eq!(caption.pts_ms, Some(500));
}

/// Colour controls apply to the characters that follow them, not the ones
/// already placed.
#[test]
fn foreground_colour_applies_from_where_it_appears() {
    let mut decoder = Decoder::new(CaptionKind::Caption, Options::default());
    let body = [
        0x1b, 0x24, 0x42, 0x0f, //
        0x30, 0x21, // white by default
        0x83, // YLF: yellow foreground
        0x30, 0x22,
    ];
    let caption = decoder
        .decode(&statement_pes(&body), None)
        .expect("decodes")
        .expect("a caption");
    let chars: Vec<_> = caption.regions.iter().flat_map(|r| &r.chars).collect();
    assert_eq!(chars.len(), 2);
    assert_eq!(chars[0].text_color, Rgba::new(255, 255, 255, 255));
    assert_eq!(chars[1].text_color, Rgba::new(255, 255, 0, 255));
}

/// A statement that ends inside a control code keeps what it decoded.
#[test]
fn a_truncated_statement_keeps_what_it_got() {
    let mut decoder = Decoder::new(CaptionKind::Caption, Options::default());
    let body = [
        0x1b, 0x24, 0x42, 0x0f, 0x30, 0x21, //
        0x1c, 0x40, // APS with its second parameter missing
    ];
    let caption = decoder
        .decode(&statement_pes(&body), None)
        .expect("decodes")
        .expect("a caption");
    assert_eq!(caption.text, "亜");
}

#[test]
fn a_csi_geometry_parameter_beyond_any_caption_plane_cannot_overflow_the_layout() {
    let mut body = vec![0x9b];
    body.extend_from_slice(b"0;2000000000");
    body.extend_from_slice(&[0x20, b'W']); // SP, SSM
    body.extend_from_slice(&[c0::APS, 0x7f, 0x21]); // APS, line 63
    body.extend_from_slice(&[0x1b, 0x24, 0x42, 0x0f, 0x30, 0x21]);

    let mut decoder = Decoder::new(CaptionKind::Caption, Options::default());
    // The only requirement is that a malformed plane geometry does not
    // panic; whether it yields a caption is not this test's business.
    let _ = decoder.decode(&statement_pes(&body), None);
}

#[test]
fn a_csi_parameter_with_a_long_digit_run_cannot_overflow_the_accumulator() {
    let mut body = vec![0x9b];
    body.extend_from_slice(b"0;99999999999999999999");
    body.extend_from_slice(&[0x20, b'W']);
    body.extend_from_slice(&[0x1b, 0x24, 0x42, 0x0f, 0x30, 0x21]);

    let mut decoder = Decoder::new(CaptionKind::Caption, Options::default());
    let _ = decoder.decode(&statement_pes(&body), None);
}

#[test]
fn an_absolute_position_beyond_the_plane_is_clamped_before_it_reaches_a_renderer() {
    let mut body = vec![0x9b];
    body.extend_from_slice(b"2000000000;2000000000");
    body.extend_from_slice(&[0x20, b'a']); // SP, ACPS
    body.extend_from_slice(&[0x1b, 0x24, 0x42, 0x0f, 0x30, 0x21]);

    let mut decoder = Decoder::new(CaptionKind::Caption, Options::default());
    let decoded = decoder.decode(&statement_pes(&body), None);

    if let Ok(Some(caption)) = decoded {
        for region in &caption.regions {
            assert!(region.y <= MAX_PLANE_DOTS, "region.y {} escaped the plane clamp", region.y);
            assert!(region.x <= MAX_PLANE_DOTS, "region.x {} escaped", region.x);
        }
    }
}

// ── laws, on concrete values ────────────────────────────────────────

#[test]
fn the_same_management_group_twice_is_applied_once() {
    let mut decoder = Decoder::new(CaptionKind::Caption, Options::default());
    assert!(matches!(decoder.decode(&management_pes(10, Group::A), None), Ok(None)));
    let after_first = decoder.settings();
    // A retransmission of group A carrying another format changes nothing.
    assert!(matches!(decoder.decode(&management_pes(8, Group::A), None), Ok(None)));
    assert_eq!(decoder.settings(), after_first);
}

#[test]
fn a_statement_for_another_language_is_skipped() {
    let mut payload = statement_pes(&[0x1b, 0x24, 0x42, 0x0f, 0x30, 0x21]);
    payload[3] = 0x08; // data_group_id 2: the second language
    let mut decoder = Decoder::new(CaptionKind::Caption, Options::default());
    assert!(matches!(decoder.decode(&payload, None), Ok(None)));
}

#[test]
fn a_superimpose_decoder_refuses_the_caption_stream_and_changes_nothing() {
    let mut decoder = Decoder::new(CaptionKind::Superimpose, Options::default());
    let before = decoder.settings();
    let payload = statement_pes(&[0x1b, 0x24, 0x42, 0x0f, 0x30, 0x21]);
    assert!(matches!(
        decoder.decode(&payload, None),
        Err(DecodeError::Malformed("data_identifier is not the stream this decoder was made for"))
    ));
    assert_eq!(decoder.settings(), before);
}

#[test]
fn a_foreign_payload_is_a_pes_error() {
    let mut decoder = Decoder::new(CaptionKind::Caption, Options::default());
    assert!(matches!(
        decoder.decode(&[0x82, 0xff, 0xf0], None),
        Err(DecodeError::Pes(_))
    ));
}

#[test]
fn time_accumulates_across_commands() {
    let mut decoder = Decoder::new(CaptionKind::Caption, Options::default());
    let body = [
        0x1b, 0x24, 0x42, 0x0f, 0x30, 0x21, //
        0x9d, 0x20, 0x40 | 10, // 1.0 s
        0x9d, 0x20, 0x40 | 5, // 0.5 s more
    ];
    let caption = decoder.decode(&statement_pes(&body), None).unwrap().unwrap();
    assert_eq!(caption.duration, Duration::Millis(1500));
}

#[test]
fn small_size_text_is_ruby_and_stays_out_of_the_text() {
    // SSZ: small size — ruby — then two kanji, then NSZ and one more.
    let body = [
        0x1b, 0x24, 0x42, 0x0f, //
        0x88, 0x30, 0x21, // SSZ: ruby
        0x1c, 0x40 | 2, 0x40, // APS to a new line
        0x8a, 0x30, 0x22, // NSZ: normal
    ];
    let mut decoder = Decoder::new(CaptionKind::Caption, Options::default());
    let caption = decoder.decode(&statement_pes(&body), None).unwrap().unwrap();
    assert_eq!(caption.text, "唖");
    assert!(caption.regions.iter().any(|r| r.is_ruby));
}

#[test]
fn plane_dots_caps_a_parameter_at_the_largest_plane() {
    assert_eq!(plane_dots(960), 960);
    assert_eq!(plane_dots(2_000_000_000), MAX_PLANE_DOTS);
}

// ── DRCS ────────────────────────────────────────────────────────────

/// Pixel levels at 2 bits each, most-significant-bit first, row-major.
fn pack_two_bit(levels: &[u8]) -> Vec<u8> {
    let mut packed = vec![0u8; levels.len().div_ceil(4)];
    for (index, level) in levels.iter().enumerate() {
        let bit = index * 2;
        packed[bit / 8] |= (level & 0x03) << (6 - (bit % 8));
    }
    packed
}

/// A 36x36 stencil: an empty first column, a stroke at x = 4..6, a crossbar,
/// and every row sent twice.
fn drcs_stencil() -> Vec<u8> {
    let mut levels = vec![0u8; 36 * 36];
    for row_pair in 0..18usize {
        for x in 0..36usize {
            let ink = (4..6).contains(&x) || (row_pair == 4 && (4..32).contains(&x));
            if ink {
                levels[row_pair * 2 * 36 + x] = 3;
                levels[(row_pair * 2 + 1) * 36 + x] = 3;
            }
        }
    }
    levels
}

fn data_unit(parameter: u8, body: &[u8]) -> Vec<u8> {
    let mut unit = vec![0x1F, parameter];
    unit.extend_from_slice(&[(body.len() >> 16) as u8, (body.len() >> 8) as u8, body.len() as u8]);
    unit.extend_from_slice(body);
    unit
}

fn statement_with_units(units: &[u8]) -> Vec<u8> {
    let mut group = vec![0x00];
    group.extend_from_slice(&[(units.len() >> 16) as u8, (units.len() >> 8) as u8, units.len() as u8]);
    group.extend_from_slice(units);
    let mut payload = vec![0x80, 0xff, 0xf0, 0x04, 0x00, 0x00];
    payload.extend_from_slice(&[(group.len() >> 8) as u8, group.len() as u8]);
    payload.extend_from_slice(&group);
    payload
}

/// The glyph is kept exactly as transmitted, and keyed by the MD5 of those
/// bytes — the key a replacement table is written against.
#[test]
fn a_drcs_glyph_is_kept_as_transmitted_and_keyed_by_its_md5() {
    let mut drcs_body = vec![0x01, 0x41, 0x21, 0x01, 0x00, 0x02, 36, 36];
    drcs_body.extend_from_slice(&pack_two_bit(&drcs_stencil()));
    let mut units = data_unit(0x30, &drcs_body);
    let body = [
        0x1B, 0x28, 0x20, 0x41, // DRCS-1 into G0
        0x0f, // LS0
        0x1c, 0x40, 0x40, // APS(0, 0)
        0x21, // the code defined above
    ];
    units.extend_from_slice(&data_unit(0x20, &body));

    let mut decoder = Decoder::new(CaptionKind::Caption, Options::default());
    let caption = decoder
        .decode(&statement_with_units(&units), Some(0))
        .expect("decodes")
        .expect("a caption");
    assert_eq!(caption.text, "〓");
    assert_eq!(caption.drcs.len(), 1);
    let glyph = caption.drcs.values().next().unwrap();
    assert_eq!((glyph.width, glyph.height), (36, 36));
    assert_eq!((glyph.depth, glyph.depth_bits), (4, 2));
    assert_eq!(glyph.md5, "c01f2da36bc6d70445b836a6e41dccff");
    assert_eq!(glyph.level(0, 0), 0);
    assert_eq!(glyph.level(4, 0), 3);
    assert!((0..36).all(|x| glyph.level(x, 0) == glyph.level(x, 1)));
    let cell = &caption.regions[0].chars[0];
    assert!(matches!(cell.body, CharBody::Drcs { .. }));
}

fn management_with_units(units: &[u8]) -> Vec<u8> {
    let mut body = vec![
        0x00, // TMD free
        0x01, // one language
        0x00, // language tag 0, DMF 0
        b'j',
        b'p',
        b'n',
        0x80, // format 8, TCS 0, roll-up 0
    ];
    body.extend_from_slice(&[(units.len() >> 16) as u8, (units.len() >> 8) as u8, units.len() as u8]);
    body.extend_from_slice(units);
    let mut payload = vec![0x80, 0xff, 0xf0, 0x00, 0x00, 0x00];
    payload.extend_from_slice(&[(body.len() >> 8) as u8, body.len() as u8]);
    payload.extend_from_slice(&body);
    payload
}

/// Management data yields no caption, even when its units carry text, a
/// clear screen or a duration; the glyphs it defines still apply afterwards.
#[test]
fn management_data_never_yields_a_caption() {
    let body = [
        0x0c, // CS
        0x1b, 0x24, 0x42, 0x0f, //
        0x1c, 0x40, 0x40, // APS(0, 0)
        0x30, 0x21, // a character
        0x9d, 0x20, 0x40 | 5, // TIME 0.5 s
    ];
    let mut drcs_body = vec![0x01, 0x41, 0x21, 0x01, 0x00, 0x02, 36, 36];
    drcs_body.extend_from_slice(&pack_two_bit(&drcs_stencil()));
    let mut units = data_unit(0x30, &drcs_body);
    units.extend_from_slice(&data_unit(0x20, &body));
    let mut decoder = Decoder::new(CaptionKind::Caption, Options::default());
    let r = decoder.decode(&management_with_units(&units), Some(0));
    assert!(matches!(r, Ok(None)));

    let statement = [
        0x1B, 0x28, 0x20, 0x41, // DRCS-1 into G0
        0x0f, // LS0
        0x1c, 0x40, 0x40, // APS(0, 0)
        0x21, // the code the management data defined
    ];
    let caption = decoder
        .decode(&statement_pes(&statement), Some(0))
        .expect("decodes")
        .expect("a caption");
    assert_eq!(caption.drcs.len(), 1);
    assert!(!caption.clear_screen);
    assert_eq!(caption.duration, Duration::Indefinite);
}

/// Flushing forgets everything, the writing format that management data
/// selected included: the decoder is as new.
#[test]
fn flush_returns_the_decoder_to_its_initial_state() {
    let mut decoder = Decoder::new(CaptionKind::Caption, Options::default());
    assert!(matches!(decoder.decode(&management_pes(10, Group::A), None), Ok(None)));
    let settings = decoder.settings();
    assert_eq!(settings.swf, 9);
    assert_eq!((settings.plane_width, settings.plane_height), (720, 480));
    decoder.flush();
    let settings = decoder.settings();
    assert_eq!(settings.swf, 7);
    assert_eq!((settings.plane_width, settings.plane_height), (960, 540));
    // The management group applied before the flush is applied again.
    assert!(matches!(decoder.decode(&management_pes(10, Group::A), None), Ok(None)));
    assert_eq!(decoder.settings().swf, 9);
}
