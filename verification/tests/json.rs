use arib_caption::model::{
    Caption, CaptionChar, CaptionRegion, CharBody, CharStyle, Drcs, Enclosure, Rgba, Scale,
    WritingMode,
};
use arib_caption::render::json::{base64, caption, colour, cue_json, escape};
use arib_caption::render::vtt::Cue;

fn cell(x: i32, y: i32, text: &str) -> CaptionChar {
    CaptionChar {
        body: CharBody::Text {
            text: text.to_string(),
            pua: None,
        },
        x,
        y,
        char_width: 36,
        char_height: 36,
        char_horizontal_spacing: 4,
        char_vertical_spacing: 24,
        char_horizontal_scale: Scale::Half,
        char_vertical_scale: Scale::One,
        text_color: Rgba::new(255, 255, 255, 255),
        back_color: Rgba::new(0, 0, 0, 204),
        stroke_color: Rgba::transparent(),
        style: CharStyle::default(),
        enclosure: Enclosure::default(),
    }
}

fn caption_of(chars: Vec<CaptionChar>) -> Caption {
    let width = chars.iter().map(|c| c.section_width()).sum();
    let (x, y) = (chars[0].x, chars[0].y);
    let height = chars[0].section_height();
    Caption {
        regions: vec![CaptionRegion {
            chars,
            x,
            y,
            width,
            height,
            writing_mode: WritingMode::HorizontalTb,
            is_ruby: false,
        }],
        pts_ms: Some(0),
        ..Default::default()
    }
}

#[test]
fn a_cell_carries_its_place_on_the_plane_and_its_colours() {
    let json = caption(&caption_of(vec![cell(190, 404, "あ")]));
    assert!(json.contains(r#""plane_width":960,"plane_height":540"#), "{json}");
    assert!(json.contains(r#""x":190,"y":404,"char_width":36,"char_height":36"#), "{json}");
    assert!(json.contains(r#""char_horizontal_spacing":4"#), "{json}");
    assert!(json.contains(r#""char_horizontal_scale":0.5"#), "{json}");
    assert!(json.contains(r##""text_color":"#FFFFFFFF""##), "{json}");
    assert!(json.contains(r##""back_color":"#000000CC""##), "{json}");
}

/// Almost every cell is plain, and saying so four times a cell is most of
/// the document.
#[test]
fn the_defaults_are_left_out() {
    let json = caption(&caption_of(vec![cell(190, 404, "あ")]));
    assert!(!json.contains("char_vertical_scale"), "{json}");
    assert!(!json.contains("stroke_color"), "{json}");
    assert!(!json.contains("\"style\""), "{json}");
    assert!(!json.contains("enclosure"), "{json}");
    assert!(!json.contains("is_ruby"), "{json}");
    assert!(!json.contains("drcs"), "{json}");
    assert!(!json.contains("writing_mode"), "{json}");
}

#[test]
fn horizontal_json_stays_byte_for_byte_compatible() {
    let json = caption(&caption_of(vec![cell(190, 404, "あ")]));
    assert_eq!(
        json,
        [
            r##"{"plane_width":960,"plane_height":540,"regions":[{"x":190,"y":404,"width":20,"height":60,"chars":["##,
            r##"{"text":"あ","x":190,"y":404,"char_width":36,"char_height":36,"char_horizontal_spacing":4,"char_vertical_spacing":24,"char_horizontal_scale":0.5,"text_color":"#FFFFFFFF","back_color":"#000000CC"}"##,
            "]}]}",
        ]
        .concat()
    );
}

#[test]
fn vertical_regions_name_their_writing_mode() {
    let mut c = caption_of(vec![cell(912, 0, "縦")]);
    c.regions[0].writing_mode = WritingMode::VerticalRl;

    let json = caption(&c);

    assert!(json.contains(r#""writing_mode":"vertical-rl""#), "{json}");
}

#[test]
fn only_the_styles_that_are_set_are_named() {
    let mut ch = cell(190, 404, "あ");
    ch.style = CharStyle {
        bold: true,
        stroke: true,
        ..Default::default()
    };
    ch.stroke_color = Rgba::new(0, 0, 255, 255);
    let json = caption(&caption_of(vec![ch]));
    assert!(json.contains(r##""stroke_color":"#0000FFFF""##), "{json}");
    assert!(json.contains(r#""style":{"bold":true,"stroke":true}"#), "{json}");
}

/// A stroke colour with the flag off would have a reader draw an outline
/// the broadcast did not ask for.
#[test]
fn a_stroke_colour_without_the_flag_is_not_sent() {
    let mut ch = cell(190, 404, "あ");
    ch.stroke_color = Rgba::new(0, 0, 255, 255);
    let json = caption(&caption_of(vec![ch]));
    assert!(!json.contains("stroke_color"), "{json}");
}

#[test]
fn ruby_is_a_region_flag() {
    let mut c = caption_of(vec![cell(190, 404, "字")]);
    c.regions.push(CaptionRegion {
        x: 190,
        y: 374,
        width: 20,
        height: 30,
        chars: vec![cell(190, 374, "じ")],
        writing_mode: WritingMode::HorizontalTb,
        is_ruby: true,
    });
    let json = caption(&c);
    assert!(json.contains(r#""is_ruby":true"#), "{json}");
}

/// The one thing in a caption that is genuinely a bitmap goes out as one,
/// packed exactly as transmitted so the MD5 still keys a replacement table.
#[test]
fn a_drcs_glyph_goes_out_packed_and_base64() {
    let mut ch = cell(190, 404, "");
    ch.body = CharBody::Drcs { code: 0x41 };
    let mut c = caption_of(vec![ch]);
    c.drcs.insert(
        0x41,
        Drcs {
            width: 4,
            height: 4,
            depth: 2,
            depth_bits: 1,
            // 1111 0110 0110 0110
            pixels: vec![0xF6, 0x66],
            md5: "abc".into(),
            alternative: None,
        },
    );
    let json = caption(&c);
    assert!(json.contains(r#""drcs":65"#), "the cell names the code: {json}");
    assert!(
        json.contains(
            r#""65":{"width":4,"height":4,"depth":2,"depth_bits":1,"md5":"abc","pixels":"9mY=""#
        ),
        "{json}"
    );
}

#[test]
fn base64_pads_every_tail_length() {
    assert_eq!(base64(b""), "");
    assert_eq!(base64(b"f"), "Zg==");
    assert_eq!(base64(b"fo"), "Zm8=");
    assert_eq!(base64(b"foo"), "Zm9v");
    assert_eq!(base64(b"foobar"), "Zm9vYmFy");
}

#[test]
fn a_quote_in_a_caption_cannot_close_the_string() {
    let json = caption(&caption_of(vec![cell(0, 0, "\"\\\n")]));
    assert!(json.contains(r#""text":"\"\\\n""#), "{json}");
}

// ── further cases ──────────────────────────────────────────────────

#[test]
fn glyphs_are_keyed_in_increasing_order_whatever_the_map_walks() {
    let mut c = caption_of(vec![cell(0, 0, "a")]);
    for code in [0x43u32, 0x41, 0x42] {
        c.drcs.insert(
            code,
            Drcs {
                width: 1,
                height: 1,
                depth: 2,
                depth_bits: 1,
                pixels: vec![0x80],
                md5: "m".into(),
                alternative: Some('字'),
            },
        );
    }
    let json = caption(&c);
    let a = json.find("\"65\":").unwrap();
    let b = json.find("\"66\":").unwrap();
    let d = json.find("\"67\":").unwrap();
    assert!(a < b && b < d, "{json}");
    assert!(json.contains(r#""alternative":"字""#), "{json}");
}

#[test]
fn control_characters_are_escaped_as_unicode() {
    assert_eq!(escape("a\u{1}b\tc"), "a\\u0001b\\tc");
    assert_eq!(escape("\u{1f}"), "\\u001f");
}

#[test]
fn colours_are_css_hex_with_alpha() {
    assert_eq!(colour(Rgba::new(0x12, 0xab, 0x00, 0xff)), "#12AB00FF");
}

#[test]
fn enclosure_names_only_its_ruled_sides() {
    let mut ch = cell(0, 0, "囲");
    ch.enclosure = Enclosure { top: true, right: false, bottom: true, left: false };
    ch.char_vertical_scale = Scale::Double;
    let json = caption(&caption_of(vec![ch]));
    assert!(json.contains(r#""enclosure":{"top":true,"bottom":true}"#), "{json}");
    assert!(json.contains(r#""char_vertical_scale":2"#), "{json}");
}

#[test]
fn the_same_caption_serialises_the_same_way_whatever_order_its_glyphs_came_in() {
    let glyph = |md5: &str| Drcs {
        width: 1,
        height: 1,
        depth: 2,
        depth_bits: 1,
        pixels: vec![0x80],
        md5: md5.into(),
        alternative: None,
    };
    let mut a = caption_of(vec![cell(0, 0, "a")]);
    let mut b = caption_of(vec![cell(0, 0, "a")]);
    for code in 0x21u32..0x40 {
        a.drcs.insert(code, glyph(&format!("{code:x}")));
    }
    for code in (0x21u32..0x40).rev() {
        b.drcs.insert(code, glyph(&format!("{code:x}")));
    }
    assert_eq!(caption(&a), caption(&b));
}

#[test]
fn a_cue_line_carries_its_span_state_and_text() {
    let cue = Cue { start_ms: 1_000, end_ms: 4_000, text: "a\"b".into(), top: false };
    assert_eq!(
        cue_json(&cue, true, None),
        r#"{"start_ms":1000,"end_ms":4000,"open":true,"top":false,"text":"a\"b"}"#
    );
    let top = Cue { start_ms: -5, end_ms: 0, text: String::new(), top: true };
    assert_eq!(
        cue_json(&top, false, Some("{}")),
        r#"{"start_ms":-5,"end_ms":0,"open":false,"top":true,"text":"","caption":{}}"#
    );
}
