use arib_caption::model::{
    Caption, CaptionChar, CharBody, CharStyle, Drcs, Enclosure, Rgba, Scale,
};
use arib_caption::pes::ParseError;
use arib_caption::DecodeError;

fn cell(text: &str) -> CaptionChar {
    CaptionChar {
        body: CharBody::Text {
            text: text.to_string(),
            pua: None,
        },
        x: 0,
        y: 0,
        char_width: 36,
        char_height: 36,
        char_horizontal_spacing: 4,
        char_vertical_spacing: 24,
        char_horizontal_scale: Scale::Half,
        char_vertical_scale: Scale::One,
        text_color: Rgba::new(255, 255, 255, 255),
        back_color: Rgba::transparent(),
        stroke_color: Rgba::transparent(),
        style: CharStyle::default(),
        enclosure: Enclosure::default(),
    }
}

#[test]
fn argb_splits_into_straight_channels() {
    let c = Rgba::from_argb(0x8011_2233);
    assert_eq!(c, Rgba::new(0x11, 0x22, 0x33, 0x80));
    assert!(!c.is_transparent());
    assert!(Rgba::from_argb(0x00ff_ffff).is_transparent());
}

#[test]
fn a_cell_advances_by_its_size_and_spacing_scaled() {
    let mut c = cell("あ");
    assert_eq!(c.section_width(), 20);
    assert_eq!(c.section_height(), 60);
    c.char_horizontal_scale = Scale::Double;
    assert_eq!(c.section_width(), 80);
}

#[test]
fn a_cell_has_text_unless_it_is_a_glyph() {
    assert_eq!(cell("字").text(), Some("字"));
    let mut c = cell("");
    c.body = CharBody::Drcs { code: 1 };
    assert_eq!(c.text(), None);
    c.body = CharBody::DrcsReplaced { text: "♪".into(), code: 1 };
    assert_eq!(c.text(), Some("♪"));
}

#[test]
fn plain_style_and_no_enclosure_are_the_defaults() {
    assert!(CharStyle::default().is_default());
    assert!(!CharStyle { bold: true, ..Default::default() }.is_default());
    assert!(Enclosure::default().is_none());
    assert!(!Enclosure { left: true, ..Default::default() }.is_none());
}

#[test]
fn a_glyph_unpacks_most_significant_bit_first() {
    // 1111 0110 0110 0110
    let g = Drcs {
        width: 4,
        height: 4,
        depth: 2,
        depth_bits: 1,
        pixels: vec![0xF6, 0x66],
        md5: String::new(),
        alternative: None,
    };
    assert_eq!((0..4).map(|x| g.level(x, 0)).collect::<Vec<_>>(), vec![1, 1, 1, 1]);
    assert_eq!((0..4).map(|x| g.level(x, 1)).collect::<Vec<_>>(), vec![0, 1, 1, 0]);
    // Outside the bitmap is background.
    assert_eq!(g.level(4, 0), 0);
    assert_eq!(g.level(0, 4), 0);
    // Two bits a pixel: 11 10 01 00.
    let deep = Drcs { width: 4, height: 1, depth: 4, depth_bits: 2, pixels: vec![0b1110_0100], ..g };
    assert_eq!((0..4).map(|x| deep.level(x, 0)).collect::<Vec<_>>(), vec![3, 2, 1, 0]);
}

#[test]
fn a_default_caption_is_empty_on_the_profile_a_plane() {
    let c = Caption::default();
    assert!(c.is_empty());
    assert_eq!((c.plane_width, c.plane_height), (960, 540));
    assert_eq!(c.language_str(), "jpn");
}

#[test]
fn errors_say_what_went_wrong() {
    assert_eq!(ParseError::Truncated.message(), "truncated");
    assert_eq!(ParseError::BadDataIdentifier(0x82).message(), "bad data_identifier 0x82");
    assert_eq!(ParseError::BadPrivateStreamId(0x0a).message(), "bad private_stream_id 0x0A");
    assert_eq!(ParseError::BadUnitSeparator(0x1e).message(), "bad unit_separator 0x1E");
    assert_eq!(ParseError::BadLanguageCount(3).message(), "bad num_languages 3");
    assert_eq!(DecodeError::Malformed("x").message(), "malformed: x");
    assert_eq!(DecodeError::from(ParseError::Truncated), DecodeError::Pes(ParseError::Truncated));
    assert_eq!(DecodeError::Pes(ParseError::Truncated).message(), "truncated");
}

/// A language code that is valid UTF-8 but not ASCII comes out decoded; one
/// that is not UTF-8 gets the replacement character.
#[test]
fn a_non_ascii_language_code_is_read_as_utf8() {
    let utf8 = Caption { language: [0xc3, 0xa9, b'x'], ..Caption::default() };
    assert_eq!(utf8.language_str(), "éx");
    let broken = Caption { language: [0xff, b'p', b'n'], ..Caption::default() };
    assert_eq!(broken.language_str(), "\u{fffd}pn");
}
