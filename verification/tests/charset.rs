use arib_caption::b24::charset::{resolve_double, resolve_single, SizeContext, GETA};
use arib_caption::b24::codesets::GraphicSet;

const NORMAL: SizeContext = SizeContext {
    is_msz: false,
    replace_msz_ascii: true,
    replace_msz_japanese: true,
};
const MSZ: SizeContext = SizeContext {
    is_msz: true,
    replace_msz_ascii: true,
    replace_msz_japanese: true,
};

#[test]
fn kanji_comes_out_of_euc_jp() {
    // ku 15, ten 1 (0-based 14/0) is 亜 — row 16 column 1 of JIS X 0208.
    let r = resolve_double(GraphicSet::Kanji, 15, 0, NORMAL);
    assert_eq!(r.text, "亜");
    // ku 3 (0-based) row 4 is hiragana in the kanji plane.
    assert_eq!(resolve_double(GraphicSet::Kanji, 3, 0, NORMAL).text, "ぁ");
}

#[test]
fn additional_symbols_carry_a_pua_alias() {
    // Kanji row 90 column 54 (1-based) is 🈑, mapped into the PUA as well.
    let r = resolve_double(GraphicSet::AdditionalSymbols, 89, 53, NORMAL);
    assert_eq!(r.text.chars().next().unwrap() as u32, 0x1f211);
    assert!(r.pua.is_some(), "expected a PUA alias");
}

#[test]
fn hiragana_and_alphanumeric() {
    assert_eq!(
        resolve_single(GraphicSet::Hiragana, 0x22, NORMAL)
            .unwrap()
            .text,
        "あ"
    );
    // Alphanumeric is fullwidth by default, halfwidth under MSZ.
    assert_eq!(
        resolve_single(GraphicSet::Alphanumeric, 0x41, NORMAL)
            .unwrap()
            .text,
        "Ａ"
    );
    assert_eq!(
        resolve_single(GraphicSet::Alphanumeric, 0x41, MSZ)
            .unwrap()
            .text,
        "A"
    );
}

#[test]
fn unmapped_slots_are_geta_not_panics() {
    // Mosaic sets have no text form at all.
    assert!(resolve_single(GraphicSet::MosaicA, 0x21, NORMAL).is_none());
    // A ten beyond the row is out of every table.
    assert_eq!(
        resolve_double(GraphicSet::AdditionalSymbols, 93, 93, NORMAL).text,
        GETA.to_string()
    );
}

#[test]
fn katakana_and_halfwidth_katakana_under_msz() {
    assert_eq!(
        resolve_single(GraphicSet::Katakana, 0x22, NORMAL).unwrap().text,
        "ア"
    );
    assert!(resolve_single(GraphicSet::MosaicD, 0x21, NORMAL).is_none());
}

#[test]
fn the_first_kanji_row_is_the_symbol_row() {
    // Row 1 column 1 of JIS X 0208 is the ideographic space.
    assert_eq!(resolve_double(GraphicSet::Kanji, 0, 0, NORMAL).text, "\u{3000}");
}

/// A column past the end of a row of the additional-symbol tables reads on
/// into the next row, and one past the tables shows GETA.
#[test]
fn additional_symbol_columns_read_on_into_the_next_row() {
    let past = resolve_double(GraphicSet::AdditionalSymbols, 88, 94 + 53, NORMAL);
    let there = resolve_double(GraphicSet::AdditionalSymbols, 89, 53, NORMAL);
    assert_eq!(past.text, there.text);
    assert_eq!(past.pua, there.pua);
    let beyond = resolve_double(GraphicSet::AdditionalSymbols, 84, 94 * 20, NORMAL);
    assert_eq!(beyond.text, GETA.to_string());
    assert_eq!(beyond.pua, None);
}
