use arib_caption::model::CaptionKind;
use arib_caption::pes::{parse, DataGroup, DataUnitKind, Group, ParseError, Timecode, Tmd};

// A minimal management data group: TMD free, one language "jpn" with
// writing format 7 (960x540 horizontal), and an empty data unit loop.
#[test]
fn parses_management_data() {
    let payload = [
        0x80, 0xff, 0xf0, // data_identifier, private_stream_id, no header
        0x00, 0x00, 0x00, 0x00, 0x0a, // data_group_id 0 (mgmt), size 10
        0x00, // TMD free
        0x01, // one language
        0x00, // language_tag 0, DMF 0
        b'j', b'p', b'n', 0x70, // format 7, TCS 0, rollup 0
        0x00, 0x00, 0x00, // data_unit_loop_length 0
    ];
    let parsed = parse(&payload).expect("parse");
    assert_eq!(parsed.kind, CaptionKind::Caption);
    assert_eq!(parsed.header.group, Group::A);
    assert_eq!(parsed.header.id, 0);
    let DataGroup::Management(m) = parsed.group else {
        panic!("expected management data");
    };
    assert_eq!(m.tmd, Tmd::Free);
    assert_eq!(m.otm, None);
    assert_eq!(m.languages.len(), 1);
    assert_eq!(m.languages[0].iso639, *b"jpn");
    assert_eq!(m.languages[0].format, 7);
    assert_eq!(m.languages[0].language_id, 1);
    assert_eq!(m.units().collect().len(), 0);
}

#[test]
fn parses_statement_data_units() {
    let payload = [
        0x80, 0xff, 0xf0, //
        0x04, 0x00, 0x00, 0x00, 0x0b, // data_group_id 1 (statement), size 11
        0x00, // TMD free
        0x00, 0x00, 0x07, // data_unit_loop_length 7 (5 header + 2 body)
        0x1f, 0x20, 0x00, 0x00, 0x02, // statement body, 2 bytes
        0x41, 0x42,
    ];
    let parsed = parse(&payload).expect("parse");
    let DataGroup::Statement(s) = parsed.group else {
        panic!("expected statement data");
    };
    assert_eq!(s.language_id, 1);
    let units: Vec<_> = s.units().collect().into_iter().map(|u| u.unwrap()).collect();
    assert_eq!(units.len(), 1);
    assert_eq!(units[0].kind, DataUnitKind::StatementBody);
    assert_eq!(units[0].bytes, &[0x41, 0x42]);
}

#[test]
fn rejects_foreign_payload() {
    assert_eq!(
        parse(&[0x82, 0xff, 0xf0]).unwrap_err(),
        ParseError::BadDataIdentifier(0x82)
    );
    assert_eq!(
        parse(&[0x80, 0x00, 0xf0]).unwrap_err(),
        ParseError::BadPrivateStreamId(0x00)
    );
    assert_eq!(parse(&[0x80, 0xff]).unwrap_err(), ParseError::Truncated);
}

#[test]
fn group_b_is_not_group_a() {
    // data_group_id 0x20 → management data, sequence B.
    let payload = [
        0x80, 0xff, 0xf0, //
        0x80, 0x00, 0x00, 0x00, 0x0a, //
        0x00, 0x01, 0x00, b'j', b'p', b'n', 0x70, 0x00, 0x00, 0x00,
    ];
    let parsed = parse(&payload).expect("parse");
    assert_eq!(parsed.header.group, Group::B);
    assert_eq!(parsed.header.id, 0);
}

#[test]
fn a_superimpose_payload_is_superimpose() {
    let payload = [
        0x81, 0xff, 0xf0, //
        0x00, 0x00, 0x00, 0x00, 0x0a, //
        0x00, 0x01, 0x00, b'j', b'p', b'n', 0x70, 0x00, 0x00, 0x00,
    ];
    let parsed = parse(&payload).expect("parse");
    assert_eq!(parsed.kind, CaptionKind::Superimpose);
}

#[test]
fn a_unit_without_its_separator_is_an_error() {
    let payload = [
        0x80, 0xff, 0xf0, //
        0x04, 0x00, 0x00, 0x00, 0x0b, //
        0x00, //
        0x00, 0x00, 0x07, //
        0x1e, 0x20, 0x00, 0x00, 0x02, // wrong separator
        0x41, 0x42,
    ];
    let parsed = parse(&payload).expect("parse");
    let DataGroup::Statement(s) = parsed.group else {
        panic!("expected statement data");
    };
    let units = s.units().collect();
    assert_eq!(units.len(), 1);
    assert_eq!(units[0].unwrap_err(), ParseError::BadUnitSeparator(0x1e));
}

#[test]
fn a_timecode_counts_milliseconds() {
    let t = Timecode { hour: 1, minute: 2, second: 3, millis: 4 };
    assert_eq!(t.as_millis(), 3_723_004);
}

#[test]
fn a_management_group_with_three_languages_is_refused() {
    let payload = [
        0x80, 0xff, 0xf0, //
        0x00, 0x00, 0x00, 0x00, 0x0a, //
        0x00, 0x03, 0x00, b'j', b'p', b'n', 0x70, 0x00, 0x00, 0x00,
    ];
    assert_eq!(parse(&payload).unwrap_err(), ParseError::BadLanguageCount(3));
}

/// Statement data exists for languages 1 to 8 only; a data group id past
/// them is refused, and id 8 is still a statement.
#[test]
fn data_group_ids_past_the_eighth_language_are_refused() {
    let with_id = |id: u8| {
        vec![
            0x80, 0xff, 0xf0, //
            id << 2, 0x00, 0x00, 0x00, 0x04, // data_group_id, size 4
            0x00, // TMD free
            0x00, 0x00, 0x00, // empty data unit loop
        ]
    };
    let eighth = with_id(8);
    let parsed = parse(&eighth).expect("parse");
    let DataGroup::Statement(s) = parsed.group else {
        panic!("expected statement data");
    };
    assert_eq!(s.language_id, 8);
    assert_eq!(parse(&with_id(9)).unwrap_err(), ParseError::BadDataGroupId(9));
    assert_eq!(parse(&with_id(31)).unwrap_err(), ParseError::BadDataGroupId(31));
    assert_eq!(ParseError::BadDataGroupId(9).message(), "bad data_group_id 9");
}
