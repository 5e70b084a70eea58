use arib_caption::inspect::describe;
use arib_caption::ts::PesPacket;

#[test]
fn management_data_names_its_languages_and_units() {
    let payload = vec![
        0x80, 0xff, 0xf0, //
        0x00, 0x00, 0x00, 0x00, 0x0a, //
        0x00, 0x01, 0x1a, b'j', b'p', b'n', 0x70, 0x00, 0x00, 0x00,
    ];
    let (line, parsed) = describe(&PesPacket { pts_90k: Some(900_045), payload });
    assert!(parsed);
    assert_eq!(line, "pts=10.000 seq=A mgmt tmd=Free langs=[jpn(id=1 fmt=7 tcs=0 dmf=0xa)] units=-");
}

#[test]
fn statement_data_names_its_language_and_units() {
    let payload = vec![
        0x80, 0xff, 0xf0, //
        0x84, 0x00, 0x00, 0x00, 0x12, // group B, statement, language 1
        0x40, // TMD real time
        0x00, 0x00, 0x0d, //
        0x1f, 0x20, 0x00, 0x00, 0x02, 0x41, 0x42, // body, 2 bytes
        0x1f, 0x41, 0x00, 0x00, 0x01, 0xaa, // an unknown unit
        0x00, 0x00, 0x00, 0x00, 0x00, // STM
    ];
    let (line, parsed) = describe(&PesPacket { pts_90k: None, payload });
    assert!(parsed);
    assert!(line.starts_with("pts=- seq=B stmt lang=1 tmd=RealTime units="), "{line}");
}

#[test]
fn a_unit_loop_that_breaks_says_where() {
    let payload = vec![
        0x80, 0xff, 0xf0, //
        0x04, 0x00, 0x00, 0x00, 0x0f, //
        0x00, //
        0x00, 0x00, 0x0b, //
        0x1f, 0x41, 0x00, 0x00, 0x01, 0xaa, // an unknown unit
        0x1e, 0x20, 0x00, 0x00, 0x00, // a broken separator
    ];
    let (line, parsed) = describe(&PesPacket { pts_90k: Some(90 * 1_234), payload });
    assert!(parsed);
    assert_eq!(line, "pts=1.234 seq=A stmt lang=1 tmd=Free units=unknown(0x41)(1),!bad unit_separator 0x1E");
}

#[test]
fn a_payload_that_does_not_parse_says_why_and_how_big_it_was() {
    let (line, parsed) = describe(&PesPacket { pts_90k: None, payload: vec![0x82, 0xff, 0xf0] });
    assert!(!parsed);
    assert_eq!(line, "!! bad data_identifier 0x82 (3 bytes)");
}
