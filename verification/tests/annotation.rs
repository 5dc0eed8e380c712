use dmx_decoder::annotation::{
    parse_annotation, parse_annotation_or_error, parse_payload, DecoderAnnotation,
    Dmx512AnnotatorCode, Dmx512AnnotatorPayload,
};

#[test]
fn class_codes_follow_the_decoder_table() {
    assert_eq!(Dmx512AnnotatorCode::from_class(0), Some(Dmx512AnnotatorCode::Bit));
    assert_eq!(Dmx512AnnotatorCode::from_class(1), Some(Dmx512AnnotatorCode::Break));
    assert_eq!(Dmx512AnnotatorCode::from_class(2), Some(Dmx512AnnotatorCode::MarkAfterBreak));
    assert_eq!(Dmx512AnnotatorCode::from_class(3), Some(Dmx512AnnotatorCode::Startbit));
    assert_eq!(Dmx512AnnotatorCode::from_class(4), Some(Dmx512AnnotatorCode::Stopbit));
    assert_eq!(Dmx512AnnotatorCode::from_class(5), Some(Dmx512AnnotatorCode::Startcode));
    assert_eq!(Dmx512AnnotatorCode::from_class(6), Some(Dmx512AnnotatorCode::Channel));
    assert_eq!(Dmx512AnnotatorCode::from_class(7), Some(Dmx512AnnotatorCode::Interframe));
    assert_eq!(Dmx512AnnotatorCode::from_class(8), Some(Dmx512AnnotatorCode::Interpacket));
    assert_eq!(Dmx512AnnotatorCode::from_class(9), Some(Dmx512AnnotatorCode::Data));
    assert_eq!(Dmx512AnnotatorCode::from_class(10), Some(Dmx512AnnotatorCode::ErrorCode));
    assert_eq!(Dmx512AnnotatorCode::from_class(11), None);
    assert_eq!(Dmx512AnnotatorCode::from_class(-1), None);
}

#[test]
fn bit_payload_reads_one_digit() {
    assert!(matches!(
        parse_payload(Dmx512AnnotatorCode::Bit, b"1"),
        Some(Dmx512AnnotatorPayload::Bit(true))
    ));
    assert!(matches!(
        parse_payload(Dmx512AnnotatorCode::Bit, b"0"),
        Some(Dmx512AnnotatorPayload::Bit(false))
    ));
    // Only the first digit is read.
    assert!(matches!(
        parse_payload(Dmx512AnnotatorCode::Bit, b"10"),
        Some(Dmx512AnnotatorPayload::Bit(true))
    ));
    assert!(parse_payload(Dmx512AnnotatorCode::Bit, b"x").is_none());
    assert!(parse_payload(Dmx512AnnotatorCode::Bit, b"").is_none());
}

#[test]
fn channel_payload_reads_the_marker_and_number() {
    assert!(matches!(
        parse_payload(Dmx512AnnotatorCode::Channel, b"Channel 42"),
        Some(Dmx512AnnotatorPayload::ChannelNr(42))
    ));
    assert!(matches!(
        parse_payload(Dmx512AnnotatorCode::Channel, b"Channel 512"),
        Some(Dmx512AnnotatorPayload::ChannelNr(512))
    ));
    // At most three digits are read.
    assert!(matches!(
        parse_payload(Dmx512AnnotatorCode::Channel, b"Channel 1234"),
        Some(Dmx512AnnotatorPayload::ChannelNr(123))
    ));
    assert!(parse_payload(Dmx512AnnotatorCode::Channel, b"Channel ").is_none());
    assert!(parse_payload(Dmx512AnnotatorCode::Channel, b"Kanal 42").is_none());
    assert!(parse_payload(Dmx512AnnotatorCode::Channel, b"42").is_none());
}

#[test]
fn data_payload_reads_the_decimal_value() {
    assert!(matches!(
        parse_payload(Dmx512AnnotatorCode::Data, b"173 / AD"),
        Some(Dmx512AnnotatorPayload::Data(173))
    ));
    assert!(matches!(
        parse_payload(Dmx512AnnotatorCode::Data, b"0 / 00"),
        Some(Dmx512AnnotatorPayload::Data(0))
    ));
    assert!(matches!(
        parse_payload(Dmx512AnnotatorCode::Data, b"255 / FF"),
        Some(Dmx512AnnotatorPayload::Data(255))
    ));
    // A value that does not fit a byte is rejected.
    assert!(parse_payload(Dmx512AnnotatorCode::Data, b"300 / 2C").is_none());
    assert!(parse_payload(Dmx512AnnotatorCode::Data, b"/ AD").is_none());
}

#[test]
fn bare_payloads_carry_no_value() {
    assert!(matches!(
        parse_payload(Dmx512AnnotatorCode::Break, b"Break"),
        Some(Dmx512AnnotatorPayload::Break)
    ));
    assert!(matches!(
        parse_payload(Dmx512AnnotatorCode::MarkAfterBreak, b"Mark after break"),
        Some(Dmx512AnnotatorPayload::MarkAfterBreak)
    ));
    assert!(matches!(
        parse_payload(Dmx512AnnotatorCode::Startbit, b"Start bit"),
        Some(Dmx512AnnotatorPayload::Startbit)
    ));
    assert!(matches!(
        parse_payload(Dmx512AnnotatorCode::Stopbit, b"Stop bit"),
        Some(Dmx512AnnotatorPayload::Stopbit)
    ));
    assert!(matches!(
        parse_payload(Dmx512AnnotatorCode::Startcode, b"Start code"),
        Some(Dmx512AnnotatorPayload::Startcode)
    ));
    assert!(matches!(
        parse_payload(Dmx512AnnotatorCode::Interframe, b"Interframe"),
        Some(Dmx512AnnotatorPayload::InterFrame)
    ));
    assert!(matches!(
        parse_payload(Dmx512AnnotatorCode::Interpacket, b"Interpacket"),
        Some(Dmx512AnnotatorPayload::InterPacket)
    ));
}

#[test]
fn error_payload_keeps_the_fixed_text() {
    match parse_payload(Dmx512AnnotatorCode::ErrorCode, b"anything") {
        Some(Dmx512AnnotatorPayload::ErrorCode(text)) => assert_eq!(text, "error"),
        _ => panic!("an error report always parses"),
    }
}

#[test]
fn annotation_keeps_its_sample_range() {
    let a = parse_annotation(6, b"Channel 7", 1000, 1040).expect("a channel record parses");
    assert_eq!(a.start_sample, 1000);
    assert_eq!(a.end_sample, 1040);
    assert!(matches!(a.payload, Dmx512AnnotatorPayload::ChannelNr(7)));
}

#[test]
fn unknown_class_is_rejected() {
    assert!(parse_annotation(99, b"whatever", 0, 0).is_none());
}

#[test]
fn malformed_record_becomes_an_error_annotation() {
    let a: DecoderAnnotation = parse_annotation_or_error(9, b"not a number", 5, 9);
    assert_eq!(a.start_sample, 5);
    assert_eq!(a.end_sample, 9);
    match a.payload {
        Dmx512AnnotatorPayload::ErrorCode(text) => assert_eq!(text, "error"),
        _ => panic!("a malformed record must turn into an error annotation"),
    }
    let b = parse_annotation_or_error(1, b"Break", 0, 80);
    assert!(matches!(b.payload, Dmx512AnnotatorPayload::Break));
}
