use arbitrary::{Arbitrary, Unstructured};
use bytes::{Buf, Bytes};
use holo_wire::as_path::{
    AsPath, AsPathSegment, AsPathSegmentType, DecodeError, Diagnostic,
};
use holo_wire::attr_type::AttrType;
use holo_wire::bytes_ext::BytesExt;
use holo_wire::context::DecodeCxt;
use holo_wire::fuzz::as_path_decode;

fn decode(data: &[u8], four_byte_asn_cap: bool) -> Result<AsPath, DecodeError> {
    let mut buf = Bytes::copy_from_slice(data);
    AsPath::decode(
        &mut buf,
        &DecodeCxt::default(),
        AttrType::AsPath,
        four_byte_asn_cap,
        &mut None,
    )
}

fn segment(seg_type: AsPathSegmentType, members: &[u32]) -> AsPathSegment {
    AsPathSegment {
        seg_type,
        members: members.to_vec(),
    }
}

#[test]
fn small_buffer() {
    // This reproduces a panic found using fuzz testing.
    // It's a proof-of-concept to explore the feasibility of creating
    // unit tests for issues found by fuzzing inputs. It should run much
    // faster than the fuzz tests.
    let mut u = Unstructured::new(&[4u8]);
    let mut v = Unstructured::new(&[0u8]);
    let mut w = Unstructured::new(&[0u8]);
    let mut x = Unstructured::new(&[0u8]);

    if let Ok(mut buf) = Bytes::arbitrary(&mut u) {
        if let Ok(cxt) = DecodeCxt::arbitrary(&mut v) {
            if let Ok(attr_type) = AttrType::arbitrary(&mut w) {
                if let Ok(four_byte_asn_cap) = bool::arbitrary(&mut x) {
                    let _ = AsPath::decode(
                        &mut buf,
                        &cxt,
                        attr_type,
                        four_byte_asn_cap,
                        &mut None,
                    );
                }
            }
        }
    }
}

#[test]
fn empty_input_crash() {
    // Tests the behavior with completely empty input data.
    let mut u = Unstructured::new(&[]);

    // This should not panic - empty input should be handled gracefully
    if let Ok(mut buf) = Bytes::arbitrary(&mut u) {
        if let Ok(cxt) = DecodeCxt::arbitrary(&mut u) {
            if let Ok(attr_type) = AttrType::arbitrary(&mut u) {
                if let Ok(four_byte_asn_cap) = bool::arbitrary(&mut u) {
                    let _ = AsPath::decode(
                        &mut buf,
                        &cxt,
                        attr_type,
                        four_byte_asn_cap,
                        &mut None,
                    );
                }
            }
        }
    }
}

#[test]
fn lone_kind_octet_is_insufficient_data() {
    let result = decode(&[0x04], false);
    assert_eq!(result, Err(DecodeError::InsufficientData { segment: 0 }));
}

#[test]
fn lone_kind_octet_through_derived_inputs() {
    let mut u = Unstructured::new(&[4u8]);
    let mut v = Unstructured::new(&[0u8]);
    let mut w = Unstructured::new(&[0u8]);
    let mut x = Unstructured::new(&[0u8]);
    let mut buf = Bytes::arbitrary(&mut u).unwrap();
    let cxt = DecodeCxt::arbitrary(&mut v).unwrap();
    let attr_type = AttrType::arbitrary(&mut w).unwrap();
    let four_byte_asn_cap = bool::arbitrary(&mut x).unwrap();
    assert_eq!(buf.remaining(), 1);
    assert_eq!(u.len(), 0);
    assert!(!cxt.four_byte_asn());
    assert_eq!(attr_type, AttrType::Unrecognized(0));
    assert!(!four_byte_asn_cap);
    let result = AsPath::decode(&mut buf, &cxt, attr_type, four_byte_asn_cap, &mut None);
    assert_eq!(result, Err(DecodeError::InsufficientData { segment: 0 }));
    assert_eq!(buf.remaining(), 0);
}

#[test]
fn empty_value_is_the_empty_path() {
    let result = decode(&[], false);
    assert_eq!(result, Ok(AsPath { segments: vec![] }));
    let result = decode(&[], true);
    assert_eq!(result, Ok(AsPath { segments: vec![] }));
}

#[test]
fn one_sequence_of_two_byte_asns() {
    let result = decode(&[0x02, 0x02, 0x00, 0x01, 0x00, 0x02], false);
    assert_eq!(
        result,
        Ok(AsPath {
            segments: vec![segment(AsPathSegmentType::Sequence, &[1, 2])],
        })
    );
}

#[test]
fn one_sequence_of_four_byte_asns() {
    let result = decode(
        &[0x02, 0x02, 0x00, 0x01, 0x00, 0x02, 0xFF, 0xFE, 0xFD, 0xFC],
        true,
    );
    assert_eq!(
        result,
        Ok(AsPath {
            segments: vec![segment(
                AsPathSegmentType::Sequence,
                &[0x0001_0002, 0xFFFE_FDFC]
            )],
        })
    );
}

#[test]
fn width_comes_from_the_flag_alone() {
    // The same octets are one complete segment under two-octet numbers and a truncated
    // one under four-octet numbers, whatever the context says.
    let data = [0x02, 0x02, 0x00, 0x01, 0x00, 0x02];
    for cxt in [DecodeCxt::new(false), DecodeCxt::new(true)] {
        let mut buf = Bytes::copy_from_slice(&data);
        let two = AsPath::decode(&mut buf, &cxt, AttrType::AsPath, false, &mut None);
        assert_eq!(
            two,
            Ok(AsPath {
                segments: vec![segment(AsPathSegmentType::Sequence, &[1, 2])],
            })
        );
        let mut buf = Bytes::copy_from_slice(&data);
        let four = AsPath::decode(&mut buf, &cxt, AttrType::As4Path, true, &mut None);
        assert_eq!(four, Err(DecodeError::InsufficientData { segment: 0 }));
    }
}

#[test]
fn every_kind_decodes() {
    let data = [
        0x01, 0x01, 0x00, 0x0A, // set
        0x02, 0x01, 0x00, 0x0B, // sequence
        0x03, 0x01, 0x00, 0x0C, // confederation sequence
        0x04, 0x02, 0x00, 0x0D, 0x00, 0x0D, // confederation set, a number twice
    ];
    let result = decode(&data, false);
    assert_eq!(
        result,
        Ok(AsPath {
            segments: vec![
                segment(AsPathSegmentType::AsSet, &[10]),
                segment(AsPathSegmentType::Sequence, &[11]),
                segment(AsPathSegmentType::ConfedSequence, &[12]),
                segment(AsPathSegmentType::ConfedSet, &[13, 13]),
            ],
        })
    );
}

#[test]
fn unknown_kind_is_malformed_segment_type() {
    assert_eq!(
        decode(&[0x00, 0x00], false),
        Err(DecodeError::MalformedSegmentType {
            segment: 0,
            code: 0
        })
    );
    assert_eq!(
        decode(&[0x05], false),
        Err(DecodeError::MalformedSegmentType {
            segment: 0,
            code: 5
        })
    );
    assert_eq!(
        decode(&[0x02, 0x01, 0x00, 0x01, 0xFF, 0x00], false),
        Err(DecodeError::MalformedSegmentType {
            segment: 1,
            code: 0xFF
        })
    );
}

#[test]
fn truncated_members_are_insufficient_data() {
    // Two numbers announced, one and a half present.
    assert_eq!(
        decode(&[0x02, 0x02, 0x00, 0x01, 0x00], false),
        Err(DecodeError::InsufficientData { segment: 0 })
    );
    // The largest count with nothing behind it.
    assert_eq!(
        decode(&[0x02, 0xFF], true),
        Err(DecodeError::InsufficientData { segment: 0 })
    );
    // A good first segment, then a second one that is cut short.
    assert_eq!(
        decode(&[0x02, 0x01, 0x00, 0x01, 0x01, 0x01, 0x00], false),
        Err(DecodeError::InsufficientData { segment: 1 })
    );
}

#[test]
fn trailing_octet_is_not_dropped() {
    assert_eq!(
        decode(&[0x02, 0x01, 0x00, 0x01, 0x02], false),
        Err(DecodeError::InsufficientData { segment: 1 })
    );
}

#[test]
fn cursor_stops_where_decoding_stopped() {
    // Success reads everything.
    let mut buf = Bytes::from(vec![0x02, 0x01, 0x00, 0x01]);
    let cxt = DecodeCxt::default();
    assert!(AsPath::decode(&mut buf, &cxt, AttrType::AsPath, false, &mut None).is_ok());
    assert_eq!(buf.remaining(), 0);

    // A bad kind octet is read and nothing after it.
    let mut buf = Bytes::from(vec![0x09, 0x01, 0x00, 0x01]);
    assert!(AsPath::decode(&mut buf, &cxt, AttrType::AsPath, false, &mut None).is_err());
    assert_eq!(&buf[..], &[0x01, 0x00, 0x01]);

    // A count that cannot be honoured is read, the numbers behind it are not.
    let mut buf = Bytes::from(vec![0x02, 0x01, 0x00, 0x01, 0x02, 0x03, 0x00, 0x01, 0x00]);
    assert!(AsPath::decode(&mut buf, &cxt, AttrType::AsPath, false, &mut None).is_err());
    assert_eq!(&buf[..], &[0x00, 0x01, 0x00]);
}

#[test]
fn empty_segment_is_reported_and_kept() {
    let data = [0x02, 0x00, 0x01, 0x01, 0x00, 0x07, 0x03, 0x00];
    let expected = AsPath {
        segments: vec![
            segment(AsPathSegmentType::Sequence, &[]),
            segment(AsPathSegmentType::AsSet, &[7]),
            segment(AsPathSegmentType::ConfedSequence, &[]),
        ],
    };

    let mut sink = Some(vec![Diagnostic::EmptySegment { segment: 42 }]);
    let mut buf = Bytes::copy_from_slice(&data);
    let result = AsPath::decode(
        &mut buf,
        &DecodeCxt::default(),
        AttrType::AsPath,
        false,
        &mut sink,
    );
    assert_eq!(result, Ok(expected.clone()));
    assert_eq!(
        sink,
        Some(vec![
            Diagnostic::EmptySegment { segment: 42 },
            Diagnostic::EmptySegment { segment: 0 },
            Diagnostic::EmptySegment { segment: 2 },
        ])
    );

    let mut sink = None;
    let mut buf = Bytes::copy_from_slice(&data);
    let result = AsPath::decode(
        &mut buf,
        &DecodeCxt::default(),
        AttrType::AsPath,
        false,
        &mut sink,
    );
    assert_eq!(result, Ok(expected));
    assert_eq!(sink, None);
}

#[test]
fn remarks_before_an_error_stay() {
    let mut sink = Some(Vec::new());
    let mut buf = Bytes::from(vec![0x01, 0x00, 0x07]);
    let result = AsPath::decode(
        &mut buf,
        &DecodeCxt::default(),
        AttrType::AsPath,
        false,
        &mut sink,
    );
    assert_eq!(
        result,
        Err(DecodeError::MalformedSegmentType {
            segment: 1,
            code: 7
        })
    );
    assert_eq!(sink, Some(vec![Diagnostic::EmptySegment { segment: 0 }]));
}

#[test]
fn full_segment_of_255_members() {
    let mut data = vec![0x02, 0xFF];
    for i in 0..255u16 {
        data.extend_from_slice(&i.to_be_bytes());
    }
    let result = decode(&data, false).unwrap();
    assert_eq!(result.segments.len(), 1);
    assert_eq!(result.segments[0].members.len(), 255);
    assert_eq!(result.segments[0].members[0], 0);
    assert_eq!(result.segments[0].members[254], 254);
}

#[test]
fn single_segment_decode() {
    let mut buf = Bytes::from(vec![0x03, 0x01, 0x12, 0x34, 0x56, 0x78, 0xAA]);
    let result = AsPathSegment::decode(&mut buf, true, 5);
    assert_eq!(
        result,
        Ok(segment(AsPathSegmentType::ConfedSequence, &[0x1234_5678]))
    );
    assert_eq!(&buf[..], &[0xAA]);

    let mut buf = Bytes::new();
    assert_eq!(
        AsPathSegment::decode(&mut buf, true, 5),
        Err(DecodeError::InsufficientData { segment: 5 })
    );
}

#[test]
fn every_short_input_returns() {
    // Every value of up to two octets, and every three-octet value that starts with a
    // known kind, under both widths: each call returns, and says one of three things.
    let mut inputs: Vec<Vec<u8>> = vec![vec![]];
    for a in 0..=255u8 {
        inputs.push(vec![a]);
        for b in 0..=255u8 {
            inputs.push(vec![a, b]);
            if (1..=4).contains(&a) {
                inputs.push(vec![a, b, 0x55]);
            }
        }
    }
    for input in inputs {
        for four in [false, true] {
            match decode(&input, four) {
                Ok(path) => {
                    assert!(input.is_empty() || input[1] == 0, "{:02X?}", input);
                    assert_eq!(path.segments.len(), input.len() / 2);
                }
                Err(DecodeError::InsufficientData { segment }) => {
                    assert!(segment <= 1, "{:02X?}", input);
                }
                Err(DecodeError::MalformedSegmentType { segment, code }) => {
                    assert!(!(1..=4).contains(&code));
                    assert_eq!(input[2 * segment], code);
                }
            }
        }
    }
}

#[test]
fn fuzz_entry_point_outcomes() {
    assert_eq!(as_path_decode(&[]), Some(Ok(AsPath { segments: vec![] })));
    assert_eq!(
        as_path_decode(&[0x04]),
        Some(Err(DecodeError::InsufficientData { segment: 0 }))
    );
    assert_eq!(
        as_path_decode(&[0x02, 0x02, 0x00, 0x01, 0x00, 0x02]),
        Some(Ok(AsPath {
            segments: vec![segment(AsPathSegmentType::Sequence, &[1, 2])],
        }))
    );
    assert_eq!(
        as_path_decode(&[0x07, 0x02]),
        Some(Err(DecodeError::MalformedSegmentType {
            segment: 0,
            code: 7
        }))
    );
}

#[test]
fn bytes_from_unstructured_takes_everything() {
    let data = [1u8, 2, 3, 4, 5];
    let mut u = Unstructured::new(&data);
    let buf = Bytes::arbitrary(&mut u).unwrap();
    assert_eq!(&buf[..], &data);
    assert!(u.is_empty());
}

#[test]
fn context_and_type_from_unstructured() {
    let mut u = Unstructured::new(&[0x03, 0x02, 0x11, 0x63]);
    assert!(DecodeCxt::arbitrary(&mut u).unwrap().four_byte_asn());
    assert!(!DecodeCxt::arbitrary(&mut u).unwrap().four_byte_asn());
    assert_eq!(AttrType::arbitrary(&mut u).unwrap(), AttrType::As4Path);
    assert_eq!(
        AttrType::arbitrary(&mut u).unwrap(),
        AttrType::Unrecognized(0x63)
    );
    assert_eq!(u.len(), 0);
    assert_eq!(
        AttrType::arbitrary(&mut u).unwrap(),
        AttrType::Unrecognized(0)
    );
    assert!(!DecodeCxt::arbitrary(&mut u).unwrap().four_byte_asn());
}
