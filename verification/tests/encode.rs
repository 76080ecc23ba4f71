use bytes::{Bytes, BytesMut};
use holo_wire::as_path::{AsPath, AsPathSegment, AsPathSegmentType, DecodeError};
use holo_wire::attr_type::AttrType;
use holo_wire::context::DecodeCxt;

fn segment(seg_type: AsPathSegmentType, members: &[u32]) -> AsPathSegment {
    AsPathSegment {
        seg_type,
        members: members.to_vec(),
    }
}

fn sample_paths() -> Vec<AsPath> {
    vec![
        AsPath { segments: vec![] },
        AsPath {
            segments: vec![segment(AsPathSegmentType::Sequence, &[])],
        },
        AsPath {
            segments: vec![segment(AsPathSegmentType::Sequence, &[1, 2])],
        },
        AsPath {
            segments: vec![
                segment(AsPathSegmentType::Sequence, &[65000, 65001, 65000]),
                segment(AsPathSegmentType::AsSet, &[0, 0xFFFF]),
                segment(AsPathSegmentType::ConfedSequence, &[64512]),
                segment(AsPathSegmentType::ConfedSet, &[1, 1, 1, 2]),
            ],
        },
        AsPath {
            segments: vec![segment(
                AsPathSegmentType::AsSet,
                &(0..255).collect::<Vec<u32>>(),
            )],
        },
    ]
}

fn round_trip(path: &AsPath, four_byte_asn_cap: bool) -> Result<AsPath, DecodeError> {
    assert!(path.fits(four_byte_asn_cap));
    let mut out = BytesMut::new();
    path.encode(&mut out, four_byte_asn_cap);
    let mut buf = out.freeze();
    AsPath::decode(
        &mut buf,
        &DecodeCxt::default(),
        AttrType::AsPath,
        four_byte_asn_cap,
        &mut None,
    )
}

#[test]
fn encode_two_byte_exact_octets() {
    let path = AsPath {
        segments: vec![
            segment(AsPathSegmentType::Sequence, &[1, 2]),
            segment(AsPathSegmentType::AsSet, &[0xABCD]),
        ],
    };
    assert!(path.fits(false));
    let mut out = BytesMut::new();
    path.encode(&mut out, false);
    assert_eq!(
        &out[..],
        &[0x02, 0x02, 0x00, 0x01, 0x00, 0x02, 0x01, 0x01, 0xAB, 0xCD]
    );
}

#[test]
fn encode_four_byte_exact_octets() {
    let path = AsPath {
        segments: vec![
            segment(AsPathSegmentType::ConfedSet, &[0x0102_0304]),
            segment(AsPathSegmentType::ConfedSequence, &[]),
        ],
    };
    assert!(path.fits(true));
    let mut out = BytesMut::new();
    path.encode(&mut out, true);
    assert_eq!(&out[..], &[0x04, 0x01, 0x01, 0x02, 0x03, 0x04, 0x03, 0x00]);
}

#[test]
fn encode_appends_to_what_is_there() {
    let mut out = BytesMut::new();
    out.extend_from_slice(&[0xEE]);
    let path = AsPath {
        segments: vec![segment(AsPathSegmentType::Sequence, &[7])],
    };
    path.encode(&mut out, false);
    assert_eq!(&out[..], &[0xEE, 0x02, 0x01, 0x00, 0x07]);
}

#[test]
fn encode_one_segment() {
    let mut out = BytesMut::new();
    let seg = segment(AsPathSegmentType::Sequence, &[0x1234, 0x0001]);
    assert!(seg.fits(false));
    seg.encode(&mut out, false);
    assert_eq!(&out[..], &[0x02, 0x02, 0x12, 0x34, 0x00, 0x01]);
}

#[test]
fn round_trip_two_byte() {
    for path in sample_paths() {
        assert_eq!(round_trip(&path, false), Ok(path));
    }
}

#[test]
fn round_trip_four_byte() {
    let mut paths = sample_paths();
    paths.push(AsPath {
        segments: vec![segment(
            AsPathSegmentType::Sequence,
            &[0x0001_0000, 0xFFFF_FFFF, 0x8000_0001],
        )],
    });
    for path in paths {
        assert_eq!(round_trip(&path, true), Ok(path));
    }
}

#[test]
fn decode_then_encode_gives_the_octets_back() {
    let data: Vec<u8> = vec![
        0x02, 0x03, 0x00, 0x01, 0xFF, 0xFF, 0x12, 0x34, 0x01, 0x00, 0x04, 0x01, 0x00, 0x09,
    ];
    let mut buf = Bytes::from(data.clone());
    let path = AsPath::decode(
        &mut buf,
        &DecodeCxt::default(),
        AttrType::AsPath,
        false,
        &mut None,
    )
    .unwrap();
    assert!(path.fits(false));
    let mut out = BytesMut::new();
    path.encode(&mut out, false);
    assert_eq!(out.to_vec(), data);
}

#[test]
fn what_does_not_fit() {
    let wide = AsPath {
        segments: vec![
            segment(AsPathSegmentType::Sequence, &[1]),
            segment(AsPathSegmentType::Sequence, &[0xFFFF, 0x1_0000]),
        ],
    };
    assert!(!wide.fits(false));
    assert!(wide.fits(true));
    assert!(wide.segments[0].fits(false));
    assert!(!wide.segments[1].fits(false));

    let long = segment(AsPathSegmentType::AsSet, &[0; 256]);
    assert!(!long.fits(false));
    assert!(!long.fits(true));
    let full = segment(AsPathSegmentType::AsSet, &[0; 255]);
    assert!(full.fits(false));
    assert!(full.fits(true));
}

#[test]
fn segment_kind_codes() {
    let kinds = [
        (1u8, AsPathSegmentType::AsSet),
        (2, AsPathSegmentType::Sequence),
        (3, AsPathSegmentType::ConfedSequence),
        (4, AsPathSegmentType::ConfedSet),
    ];
    for (code, kind) in kinds {
        assert_eq!(AsPathSegmentType::from_u8(code), Some(kind));
        assert_eq!(kind.to_u8(), code);
    }
    assert_eq!(AsPathSegmentType::from_u8(0), None);
    for code in 5..=255u8 {
        assert_eq!(AsPathSegmentType::from_u8(code), None);
    }
}
