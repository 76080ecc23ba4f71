//! The AS path attribute: its value as a list of segments, the wire format of that list,
//! and the decoder and encoder between the two.
//!
//! The attribute's value is a run of segments with nothing between or after them. A
//! segment is one octet for its kind, one octet for the number of AS numbers in it, and
//! then that many AS numbers in network order, two octets each, or four where the session
//! has negotiated four-octet AS numbers.
use vstd::prelude::*;
use ::bytes::Bytes;
use crate::as_path_encode::{encode_path, lemma_encode_decode, path_fits};
use crate::attr_type::AttrType;
use crate::context::DecodeCxt;
use crate::cursor::{remaining, try_get_u16, try_get_u32, try_get_u8, unread};
use crate::endian::{be_value, lemma_be_value_bound, lemma_pow256_values};

verus! {

/// The kind of a path segment.
#[derive(Clone, Copy, Debug, PartialEq, Eq, Structural, Hash)]
pub enum AsPathSegmentType {
    /// The systems that a route went through, in no order.
    AsSet,
    /// The systems that a route went through, in order.
    Sequence,
    /// As `Sequence`, of member systems inside the local confederation.
    ConfedSequence,
    /// As `AsSet`, of member systems inside the local confederation.
    ConfedSet,
}

impl AsPathSegmentType {
    /// The kind that a wire code stands for, if it stands for any.
    pub open spec fn of_code(code: u8) -> Option<AsPathSegmentType> {
        if code == 1 {
            Some(AsPathSegmentType::AsSet)
        } else if code == 2 {
            Some(AsPathSegmentType::Sequence)
        } else if code == 3 {
            Some(AsPathSegmentType::ConfedSequence)
        } else if code == 4 {
            Some(AsPathSegmentType::ConfedSet)
        } else {
            None
        }
    }

    /// The wire code of a kind.
    pub open spec fn code(self) -> u8 {
        match self {
            AsPathSegmentType::AsSet => 1,
            AsPathSegmentType::Sequence => 2,
            AsPathSegmentType::ConfedSequence => 3,
            AsPathSegmentType::ConfedSet => 4,
        }
    }

    pub fn from_u8(code: u8) -> (r: Option<AsPathSegmentType>)
        ensures
            r == AsPathSegmentType::of_code(code),
    {
        match code {
            1 => Some(AsPathSegmentType::AsSet),
            2 => Some(AsPathSegmentType::Sequence),
            3 => Some(AsPathSegmentType::ConfedSequence),
            4 => Some(AsPathSegmentType::ConfedSet),
            _ => None,
        }
    }

    pub fn to_u8(&self) -> (code: u8)
        ensures
            code == self.code(),
            AsPathSegmentType::of_code(code) == Some(*self),
    {
        match self {
            AsPathSegmentType::AsSet => 1,
            AsPathSegmentType::Sequence => 2,
            AsPathSegmentType::ConfedSequence => 3,
            AsPathSegmentType::ConfedSet => 4,
        }
    }
}

/// One segment of an AS path: a kind and the AS numbers under it. Their order matters,
/// and a number may occur more than once.
#[derive(Clone, Debug, PartialEq, Eq)]
pub struct AsPathSegment {
    pub seg_type: AsPathSegmentType,
    pub members: Vec<u32>,
}

/// A segment as a mathematical value.
pub struct Segment {
    pub seg_type: AsPathSegmentType,
    pub members: Seq<u32>,
}

impl View for AsPathSegment {
    type V = Segment;

    open spec fn view(&self) -> Segment {
        Segment { seg_type: self.seg_type, members: self.members@ }
    }
}

/// An AS path: its segments in order. A path may have no segment at all.
#[derive(Clone, Debug, PartialEq, Eq)]
pub struct AsPath {
    pub segments: Vec<AsPathSegment>,
}

impl View for AsPath {
    type V = Seq<Segment>;

    open spec fn view(&self) -> Seq<Segment> {
        self.segments@.map_values(|s: AsPathSegment| s@)
    }
}

/// Why an attribute value is not an AS path. `segment` counts the segments from zero and
/// names the one at which decoding stopped.
#[derive(Clone, Copy, Debug, PartialEq, Eq, Structural)]
pub enum DecodeError {
    /// The value ends inside the segment: after its kind, or before the last of the AS
    /// numbers that it announces.
    InsufficientData { segment: usize },
    /// The segment's kind octet, `code`, names no kind.
    MalformedSegmentType { segment: usize, code: u8 },
}

/// A remark on a value that decodes: something unusual that is not an error.
#[derive(Clone, Copy, Debug, PartialEq, Eq, Structural)]
pub enum Diagnostic {
    /// The segment announces no AS numbers.
    EmptySegment { segment: usize },
}

/// The number of octets of one AS number on the wire.
pub open spec fn asn_width(four_byte_asn: bool) -> int {
    if four_byte_asn {
        4
    } else {
        2
    }
}

/// The `count` numbers of `width` octets each that `body` starts with.
pub open spec fn members_at(body: Seq<u8>, count: nat, width: int) -> Seq<u32> {
    Seq::new(count, |i: int| be_value(body.subrange(i * width, (i + 1) * width)) as u32)
}

/// Whether `s` starts with a whole segment: a kind octet that names a kind, a count
/// octet, and the AS numbers that the count announces.
pub open spec fn has_segment(s: Seq<u8>, four_byte_asn: bool) -> bool {
    &&& s.len() >= 2
    &&& AsPathSegmentType::of_code(s[0]) is Some
    &&& s.len() >= 2 + s[1] * asn_width(four_byte_asn)
}

/// The segment that `s` starts with, where it starts with one.
pub open spec fn segment_at(s: Seq<u8>, four_byte_asn: bool) -> Segment {
    Segment {
        seg_type: AsPathSegmentType::of_code(s[0])->Some_0,
        members: members_at(s.skip(2), s[1] as nat, asn_width(four_byte_asn)),
    }
}

/// Why `s` starts with no whole segment, where it is not empty and starts with none: its
/// kind octet names no kind, or else it ends too early.
pub open spec fn segment_error(s: Seq<u8>, index: nat) -> DecodeError {
    if s.len() >= 1 && AsPathSegmentType::of_code(s[0]) is None {
        DecodeError::MalformedSegmentType { segment: index as usize, code: s[0] }
    } else {
        DecodeError::InsufficientData { segment: index as usize }
    }
}

/// The segment that `s` starts with, or why it starts with none.
pub open spec fn parse_segment(s: Seq<u8>, four_byte_asn: bool, index: nat) -> Result<
    Segment,
    DecodeError,
> {
    if has_segment(s, four_byte_asn) {
        Ok(segment_at(s, four_byte_asn))
    } else {
        Err(segment_error(s, index))
    }
}

/// How many octets of `s` are read to find the segment that it starts with: all of the
/// segment where there is one; else the kind octet, and the count octet too where the
/// kind was good and the count is there.
pub open spec fn segment_used(s: Seq<u8>, four_byte_asn: bool) -> int {
    if s.len() < 1 {
        0
    } else if AsPathSegmentType::of_code(s[0]) is None || s.len() < 2 {
        1
    } else if s.len() < 2 + s[1] * asn_width(four_byte_asn) {
        2
    } else {
        2 + s[1] * asn_width(four_byte_asn)
    }
}

/// `tail` with the segments of `head` put before it, where `tail` is a path.
pub open spec fn graft(head: Seq<Segment>, tail: Result<Seq<Segment>, DecodeError>) -> Result<
    Seq<Segment>,
    DecodeError,
> {
    match tail {
        Ok(segments) => Ok(head + segments),
        Err(e) => Err(e),
    }
}

/// The path that `s` is the wire form of, or the first reason why it is none. `index` is
/// the number of the segment that `s` starts with.
pub open spec fn parse_path(s: Seq<u8>, four_byte_asn: bool, index: nat) -> Result<
    Seq<Segment>,
    DecodeError,
>
    decreases s.len(),
{
    if s.len() == 0 {
        Ok(Seq::empty())
    } else if has_segment(s, four_byte_asn) {
        graft(
            seq![segment_at(s, four_byte_asn)],
            parse_path(s.skip(segment_used(s, four_byte_asn)), four_byte_asn, index + 1),
        )
    } else {
        Err(segment_error(s, index))
    }
}

/// How many octets of `s` are read to decode it: all of them where `s` is a path, else
/// those up to where the first failing segment gave up.
pub open spec fn path_used(s: Seq<u8>, four_byte_asn: bool) -> int
    decreases s.len(),
{
    if has_segment(s, four_byte_asn) {
        segment_used(s, four_byte_asn) + path_used(
            s.skip(segment_used(s, four_byte_asn)),
            four_byte_asn,
        )
    } else {
        segment_used(s, four_byte_asn)
    }
}

/// The remarks that decoding `s` gives rise to, in the order of the segments: one for
/// each segment without AS numbers that is read before decoding ends.
pub open spec fn advisories(s: Seq<u8>, four_byte_asn: bool, index: nat) -> Seq<Diagnostic>
    decreases s.len(),
{
    if has_segment(s, four_byte_asn) {
        segment_advisory(s[1], index) + advisories(
            s.skip(segment_used(s, four_byte_asn)),
            four_byte_asn,
            index + 1,
        )
    } else {
        Seq::empty()
    }
}

/// The remark on one segment that announces `count` AS numbers.
pub open spec fn segment_advisory(count: u8, index: nat) -> Seq<Diagnostic> {
    if count == 0 {
        seq![Diagnostic::EmptySegment { segment: index as usize }]
    } else {
        Seq::empty()
    }
}

/// What handing `added` to an optional sink does: a sink that is there has them appended,
/// in order; one that is not there stays so.
pub open spec fn recorded(
    before: Option<Vec<Diagnostic>>,
    after: Option<Vec<Diagnostic>>,
    added: Seq<Diagnostic>,
) -> bool {
    match before {
        None => after is None,
        Some(records) => after is Some && after->Some_0@ == records@ + added,
    }
}

fn report(sink: &mut Option<Vec<Diagnostic>>, remark: Diagnostic)
    ensures
        recorded(*old(sink), *final(sink), seq![remark]),
{
    match sink {
        Some(records) => {
            records.push(remark);
        },
        None => {},
    }
    assert(*old(sink) is Some ==> (*old(sink))->Some_0@.push(remark) =~= (*old(sink))->Some_0@
        + seq![remark]);
}

impl AsPathSegment {
    /// Reads one segment, numbered `index`, from the front of `buf`.
    ///
    /// Whatever `buf` holds, the call returns: with the segment, the cursor then standing
    /// behind it, or with the reason why there is none. Before any AS number is read, the
    /// announced count is held against what is left, so that a count that the value
    /// cannot honour fails with the cursor behind the count octet.
    pub fn decode(buf: &mut Bytes, four_byte_asn_cap: bool, index: usize) -> (r: Result<
        AsPathSegment,
        DecodeError,
    >)
        ensures
            match parse_segment(unread(*old(buf)), four_byte_asn_cap, index as nat) {
                Ok(segment) => r is Ok && r->Ok_0@ == segment,
                Err(e) => r is Err && r->Err_0 == e,
            },
            unread(*final(buf)) == unread(*old(buf)).skip(
                segment_used(unread(*old(buf)), four_byte_asn_cap),
            ),
    {
        let ghost s = unread(*buf);
        let code = match try_get_u8(buf) {
            Ok(code) => code,
            Err(_) => {
                assert(s.skip(0) =~= s);
                return Err(DecodeError::InsufficientData { segment: index });
            },
        };
        let seg_type = match AsPathSegmentType::from_u8(code) {
            Some(seg_type) => seg_type,
            None => {
                return Err(DecodeError::MalformedSegmentType { segment: index, code });
            },
        };
        let count = match try_get_u8(buf) {
            Ok(count) => count,
            Err(_) => {
                return Err(DecodeError::InsufficientData { segment: index });
            },
        };
        assert(unread(*buf) =~= s.skip(2));
        let width: usize = if four_byte_asn_cap {
            4
        } else {
            2
        };
        if remaining(buf) < count as usize * width {
            return Err(DecodeError::InsufficientData { segment: index });
        }
        let ghost body = s.skip(2);
        let mut members: Vec<u32> = Vec::new();
        let mut k: usize = 0;
        while k < count as usize
            invariant
                k <= count,
                width == asn_width(four_byte_asn_cap),
                body.len() >= count * width,
                unread(*buf) == body.skip(k * width),
                members@ == members_at(body, k as nat, width as int),
            decreases count - k,
        {
            let ghost field = body.subrange(k * width, (k + 1) * width);
            assert(k * width + width <= count * width) by (nonlinear_arith)
                requires
                    k < count,
            ;
            assert((k + 1) * width == k * width + width) by (nonlinear_arith);
            assert(unread(*buf).take(width as int) =~= field);
            assert(unread(*buf).skip(width as int) =~= body.skip((k + 1) * width));
            proof {
                lemma_be_value_bound(field);
                lemma_pow256_values();
            }
            let asn: u32 = if four_byte_asn_cap {
                match try_get_u32(buf) {
                    Ok(asn) => asn,
                    Err(_) => {
                        return Err(DecodeError::InsufficientData { segment: index });
                    },
                }
            } else {
                match try_get_u16(buf) {
                    Ok(asn) => asn as u32,
                    Err(_) => {
                        return Err(DecodeError::InsufficientData { segment: index });
                    },
                }
            };
            members.push(asn);
            k += 1;
            assert(members@ =~= members_at(body, k as nat, width as int));
        }
        assert(body.skip(count * width) =~= s.skip(2 + count * width));
        Ok(AsPathSegment { seg_type, members })
    }
}

impl AsPath {
    /// Decodes the value of an AS path attribute.
    ///
    /// `buf` holds the attribute's value and nothing else. AS numbers are read in four
    /// octets where `four_byte_asn_cap` is set and in two where it is not; neither the
    /// context nor the attribute type changes what is read. A sink that is handed in
    /// receives the remarks on the value; they never make the call fail.
    ///
    /// The call has no precondition and returns for every value: with the path, the
    /// whole value then being read, or with the first error, the cursor then standing
    /// where the failing segment gave up. A value of no octets is the path of no
    /// segments. A path that is returned encodes to the value that it was read from.
    #[allow(unused_variables)]
    pub fn decode(
        buf: &mut Bytes,
        cxt: &DecodeCxt,
        attr_type: AttrType,
        four_byte_asn_cap: bool,
        sink: &mut Option<Vec<Diagnostic>>,
    ) -> (r: Result<AsPath, DecodeError>)
        ensures
            match parse_path(unread(*old(buf)), four_byte_asn_cap, 0) {
                Ok(path) => r is Ok && r->Ok_0@ == path,
                Err(e) => r is Err && r->Err_0 == e,
            },
            unread(*final(buf)) == unread(*old(buf)).skip(
                path_used(unread(*old(buf)), four_byte_asn_cap),
            ),
            r is Ok ==> unread(*final(buf)).len() == 0,
            r is Ok ==> path_fits(r->Ok_0@, four_byte_asn_cap) && encode_path(
                r->Ok_0@,
                four_byte_asn_cap,
            ) == unread(*old(buf)),
            unread(*old(buf)).len() == 0 ==> r is Ok && r->Ok_0@.len() == 0,
            recorded(
                *old(sink),
                *final(sink),
                advisories(unread(*old(buf)), four_byte_asn_cap, 0),
            ),
    {
        let ghost value = unread(*buf);
        let ghost mut noted: Seq<Diagnostic> = Seq::empty();
        let mut segments: Vec<AsPathSegment> = Vec::new();
        assert(value.skip(0) =~= value);
        assert(*old(sink) is Some ==> (*old(sink))->Some_0@ + noted =~= (*old(sink))->Some_0@);
        while remaining(buf) > 0
            invariant
                value == unread(*old(buf)),
                unread(*buf).len() <= value.len(),
                unread(*buf) == value.skip(value.len() - unread(*buf).len()),
                parse_path(value, four_byte_asn_cap, 0) == graft(
                    segments@.map_values(|s: AsPathSegment| s@),
                    parse_path(unread(*buf), four_byte_asn_cap, segments.len() as nat),
                ),
                path_used(value, four_byte_asn_cap) == (value.len() - unread(*buf).len())
                    + path_used(unread(*buf), four_byte_asn_cap),
                advisories(value, four_byte_asn_cap, 0) == noted + advisories(
                    unread(*buf),
                    four_byte_asn_cap,
                    segments.len() as nat,
                ),
                recorded(*old(sink), *sink, noted),
            decreases unread(*buf).len(),
        {
            let ghost rest = unread(*buf);
            let ghost used = segment_used(rest, four_byte_asn_cap);
            let ghost before = segments@.map_values(|s: AsPathSegment| s@);
            let index = segments.len();
            match AsPathSegment::decode(buf, four_byte_asn_cap, index) {
                Ok(segment) => {
                    assert(unread(*buf) =~= value.skip(value.len() - rest.len() + used));
                    if segment.members.len() == 0 {
                        report(sink, Diagnostic::EmptySegment { segment: index });
                    }
                    proof {
                        let tail = parse_path(
                            rest.skip(used),
                            four_byte_asn_cap,
                            (index + 1) as nat,
                        );
                        assert(graft(before, graft(seq![segment@], tail)) == graft(
                            before.push(segment@),
                            tail,
                        )) by {
                            if tail is Ok {
                                assert(before + (seq![segment@] + tail->Ok_0) =~= before.push(
                                    segment@,
                                ) + tail->Ok_0);
                            }
                        }
                        let fresh = segment_advisory(rest[1], index as nat);
                        assert(noted + (fresh + advisories(
                            rest.skip(used),
                            four_byte_asn_cap,
                            (index + 1) as nat,
                        )) =~= (noted + fresh) + advisories(
                            rest.skip(used),
                            four_byte_asn_cap,
                            (index + 1) as nat,
                        ));
                        assert(*old(sink) is Some ==> ((*old(sink))->Some_0@ + noted) + fresh
                            =~= (*old(sink))->Some_0@ + (noted + fresh));
                        noted = noted + fresh;
                    }
                    segments.push(segment);
                    assert(segments@.map_values(|s: AsPathSegment| s@) =~= before.push(segment@));
                },
                Err(e) => {
                    assert(unread(*buf) =~= value.skip(value.len() - rest.len() + used));
                    assert(noted + Seq::<Diagnostic>::empty() =~= noted);
                    return Err(e);
                },
            }
        }
        assert(value.skip(value.len() as int) =~= unread(*buf));
        assert(segments@.map_values(|s: AsPathSegment| s@) + Seq::<Segment>::empty()
            =~= segments@.map_values(|s: AsPathSegment| s@));
        assert(noted + Seq::<Diagnostic>::empty() =~= noted);
        proof {
            lemma_encode_decode(value, four_byte_asn_cap, 0);
        }
        Ok(AsPath { segments })
    }
}

impl DecodeError {
    /// The number of the segment at which decoding stopped.
    pub open spec fn segment(self) -> usize {
        match self {
            DecodeError::InsufficientData { segment } => segment,
            DecodeError::MalformedSegmentType { segment, .. } => segment,
        }
    }
}

/// Decoding never reads past the end of the value, and says one of three things about
/// it: that it is a path, all of it then being read; that a segment's kind octet names
/// no kind; or that the value ends inside a segment. The code that an error quotes is
/// indeed no kind's code, and the segment that it names starts inside the value, each
/// segment before it having taken two octets or more.
pub proof fn lemma_parse_path_outcome(s: Seq<u8>, four_byte_asn: bool, index: nat)
    ensures
        0 <= path_used(s, four_byte_asn) <= s.len(),
        match parse_path(s, four_byte_asn, index) {
            Ok(path) => path_used(s, four_byte_asn) == s.len() && 2 * path.len() <= s.len(),
            Err(e) => {
                &&& e matches DecodeError::MalformedSegmentType { code, .. }
                    ==> AsPathSegmentType::of_code(code) is None
                &&& index + s.len() <= usize::MAX ==> index <= e.segment() && 2 * (e.segment()
                    - index) < s.len()
            },
        },
        s.len() == 0 ==> parse_path(s, four_byte_asn, index) == Ok::<Seq<Segment>, DecodeError>(
            Seq::empty(),
        ),
    decreases s.len(),
{
    if s.len() > 0 && has_segment(s, four_byte_asn) {
        assert(s[1] * asn_width(four_byte_asn) >= 0) by (nonlinear_arith)
            requires
                s[1] >= 0,
                asn_width(four_byte_asn) > 0,
        ;
        lemma_parse_path_outcome(
            s.skip(segment_used(s, four_byte_asn)),
            four_byte_asn,
            index + 1,
        );
    }
}

} // verus!
