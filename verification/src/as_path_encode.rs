//! The encoder of the AS path attribute, and the laws that tie it to the decoder.
use vstd::prelude::*;
use ::bytes::BytesMut;
use crate::as_path::{
    asn_width, graft, has_segment, members_at, parse_path, path_used, segment_at, segment_used,
    AsPath, AsPathSegment, DecodeError, Segment,
};
use crate::cursor::{put_u16, put_u32, put_u8, written};
use crate::endian::{
    be_octets, be_value, lemma_be_octets_len, lemma_be_octets_of_value, lemma_be_value_bound,
    lemma_be_value_of_octets, lemma_pow256_values,
};

verus! {

/// The wire form of a run of AS numbers: each in `asn_width` octets, in order.
pub open spec fn encode_members(members: Seq<u32>, four_byte_asn: bool) -> Seq<u8>
    decreases members.len(),
{
    if members.len() == 0 {
        Seq::empty()
    } else {
        encode_members(members.drop_last(), four_byte_asn) + be_octets(
            members.last() as nat,
            asn_width(four_byte_asn) as nat,
        )
    }
}

/// The wire form of a segment: kind, count, AS numbers.
pub open spec fn encode_segment(segment: Segment, four_byte_asn: bool) -> Seq<u8> {
    seq![segment.seg_type.code(), segment.members.len() as u8] + encode_members(
        segment.members,
        four_byte_asn,
    )
}

/// The wire form of a path: the wire forms of its segments, one after the other.
pub open spec fn encode_path(path: Seq<Segment>, four_byte_asn: bool) -> Seq<u8>
    decreases path.len(),
{
    if path.len() == 0 {
        Seq::empty()
    } else {
        encode_path(path.drop_last(), four_byte_asn) + encode_segment(path.last(), four_byte_asn)
    }
}

/// Whether the wire format can hold a segment: its count fits the count octet, and each
/// of its AS numbers fits the width in use.
pub open spec fn segment_fits(segment: Segment, four_byte_asn: bool) -> bool {
    &&& segment.members.len() <= 255
    &&& !four_byte_asn ==> forall|i: int|
        0 <= i < segment.members.len() ==> #[trigger] segment.members[i] <= 0xFFFF
}

/// Whether the wire format can hold a path: it can hold each segment.
pub open spec fn path_fits(path: Seq<Segment>, four_byte_asn: bool) -> bool {
    forall|i: int| 0 <= i < path.len() ==> segment_fits(#[trigger] path[i], four_byte_asn)
}

/// The wire form of a run of AS numbers has `asn_width` octets for each, and the octets
/// of the number at `i` stand at `i` times that width.
pub proof fn lemma_encode_members(members: Seq<u32>, four_byte_asn: bool)
    ensures
        encode_members(members, four_byte_asn).len() == members.len() * asn_width(four_byte_asn),
        forall|i: int|
            0 <= i < members.len() ==> #[trigger] encode_members(members, four_byte_asn).subrange(
                i * asn_width(four_byte_asn),
                (i + 1) * asn_width(four_byte_asn),
            ) == be_octets(members[i] as nat, asn_width(four_byte_asn) as nat),
    decreases members.len(),
{
    let w = asn_width(four_byte_asn);
    let all = encode_members(members, four_byte_asn);
    if members.len() > 0 {
        let front = members.drop_last();
        let head = encode_members(front, four_byte_asn);
        let field = be_octets(members.last() as nat, w as nat);
        lemma_encode_members(front, four_byte_asn);
        lemma_be_octets_len(members.last() as nat, w as nat);
        assert(members.len() * w == front.len() * w + w) by (nonlinear_arith)
            requires
                members.len() == front.len() + 1,
        ;
        assert forall|i: int| 0 <= i < members.len() implies #[trigger] all.subrange(
            i * w,
            (i + 1) * w,
        ) == be_octets(members[i] as nat, w as nat) by {
            assert(0 <= i * w && (i + 1) * w == i * w + w && (i + 1) * w <= members.len() * w)
                by (nonlinear_arith)
                requires
                    0 <= i < members.len(),
                    w > 0,
            ;
            if i < front.len() {
                assert((i + 1) * w <= front.len() * w) by (nonlinear_arith)
                    requires
                        i < front.len(),
                        w > 0,
                ;
                assert(all.subrange(i * w, (i + 1) * w) =~= head.subrange(i * w, (i + 1) * w));
                assert(front[i] == members[i]);
            } else {
                assert(all.subrange(i * w, (i + 1) * w) =~= field);
            }
        }
    }
}

/// A segment that fits is read back from its wire form, whatever follows it: the octets
/// start with a whole segment, that segment is the one encoded, and reading it stops
/// where what follows begins.
pub proof fn lemma_segment_round_trip(segment: Segment, four_byte_asn: bool, rest: Seq<u8>)
    requires
        segment_fits(segment, four_byte_asn),
    ensures
        has_segment(encode_segment(segment, four_byte_asn) + rest, four_byte_asn),
        segment_at(encode_segment(segment, four_byte_asn) + rest, four_byte_asn) == segment,
        segment_used(encode_segment(segment, four_byte_asn) + rest, four_byte_asn)
            == encode_segment(segment, four_byte_asn).len(),
        (encode_segment(segment, four_byte_asn) + rest).skip(
            encode_segment(segment, four_byte_asn).len() as int,
        ) == rest,
{
    let w = asn_width(four_byte_asn);
    let wire = encode_segment(segment, four_byte_asn);
    let s = wire + rest;
    let body = encode_members(segment.members, four_byte_asn);
    lemma_encode_members(segment.members, four_byte_asn);
    lemma_pow256_values();
    assert(s[0] == segment.seg_type.code());
    assert(s[1] == segment.members.len());
    assert(s.skip(wire.len() as int) =~= rest);
    let read = members_at(s.skip(2), s[1] as nat, w);
    assert forall|i: int| 0 <= i < segment.members.len() implies read[i]
        == segment.members[i] by {
        assert(0 <= i * w && (i + 1) * w == i * w + w && (i + 1) * w <= segment.members.len()
            * w) by (nonlinear_arith)
            requires
                0 <= i < segment.members.len(),
                w > 0,
        ;
        assert(s.skip(2).subrange(i * w, (i + 1) * w) =~= body.subrange(i * w, (i + 1) * w));
        lemma_be_value_of_octets(segment.members[i] as nat, w as nat);
        if !four_byte_asn {
            assert(segment.members[i] <= 0xFFFF);
        }
    }
    assert(read =~= segment.members);
}

/// Where `a` is the wire form of a path, `a` followed by `b` decodes to that path followed
/// by what `b` decodes to, and exactly as much more is read as is read of `b` alone.
pub proof fn lemma_parse_concat(a: Seq<u8>, b: Seq<u8>, four_byte_asn: bool, index: nat)
    requires
        parse_path(a, four_byte_asn, index) is Ok,
    ensures
        parse_path(a + b, four_byte_asn, index) == graft(
            parse_path(a, four_byte_asn, index)->Ok_0,
            parse_path(
                b,
                four_byte_asn,
                index + parse_path(a, four_byte_asn, index)->Ok_0.len(),
            ),
        ),
        path_used(a, four_byte_asn) == a.len(),
        path_used(a + b, four_byte_asn) == a.len() + path_used(b, four_byte_asn),
    decreases a.len(),
{
    if a.len() == 0 {
        assert(a + b =~= b);
        let tail = parse_path(b, four_byte_asn, index);
        if tail is Ok {
            assert(Seq::<Segment>::empty() + tail->Ok_0 =~= tail->Ok_0);
        }
    } else {
        let s = a + b;
        let used = segment_used(a, four_byte_asn);
        assert(has_segment(a, four_byte_asn));
        assert(s[0] == a[0] && s[1] == a[1]);
        assert(has_segment(s, four_byte_asn));
        assert(segment_used(s, four_byte_asn) == used);
        let w = asn_width(four_byte_asn);
        let of_s = members_at(s.skip(2), s[1] as nat, w);
        let of_a = members_at(a.skip(2), a[1] as nat, w);
        assert forall|i: int| 0 <= i < a[1] implies of_s[i] == of_a[i] by {
            assert(0 <= i * w && (i + 1) * w == i * w + w && (i + 1) * w <= a[1] * w)
                by (nonlinear_arith)
                requires
                    0 <= i < a[1],
                    w > 0,
            ;
            assert(s.skip(2).subrange(i * w, (i + 1) * w) =~= a.skip(2).subrange(
                i * w,
                (i + 1) * w,
            ));
        }
        assert(of_s =~= of_a);
        let first = segment_at(a, four_byte_asn);
        assert(segment_at(s, four_byte_asn) == first);
        assert(s.skip(used) =~= a.skip(used) + b);
        let inner = parse_path(a.skip(used), four_byte_asn, index + 1);
        assert(inner is Ok);
        lemma_parse_concat(a.skip(used), b, four_byte_asn, index + 1);
        let tail = parse_path(b, four_byte_asn, index + 1 + inner->Ok_0.len());
        if tail is Ok {
            assert(seq![first] + (inner->Ok_0 + tail->Ok_0) =~= (seq![first] + inner->Ok_0)
                + tail->Ok_0);
        }
    }
}

/// Encoding then decoding gives the path back: for every path that the wire format can
/// hold, under either width of AS numbers, the wire form decodes to that path, and
/// decoding reads all of it.
pub proof fn lemma_decode_encode(path: Seq<Segment>, four_byte_asn: bool)
    requires
        path_fits(path, four_byte_asn),
    ensures
        parse_path(encode_path(path, four_byte_asn), four_byte_asn, 0) == Ok::<
            Seq<Segment>,
            DecodeError,
        >(path),
        path_used(encode_path(path, four_byte_asn), four_byte_asn) == encode_path(
            path,
            four_byte_asn,
        ).len(),
    decreases path.len(),
{
    if path.len() > 0 {
        let front = path.drop_last();
        let last = encode_segment(path.last(), four_byte_asn);
        assert(path_fits(front, four_byte_asn)) by {
            assert forall|i: int| 0 <= i < front.len() implies segment_fits(
                #[trigger] front[i],
                four_byte_asn,
            ) by {
                assert(front[i] == path[i]);
            }
        }
        lemma_decode_encode(front, four_byte_asn);
        lemma_parse_concat(encode_path(front, four_byte_asn), last, four_byte_asn, 0);
        lemma_segment_round_trip(path.last(), four_byte_asn, Seq::empty());
        assert(last + Seq::<u8>::empty() =~= last);
        assert(last.skip(last.len() as int) =~= Seq::<u8>::empty());
        assert(parse_path(last, four_byte_asn, front.len()) == Ok::<Seq<Segment>, DecodeError>(
            seq![path.last()],
        )) by {
            assert(parse_path(Seq::<u8>::empty(), four_byte_asn, front.len() + 1) == Ok::<
                Seq<Segment>,
                DecodeError,
            >(Seq::empty()));
            assert(seq![path.last()] + Seq::<Segment>::empty() =~= seq![path.last()]);
        }
        assert(path_used(last, four_byte_asn) == last.len()) by {
            assert(path_used(Seq::<u8>::empty(), four_byte_asn) == 0);
        }
        assert(front + seq![path.last()] =~= path);
    } else {
        assert(path =~= Seq::<Segment>::empty());
    }
}

/// The AS numbers read from a run of octets encode to the octets that they were read
/// from, and fit the width that they were read at.
pub proof fn lemma_members_canonical(body: Seq<u8>, count: nat, four_byte_asn: bool)
    requires
        body.len() >= count * asn_width(four_byte_asn),
    ensures
        encode_members(
            members_at(body, count, asn_width(four_byte_asn)),
            four_byte_asn,
        ) == body.take(count * asn_width(four_byte_asn)),
        !four_byte_asn ==> forall|i: int|
            0 <= i < count ==> #[trigger] members_at(body, count, asn_width(four_byte_asn))[i]
                <= 0xFFFF,
    decreases count,
{
    let w = asn_width(four_byte_asn);
    let members = members_at(body, count, w);
    if count == 0 {
        assert(body.take(0) =~= Seq::<u8>::empty());
    } else {
        let less = (count - 1) as nat;
        assert(less * w + w == count * w && 0 <= less * w) by (nonlinear_arith)
            requires
                less + 1 == count,
                w > 0,
        ;
        lemma_members_canonical(body, less, four_byte_asn);
        let field = body.subrange(less * w, count * w);
        lemma_be_value_bound(field);
        lemma_be_octets_of_value(field);
        lemma_pow256_values();
        assert(members.drop_last() =~= members_at(body, less, w));
        assert(members.last() == be_value(field));
        assert(body.take(less * w) + field =~= body.take(count * w));
        if !four_byte_asn {
            assert forall|i: int| 0 <= i < count implies #[trigger] members[i] <= 0xFFFF by {
                if i < less {
                    assert(members[i] == members_at(body, less, w)[i]);
                }
            }
        }
    }
}

/// Decoding then encoding gives the octets back: a value that decodes to a path is the
/// wire form of that path, and of no other, and the path is one that the wire format can
/// hold. So no two values decode to the same path.
pub proof fn lemma_encode_decode(s: Seq<u8>, four_byte_asn: bool, index: nat)
    requires
        parse_path(s, four_byte_asn, index) is Ok,
    ensures
        encode_path(parse_path(s, four_byte_asn, index)->Ok_0, four_byte_asn) == s,
        path_fits(parse_path(s, four_byte_asn, index)->Ok_0, four_byte_asn),
    decreases s.len(),
{
    let path = parse_path(s, four_byte_asn, index)->Ok_0;
    if s.len() == 0 {
        assert(encode_path(path, four_byte_asn) =~= s);
    } else {
        let w = asn_width(four_byte_asn);
        let used = segment_used(s, four_byte_asn);
        let first = segment_at(s, four_byte_asn);
        let rest = s.skip(used);
        let tail = parse_path(rest, four_byte_asn, index + 1)->Ok_0;
        assert(s[1] * w >= 0) by (nonlinear_arith)
            requires
                s[1] >= 0,
                w > 0,
        ;
        lemma_encode_decode(rest, four_byte_asn, index + 1);
        lemma_members_canonical(s.skip(2), s[1] as nat, four_byte_asn);
        assert(seq![first.seg_type.code(), first.members.len() as u8] + s.skip(2).take(s[1] * w)
            =~= s.take(used));
        assert(encode_segment(first, four_byte_asn) == s.take(used));
        assert(encode_path(seq![first], four_byte_asn) =~= encode_segment(first, four_byte_asn))
            by {
            assert(seq![first].drop_last() =~= Seq::<Segment>::empty());
            assert(encode_path(Seq::<Segment>::empty(), four_byte_asn) =~= Seq::<u8>::empty());
        }
        lemma_encode_path_concat(seq![first], tail, four_byte_asn);
        assert(s.take(used) + rest =~= s);
        assert forall|i: int| 0 <= i < path.len() implies segment_fits(
            #[trigger] path[i],
            four_byte_asn,
        ) by {
            if i > 0 {
                assert(path[i] == tail[i - 1]);
            }
        }
    }
}

/// The wire form of a path grows by one segment's wire form when the path does.
pub proof fn lemma_encode_path_push(path: Seq<Segment>, segment: Segment, four_byte_asn: bool)
    ensures
        encode_path(path.push(segment), four_byte_asn) == encode_path(path, four_byte_asn)
            + encode_segment(segment, four_byte_asn),
{
    assert(path.push(segment).drop_last() =~= path);
}

/// The wire form of two paths, one after the other, is the wire form of the first
/// followed by that of the second.
pub proof fn lemma_encode_path_concat(a: Seq<Segment>, b: Seq<Segment>, four_byte_asn: bool)
    ensures
        encode_path(a + b, four_byte_asn) == encode_path(a, four_byte_asn) + encode_path(
            b,
            four_byte_asn,
        ),
    decreases b.len(),
{
    if b.len() == 0 {
        assert(a + b =~= a);
        assert(encode_path(a, four_byte_asn) + Seq::<u8>::empty() =~= encode_path(
            a,
            four_byte_asn,
        ));
    } else {
        lemma_encode_path_concat(a, b.drop_last(), four_byte_asn);
        assert((a + b).drop_last() =~= a + b.drop_last());
        assert(encode_path(a + b, four_byte_asn) =~= encode_path(a, four_byte_asn) + encode_path(
            b,
            four_byte_asn,
        ));
    }
}

impl AsPathSegment {
    /// Whether the wire format can hold this segment under the given width of AS numbers.
    pub fn fits(&self, four_byte_asn_cap: bool) -> (r: bool)
        ensures
            r == segment_fits(self@, four_byte_asn_cap),
    {
        if self.members.len() > 255 {
            return false;
        }
        if four_byte_asn_cap {
            return true;
        }
        let mut k: usize = 0;
        while k < self.members.len()
            invariant
                k <= self.members.len() <= 255,
                !four_byte_asn_cap,
                forall|i: int| 0 <= i < k ==> #[trigger] self.members@[i] <= 0xFFFF,
            decreases self.members.len() - k,
        {
            if self.members[k] > 0xFFFF {
                assert(self@.members[k as int] > 0xFFFF);
                return false;
            }
            k += 1;
        }
        true
    }

    /// Appends the wire form of this segment to `buf`.
    pub fn encode(&self, buf: &mut BytesMut, four_byte_asn_cap: bool)
        requires
            segment_fits(self@, four_byte_asn_cap),
            written(*old(buf)).len() + encode_segment(self@, four_byte_asn_cap).len()
                <= isize::MAX,
        ensures
            written(*final(buf)) == written(*old(buf)) + encode_segment(
                self@,
                four_byte_asn_cap,
            ),
    {
        let ghost start = written(*buf);
        let ghost head = seq![self.seg_type.code(), self.members.len() as u8];
        proof {
            lemma_encode_members(self.members@, four_byte_asn_cap);
        }
        put_u8(buf, self.seg_type.to_u8());
        put_u8(buf, self.members.len() as u8);
        assert(written(*buf) =~= start + head + encode_members(
            self.members@.take(0),
            four_byte_asn_cap,
        ));
        let mut k: usize = 0;
        while k < self.members.len()
            invariant
                k <= self.members.len(),
                head.len() == 2,
                segment_fits(self@, four_byte_asn_cap),
                start.len() + 2 + self.members.len() * asn_width(four_byte_asn_cap)
                    <= isize::MAX,
                written(*buf) == start + head + encode_members(
                    self.members@.take(k as int),
                    four_byte_asn_cap,
                ),
            decreases self.members.len() - k,
        {
            let asn = self.members[k];
            let ghost done = self.members@.take(k as int);
            let ghost next = self.members@.take(k + 1);
            proof {
                lemma_encode_members(done, four_byte_asn_cap);
                assert(next.drop_last() =~= done);
                assert(next.last() == asn);
                assert(done.len() * asn_width(four_byte_asn_cap) + asn_width(four_byte_asn_cap)
                    <= self.members.len() * asn_width(four_byte_asn_cap)) by (nonlinear_arith)
                    requires
                        done.len() < self.members.len(),
                        asn_width(four_byte_asn_cap) > 0,
                ;
                assert(written(*buf).len() == start.len() + 2 + done.len() * asn_width(
                    four_byte_asn_cap,
                ));
            }
            if four_byte_asn_cap {
                put_u32(buf, asn);
            } else {
                assert(self@.members[k as int] <= 0xFFFF);
                put_u16(buf, asn as u16);
            }
            assert(written(*buf) =~= start + head + encode_members(next, four_byte_asn_cap));
            k += 1;
        }
        assert(self.members@.take(self.members.len() as int) =~= self.members@);
        assert(start + head + encode_members(self.members@, four_byte_asn_cap) =~= start
            + encode_segment(self@, four_byte_asn_cap));
    }
}

impl AsPath {
    /// Whether the wire format can hold this path under the given width of AS numbers.
    pub fn fits(&self, four_byte_asn_cap: bool) -> (r: bool)
        ensures
            r == path_fits(self@, four_byte_asn_cap),
    {
        let mut i: usize = 0;
        while i < self.segments.len()
            invariant
                i <= self.segments.len(),
                forall|j: int| 0 <= j < i ==> segment_fits(#[trigger] self@[j], four_byte_asn_cap),
            decreases self.segments.len() - i,
        {
            if !self.segments[i].fits(four_byte_asn_cap) {
                assert(!segment_fits(self@[i as int], four_byte_asn_cap));
                return false;
            }
            i += 1;
        }
        true
    }

    /// Appends the wire form of this path to `buf`: its segments in order, each as kind,
    /// count and AS numbers. Decoding what was appended gives the path back.
    pub fn encode(&self, buf: &mut BytesMut, four_byte_asn_cap: bool)
        requires
            path_fits(self@, four_byte_asn_cap),
            written(*old(buf)).len() + encode_path(self@, four_byte_asn_cap).len() <= isize::MAX,
        ensures
            written(*final(buf)) == written(*old(buf)) + encode_path(self@, four_byte_asn_cap),
            parse_path(encode_path(self@, four_byte_asn_cap), four_byte_asn_cap, 0) == Ok::<
                Seq<Segment>,
                DecodeError,
            >(self@),
    {
        let ghost start = written(*buf);
        proof {
            lemma_decode_encode(self@, four_byte_asn_cap);
        }
        assert(start + encode_path(self@.take(0), four_byte_asn_cap) =~= start);
        let mut i: usize = 0;
        while i < self.segments.len()
            invariant
                i <= self.segments.len(),
                path_fits(self@, four_byte_asn_cap),
                start.len() + encode_path(self@, four_byte_asn_cap).len() <= isize::MAX,
                written(*buf) == start + encode_path(self@.take(i as int), four_byte_asn_cap),
            decreases self.segments.len() - i,
        {
            let ghost done = self@.take(i as int);
            let ghost next = self@.take(i + 1);
            proof {
                assert(next =~= done.push(self@[i as int]));
                lemma_encode_path_push(done, self@[i as int], four_byte_asn_cap);
                assert(self@ =~= next + self@.skip(i + 1));
                lemma_encode_path_concat(next, self@.skip(i + 1), four_byte_asn_cap);
            }
            self.segments[i].encode(buf, four_byte_asn_cap);
            assert(written(*buf) =~= start + encode_path(next, four_byte_asn_cap));
            i += 1;
        }
        assert(self@.take(self.segments.len() as int) =~= self@);
    }
}

} // verus!
