//! The `arbitrary` crate's source of raw octets as Verus sees it. Nothing in this file is
//! proved; every contract restates the behaviour of the `arbitrary` crate.
use vstd::prelude::*;
use ::arbitrary::{Arbitrary, Error, Unstructured};

verus! {

/// `arbitrary::Unstructured`: a stream of raw octets that values are made from. Verus
/// sees nothing inside it but `entropy`.
#[verifier::external_type_specification]
#[verifier::external_body]
pub struct ExUnstructured<'a>(Unstructured<'a>);

/// `arbitrary::Error`: why a value could not be made. It is carried through as it comes.
#[verifier::external_type_specification]
#[verifier::external_body]
pub struct ExError(Error);

/// The raw octets of an `Unstructured` that no value has been made from yet, in order.
pub uninterp spec fn entropy(u: Unstructured<'_>) -> Seq<u8>;

/// `Unstructured::new`: a source over the octets of `data`, none of them used.
pub assume_specification<'a>[ Unstructured::<'a>::new ](data: &'a [u8]) -> (u: Unstructured<'a>)
    ensures
        entropy(u) == data@,
;

/// `Unstructured::len`: the number of raw octets left.
pub assume_specification<'a>[ Unstructured::<'a>::len ](u: &Unstructured<'a>) -> (n: usize)
    ensures
        n == entropy(*u).len(),
;

/// `Unstructured::bytes`: hands out the next `size` raw octets and uses them up; with
/// fewer left it fails and uses up nothing.
pub assume_specification<'a>[ Unstructured::<'a>::bytes ](
    u: &mut Unstructured<'a>,
    size: usize,
) -> (r: Result<&'a [u8], Error>)
    ensures
        r is Ok <==> size <= entropy(*old(u)).len(),
        r is Ok ==> r->Ok_0@ == entropy(*old(u)).take(size as int) && entropy(*final(u))
            == entropy(*old(u)).skip(size as int),
        r is Err ==> entropy(*final(u)) == entropy(*old(u)),
;

/// `u8`'s `Arbitrary::arbitrary`: never fails; uses up the next raw octet and hands it
/// out, or hands out zero when none is left.
#[verifier::external_body]
pub(crate) fn arbitrary_u8(u: &mut Unstructured<'_>) -> (r: Result<u8, Error>)
    ensures
        r is Ok,
        entropy(*old(u)).len() == 0 ==> r->Ok_0 == 0 && entropy(*final(u)) == entropy(*old(u)),
        entropy(*old(u)).len() > 0 ==> r->Ok_0 == entropy(*old(u))[0] && entropy(*final(u))
            == entropy(*old(u)).skip(1),
{
    u8::arbitrary(u)
}

/// `bool`'s `Arbitrary::arbitrary`: never fails; uses up the next raw octet and hands out
/// whether it is odd, or hands out `false` when none is left.
#[verifier::external_body]
pub(crate) fn arbitrary_bool(u: &mut Unstructured<'_>) -> (r: Result<bool, Error>)
    ensures
        r is Ok,
        entropy(*old(u)).len() == 0 ==> r->Ok_0 == false && entropy(*final(u)) == entropy(
            *old(u),
        ),
        entropy(*old(u)).len() > 0 ==> r->Ok_0 == (entropy(*old(u))[0] % 2 == 1) && entropy(
            *final(u),
        ) == entropy(*old(u)).skip(1),
{
    bool::arbitrary(u)
}

} // verus!
