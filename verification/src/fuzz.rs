//! The entry point for fuzzing the AS path decoder: from one stream of raw octets to the
//! decoder's inputs and on to its outcome.
//!
//! The inputs are made from the stream in a fixed order: the attribute's value, the
//! decode context, the attribute type, the four-octet AS number flag. The value comes
//! first and takes every octet of the stream, so the other three are made from a stream
//! that has run out: a context that has negotiated nothing, the attribute type of code
//! zero, and a flag that is not set. An input that once made the decoder fail can so be
//! kept as its octets and run again.
use vstd::prelude::*;
use ::arbitrary::Unstructured;
use ::bytes::Bytes;
use crate::as_path::{parse_path, AsPath, DecodeError, Diagnostic};
use crate::attr_type::AttrType;
use crate::bytes_ext::BytesExt;
use crate::context::DecodeCxt;
use crate::entropy::arbitrary_bool;

verus! {

/// Decodes `data` as the value of an AS path attribute with two-octet AS numbers, the
/// inputs being made from `data` as the module describes.
///
/// The call returns for every `data`, and always with an outcome: the path that `data`
/// is the wire form of, or the error that says why it is none.
pub fn as_path_decode(data: &[u8]) -> (r: Option<Result<AsPath, DecodeError>>)
    ensures
        r is Some,
        match parse_path(data@, false, 0) {
            Ok(path) => r->Some_0 is Ok && r->Some_0->Ok_0@ == path,
            Err(e) => r->Some_0 is Err && r->Some_0->Err_0 == e,
        },
{
    let mut u = Unstructured::new(data);
    let mut buf = match Bytes::arbitrary(&mut u) {
        Ok(buf) => buf,
        Err(_) => {
            return None;
        },
    };
    let cxt = match DecodeCxt::arbitrary(&mut u) {
        Ok(cxt) => cxt,
        Err(_) => {
            return None;
        },
    };
    let attr_type = match AttrType::arbitrary(&mut u) {
        Ok(attr_type) => attr_type,
        Err(_) => {
            return None;
        },
    };
    let four_byte_asn_cap = match arbitrary_bool(&mut u) {
        Ok(four_byte_asn_cap) => four_byte_asn_cap,
        Err(_) => {
            return None;
        },
    };
    let mut sink: Option<Vec<Diagnostic>> = None;
    Some(AsPath::decode(&mut buf, &cxt, attr_type, four_byte_asn_cap, &mut sink))
}

} // verus!
