//! What a session has negotiated, as far as it changes how attributes are read.
use vstd::prelude::*;
use ::arbitrary::Unstructured;
use crate::entropy::{arbitrary_bool, entropy};

verus! {

/// The parameters of one decode, fixed when the session's capabilities were negotiated.
/// A context is built once and read from then on: nothing changes it.
#[derive(Debug, PartialEq, Eq, Structural)]
pub struct DecodeCxt {
    four_byte_asn: bool,
}

impl DecodeCxt {
    /// Whether both ends of the session carry AS numbers in four octets.
    pub closed spec fn spec_four_byte_asn(&self) -> bool {
        self.four_byte_asn
    }

    pub fn new(four_byte_asn: bool) -> (cxt: DecodeCxt)
        ensures
            cxt.spec_four_byte_asn() == four_byte_asn,
    {
        DecodeCxt { four_byte_asn }
    }

    #[verifier::when_used_as_spec(spec_four_byte_asn)]
    pub fn four_byte_asn(&self) -> (r: bool)
        ensures
            r == self.spec_four_byte_asn(),
    {
        self.four_byte_asn
    }

    /// Makes a context from unstructured data: with four-octet AS numbers where the next
    /// raw octet is odd, without them where it is even or no octet is left.
    pub fn arbitrary(u: &mut Unstructured<'_>) -> (r: Result<DecodeCxt, ::arbitrary::Error>)
        ensures
            r is Ok,
            entropy(*old(u)).len() == 0 ==> !r->Ok_0.four_byte_asn() && entropy(*final(u))
                == entropy(*old(u)),
            entropy(*old(u)).len() > 0 ==> r->Ok_0.four_byte_asn() == (entropy(*old(u))[0] % 2
                == 1) && entropy(*final(u)) == entropy(*old(u)).skip(1),
    {
        match arbitrary_bool(u) {
            Ok(four_byte_asn) => Ok(DecodeCxt::new(four_byte_asn)),
            Err(e) => Err(e),
        }
    }
}

impl Default for DecodeCxt {
    /// The context of a session that has negotiated nothing.
    fn default() -> (cxt: DecodeCxt)
        ensures
            !cxt.four_byte_asn(),
    {
        DecodeCxt { four_byte_asn: false }
    }
}

} // verus!
