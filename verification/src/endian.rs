//! Big-endian (network order) numbers as sequences of octets.
use vstd::prelude::*;
use vstd::arithmetic::div_mod::{lemma_breakdown, lemma_fundamental_div_mod_converse};

verus! {

/// 256 to the power `n`: the number of values that `n` octets can tell apart.
pub open spec fn pow256(n: nat) -> nat
    decreases n,
{
    if n == 0 {
        1
    } else {
        256 * pow256((n - 1) as nat)
    }
}

/// The number that the octets of `s` spell in network order, the first octet being the
/// most significant one.
pub open spec fn be_value(s: Seq<u8>) -> nat
    decreases s.len(),
{
    if s.len() == 0 {
        0
    } else {
        be_value(s.drop_last()) * 256 + s.last() as nat
    }
}

/// The `n` low octets of `v` in network order.
pub open spec fn be_octets(v: nat, n: nat) -> Seq<u8>
    decreases n,
{
    if n == 0 {
        Seq::empty()
    } else {
        be_octets(v / 256, (n - 1) as nat).push((v % 256) as u8)
    }
}

/// `pow256` at the field widths that the wire formats use.
pub proof fn lemma_pow256_values()
    ensures
        pow256(0) == 1,
        pow256(1) == 0x100,
        pow256(2) == 0x1_0000,
        pow256(3) == 0x100_0000,
        pow256(4) == 0x1_0000_0000,
        pow256(16) == 0x1_0000_0000_0000_0000_0000_0000_0000_0000,
{
    reveal_with_fuel(pow256, 17);
}

pub proof fn lemma_pow256_positive(n: nat)
    ensures
        pow256(n) > 0,
    decreases n,
{
    if n > 0 {
        lemma_pow256_positive((n - 1) as nat);
    }
}

/// `be_octets(v, n)` has `n` octets.
pub proof fn lemma_be_octets_len(v: nat, n: nat)
    ensures
        be_octets(v, n).len() == n,
    decreases n,
{
    if n > 0 {
        lemma_be_octets_len(v / 256, (n - 1) as nat);
    }
}

/// A number spelled by `n` octets is below 256 to the power `n`.
pub proof fn lemma_be_value_bound(s: Seq<u8>)
    ensures
        be_value(s) < pow256(s.len()),
    decreases s.len(),
{
    if s.len() > 0 {
        lemma_be_value_bound(s.drop_last());
    }
}

/// Writing a number as `n` octets and reading them back keeps the number modulo 256 to
/// the power `n`: the octets above the field are cut off, the others are kept.
pub proof fn lemma_be_value_of_octets(v: nat, n: nat)
    ensures
        be_value(be_octets(v, n)) == v % pow256(n),
    decreases n,
{
    if n > 0 {
        let m = (n - 1) as nat;
        let head = be_octets(v / 256, m);
        let s = be_octets(v, n);
        lemma_be_value_of_octets(v / 256, m);
        lemma_pow256_positive(m);
        assert(s.drop_last() =~= head);
        assert(s.last() == (v % 256) as u8);
        lemma_breakdown(v as int, 256, pow256(m) as int);
        assert(be_value(s) == be_value(head) * 256 + (v % 256));
    }
}

/// Reading a number from octets and writing it at the same width gives the octets back.
pub proof fn lemma_be_octets_of_value(s: Seq<u8>)
    ensures
        be_octets(be_value(s), s.len()) == s,
    decreases s.len(),
{
    if s.len() > 0 {
        let head = s.drop_last();
        let v = be_value(s);
        lemma_be_octets_of_value(head);
        lemma_fundamental_div_mod_converse(
            v as int,
            256,
            be_value(head) as int,
            s.last() as int,
        );
        assert(be_octets(v, s.len()) =~= s);
    } else {
        assert(be_octets(be_value(s), s.len()) =~= s);
    }
}

/// The number that three octets spell.
pub proof fn lemma_be_value_3(s: Seq<u8>)
    requires
        s.len() == 3,
    ensures
        be_value(s) == s[0] * 0x1_0000 + s[1] * 0x100 + s[2],
{
    reveal_with_fuel(be_value, 4);
    assert(s.drop_last().drop_last().drop_last().len() == 0);
}

/// The three low octets of a number, written out.
pub proof fn lemma_be_octets_3(v: nat)
    ensures
        be_octets(v, 3) == seq![
            ((v / 0x1_0000) % 256) as u8,
            ((v / 0x100) % 256) as u8,
            (v % 256) as u8,
        ],
{
    reveal_with_fuel(be_octets, 4);
    assert(v / 256 / 256 == v / 0x1_0000) by (nonlinear_arith);
    assert(be_octets(v, 3) =~= seq![
        ((v / 0x1_0000) % 256) as u8,
        ((v / 0x100) % 256) as u8,
        (v % 256) as u8,
    ]);
}

} // verus!
