use vstd::prelude::*;

use crate::byte::{bit_of, ripple, spec_byte_from_u8, spec_full_add};
use crate::trit::{Trit, ONE};

verus! {

/// `and` with `T` leaves a value as it is, and `and` with `F` gives `F`.
pub proof fn lemma_and_units(t: Trit)
    requires
        t.wf(),
    ensures
        t.spec_and(Trit::T) == t,
        Trit::T.spec_and(t) == t,
        t.spec_and(Trit::F) == Trit::F,
        Trit::F.spec_and(t) == Trit::F,
{
    let s = t.scalar();
    assert(s * (ONE as int) / (ONE as int) == s) by (nonlinear_arith)
        requires
            0 <= s <= ONE,
    ;
    assert((ONE as int) * s == s * (ONE as int)) by (nonlinear_arith);
}

/// Every connective of well-formed values is well formed.
pub proof fn lemma_connectives_wf(a: Trit, b: Trit)
    requires
        a.wf(),
        b.wf(),
    ensures
        a.spec_not().wf(),
        a.spec_and(b).wf(),
        a.spec_or(b).wf(),
        a.spec_nand(b).wf(),
        a.spec_nor(b).wf(),
        a.spec_xor(b).wf(),
{
    assert forall|x: Trit, y: Trit| x.wf() && y.wf() implies #[trigger] x.spec_and(y).wf() by {
        let p = x.scalar();
        let q = y.scalar();
        assert(0 <= p * q / (ONE as int) <= ONE) by (nonlinear_arith)
            requires
                0 <= p <= ONE,
                0 <= q <= ONE,
        ;
    }
}

/// On crisp values every connective follows the two-valued truth table.
pub proof fn lemma_crisp_truth_tables(a: bool, b: bool)
    ensures
        Trit::of_bool(a).spec_not() == Trit::of_bool(!a),
        Trit::of_bool(a).spec_and(Trit::of_bool(b)) == Trit::of_bool(a && b),
        Trit::of_bool(a).spec_or(Trit::of_bool(b)) == Trit::of_bool(a || b),
        Trit::of_bool(a).spec_xor(Trit::of_bool(b)) == Trit::of_bool(a != b),
        Trit::of_bool(a).spec_nand(Trit::of_bool(b)) == Trit::of_bool(!(a && b)),
        Trit::of_bool(a).spec_nor(Trit::of_bool(b)) == Trit::of_bool(!(a || b)),
{
    lemma_and_units(Trit::T);
    lemma_and_units(Trit::F);
}

/// Negating twice gives the value back, fuzzy values included.
pub proof fn lemma_double_negation(t: Trit)
    requires
        t.wf(),
    ensures
        t.spec_not().spec_not() == t,
{
}

/// De Morgan's laws hold exactly: `not(and(a, b)) == or(not(a), not(b))` and
/// `not(or(a, b)) == and(not(a), not(b))`.
pub proof fn lemma_de_morgan(a: Trit, b: Trit)
    requires
        a.wf(),
        b.wf(),
    ensures
        a.spec_and(b).spec_not() == a.spec_not().spec_or(b.spec_not()),
        a.spec_or(b).spec_not() == a.spec_not().spec_and(b.spec_not()),
{
    lemma_connectives_wf(a.spec_not(), b.spec_not());
}

/// A crisp value `xor` itself is `F`.
pub proof fn lemma_xor_self_crisp(b: bool)
    ensures
        Trit::of_bool(b).spec_xor(Trit::of_bool(b)) == Trit::F,
{
    lemma_crisp_truth_tables(b, b);
}

/// With a carry in of `F` the full adder gives the half adder's sum and carry.
pub proof fn lemma_full_add_without_carry(a: Trit, b: Trit)
    requires
        a.wf(),
        b.wf(),
    ensures
        spec_full_add(a, b, Trit::F) == (a.spec_xor(b), a.spec_and(b)),
{
    let z0 = a.spec_xor(b);
    lemma_connectives_wf(a, b);
    lemma_connectives_wf(z0, Trit::F);
    lemma_and_units(z0);
    lemma_and_units(z0.spec_not());
    lemma_and_units(a.spec_and(b).spec_not());
    lemma_and_units(Trit::T);
}

/// On crisp values the full adder is the boolean full adder.
pub proof fn lemma_full_add_crisp(x: bool, y: bool, c: bool)
    ensures
        spec_full_add(Trit::of_bool(x), Trit::of_bool(y), Trit::of_bool(c)) == (
            Trit::of_bool((x != y) != c),
            Trit::of_bool(((x != y) && c) || (x && y)),
        ),
{
    lemma_crisp_truth_tables(x, y);
    lemma_crisp_truth_tables(x != y, c);
    lemma_crisp_truth_tables(c, x != y);
    lemma_crisp_truth_tables((x != y) && c, x && y);
}

/// The `n` lowest bits set, for `n <= 8`.
spec fn low_mask(n: u8) -> u16 {
    ((1u16 << n as u16) - 1u16) as u16
}

/// Whether adding the `n` lowest bits of `a` and `b` carries into bit `n`.
spec fn low_carry(a: u8, b: u8, n: u8) -> bool {
    ((a as u16 & low_mask(n)) + (b as u16 & low_mask(n))) as u16 >= (1u16 << n as u16)
}

proof fn lemma_add_bit(a: u8, b: u8, s: u8, n: u8)
    by (bit_vector)
    requires
        n < 8,
        s as u16 == ((a as u16 + b as u16) as u16) & 255u16,
    ensures
        ((s >> n) & 1u8 == 1u8) == ((((a >> n) & 1u8 == 1u8) != ((b >> n) & 1u8 == 1u8))
            != low_carry(a, b, n)),
        low_carry(a, b, (n + 1) as u8) == (((((a >> n) & 1u8 == 1u8) != ((b >> n) & 1u8 == 1u8))
            && low_carry(a, b, n)) || (((a >> n) & 1u8 == 1u8) && ((b >> n) & 1u8 == 1u8))),
{
}

proof fn lemma_carry_ends(a: u8, b: u8)
    by (bit_vector)
    ensures
        !low_carry(a, b, 0),
        low_carry(a, b, 8) == ((a as u16 + b as u16) as u16 >= 256u16),
{
}

proof fn lemma_ripple_crisp(a: u8, b: u8, s: u8, n: nat)
    requires
        n <= 8,
        s as u16 == ((a as u16 + b as u16) as u16) & 255u16,
    ensures
        ripple(spec_byte_from_u8(a), spec_byte_from_u8(b), n) == (
            spec_byte_from_u8(s).subrange(0, n as int),
            Trit::of_bool(low_carry(a, b, n as u8)),
        ),
    decreases n,
{
    if n == 0 {
        lemma_carry_ends(a, b);
        assert(spec_byte_from_u8(s).subrange(0, 0) =~= Seq::empty());
    } else {
        let m = (n - 1) as nat;
        lemma_ripple_crisp(a, b, s, m);
        lemma_add_bit(a, b, s, m as u8);
        lemma_full_add_crisp(bit_of(a, m as u8), bit_of(b, m as u8), low_carry(a, b, m as u8));
        assert(spec_byte_from_u8(s).subrange(0, m as int).push(spec_byte_from_u8(s)[m as int])
            =~= spec_byte_from_u8(s).subrange(0, n as int));
    }
}

/// On the bytes of two `u8`s the ripple-carry adder computes their sum: the
/// sum byte is that of `(a + b) mod 256` and the carry out says whether
/// `a + b` reaches 256.
pub proof fn lemma_byte_add_crisp(a: u8, b: u8)
    ensures
        ripple(spec_byte_from_u8(a), spec_byte_from_u8(b), 8).0 == spec_byte_from_u8(
            ((a + b) % 256) as u8,
        ),
        ripple(spec_byte_from_u8(a), spec_byte_from_u8(b), 8).1 == Trit::of_bool(a + b >= 256),
{
    let s = ((a + b) % 256) as u8;
    assert(s as u16 == ((a as u16 + b as u16) as u16) & 255u16) by (bit_vector)
        requires
            s == ((a + b) % 256) as u8,
    ;
    lemma_ripple_crisp(a, b, s, 8);
    lemma_carry_ends(a, b);
    assert(spec_byte_from_u8(s).subrange(0, 8) =~= spec_byte_from_u8(s));
}

} // verus!
