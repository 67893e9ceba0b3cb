use vstd::prelude::*;

use crate::trit::Trit;

verus! {

/// Eight trits, index 0 the least significant: a word of fuzzy bits.
pub type TritByte = [Trit; 8];

/// Every position of the byte is well formed.
pub open spec fn byte_wf(b: TritByte) -> bool {
    forall|i: int| 0 <= i < 8 ==> (#[trigger] b[i]).wf()
}

/// Bit `i` of `n`, counted from the least significant.
pub open spec fn bit_of(n: u8, i: u8) -> bool {
    (n >> i) & 1u8 == 1u8
}

/// The byte of a `u8`: crisp `T` where the bit is set, `F` elsewhere.
pub open spec fn spec_byte_from_u8(n: u8) -> Seq<Trit> {
    Seq::new(8, |i: int| Trit::of_bool(bit_of(n, i as u8)))
}

/// Sum and carry of a half adder.
pub struct AdderResult {
    pub sum: Trit,
    pub carry: Trit,
}

/// Sum and carry of a full adder: `z0 = xor(a, b)`, the sum is `xor(c, z0)`,
/// the carry `or(and(z0, c), and(a, b))`.
pub open spec fn spec_full_add(a: Trit, b: Trit, c: Trit) -> (Trit, Trit) {
    let z0 = a.spec_xor(b);
    (c.spec_xor(z0), z0.spec_and(c).spec_or(a.spec_and(b)))
}

/// The sums of the `n` lowest positions of a ripple-carry addition of `a`
/// and `b` that starts from a carry of `F`, and the carry out of them.
pub open spec fn ripple(a: Seq<Trit>, b: Seq<Trit>, n: nat) -> (Seq<Trit>, Trit)
    decreases n,
{
    if n == 0 {
        (Seq::empty(), Trit::F)
    } else {
        let (sums, carry) = ripple(a, b, (n - 1) as nat);
        let (s, c) = spec_full_add(a[n - 1], b[n - 1], carry);
        (sums.push(s), c)
    }
}

/// Sum `xor(a, b)` and carry `and(a, b)`.
pub fn half_adder(a: Trit, b: Trit) -> (r: AdderResult)
    requires
        a.wf(),
        b.wf(),
    ensures
        r.sum == a.spec_xor(b),
        r.carry == a.spec_and(b),
        r.sum.wf(),
        r.carry.wf(),
{
    AdderResult { sum: a.xor(&b), carry: a.and(&b) }
}

/// One position of a ripple-carry adder, with `c` the carry in.
pub fn full_add(a: &Trit, b: &Trit, c: &Trit) -> (r: (Trit, Trit))
    requires
        a.wf(),
        b.wf(),
        c.wf(),
    ensures
        r == spec_full_add(*a, *b, *c),
        r.0.wf(),
        r.1.wf(),
{
    let z0 = a.xor(b);
    let sum = c.xor(&z0);
    let z1 = z0.and(c);
    let z2 = a.and(b);
    let carry = z1.or(&z2);
    (sum, carry)
}

/// `or` at each position.
pub fn byte_or(first: &TritByte, second: &TritByte) -> (r: TritByte)
    requires
        byte_wf(*first),
        byte_wf(*second),
    ensures
        byte_wf(r),
        forall|i: int| 0 <= i < 8 ==> #[trigger] r[i] == first[i].spec_or(second[i]),
{
    let mut r: TritByte = [Trit::F; 8];
    let mut i: usize = 0;
    while i < 8
        invariant
            0 <= i <= 8,
            byte_wf(*first),
            byte_wf(*second),
            byte_wf(r),
            forall|j: int| 0 <= j < i ==> #[trigger] r[j] == first[j].spec_or(second[j]),
        decreases 8 - i,
    {
        r[i] = first[i].or(&second[i]);
        i = i + 1;
    }
    r
}

/// `and` at each position.
pub fn byte_and(first: &TritByte, second: &TritByte) -> (r: TritByte)
    requires
        byte_wf(*first),
        byte_wf(*second),
    ensures
        byte_wf(r),
        forall|i: int| 0 <= i < 8 ==> #[trigger] r[i] == first[i].spec_and(second[i]),
{
    let mut r: TritByte = [Trit::F; 8];
    let mut i: usize = 0;
    while i < 8
        invariant
            0 <= i <= 8,
            byte_wf(*first),
            byte_wf(*second),
            byte_wf(r),
            forall|j: int| 0 <= j < i ==> #[trigger] r[j] == first[j].spec_and(second[j]),
        decreases 8 - i,
    {
        r[i] = first[i].and(&second[i]);
        i = i + 1;
    }
    r
}

/// `not` at each position.
pub fn byte_not(first: &TritByte) -> (r: TritByte)
    requires
        byte_wf(*first),
    ensures
        byte_wf(r),
        forall|i: int| 0 <= i < 8 ==> #[trigger] r[i] == first[i].spec_not(),
{
    let mut r: TritByte = [Trit::F; 8];
    let mut i: usize = 0;
    while i < 8
        invariant
            0 <= i <= 8,
            byte_wf(*first),
            byte_wf(r),
            forall|j: int| 0 <= j < i ==> #[trigger] r[j] == first[j].spec_not(),
        decreases 8 - i,
    {
        r[i] = first[i].not();
        i = i + 1;
    }
    r
}

/// Ripple-carry addition of two bytes, least significant position first,
/// from a carry of `F`: the sum byte and the carry out of the top position.
pub fn byte_full_add(first: &TritByte, second: &TritByte) -> (r: (TritByte, Trit))
    requires
        byte_wf(*first),
        byte_wf(*second),
    ensures
        r.0@ == ripple(first@, second@, 8).0,
        r.1 == ripple(first@, second@, 8).1,
        byte_wf(r.0),
        r.1.wf(),
{
    let mut sums: TritByte = [Trit::F; 8];
    let mut carry = Trit::F;
    let mut i: usize = 0;
    while i < 8
        invariant
            0 <= i <= 8,
            byte_wf(*first),
            byte_wf(*second),
            byte_wf(sums),
            carry.wf(),
            sums@.subrange(0, i as int) == ripple(first@, second@, i as nat).0,
            carry == ripple(first@, second@, i as nat).1,
        decreases 8 - i,
    {
        let (s, c) = full_add(&first[i], &second[i], &carry);
        let ghost before = sums@;
        sums[i] = s;
        carry = c;
        assert(sums@.subrange(0, i + 1) =~= before.subrange(0, i as int).push(s));
        i = i + 1;
    }
    assert(sums@.subrange(0, 8) =~= sums@);
    (sums, carry)
}

/// The byte whose position `i` is `T` where bit `i` of `source` is set.
pub fn byte_from_u8(source: u8) -> (r: TritByte)
    ensures
        r@ == spec_byte_from_u8(source),
        byte_wf(r),
{
    let mut r: TritByte = [Trit::F; 8];
    let mut i: u8 = 0;
    while i < 8
        invariant
            0 <= i <= 8,
            forall|j: int| 0 <= j < 8 ==> (#[trigger] r[j]).wf(),
            forall|j: int| 0 <= j < i ==> #[trigger] r[j] == Trit::of_bool(bit_of(source, j as u8)),
        decreases 8 - i,
    {
        let bit: u8 = (source >> i) & 1;
        r[i as usize] = if bit == 1 {
            Trit::T
        } else {
            Trit::F
        };
        i = i + 1;
    }
    assert(r@ =~= spec_byte_from_u8(source));
    r
}

} // verus!
