use vstd::prelude::*;

verus! {

/// The scalar of crisp truth. A degree of truth is held as a fixed-point
/// fraction: the scalar `s` stands for `s / ONE`, so `0` is false, `ONE` is
/// true and everything strictly between is a fuzzy degree.
pub const ONE: u64 = 0x1_0000_0000;

/// The scalar of the degree one half, where `round` starts to answer true.
pub const HALF: u64 = 0x8000_0000;

/// A fuzzy ternary value.
///
/// `Z(n)` is the degree `n / ONE`; it is well formed only for `n > 0`, since
/// the degrees `0` and `ONE` are always written `F` and `T`.
#[derive(Clone, Copy, Debug, PartialEq, Eq, Structural)]
pub enum Trit {
    T,
    F,
    Z(u32),
}

impl Trit {
    /// No fuzzy value carries one of the crisp degrees.
    pub open spec fn wf(self) -> bool {
        match self {
            Trit::Z(n) => n > 0,
            _ => true,
        }
    }

    /// The degree of truth, as a multiple of `1 / ONE`.
    pub open spec fn scalar(self) -> int {
        match self {
            Trit::T => ONE as int,
            Trit::F => 0,
            Trit::Z(n) => n as int,
        }
    }

    /// The one well-formed value whose scalar is `s`, for `0 <= s <= ONE`.
    pub open spec fn of_scalar(s: int) -> Trit {
        if s == ONE {
            Trit::T
        } else if s == 0 {
            Trit::F
        } else {
            Trit::Z(s as u32)
        }
    }

    pub open spec fn of_bool(b: bool) -> Trit {
        if b {
            Trit::T
        } else {
            Trit::F
        }
    }

    /// The standard complement `1 - x`.
    pub open spec fn spec_not(self) -> Trit {
        Trit::of_scalar(ONE - self.scalar())
    }

    /// The product t-norm `x * y`, rounded down to the fixed-point grid.
    pub open spec fn spec_and(self, other: Trit) -> Trit {
        Trit::of_scalar(self.scalar() * other.scalar() / (ONE as int))
    }

    /// The dual of the product, `not(and(not(x), not(y)))`.
    pub open spec fn spec_or(self, other: Trit) -> Trit {
        self.spec_not().spec_and(other.spec_not()).spec_not()
    }

    pub open spec fn spec_nand(self, other: Trit) -> Trit {
        self.spec_and(other).spec_not()
    }

    pub open spec fn spec_nor(self, other: Trit) -> Trit {
        self.spec_or(other).spec_not()
    }

    /// "At least one" and "not both": `and(or(x, y), nand(x, y))`.
    pub open spec fn spec_xor(self, other: Trit) -> Trit {
        self.spec_or(other).spec_and(self.spec_nand(other))
    }

    /// The value of a boolean.
    pub fn from_boolean(source: bool) -> (r: Trit)
        ensures
            r == Trit::of_bool(source),
            r.wf(),
    {
        if source {
            Trit::T
        } else {
            Trit::F
        }
    }

    /// The value of a scalar, or `None` when the scalar lies above `ONE`.
    pub fn from_scalar(source: u64) -> (r: Option<Trit>)
        ensures
            r.is_none() <==> source > ONE,
            source == ONE ==> r == Some(Trit::T),
            source == 0 ==> r == Some(Trit::F),
            0 < source < ONE ==> r == Some(Trit::Z(source as u32)),
            r matches Some(t) ==> t.wf() && t.scalar() == source,
    {
        if source == ONE {
            Some(Trit::T)
        } else if source == 0 {
            Some(Trit::F)
        } else if source < ONE {
            Some(Trit::Z(source as u32))
        } else {
            None
        }
    }

    /// The value of a scalar that the caller knows to be at most `ONE`.
    pub fn from_scalar_unchecked(source: u64) -> (r: Trit)
        requires
            source <= ONE,
        ensures
            r == Trit::of_scalar(source as int),
            r.wf(),
            r.scalar() == source,
    {
        if source == ONE {
            Trit::T
        } else if source == 0 {
            Trit::F
        } else {
            Trit::Z(source as u32)
        }
    }

    /// The degree of truth: `ONE` for `T`, `0` for `F`, `n` for `Z(n)`.
    pub fn to_scalar(&self) -> (r: u64)
        ensures
            r == self.scalar(),
    {
        match self {
            Trit::T => ONE,
            Trit::F => 0,
            Trit::Z(n) => *n as u64,
        }
    }
    /// The complement: the scalar becomes `ONE - scalar`.
    pub fn not(&self) -> (r: Trit)
        requires
            self.wf(),
        ensures
            r == self.spec_not(),
            r.wf(),
            r.scalar() == ONE - self.scalar(),
    {
        Trit::from_scalar_unchecked(ONE - self.to_scalar())
    }

    /// The product: the scalar becomes `scalar * other / ONE`, rounded down.
    pub fn and(&self, other: &Trit) -> (r: Trit)
        requires
            self.wf(),
            other.wf(),
        ensures
            r == self.spec_and(*other),
            r.wf(),
            r.scalar() == self.scalar() * other.scalar() / (ONE as int),
    {
        let a = self.to_scalar();
        let b = other.to_scalar();
        assert(a * b <= ONE * ONE) by (nonlinear_arith)
            requires
                a <= ONE,
                b <= ONE,
        ;
        let p: u128 = a as u128 * b as u128;
        let q: u128 = p / (ONE as u128);
        assert(q <= ONE) by (nonlinear_arith)
            requires
                a <= ONE,
                b <= ONE,
                p == a * b,
                q == p / (ONE as u128),
        ;
        Trit::from_scalar_unchecked(q as u64)
    }

    /// The probabilistic sum: the scalar becomes
    /// `ONE - (ONE - scalar) * (ONE - other) / ONE`, rounded down inside.
    pub fn or(&self, other: &Trit) -> (r: Trit)
        requires
            self.wf(),
            other.wf(),
        ensures
            r == self.spec_or(*other),
            r.wf(),
            r.scalar() == ONE - (ONE - self.scalar()) * (ONE - other.scalar()) / (ONE as int),
    {
        self.not().and(&other.not()).not()
    }

    /// `and(or(self, other), nand(self, other))`.
    pub fn xor(&self, other: &Trit) -> (r: Trit)
        requires
            self.wf(),
            other.wf(),
        ensures
            r == self.spec_xor(*other),
            r.wf(),
    {
        self.or(other).and(&self.nand(other))
    }

    /// The complement of `or`.
    pub fn nor(&self, other: &Trit) -> (r: Trit)
        requires
            self.wf(),
            other.wf(),
        ensures
            r == self.spec_nor(*other),
            r.wf(),
            r.scalar() == (ONE - self.scalar()) * (ONE - other.scalar()) / (ONE as int),
    {
        self.or(other).not()
    }

    /// The complement of `and`.
    pub fn nand(&self, other: &Trit) -> (r: Trit)
        requires
            self.wf(),
            other.wf(),
        ensures
            r == self.spec_nand(*other),
            r.wf(),
            r.scalar() == ONE - self.scalar() * other.scalar() / (ONE as int),
    {
        self.and(other).not()
    }

    /// Whether the value is proven: true for `T` alone, however close a
    /// fuzzy degree comes to one.
    pub fn doubt(&self) -> (r: bool)
        ensures
            r <==> *self == Trit::T,
    {
        match self {
            Trit::T => true,
            _ => false,
        }
    }

    /// Whether the value may be true: false for `F` alone.
    pub fn presume(&self) -> (r: bool)
        ensures
            r <==> *self != Trit::F,
    {
        match self {
            Trit::F => false,
            _ => true,
        }
    }

    /// The nearest crisp answer: a degree of one half or more is true.
    pub fn round(&self) -> (r: bool)
        ensures
            r <==> self.scalar() >= HALF,
    {
        match self {
            Trit::T => true,
            Trit::F => false,
            Trit::Z(n) => *n as u64 >= HALF,
        }
    }
}

} // verus!
