//! A fuzzy ternary logic: crisp true and false, and degrees of truth between
//! them, with product-algebra connectives and ripple-carry adders built on them.
pub mod byte;
pub mod laws;
pub mod trit;
pub mod trit_string;

pub use byte::{
    byte_and, byte_from_u8, byte_full_add, byte_not, byte_or, full_add, half_adder, AdderResult,
    TritByte,
};
pub use trit::{Trit, HALF, ONE};
pub use trit_string::TritString;
