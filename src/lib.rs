//! Laurent polynomials over an abstract field: arithmetic, long division
//! and a canonical textual form.
pub mod field;
pub mod gf2;
pub mod rational;
pub mod poly;
pub mod arith;
pub mod product;
pub mod division;
pub mod equality;
pub mod display;
pub mod ops;
pub mod sums;
pub mod laws;
pub mod division_laws;
pub mod util;
pub mod natural;
