//! Arithmetic and pairing engine for a sextic extension-field tower
//! `Fp -> Fp3 -> Fp6` over a pairing-friendly curve with a cubic twist:
//! Miller loop and final exponentiation in the style of the CP/SW families.

pub mod bignum;
pub mod fq;
pub mod fq3;
pub mod laws3;
pub mod fq6;
pub mod laws6;
pub mod pairing;
