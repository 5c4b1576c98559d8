//! Psychoacoustic bass enhancement.
//!
//! Small speakers cannot reproduce sub-bass, but the ear reconstructs a missing
//! fundamental from its harmonics. This library isolates a low band with a
//! Butterworth high-pass/low-pass cascade, drives it through a saturating
//! waveshaper to synthesize second and third harmonics, and mixes the result
//! back into the dry signal.
//!
//! All signal and control values are signed fixed-point numbers: an `i64`
//! holding the real value times 65536 (filter coefficients carry a finer,
//! 30-bit fraction). This keeps the whole pipeline in exact integer
//! arithmetic, so every stage carries a contract that pins its result down
//! to the bit.

pub mod fp;
pub mod coeff;
pub mod stage;
pub mod params;
pub mod sat;
pub mod sub;
pub mod laws;

pub use fp::ONE;
pub use fp::TEN;
