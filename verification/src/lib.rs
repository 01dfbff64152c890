//! Exact-arithmetic camera geometry for a ray tracer: an orthonormal camera
//! frame derived from a look-at target, an eye position and a roll angle, and
//! two ray-generation policies (orthographic and perspective projection).
//!
//! All coordinates are exact rationals: a vector stores integer numerators
//! over one positive denominator, a roll angle is a point on the unit circle.
//! Normalization is exact integer square root, so every geometric claim is
//! proved with tolerance zero.

pub mod algebra;
pub mod lens;
