//! Exact vector and scalar arithmetic on rational values.
//!
//! A `Vec3` stores three integer numerators over one positive denominator, so
//! its value is `(x/w, y/w, z/w)`. A `Scalar` is a single fraction `n/d`, and
//! a `Rot` is an exact point `(c/d, s/d)` on the unit circle standing for an
//! angle. Every operation is exact; an operation returns `None` exactly when
//! a numerator or denominator would leave the representable range.

use vstd::prelude::*;

verus! {

use vstd::arithmetic::mul::{
    lemma_mul_is_associative, lemma_mul_is_commutative, lemma_mul_is_distributive_add_other_way,
    lemma_mul_basics,
};

/// Largest magnitude a numerator may take, and largest denominator.
pub const COORD_BOUND: i64 = 0x8000_0000;

/// A 3-vector with value `(x/w, y/w, z/w)`.
#[derive(Clone, Copy, PartialEq, Eq, Structural, Debug)]
pub struct Vec3 {
    pub x: i64,
    pub y: i64,
    pub z: i64,
    pub w: i64,
}

/// A rational scalar with value `n/d`.
#[derive(Clone, Copy, PartialEq, Eq, Structural, Debug)]
pub struct Scalar {
    pub n: i64,
    pub d: i64,
}

/// An exact rotation angle: the point `(c/d, s/d)` on the unit circle,
/// that is `c*c + s*s == d*d`.
#[derive(Clone, Copy, PartialEq, Eq, Structural, Debug)]
pub struct Rot {
    pub c: i64,
    pub s: i64,
    pub d: i64,
}

/// A light ray: an origin point and a direction vector.
#[derive(Clone, Copy, PartialEq, Eq, Structural, Debug)]
pub struct Ray {
    pub position: Vec3,
    pub direction: Vec3,
}

pub open spec fn in_coord(v: int) -> bool {
    -COORD_BOUND <= v <= COORD_BOUND
}

pub open spec fn in_den(v: int) -> bool {
    1 <= v <= COORD_BOUND
}

/// Numerator of the dot product of `a` and `b` over the denominator
/// `a.w * b.w`; the dot product is zero exactly when this is zero.
pub open spec fn dot_n(a: Vec3, b: Vec3) -> int {
    a.x * b.x + a.y * b.y + a.z * b.z
}

/// Numerator of the squared magnitude of `a` over the denominator `a.w * a.w`.
pub open spec fn norm2_n(a: Vec3) -> int {
    dot_n(a, a)
}

/// The vector has squared magnitude exactly one.
pub open spec fn unit_v(a: Vec3) -> bool {
    norm2_n(a) == a.w * a.w
}

/// The two representations stand for the same vector value.
pub open spec fn veq(a: Vec3, b: Vec3) -> bool {
    &&& a.x * b.w == b.x * a.w
    &&& a.y * b.w == b.y * a.w
    &&& a.z * b.w == b.z * a.w
}

impl Vec3 {
    pub open spec fn wf(self) -> bool {
        &&& in_coord(self.x as int)
        &&& in_coord(self.y as int)
        &&& in_coord(self.z as int)
        &&& in_den(self.w as int)
    }
}

impl Scalar {
    pub open spec fn wf(self) -> bool {
        &&& in_coord(self.n as int)
        &&& in_den(self.d as int)
    }
}

impl Rot {
    pub open spec fn wf(self) -> bool {
        &&& in_coord(self.c as int)
        &&& in_coord(self.s as int)
        &&& in_den(self.d as int)
        &&& self.c * self.c + self.s * self.s == self.d * self.d
    }
}

impl Ray {
    pub open spec fn wf(self) -> bool {
        self.position.wf() && self.direction.wf()
    }
}

/// Widening product of two bounded numerators; never overflows.
fn mul_wide(a: i64, b: i64) -> (r: i128)
    requires
        in_coord(a as int),
        in_coord(b as int),
    ensures
        r == a * b,
        -0x4000_0000_0000_0000 <= r <= 0x4000_0000_0000_0000,
{
    proof {
        assert(-0x4000_0000_0000_0000 <= (a as int) * (b as int) <= 0x4000_0000_0000_0000)
            by (nonlinear_arith)
            requires
                -0x8000_0000 <= a as int <= 0x8000_0000,
                -0x8000_0000 <= b as int <= 0x8000_0000,
        ;
    }
    (a as i128) * (b as i128)
}

/// Whether a widened numerator fits back into the representable range.
fn fits_coord(v: i128) -> (r: bool)
    ensures
        r == in_coord(v as int),
{
    -0x8000_0000 <= v && v <= 0x8000_0000
}

/// Whether a widened denominator fits back into the representable range.
fn fits_den(v: i128) -> (r: bool)
    ensures
        r == in_den(v as int),
{
    1 <= v && v <= 0x8000_0000
}

pub open spec fn spec_vsub(a: Vec3, b: Vec3) -> Option<Vec3> {
    let x: int = a.x * b.w - b.x * a.w;
    let y: int = a.y * b.w - b.y * a.w;
    let z: int = a.z * b.w - b.z * a.w;
    let w: int = a.w * b.w;
    if in_coord(x) && in_coord(y) && in_coord(z) && in_den(w) {
        Some(Vec3 { x: x as i64, y: y as i64, z: z as i64, w: w as i64 })
    } else {
        None
    }
}

pub open spec fn spec_vadd(a: Vec3, b: Vec3) -> Option<Vec3> {
    let x: int = a.x * b.w + b.x * a.w;
    let y: int = a.y * b.w + b.y * a.w;
    let z: int = a.z * b.w + b.z * a.w;
    let w: int = a.w * b.w;
    if in_coord(x) && in_coord(y) && in_coord(z) && in_den(w) {
        Some(Vec3 { x: x as i64, y: y as i64, z: z as i64, w: w as i64 })
    } else {
        None
    }
}

pub open spec fn spec_vcross(a: Vec3, b: Vec3) -> Option<Vec3> {
    let x: int = a.y * b.z - a.z * b.y;
    let y: int = a.z * b.x - a.x * b.z;
    let z: int = a.x * b.y - a.y * b.x;
    let w: int = a.w * b.w;
    if in_coord(x) && in_coord(y) && in_coord(z) && in_den(w) {
        Some(Vec3 { x: x as i64, y: y as i64, z: z as i64, w: w as i64 })
    } else {
        None
    }
}

pub open spec fn spec_vscale(v: Vec3, s: Scalar) -> Option<Vec3> {
    let x: int = v.x * s.n;
    let y: int = v.y * s.n;
    let z: int = v.z * s.n;
    let w: int = v.w * s.d;
    if in_coord(x) && in_coord(y) && in_coord(z) && in_den(w) {
        Some(Vec3 { x: x as i64, y: y as i64, z: z as i64, w: w as i64 })
    } else {
        None
    }
}

pub open spec fn spec_vdot(a: Vec3, b: Vec3) -> Option<Scalar> {
    let n: int = dot_n(a, b);
    let d: int = a.w * b.w;
    if in_coord(n) && in_den(d) {
        Some(Scalar { n: n as i64, d: d as i64 })
    } else {
        None
    }
}

pub open spec fn spec_smul(a: Scalar, b: Scalar) -> Option<Scalar> {
    let n: int = a.n * b.n;
    let d: int = a.d * b.d;
    if in_coord(n) && in_den(d) {
        Some(Scalar { n: n as i64, d: d as i64 })
    } else {
        None
    }
}

/// There is an integer whose square is `n`.
pub open spec fn is_square(n: int) -> bool {
    exists|r: int| 0 <= r && #[trigger] (r * r) == n
}

/// The non-negative integer square root of a perfect square `n`.
pub open spec fn sqrt_of(n: int) -> int {
    choose|r: int| 0 <= r && #[trigger] (r * r) == n
}

/// Exact normalization: defined when the squared magnitude of `v` is a
/// perfect square of the representation, so the unit vector is again exact.
pub open spec fn spec_normalize(v: Vec3) -> Option<Vec3> {
    let n: int = norm2_n(v);
    if n > 0 && is_square(n) && in_den(sqrt_of(n)) {
        Some(Vec3 { x: v.x, y: v.y, z: v.z, w: sqrt_of(n) as i64 })
    } else {
        None
    }
}

impl Scalar {
    /// Exact product of two scalars.
    pub fn times(&self, other: &Scalar) -> (r: Option<Scalar>)
        requires
            self.wf(),
            other.wf(),
        ensures
            r == spec_smul(*self, *other),
            r matches Some(c) ==> c.wf(),
    {
        let n: i128 = mul_wide(self.n, other.n);
        let d: i128 = mul_wide(self.d, other.d);
        if fits_coord(n) && fits_den(d) {
            Some(Scalar { n: n as i64, d: d as i64 })
        } else {
            None
        }
    }
}

impl Rot {
    /// The rotation standing for the cosine/sine pair `(c/d, s/d)`; defined
    /// exactly when the pair lies on the unit circle.
    pub fn new(c: i64, s: i64, d: i64) -> (r: Option<Rot>)
        ensures
            r matches Some(q) ==> q.wf() && q.c == c && q.s == s && q.d == d,
            r is None <==> !(Rot { c, s, d }).wf(),
    {
        if -0x8000_0000 <= c && c <= 0x8000_0000 && -0x8000_0000 <= s && s <= 0x8000_0000
            && 1 <= d && d <= 0x8000_0000 {
            let cc: i128 = mul_wide(c, c);
            let ss: i128 = mul_wide(s, s);
            let dd: i128 = mul_wide(d, d);
            if cc + ss == dd {
                Some(Rot { c, s, d })
            } else {
                None
            }
        } else {
            None
        }
    }

    /// The rotation by angle zero.
    pub fn identity() -> (r: Rot)
        ensures
            r.wf(),
            r.c == 1,
            r.s == 0,
            r.d == 1,
    {
        Rot { c: 1, s: 0, d: 1 }
    }

    /// The rotation by the opposite angle.
    pub fn negated(&self) -> (r: Rot)
        requires
            self.wf(),
        ensures
            r == spec_rot_neg(*self),
            r.wf(),
    {
        proof {
            assert((-(self.s as int)) * (-(self.s as int)) == (self.s as int) * (self.s as int))
                by (nonlinear_arith);
        }
        Rot { c: self.c, s: -self.s, d: self.d }
    }
}

pub open spec fn spec_rot_neg(r: Rot) -> Rot {
    Rot { c: r.c, s: (-(r.s as int)) as i64, d: r.d }
}

/// Largest `r` with `r * r <= n`, by binary search.
fn isqrt(n: i128) -> (r: i128)
    requires
        0 <= n < 0x1_0000_0000_0000_0000,
    ensures
        0 <= r,
        r * r <= n,
        n < (r + 1) * (r + 1),
{
    let mut lo: i128 = 0;
    let mut hi: i128 = 0x1_0000_0000;
    while lo + 1 < hi
        invariant
            0 <= lo < hi <= 0x1_0000_0000,
            lo * lo <= n,
            n < hi * hi,
        decreases hi - lo,
    {
        let mid: i128 = lo + (hi - lo) / 2;
        proof {
            assert(mid * mid <= 0x1_0000_0000_0000_0000) by (nonlinear_arith)
                requires
                    0 <= mid,
                    mid <= 0x1_0000_0000,
            ;
        }
        if mid * mid <= n {
            lo = mid;
        } else {
            hi = mid;
        }
    }
    lo
}

/// Equal non-negative squares have equal roots.
proof fn lemma_sqrt_unique(a: int, b: int)
    by (nonlinear_arith)
    requires
        0 <= a,
        0 <= b,
        a * a == b * b,
    ensures
        a == b,
{
}

/// A number strictly between consecutive squares is no square.
proof fn lemma_square_bracket(n: int, k: int)
    requires
        0 <= k,
        k * k <= n,
        n < (k + 1) * (k + 1),
        k * k != n,
    ensures
        !is_square(n),
{
    assert forall|r: int| !(0 <= r && #[trigger] (r * r) == n) by {
        if 0 <= r && r * r == n {
            if r <= k {
                assert(r * r <= k * k) by (nonlinear_arith)
                    requires
                        0 <= r,
                        r <= k,
                ;
            } else {
                assert(r * r >= (k + 1) * (k + 1)) by (nonlinear_arith)
                    requires
                        k + 1 <= r,
                        0 <= k + 1,
                ;
            }
        }
    }
}

impl Vec3 {
    /// Componentwise sum `self + other`, exact.
    pub fn add(&self, other: &Vec3) -> (r: Option<Vec3>)
        requires
            self.wf(),
            other.wf(),
        ensures
            r == spec_vadd(*self, *other),
            r matches Some(c) ==> c.wf(),
    {
        let x: i128 = mul_wide(self.x, other.w) + mul_wide(other.x, self.w);
        let y: i128 = mul_wide(self.y, other.w) + mul_wide(other.y, self.w);
        let z: i128 = mul_wide(self.z, other.w) + mul_wide(other.z, self.w);
        let w: i128 = mul_wide(self.w, other.w);
        if fits_coord(x) && fits_coord(y) && fits_coord(z) && fits_den(w) {
            Some(Vec3 { x: x as i64, y: y as i64, z: z as i64, w: w as i64 })
        } else {
            None
        }
    }

    /// Cross product `self x other`, exact.
    pub fn cross(&self, other: &Vec3) -> (r: Option<Vec3>)
        requires
            self.wf(),
            other.wf(),
        ensures
            r == spec_vcross(*self, *other),
            r matches Some(c) ==> c.wf(),
    {
        let x: i128 = mul_wide(self.y, other.z) - mul_wide(self.z, other.y);
        let y: i128 = mul_wide(self.z, other.x) - mul_wide(self.x, other.z);
        let z: i128 = mul_wide(self.x, other.y) - mul_wide(self.y, other.x);
        let w: i128 = mul_wide(self.w, other.w);
        if fits_coord(x) && fits_coord(y) && fits_coord(z) && fits_den(w) {
            Some(Vec3 { x: x as i64, y: y as i64, z: z as i64, w: w as i64 })
        } else {
            None
        }
    }

    /// The vector scaled by a rational factor, exact.
    pub fn scale(&self, s: &Scalar) -> (r: Option<Vec3>)
        requires
            self.wf(),
            s.wf(),
        ensures
            r == spec_vscale(*self, *s),
            r matches Some(c) ==> c.wf(),
    {
        let x: i128 = mul_wide(self.x, s.n);
        let y: i128 = mul_wide(self.y, s.n);
        let z: i128 = mul_wide(self.z, s.n);
        let w: i128 = mul_wide(self.w, s.d);
        if fits_coord(x) && fits_coord(y) && fits_coord(z) && fits_den(w) {
            Some(Vec3 { x: x as i64, y: y as i64, z: z as i64, w: w as i64 })
        } else {
            None
        }
    }

    /// Dot product of the two vectors, exact.
    pub fn dot(&self, other: &Vec3) -> (r: Option<Scalar>)
        requires
            self.wf(),
            other.wf(),
        ensures
            r == spec_vdot(*self, *other),
            r matches Some(c) ==> c.wf(),
    {
        let n: i128 = mul_wide(self.x, other.x) + mul_wide(self.y, other.y)
            + mul_wide(self.z, other.z);
        let d: i128 = mul_wide(self.w, other.w);
        if fits_coord(n) && fits_den(d) {
            Some(Scalar { n: n as i64, d: d as i64 })
        } else {
            None
        }
    }

    /// Exact value equality of the two vectors.
    pub fn equals(&self, other: &Vec3) -> (r: bool)
        requires
            self.wf(),
            other.wf(),
        ensures
            r == veq(*self, *other),
    {
        mul_wide(self.x, other.w) == mul_wide(other.x, self.w)
            && mul_wide(self.y, other.w) == mul_wide(other.y, self.w)
            && mul_wide(self.z, other.w) == mul_wide(other.z, self.w)
    }

    /// The unit vector with the direction of `self`; defined exactly when
    /// the squared magnitude is a perfect square of the representation.
    pub fn normalize(&self) -> (r: Option<Vec3>)
        requires
            self.wf(),
        ensures
            r == spec_normalize(*self),
            r matches Some(u) ==> u.wf() && unit_v(u)
                && u.x == self.x && u.y == self.y && u.z == self.z,
    {
        let n: i128 = mul_wide(self.x, self.x) + mul_wide(self.y, self.y)
            + mul_wide(self.z, self.z);
        proof {
            assert(self.x * self.x >= 0) by (nonlinear_arith);
            assert(self.y * self.y >= 0) by (nonlinear_arith);
            assert(self.z * self.z >= 0) by (nonlinear_arith);
        }
        if n == 0 {
            return None;
        }
        let k: i128 = isqrt(n);
        if k * k == n && k <= 0x8000_0000 {
            proof {
                assert(is_square(norm2_n(*self)));
                lemma_sqrt_unique(sqrt_of(norm2_n(*self)), k as int);
            }
            Some(Vec3 { x: self.x, y: self.y, z: self.z, w: k as i64 })
        } else {
            proof {
                if k * k != n {
                    lemma_square_bracket(n as int, k as int);
                } else {
                    assert(is_square(norm2_n(*self)));
                    lemma_sqrt_unique(sqrt_of(norm2_n(*self)), k as int);
                }
            }
            None
        }
    }
}

/// Polynomial identities behind the vector lemmas, over unbounded integers.
proof fn l_dot_symm(ax: int, ay: int, az: int, bx: int, by: int, bz: int)
    ensures
        ax * bx + ay * by + az * bz == bx * ax + by * ay + bz * az,
{
    broadcast use vstd::arithmetic::mul::group_mul_properties;
}

proof fn l_cross_dot(ax: int, ay: int, az: int, bx: int, by: int, bz: int)
    ensures
        (ay * bz - az * by) * ax + (az * bx - ax * bz) * ay + (ax * by - ay * bx) * az == 0,
        (ay * bz - az * by) * bx + (az * bx - ax * bz) * by + (ax * by - ay * bx) * bz == 0,
{
    broadcast use vstd::arithmetic::mul::group_mul_properties;
    assert((ay * bz - az * by) * ax == ay * bz * ax - az * by * ax);
    assert((az * bx - ax * bz) * ay == az * bx * ay - ax * bz * ay);
    assert((ax * by - ay * bx) * az == ax * by * az - ay * bx * az);
    assert(ay * bz * ax == ax * bz * ay);
    assert(az * bx * ay == ay * bx * az);
    assert(ax * by * az == az * by * ax);
    assert((ay * bz - az * by) * bx == ay * bz * bx - az * by * bx);
    assert((az * bx - ax * bz) * by == az * bx * by - ax * bz * by);
    assert((ax * by - ay * bx) * bz == ax * by * bz - ay * bx * bz);
    assert(ay * bz * bx == ay * bx * bz);
    assert(az * by * bx == az * bx * by);
    assert(ax * bz * by == ax * by * bz);
}

proof fn l_lagrange(ax: int, ay: int, az: int, bx: int, by: int, bz: int)
    ensures
        (ay * bz - az * by) * (ay * bz - az * by) + (az * bx - ax * bz) * (az * bx - ax * bz) + (
        ax * by - ay * bx) * (ax * by - ay * bx) == (ax * ax + ay * ay + az * az) * (bx * bx + by
            * by + bz * bz) - (ax * bx + ay * by + az * bz) * (ax * bx + ay * by + az * bz),
{
    broadcast use vstd::arithmetic::mul::group_mul_properties;
}

proof fn l_add_dot(
    ax: int, ay: int, az: int, aw: int,
    bx: int, by: int, bz: int, bw: int,
    gx: int, gy: int, gz: int,
)
    ensures
        (ax * bw + bx * aw) * gx + (ay * bw + by * aw) * gy + (az * bw + bz * aw) * gz == bw * (
        ax * gx + ay * gy + az * gz) + aw * (bx * gx + by * gy + bz * gz),
{
    broadcast use vstd::arithmetic::mul::group_mul_properties;
}

proof fn l_add_norm(
    ax: int, ay: int, az: int, aw: int,
    bx: int, by: int, bz: int, bw: int,
)
    ensures
        (ax * bw + bx * aw) * (ax * bw + bx * aw) + (ay * bw + by * aw) * (ay * bw + by * aw) + (
        az * bw + bz * aw) * (az * bw + bz * aw) == bw * bw * (ax * ax + ay * ay + az * az) + 2
            * aw * bw * (ax * bx + ay * by + az * bz) + aw * aw * (bx * bx + by * by + bz * bz),
{
    broadcast use vstd::arithmetic::mul::group_mul_properties;
}

proof fn l_scale_dot(vx: int, vy: int, vz: int, n: int, gx: int, gy: int, gz: int)
    ensures
        (vx * n) * gx + (vy * n) * gy + (vz * n) * gz == n * (vx * gx + vy * gy + vz * gz),
        (vx * n) * (vx * n) + (vy * n) * (vy * n) + (vz * n) * (vz * n) == n * n * (vx * vx + vy
            * vy + vz * vz),
{
    broadcast use vstd::arithmetic::mul::group_mul_properties;
}

/// The dot product does not depend on the order of its arguments.
pub proof fn lemma_dot_symm(a: Vec3, b: Vec3)
    ensures
        dot_n(a, b) == dot_n(b, a),
{
    l_dot_symm(a.x as int, a.y as int, a.z as int, b.x as int, b.y as int, b.z as int);
}

/// A cross product is orthogonal to both of its factors, and its
/// denominator is the product of theirs.
pub proof fn lemma_cross_orthogonal(a: Vec3, b: Vec3, c: Vec3)
    requires
        spec_vcross(a, b) == Some(c),
    ensures
        dot_n(c, a) == 0,
        dot_n(c, b) == 0,
        dot_n(a, c) == 0,
        dot_n(b, c) == 0,
        c.w == a.w * b.w,
{
    l_cross_dot(a.x as int, a.y as int, a.z as int, b.x as int, b.y as int, b.z as int);
    lemma_dot_symm(c, a);
    lemma_dot_symm(c, b);
}

/// Lagrange's identity: the squared magnitude of a cross product.
pub proof fn lemma_cross_norm(a: Vec3, b: Vec3, c: Vec3)
    requires
        spec_vcross(a, b) == Some(c),
    ensures
        norm2_n(c) == norm2_n(a) * norm2_n(b) - dot_n(a, b) * dot_n(a, b),
        c.w == a.w * b.w,
{
    l_lagrange(a.x as int, a.y as int, a.z as int, b.x as int, b.y as int, b.z as int);
}

/// How a sum decomposes under dot products.
pub proof fn lemma_add_decompose(a: Vec3, b: Vec3, c: Vec3, g: Vec3)
    requires
        spec_vadd(a, b) == Some(c),
    ensures
        dot_n(c, g) == b.w * dot_n(a, g) + a.w * dot_n(b, g),
        dot_n(g, c) == b.w * dot_n(g, a) + a.w * dot_n(g, b),
        c.w == a.w * b.w,
{
    l_add_dot(
        a.x as int, a.y as int, a.z as int, a.w as int,
        b.x as int, b.y as int, b.z as int, b.w as int,
        g.x as int, g.y as int, g.z as int,
    );
    lemma_dot_symm(c, g);
    lemma_dot_symm(a, g);
    lemma_dot_symm(b, g);
}

/// The squared magnitude of a sum.
pub proof fn lemma_add_norm2(a: Vec3, b: Vec3, c: Vec3)
    requires
        spec_vadd(a, b) == Some(c),
    ensures
        norm2_n(c) == b.w * b.w * norm2_n(a) + 2 * a.w * b.w * dot_n(a, b) + a.w * a.w * norm2_n(
            b,
        ),
        c.w == a.w * b.w,
{
    l_add_norm(
        a.x as int, a.y as int, a.z as int, a.w as int,
        b.x as int, b.y as int, b.z as int, b.w as int,
    );
}

/// How a scaled vector behaves under dot products and squared magnitude.
pub proof fn lemma_scale_decompose(v: Vec3, s: Scalar, c: Vec3, g: Vec3)
    requires
        spec_vscale(v, s) == Some(c),
    ensures
        dot_n(c, g) == s.n * dot_n(v, g),
        dot_n(g, c) == s.n * dot_n(g, v),
        norm2_n(c) == s.n * s.n * norm2_n(v),
        c.w == v.w * s.d,
{
    l_scale_dot(v.x as int, v.y as int, v.z as int, s.n as int, g.x as int, g.y as int, g.z as int);
    lemma_dot_symm(c, g);
    lemma_dot_symm(v, g);
}

impl Vec3 {
    /// Componentwise difference `self - other`, exact.
    pub fn subtract(&self, other: &Vec3) -> (r: Option<Vec3>)
        requires
            self.wf(),
            other.wf(),
        ensures
            r == spec_vsub(*self, *other),
            r matches Some(c) ==> c.wf(),
    {
        let x: i128 = mul_wide(self.x, other.w) - mul_wide(other.x, self.w);
        let y: i128 = mul_wide(self.y, other.w) - mul_wide(other.y, self.w);
        let z: i128 = mul_wide(self.z, other.w) - mul_wide(other.z, self.w);
        let w: i128 = mul_wide(self.w, other.w);
        if fits_coord(x) && fits_coord(y) && fits_coord(z) && fits_den(w) {
            Some(Vec3 { x: x as i64, y: y as i64, z: z as i64, w: w as i64 })
        } else {
            None
        }
    }
}

/// Rodrigues rotation of `self` by the angle of `rot` about `axis`:
/// `self * cos + (axis x self) * sin + axis * ((axis . self) * (1 - cos))`,
/// all exactly, over the denominator the chain of exact operations yields.
pub open spec fn spec_rotate(u: Vec3, rot: Rot, axis: Vec3) -> Option<Vec3> {
    match spec_vscale(u, Scalar { n: rot.c, d: rot.d }) {
        None => None,
        Some(t1) => match spec_vcross(axis, u) {
            None => None,
            Some(cr) => match spec_vscale(cr, Scalar { n: rot.s, d: rot.d }) {
                None => None,
                Some(t2) => match spec_vdot(axis, u) {
                    None => None,
                    Some(q) => if !in_coord(rot.d - rot.c) {
                        None
                    } else {
                        match spec_smul(q, Scalar { n: (rot.d - rot.c) as i64, d: rot.d }) {
                            None => None,
                            Some(q2) => match spec_vscale(axis, q2) {
                                None => None,
                                Some(t3) => match spec_vadd(t1, t2) {
                                    None => None,
                                    Some(t12) => spec_vadd(t12, t3),
                                },
                            },
                        }
                    },
                },
            },
        },
    }
}

impl Vec3 {
    /// Rotation of `self` by the angle of `rot` about `axis`, exact.
    pub fn rotate(&self, rot: &Rot, axis: &Vec3) -> (r: Option<Vec3>)
        requires
            self.wf(),
            rot.wf(),
            axis.wf(),
        ensures
            r == spec_rotate(*self, *rot, *axis),
            r matches Some(c) ==> c.wf(),
    {
        let t1 = match self.scale(&(Scalar { n: rot.c, d: rot.d })) {
            Some(v) => v,
            None => { return None; },
        };
        let cr = match axis.cross(self) {
            Some(v) => v,
            None => { return None; },
        };
        let t2 = match cr.scale(&(Scalar { n: rot.s, d: rot.d })) {
            Some(v) => v,
            None => { return None; },
        };
        let q = match axis.dot(self) {
            Some(v) => v,
            None => { return None; },
        };
        let dc: i64 = rot.d - rot.c;
        if dc > COORD_BOUND {
            return None;
        }
        let q2 = match q.times(&(Scalar { n: dc, d: rot.d })) {
            Some(v) => v,
            None => { return None; },
        };
        let t3 = match axis.scale(&q2) {
            Some(v) => v,
            None => { return None; },
        };
        let t12 = match t1.add(&t2) {
            Some(v) => v,
            None => { return None; },
        };
        t12.add(&t3)
    }
}

proof fn l_sq_mul(p: int, q: int)
    ensures
        (p * q) * (p * q) == (p * p) * (q * q),
        (p * q) * (p * q) == (q * q) * (p * p),
{
    broadcast use vstd::arithmetic::mul::group_mul_properties;
}

proof fn l_mul_zero(x: int)
    ensures
        x * 0 == 0,
        0 * x == 0,
{
    lemma_mul_basics(x);
}

proof fn l_perm4(p: int, q: int, r: int, t: int)
    ensures
        (p * (q * r)) * (t * q) == t * (p * ((q * q) * r)),
{
    lemma_mul_is_commutative(p * (q * r), t * q);
    lemma_mul_is_associative(t, q, p * (q * r));
    lemma_mul_is_associative(q, p, q * r);
    lemma_mul_is_commutative(q, p);
    lemma_mul_is_associative(p, q, q * r);
    lemma_mul_is_associative(q, q, r);
}

proof fn l_perm4b(p: int, q: int, r: int, t: int)
    ensures
        (q * r) * (t * (p * q)) == t * (p * ((q * q) * r)),
{
    lemma_mul_is_commutative(q * r, t * (p * q));
    lemma_mul_is_associative(t, p * q, q * r);
    lemma_mul_is_associative(p, q, q * r);
    lemma_mul_is_associative(q, q, r);
}

proof fn l_perm4c(p: int, q: int, r: int)
    ensures
        (q * r) * (p * (q * r)) == r * (p * ((q * q) * r)),
{
    lemma_mul_is_commutative(q * r, p * (q * r));
    lemma_mul_is_associative(p, q * r, q * r);
    l_sq_mul(q, r);
    lemma_mul_is_associative(q * q, r, r);
    lemma_mul_is_associative(p, (q * q) * r, r);
    lemma_mul_is_commutative(p * ((q * q) * r), r);
}

proof fn l_distrib(x: int, y: int, m: int)
    ensures
        x * m + y * m == (x + y) * m,
{
    lemma_mul_is_distributive_add_other_way(m, x, y);
}

proof fn l_sq3(b: int, a: int, d: int)
    ensures
        ((b * a) * d) * ((b * a) * d) == (b * b) * ((a * a) * (d * d)),
{
    l_sq_mul(b * a, d);
    l_sq_mul(b, a);
    lemma_mul_is_associative(b * b, a * a, d * d);
}

proof fn l_rot_unit(c: int, s: int, d: int, uw: int, fw: int)
    requires
        c * c + s * s == d * d,
    ensures
        (((fw * uw) * d) * ((fw * uw) * d)) * ((c * c) * (uw * uw)) + ((uw * d) * (uw * d)) * ((
        s * s) * ((fw * fw) * (uw * uw))) == ((uw * d) * ((fw * uw) * d)) * ((uw * d) * ((fw * uw)
            * d)),
{
    let u2: int = uw * uw;
    let f2: int = fw * fw;
    let d2: int = d * d;
    let cc: int = c * c;
    let ss: int = s * s;
    let m: int = f2 * ((u2 * u2) * d2);
    l_sq3(fw, uw, d);
    l_sq_mul(uw, d);
    l_perm4(f2, u2, d2, cc);
    l_perm4b(f2, u2, d2, ss);
    l_distrib(cc, ss, m);
    l_sq_mul(uw * d, (fw * uw) * d);
    l_perm4c(f2, u2, d2);
}

/// The cross product of orthogonal unit vectors is again a unit vector.
pub proof fn lemma_cross_unit(a: Vec3, b: Vec3, c: Vec3)
    requires
        spec_vcross(a, b) == Some(c),
        unit_v(a),
        unit_v(b),
        dot_n(a, b) == 0,
    ensures
        unit_v(c),
        c.w == a.w * b.w,
{
    lemma_cross_norm(a, b, c);
    l_sq_mul(a.w as int, b.w as int);
}

/// Rotating about a unit axis orthogonal to a unit vector keeps the
/// vector unit and orthogonal to the axis.
pub proof fn lemma_rotate_preserves(u: Vec3, rot: Rot, axis: Vec3, r: Vec3)
    requires
        rot.wf(),
        spec_rotate(u, rot, axis) == Some(r),
        dot_n(axis, u) == 0,
        unit_v(axis),
        unit_v(u),
    ensures
        unit_v(r),
        dot_n(r, axis) == 0,
        dot_n(axis, r) == 0,
{
    let c: int = rot.c as int;
    let s: int = rot.s as int;
    let d: int = rot.d as int;
    let uw: int = u.w as int;
    let fw: int = axis.w as int;
    let sc_c = Scalar { n: rot.c, d: rot.d };
    let sc_s = Scalar { n: rot.s, d: rot.d };
    let t1 = spec_vscale(u, sc_c)->Some_0;
    let cr = spec_vcross(axis, u)->Some_0;
    let t2 = spec_vscale(cr, sc_s)->Some_0;
    let q = spec_vdot(axis, u)->Some_0;
    let sc_mc = Scalar { n: (rot.d - rot.c) as i64, d: rot.d };
    let q2 = spec_smul(q, sc_mc)->Some_0;
    let t3 = spec_vscale(axis, q2)->Some_0;
    let t12 = spec_vadd(t1, t2)->Some_0;

    // The axial term vanishes because axis and u are orthogonal.
    assert(q.n == 0);
    assert(q2.n == 0);
    assert(t3.x == 0 && t3.y == 0 && t3.z == 0);
    assert(norm2_n(t3) == 0);

    lemma_cross_orthogonal(axis, u, cr);
    lemma_cross_norm(axis, u, cr);
    assert(norm2_n(cr) == (fw * fw) * (uw * uw));

    lemma_scale_decompose(u, sc_c, t1, axis);
    lemma_scale_decompose(cr, sc_s, t2, axis);
    lemma_dot_symm(axis, u);
    assert(dot_n(t1, axis) == 0);
    assert(dot_n(t2, axis) == 0);
    lemma_scale_decompose(cr, sc_s, t2, u);
    assert(dot_n(u, t2) == 0);
    lemma_scale_decompose(u, sc_c, t1, t2);
    assert(dot_n(t1, t2) == 0);

    lemma_scale_decompose(u, sc_c, t1, u);
    lemma_scale_decompose(cr, sc_s, t2, cr);
    assert(norm2_n(t1) == (c * c) * (uw * uw));
    assert(norm2_n(t2) == (s * s) * ((fw * fw) * (uw * uw)));
    assert(t1.w == uw * d);
    assert(t2.w == (fw * uw) * d);

    lemma_add_norm2(t1, t2, t12);
    l_rot_unit(c, s, d, uw, fw);
    assert(norm2_n(t12) == ((uw * d) * ((fw * uw) * d)) * ((uw * d) * ((fw * uw) * d)));
    assert(t12.w == t1.w * t2.w);
    assert(unit_v(t12));

    // Adding the zero axial term only rescales the representation.
    lemma_add_norm2(t12, t3, r);
    assert(dot_n(t12, t3) == 0);
    assert(norm2_n(r) == (t3.w * t3.w) * (t12.w * t12.w));
    assert(r.w == t12.w * t3.w);
    l_sq_mul(t12.w as int, t3.w as int);
    assert(unit_v(r));

    lemma_add_decompose(t12, t3, r, axis);
    assert(dot_n(t3, axis) == 0);
    lemma_add_decompose(t1, t2, t12, axis);
    l_mul_zero(t1.w as int);
    l_mul_zero(t2.w as int);
    l_mul_zero(t3.w as int);
    l_mul_zero(t12.w as int);
    assert(dot_n(t12, axis) == 0);
    assert(dot_n(r, axis) == 0);
    lemma_dot_symm(r, axis);
}

/// Reversing an angle keeps it on the unit circle.
pub proof fn lemma_rot_neg_wf(r: Rot)
    requires
        r.wf(),
    ensures
        spec_rot_neg(r).wf(),
{
    assert((-(r.s as int)) * (-(r.s as int)) == (r.s as int) * (r.s as int))
        by (nonlinear_arith);
}

/// What exact normalization yields: the same direction, unit magnitude.
pub proof fn lemma_normalize_unit(v: Vec3, u: Vec3)
    requires
        spec_normalize(v) == Some(u),
    ensures
        unit_v(u),
        u.x == v.x,
        u.y == v.y,
        u.z == v.z,
        in_den(u.w as int),
{
    let n: int = norm2_n(v);
    assert(sqrt_of(n) * sqrt_of(n) == n);
}

} // verus!

