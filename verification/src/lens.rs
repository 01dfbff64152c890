//! Camera frame construction and the two ray-generation policies.
//!
//! `Scope::new` derives an orthonormal right/up/forward basis from a look-at
//! target, an eye position and a roll angle; the two lens types map a
//! normalized view-port coordinate to the light ray to trace.

use vstd::prelude::*;
use crate::algebra::{
    Vec3, Scalar, Rot, Ray, dot_n, norm2_n, unit_v, veq, in_den,
    spec_vsub, spec_vadd, spec_vcross, spec_vscale, spec_smul, spec_normalize, spec_rotate,
    spec_rot_neg, lemma_cross_orthogonal, lemma_cross_unit, lemma_rotate_preserves,
    lemma_rot_neg_wf, lemma_normalize_unit,
};

verus! {

/// The world's vertical reference direction (0, 1, 0).
pub open spec fn vertical() -> Vec3 {
    Vec3 { x: 0, y: 1, z: 0, w: 1 }
}

/// The fallback right direction (1, 0, 0), used when forward is vertical.
pub open spec fn x_axis() -> Vec3 {
    Vec3 { x: 1, y: 0, z: 0, w: 1 }
}

/// The camera frame: the eye position plus a right/up/forward basis.
#[derive(Clone, Copy, PartialEq, Eq, Structural, Debug)]
pub struct Scope {
    pub position: Vec3,
    pub right: Vec3,
    pub up: Vec3,
    pub forward: Vec3,
}

impl Scope {
    pub open spec fn wf(self) -> bool {
        &&& self.position.wf()
        &&& self.right.wf()
        &&& self.up.wf()
        &&& self.forward.wf()
    }

    /// The basis vectors have unit magnitude and are pairwise orthogonal.
    pub open spec fn orthonormal(self) -> bool {
        &&& unit_v(self.right)
        &&& unit_v(self.up)
        &&& unit_v(self.forward)
        &&& dot_n(self.right, self.up) == 0
        &&& dot_n(self.right, self.forward) == 0
        &&& dot_n(self.up, self.forward) == 0
    }
}

/// The frame that `Scope::new` builds: forward points from the eye to the
/// target; right starts from forward crossed with the world's vertical, or
/// from (1, 0, 0) when forward is exactly vertical; up completes the basis
/// and is tilted by the opposite of the roll angle about forward; right is
/// finally re-derived so the triple stays orthonormal.
pub open spec fn spec_scope_new(target: Vec3, position: Vec3, roll: Rot) -> Option<Scope> {
    match spec_vsub(target, position) {
        None => None,
        Some(d0) => match spec_normalize(d0) {
            None => None,
            Some(f) => {
                let r0o = if veq(f, vertical()) {
                    Some(x_axis())
                } else {
                    match spec_vcross(f, vertical()) {
                        None => None,
                        Some(c0) => spec_normalize(c0),
                    }
                };
                match r0o {
                    None => None,
                    Some(r0) => match spec_vcross(r0, f) {
                        None => None,
                        Some(u0) => match spec_rotate(u0, spec_rot_neg(roll), f) {
                            None => None,
                            Some(u) => match spec_vcross(f, u) {
                                None => None,
                                Some(rgt) => Some(
                                    Scope { position, right: rgt, up: u, forward: f },
                                ),
                            },
                        },
                    },
                }
            },
        },
    }
}

/// Whatever frame `spec_scope_new` yields is orthonormal: each basis vector
/// has squared magnitude exactly one and all pairwise dot products are zero.
pub proof fn lemma_frame_orthonormal(target: Vec3, position: Vec3, roll: Rot, s: Scope)
    requires
        roll.wf(),
        position.wf(),
        spec_scope_new(target, position, roll) == Some(s),
    ensures
        s.wf(),
        s.position == position,
        s.orthonormal(),
{
    let d0 = spec_vsub(target, position)->Some_0;
    let f = spec_normalize(d0)->Some_0;
    lemma_normalize_unit(d0, f);
    let r0o = if veq(f, vertical()) {
        Some(x_axis())
    } else {
        match spec_vcross(f, vertical()) {
            None => None,
            Some(c0) => spec_normalize(c0),
        }
    };
    let r0 = r0o->Some_0;
    if veq(f, vertical()) {
        assert(f.x == 0 && f.z == 0);
        assert(unit_v(r0));
        assert(dot_n(r0, f) == 0);
    } else {
        let c0 = spec_vcross(f, vertical())->Some_0;
        lemma_cross_orthogonal(f, vertical(), c0);
        lemma_normalize_unit(c0, r0);
        assert(dot_n(r0, f) == dot_n(c0, f));
    }
    let u0 = spec_vcross(r0, f)->Some_0;
    lemma_cross_orthogonal(r0, f, u0);
    lemma_cross_unit(r0, f, u0);
    let u = spec_rotate(u0, spec_rot_neg(roll), f)->Some_0;
    lemma_rot_neg_wf(roll);
    lemma_rotate_preserves(u0, spec_rot_neg(roll), f, u);
    let rgt = spec_vcross(f, u)->Some_0;
    lemma_cross_orthogonal(f, u, rgt);
    lemma_cross_unit(f, u, rgt);
}

impl Scope {
    /// The camera frame for an eye at `position` looking at `target`, the
    /// up direction tilted by the roll angle about the viewing axis.
    /// Yields `None` when target and position coincide, when a magnitude
    /// that must be exact is not a perfect square of the representation,
    /// or when a coordinate leaves the representable range.
    pub fn new(target: Vec3, position: Vec3, roll: Rot) -> (r: Option<Scope>)
        requires
            target.wf(),
            position.wf(),
            roll.wf(),
        ensures
            r == spec_scope_new(target, position, roll),
            r matches Some(s) ==> s.wf() && s.position == position && s.orthonormal(),
    {
        let d0 = match target.subtract(&position) {
            Some(v) => v,
            None => { return None; },
        };
        let f = match d0.normalize() {
            Some(v) => v,
            None => { return None; },
        };
        let vert = Vec3 { x: 0, y: 1, z: 0, w: 1 };
        proof {
            assert(vert == vertical());
        }
        let r0 = if f.equals(&vert) {
            Vec3 { x: 1, y: 0, z: 0, w: 1 }
        } else {
            let c0 = match f.cross(&vert) {
                Some(v) => v,
                None => { return None; },
            };
            match c0.normalize() {
                Some(v) => v,
                None => { return None; },
            }
        };
        let u0 = match r0.cross(&f) {
            Some(v) => v,
            None => { return None; },
        };
        let neg = roll.negated();
        let u = match u0.rotate(&neg, &f) {
            Some(v) => v,
            None => { return None; },
        };
        let rgt = match f.cross(&u) {
            Some(v) => v,
            None => { return None; },
        };
        let sc = Scope { position, right: rgt, up: u, forward: f };
        proof {
            assert(spec_scope_new(target, position, roll) == Some(sc));
            lemma_frame_orthonormal(target, position, roll, sc);
        }
        Some(sc)
    }
}

/// The fallback for a viewing direction exactly along the world's vertical
/// still yields a right vector of unit magnitude orthogonal to forward,
/// never a zero vector.
pub proof fn lemma_degenerate_fallback(target: Vec3, position: Vec3, roll: Rot, s: Scope)
    requires
        roll.wf(),
        position.wf(),
        spec_scope_new(target, position, roll) == Some(s),
        veq(s.forward, vertical()),
    ensures
        unit_v(s.right),
        dot_n(s.right, s.forward) == 0,
        norm2_n(s.right) > 0,
{
    lemma_frame_orthonormal(target, position, roll, s);
    let d0 = spec_vsub(target, position)->Some_0;
    let f = spec_normalize(d0)->Some_0;
    lemma_normalize_unit(d0, f);
    let u = spec_rotate(
        spec_vcross(
            if veq(f, vertical()) { x_axis() } else {
                spec_normalize(spec_vcross(f, vertical())->Some_0)->Some_0
            },
            f,
        )->Some_0,
        spec_rot_neg(roll),
        f,
    )->Some_0;
    let rgt = spec_vcross(f, u)->Some_0;
    assert(in_den(rgt.w as int));
    assert(norm2_n(s.right) == s.right.w * s.right.w);
    assert(s.right.w * s.right.w >= 1) by (nonlinear_arith)
        requires
            s.right.w >= 1,
    ;
}

/// The rectangular window onto which the scene is projected.
#[derive(Clone, Copy, PartialEq, Eq, Structural, Debug)]
pub struct ViewPort {
    pub width: Scalar,
    pub height: Scalar,
}

impl ViewPort {
    pub open spec fn wf(self) -> bool {
        self.width.wf() && self.height.wf()
    }
}

/// A lens generating parallel rays: every ray keeps the camera's forward
/// direction and only the origin shifts across the view port.
#[derive(Clone, Copy, PartialEq, Eq, Structural, Debug)]
pub struct OrthographicLens {
    pub view_port: ViewPort,
    pub scope: Scope,
}

/// A lens generating rays through a single eye point: every ray starts at
/// the camera position and diverges according to the focal length.
#[derive(Clone, Copy, PartialEq, Eq, Structural, Debug)]
pub struct PerspectiveLens {
    pub view_port: ViewPort,
    pub scope: Scope,
    pub focal_length: Scalar,
}

/// The ray an orthographic lens casts for the view-port point `(x, y)`:
/// the origin is the camera position shifted by right and up scaled with
/// half the view-port extents; the direction is the camera's forward.
pub open spec fn spec_ortho_ray(l: OrthographicLens, x: Scalar, y: Scalar) -> Option<Ray> {
    match spec_smul(x, l.view_port.width) {
        None => None,
        Some(sx) => match spec_smul(sx, Scalar { n: 1, d: 2 }) {
            None => None,
            Some(hx) => match spec_vscale(l.scope.right, hx) {
                None => None,
                Some(h) => match spec_smul(y, l.view_port.height) {
                    None => None,
                    Some(sy) => match spec_smul(sy, Scalar { n: 1, d: 2 }) {
                        None => None,
                        Some(hy) => match spec_vscale(l.scope.up, hy) {
                            None => None,
                            Some(v) => match spec_vadd(l.scope.position, h) {
                                None => None,
                                Some(p1) => match spec_vadd(p1, v) {
                                    None => None,
                                    Some(p2) => Some(
                                        Ray { position: p2, direction: l.scope.forward },
                                    ),
                                },
                            },
                        },
                    },
                },
            },
        },
    }
}

/// The ray a perspective lens casts for the view-port point `(x, y)`: the
/// origin is always the camera position; the direction is forward scaled by
/// the focal length plus the view-port offset, normalized exactly.
pub open spec fn spec_persp_ray(l: PerspectiveLens, x: Scalar, y: Scalar) -> Option<Ray> {
    match spec_vscale(l.scope.forward, l.focal_length) {
        None => None,
        Some(fl) => match spec_smul(x, l.view_port.width) {
            None => None,
            Some(sx) => match spec_smul(sx, Scalar { n: 1, d: 2 }) {
                None => None,
                Some(hx) => match spec_vscale(l.scope.right, hx) {
                    None => None,
                    Some(h) => match spec_smul(y, l.view_port.height) {
                        None => None,
                        Some(sy) => match spec_smul(sy, Scalar { n: 1, d: 2 }) {
                            None => None,
                            Some(hy) => match spec_vscale(l.scope.up, hy) {
                                None => None,
                                Some(v) => match spec_vadd(fl, h) {
                                    None => None,
                                    Some(d1) => match spec_vadd(d1, v) {
                                        None => None,
                                        Some(d2) => match spec_normalize(d2) {
                                            None => None,
                                            Some(dir) => Some(
                                                Ray {
                                                    position: l.scope.position,
                                                    direction: dir,
                                                },
                                            ),
                                        },
                                    },
                                },
                            },
                        },
                    },
                },
            },
        },
    }
}

impl OrthographicLens {
    pub open spec fn wf(self) -> bool {
        self.view_port.wf() && self.scope.wf()
    }

    /// An orthographic lens over the given view port and camera frame.
    pub fn new(width: Scalar, height: Scalar, scope: Scope) -> (r: OrthographicLens)
        ensures
            r.view_port.width == width,
            r.view_port.height == height,
            r.scope == scope,
    {
        let view_port = ViewPort { width, height };
        OrthographicLens { view_port, scope }
    }

    /// The ray to trace for the view-port point `(x, y)`. Every ray of this
    /// lens keeps the camera's forward direction unchanged.
    pub fn generate_light_ray(&self, x: Scalar, y: Scalar) -> (r: Option<Ray>)
        requires
            self.wf(),
            x.wf(),
            y.wf(),
        ensures
            r == spec_ortho_ray(*self, x, y),
            r matches Some(ray) ==> ray.wf() && ray.direction == self.scope.forward,
    {
        let half = Scalar { n: 1, d: 2 };
        let sx = match x.times(&self.view_port.width) {
            Some(v) => v,
            None => { return None; },
        };
        let hx = match sx.times(&half) {
            Some(v) => v,
            None => { return None; },
        };
        let h = match self.scope.right.scale(&hx) {
            Some(v) => v,
            None => { return None; },
        };
        let sy = match y.times(&self.view_port.height) {
            Some(v) => v,
            None => { return None; },
        };
        let hy = match sy.times(&half) {
            Some(v) => v,
            None => { return None; },
        };
        let v = match self.scope.up.scale(&hy) {
            Some(v) => v,
            None => { return None; },
        };
        let p1 = match self.scope.position.add(&h) {
            Some(v) => v,
            None => { return None; },
        };
        let p2 = match p1.add(&v) {
            Some(v) => v,
            None => { return None; },
        };
        Some(Ray { position: p2, direction: self.scope.forward })
    }
}

impl PerspectiveLens {
    pub open spec fn wf(self) -> bool {
        self.view_port.wf() && self.scope.wf() && self.focal_length.wf()
    }

    /// A perspective lens over the given view port, camera frame and focal
    /// length.
    pub fn new(width: Scalar, height: Scalar, scope: Scope, focal_length: Scalar) -> (r:
        PerspectiveLens)
        ensures
            r.view_port.width == width,
            r.view_port.height == height,
            r.scope == scope,
            r.focal_length == focal_length,
    {
        let view_port = ViewPort { width, height };
        PerspectiveLens { view_port, scope, focal_length }
    }

    /// The ray to trace for the view-port point `(x, y)`. Every ray of this
    /// lens starts at the camera position, and its direction has squared
    /// magnitude exactly one.
    pub fn generate_light_ray(&self, x: Scalar, y: Scalar) -> (r: Option<Ray>)
        requires
            self.wf(),
            x.wf(),
            y.wf(),
        ensures
            r == spec_persp_ray(*self, x, y),
            r matches Some(ray) ==> ray.wf() && ray.position == self.scope.position && unit_v(
                ray.direction,
            ),
    {
        let half = Scalar { n: 1, d: 2 };
        let fl = match self.scope.forward.scale(&self.focal_length) {
            Some(v) => v,
            None => { return None; },
        };
        let sx = match x.times(&self.view_port.width) {
            Some(v) => v,
            None => { return None; },
        };
        let hx = match sx.times(&half) {
            Some(v) => v,
            None => { return None; },
        };
        let h = match self.scope.right.scale(&hx) {
            Some(v) => v,
            None => { return None; },
        };
        let sy = match y.times(&self.view_port.height) {
            Some(v) => v,
            None => { return None; },
        };
        let hy = match sy.times(&half) {
            Some(v) => v,
            None => { return None; },
        };
        let v = match self.scope.up.scale(&hy) {
            Some(v) => v,
            None => { return None; },
        };
        let d1 = match fl.add(&h) {
            Some(v) => v,
            None => { return None; },
        };
        let d2 = match d1.add(&v) {
            Some(v) => v,
            None => { return None; },
        };
        let dir = match d2.normalize() {
            Some(v) => v,
            None => { return None; },
        };
        Some(Ray { position: self.scope.position, direction: dir })
    }
}

/// Two rays of one orthographic lens always share their direction.
pub proof fn lemma_orthographic_parallel(
    l: OrthographicLens,
    x1: Scalar,
    y1: Scalar,
    x2: Scalar,
    y2: Scalar,
    r1: Ray,
    r2: Ray,
)
    requires
        spec_ortho_ray(l, x1, y1) == Some(r1),
        spec_ortho_ray(l, x2, y2) == Some(r2),
    ensures
        r1.direction == r2.direction,
{
}

/// Two rays of one perspective lens always share their origin.
pub proof fn lemma_perspective_origin(
    l: PerspectiveLens,
    x1: Scalar,
    y1: Scalar,
    x2: Scalar,
    y2: Scalar,
    r1: Ray,
    r2: Ray,
)
    requires
        spec_persp_ray(l, x1, y1) == Some(r1),
        spec_persp_ray(l, x2, y2) == Some(r2),
    ensures
        r1.position == r2.position,
{
}

/// Either ray-generation policy, dispatched by variant.
#[derive(Clone, Copy, PartialEq, Eq, Structural, Debug)]
pub enum Lens {
    Orthographic(OrthographicLens),
    Perspective(PerspectiveLens),
}

impl Lens {
    pub open spec fn wf(self) -> bool {
        match self {
            Lens::Orthographic(l) => l.wf(),
            Lens::Perspective(l) => l.wf(),
        }
    }

    /// The ray to trace for the view-port point `(x, y)`, under whichever
    /// projection this lens holds.
    pub fn generate_light_ray(&self, x: Scalar, y: Scalar) -> (r: Option<Ray>)
        requires
            self.wf(),
            x.wf(),
            y.wf(),
        ensures
            self matches Lens::Orthographic(l) ==> r == spec_ortho_ray(*l, x, y),
            self matches Lens::Perspective(l) ==> r == spec_persp_ray(*l, x, y),
            r matches Some(ray) ==> ray.wf(),
    {
        match self {
            Lens::Orthographic(l) => l.generate_light_ray(x, y),
            Lens::Perspective(l) => l.generate_light_ray(x, y),
        }
    }
}

} // verus!
