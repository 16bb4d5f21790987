//! Spatial (3D) homogeneous transform arithmetic over exact integers.
//!
//! A spatial matrix is a column-major 4x4 homogeneous matrix: columns
//! `(m0..m3)`, `(m4..m7)`, `(m8..m11)` carry the linear part and
//! `(m12..m15)` the translation. Rotations are unit quaternions; on the
//! integers these are the eight lattice points of the unit sphere, the
//! identity and the half-turns about the three axes (up to sign).
use vstd::prelude::*;
use crate::math2::MAT_BOUND;
use crate::math2::M2;
use crate::math2::Mat32;
use crate::math2::m2_of;
use crate::math2::is_sqrt_floor;
use crate::math2::sqrt_floor;
use crate::math2::lemma_sqrt_floor_is;
use crate::math2::isqrt64;

verus! {

/// A spatial point or scale.
#[derive(Clone, Copy, Debug, PartialEq, Eq, Structural)]
pub struct Vec3 {
    pub x: i64,
    pub y: i64,
    pub z: i64,
}

/// A rotation quaternion `x*i + y*j + z*k + w`.
#[derive(Clone, Copy, Debug, PartialEq, Eq, Structural)]
pub struct Quat {
    pub x: i64,
    pub y: i64,
    pub z: i64,
    pub w: i64,
}

/// A column-major 4x4 homogeneous matrix.
#[derive(Clone, Copy, Debug, PartialEq, Eq, Structural)]
pub struct Mat4 {
    pub m0: i64,
    pub m1: i64,
    pub m2: i64,
    pub m3: i64,
    pub m4: i64,
    pub m5: i64,
    pub m6: i64,
    pub m7: i64,
    pub m8: i64,
    pub m9: i64,
    pub m10: i64,
    pub m11: i64,
    pub m12: i64,
    pub m13: i64,
    pub m14: i64,
    pub m15: i64,
}

/// The mathematical value of a 4x4 matrix.
pub ghost struct M4 {
    pub e0: int,
    pub e1: int,
    pub e2: int,
    pub e3: int,
    pub e4: int,
    pub e5: int,
    pub e6: int,
    pub e7: int,
    pub e8: int,
    pub e9: int,
    pub e10: int,
    pub e11: int,
    pub e12: int,
    pub e13: int,
    pub e14: int,
    pub e15: int,
}

pub open spec fn m4_of(m: Mat4) -> M4 {
    M4 {
        e0: m.m0 as int,
        e1: m.m1 as int,
        e2: m.m2 as int,
        e3: m.m3 as int,
        e4: m.m4 as int,
        e5: m.m5 as int,
        e6: m.m6 as int,
        e7: m.m7 as int,
        e8: m.m8 as int,
        e9: m.m9 as int,
        e10: m.m10 as int,
        e11: m.m11 as int,
        e12: m.m12 as int,
        e13: m.m13 as int,
        e14: m.m14 as int,
        e15: m.m15 as int,
    }
}

pub open spec fn mat4_of_m4(m: M4) -> Mat4 {
    Mat4 {
        m0: m.e0 as i64,
        m1: m.e1 as i64,
        m2: m.e2 as i64,
        m3: m.e3 as i64,
        m4: m.e4 as i64,
        m5: m.e5 as i64,
        m6: m.e6 as i64,
        m7: m.e7 as i64,
        m8: m.e8 as i64,
        m9: m.e9 as i64,
        m10: m.e10 as i64,
        m11: m.e11 as i64,
        m12: m.e12 as i64,
        m13: m.e13 as i64,
        m14: m.e14 as i64,
        m15: m.e15 as i64,
    }
}

pub open spec fn m4_ident() -> M4 {
    M4 {
        e0: 1,
        e1: 0,
        e2: 0,
        e3: 0,
        e4: 0,
        e5: 1,
        e6: 0,
        e7: 0,
        e8: 0,
        e9: 0,
        e10: 1,
        e11: 0,
        e12: 0,
        e13: 0,
        e14: 0,
        e15: 1,
    }
}

/// Matrix product `p * l`: the transform that applies `l` first, then `p`.
pub open spec fn m4_mul(p: M4, l: M4) -> M4 {
    M4 {
        e0: p.e0 * l.e0 + p.e4 * l.e1 + p.e8 * l.e2 + p.e12 * l.e3,
        e1: p.e1 * l.e0 + p.e5 * l.e1 + p.e9 * l.e2 + p.e13 * l.e3,
        e2: p.e2 * l.e0 + p.e6 * l.e1 + p.e10 * l.e2 + p.e14 * l.e3,
        e3: p.e3 * l.e0 + p.e7 * l.e1 + p.e11 * l.e2 + p.e15 * l.e3,
        e4: p.e0 * l.e4 + p.e4 * l.e5 + p.e8 * l.e6 + p.e12 * l.e7,
        e5: p.e1 * l.e4 + p.e5 * l.e5 + p.e9 * l.e6 + p.e13 * l.e7,
        e6: p.e2 * l.e4 + p.e6 * l.e5 + p.e10 * l.e6 + p.e14 * l.e7,
        e7: p.e3 * l.e4 + p.e7 * l.e5 + p.e11 * l.e6 + p.e15 * l.e7,
        e8: p.e0 * l.e8 + p.e4 * l.e9 + p.e8 * l.e10 + p.e12 * l.e11,
        e9: p.e1 * l.e8 + p.e5 * l.e9 + p.e9 * l.e10 + p.e13 * l.e11,
        e10: p.e2 * l.e8 + p.e6 * l.e9 + p.e10 * l.e10 + p.e14 * l.e11,
        e11: p.e3 * l.e8 + p.e7 * l.e9 + p.e11 * l.e10 + p.e15 * l.e11,
        e12: p.e0 * l.e12 + p.e4 * l.e13 + p.e8 * l.e14 + p.e12 * l.e15,
        e13: p.e1 * l.e12 + p.e5 * l.e13 + p.e9 * l.e14 + p.e13 * l.e15,
        e14: p.e2 * l.e12 + p.e6 * l.e13 + p.e10 * l.e14 + p.e14 * l.e15,
        e15: p.e3 * l.e12 + p.e7 * l.e13 + p.e11 * l.e14 + p.e15 * l.e15,
    }
}

pub open spec fn quat_unit(q: Quat) -> bool {
    q.x * q.x + q.y * q.y + q.z * q.z + q.w * q.w == 1
}

pub open spec fn v3_bounded(v: Vec3) -> bool {
    -MAT_BOUND <= v.x <= MAT_BOUND && -MAT_BOUND <= v.y <= MAT_BOUND && -MAT_BOUND <= v.z
        <= MAT_BOUND
}

pub open spec fn m4_bounded(m: M4) -> bool {
    &&& -MAT_BOUND <= m.e0 <= MAT_BOUND
    &&& -MAT_BOUND <= m.e1 <= MAT_BOUND
    &&& -MAT_BOUND <= m.e2 <= MAT_BOUND
    &&& -MAT_BOUND <= m.e3 <= MAT_BOUND
    &&& -MAT_BOUND <= m.e4 <= MAT_BOUND
    &&& -MAT_BOUND <= m.e5 <= MAT_BOUND
    &&& -MAT_BOUND <= m.e6 <= MAT_BOUND
    &&& -MAT_BOUND <= m.e7 <= MAT_BOUND
    &&& -MAT_BOUND <= m.e8 <= MAT_BOUND
    &&& -MAT_BOUND <= m.e9 <= MAT_BOUND
    &&& -MAT_BOUND <= m.e10 <= MAT_BOUND
    &&& -MAT_BOUND <= m.e11 <= MAT_BOUND
    &&& -MAT_BOUND <= m.e12 <= MAT_BOUND
    &&& -MAT_BOUND <= m.e13 <= MAT_BOUND
    &&& -MAT_BOUND <= m.e14 <= MAT_BOUND
    &&& -MAT_BOUND <= m.e15 <= MAT_BOUND
}

/// The homogeneous matrix built from a translation, a scale and a unit
/// quaternion rotation: each linear column is a rotation column times the
/// matching scale component, the translation sits in the last column.
pub open spec fn m4_compose(p: Vec3, s: Vec3, q: Quat) -> M4 {
    M4 {
        e0: (1 - 2 * (q.y * q.y + q.z * q.z)) * s.x,
        e1: (2 * (q.x * q.y + q.w * q.z)) * s.x,
        e2: (2 * (q.x * q.z - q.w * q.y)) * s.x,
        e3: 0,
        e4: (2 * (q.x * q.y - q.w * q.z)) * s.y,
        e5: (1 - 2 * (q.x * q.x + q.z * q.z)) * s.y,
        e6: (2 * (q.y * q.z + q.w * q.x)) * s.y,
        e7: 0,
        e8: (2 * (q.x * q.z + q.w * q.y)) * s.z,
        e9: (2 * (q.y * q.z - q.w * q.x)) * s.z,
        e10: (1 - 2 * (q.x * q.x + q.y * q.y)) * s.z,
        e11: 0,
        e12: p.x as int,
        e13: p.y as int,
        e14: p.z as int,
        e15: 1,
    }
}

/// On the integers a unit quaternion has exactly one component, which is
/// `1` or `-1`; so all products of two distinct components vanish.
proof fn lemma_quat_entries(q: Quat)
    requires
        quat_unit(q),
    ensures
        q.x * q.y == 0,
        q.x * q.z == 0,
        q.y * q.z == 0,
        q.w * q.x == 0,
        q.w * q.y == 0,
        q.w * q.z == 0,
        q.x * q.x + q.y * q.y <= 1,
        q.x * q.x + q.z * q.z <= 1,
        q.y * q.y + q.z * q.z <= 1,
        0 <= q.x * q.x,
        0 <= q.y * q.y,
        0 <= q.z * q.z,
        -1 <= q.x <= 1,
        -1 <= q.y <= 1,
        -1 <= q.z <= 1,
        -1 <= q.w <= 1,
{
    assert(q.x * q.y == 0 && q.x * q.z == 0 && q.y * q.z == 0 && q.w * q.x == 0 && q.w * q.y == 0
        && q.w * q.z == 0 && q.x * q.x + q.y * q.y <= 1 && q.x * q.x + q.z * q.z <= 1 && q.y * q.y
        + q.z * q.z <= 1 && 0 <= q.x * q.x && 0 <= q.y * q.y && 0 <= q.z * q.z && -1 <= q.x <= 1
        && -1 <= q.y <= 1 && -1 <= q.z <= 1 && -1 <= q.w <= 1) by (nonlinear_arith)
        requires
            q.x * q.x + q.y * q.y + q.z * q.z + q.w * q.w == 1,
    ;
}

pub fn mat4_identity() -> (r: Mat4)
    ensures
        m4_of(r) == m4_ident(),
{
    Mat4 {
        m0: 1,
        m1: 0,
        m2: 0,
        m3: 0,
        m4: 0,
        m5: 1,
        m6: 0,
        m7: 0,
        m8: 0,
        m9: 0,
        m10: 1,
        m11: 0,
        m12: 0,
        m13: 0,
        m14: 0,
        m15: 1,
    }
}

/// Product of two entries, both within the resolver's bound.
fn mulb4(a: i64, b: i64) -> (r: i64)
    requires
        -MAT_BOUND <= a <= MAT_BOUND,
        -MAT_BOUND <= b <= MAT_BOUND,
    ensures
        r == a * b,
        -1152921504606846976 <= r <= 1152921504606846976,
{
    proof {
        assert(-1152921504606846976 <= a * b <= 1152921504606846976) by (nonlinear_arith)
            requires
                -MAT_BOUND <= a <= MAT_BOUND,
                -MAT_BOUND <= b <= MAT_BOUND,
        ;
    }
    a * b
}

pub fn mat4_mul(p: &Mat4, l: &Mat4) -> (r: Mat4)
    requires
        m4_bounded(m4_of(*p)),
        m4_bounded(m4_of(*l)),
    ensures
        m4_of(r) == m4_mul(m4_of(*p), m4_of(*l)),
{
    Mat4 {
        m0: mulb4(p.m0, l.m0) + mulb4(p.m4, l.m1) + mulb4(p.m8, l.m2) + mulb4(p.m12, l.m3),
        m1: mulb4(p.m1, l.m0) + mulb4(p.m5, l.m1) + mulb4(p.m9, l.m2) + mulb4(p.m13, l.m3),
        m2: mulb4(p.m2, l.m0) + mulb4(p.m6, l.m1) + mulb4(p.m10, l.m2) + mulb4(p.m14, l.m3),
        m3: mulb4(p.m3, l.m0) + mulb4(p.m7, l.m1) + mulb4(p.m11, l.m2) + mulb4(p.m15, l.m3),
        m4: mulb4(p.m0, l.m4) + mulb4(p.m4, l.m5) + mulb4(p.m8, l.m6) + mulb4(p.m12, l.m7),
        m5: mulb4(p.m1, l.m4) + mulb4(p.m5, l.m5) + mulb4(p.m9, l.m6) + mulb4(p.m13, l.m7),
        m6: mulb4(p.m2, l.m4) + mulb4(p.m6, l.m5) + mulb4(p.m10, l.m6) + mulb4(p.m14, l.m7),
        m7: mulb4(p.m3, l.m4) + mulb4(p.m7, l.m5) + mulb4(p.m11, l.m6) + mulb4(p.m15, l.m7),
        m8: mulb4(p.m0, l.m8) + mulb4(p.m4, l.m9) + mulb4(p.m8, l.m10) + mulb4(p.m12, l.m11),
        m9: mulb4(p.m1, l.m8) + mulb4(p.m5, l.m9) + mulb4(p.m9, l.m10) + mulb4(p.m13, l.m11),
        m10: mulb4(p.m2, l.m8) + mulb4(p.m6, l.m9) + mulb4(p.m10, l.m10) + mulb4(p.m14, l.m11),
        m11: mulb4(p.m3, l.m8) + mulb4(p.m7, l.m9) + mulb4(p.m11, l.m10) + mulb4(p.m15, l.m11),
        m12: mulb4(p.m0, l.m12) + mulb4(p.m4, l.m13) + mulb4(p.m8, l.m14) + mulb4(p.m12, l.m15),
        m13: mulb4(p.m1, l.m12) + mulb4(p.m5, l.m13) + mulb4(p.m9, l.m14) + mulb4(p.m13, l.m15),
        m14: mulb4(p.m2, l.m12) + mulb4(p.m6, l.m13) + mulb4(p.m10, l.m14) + mulb4(p.m14, l.m15),
        m15: mulb4(p.m3, l.m12) + mulb4(p.m7, l.m13) + mulb4(p.m11, l.m14) + mulb4(p.m15, l.m15),
    }
}

/// Product of a rotation entry, which lies in `[-1, 1]`, with a bounded
/// scale component.
fn mule(e: i64, s: i64) -> (r: i64)
    requires
        -1 <= e <= 1,
        -MAT_BOUND <= s <= MAT_BOUND,
    ensures
        r == e * s,
        -MAT_BOUND <= r <= MAT_BOUND,
{
    proof {
        assert(-MAT_BOUND <= e * s <= MAT_BOUND) by (nonlinear_arith)
            requires
                -1 <= e <= 1,
                -MAT_BOUND <= s <= MAT_BOUND,
        ;
    }
    e * s
}

pub fn mat4_compose(p: Vec3, s: Vec3, q: Quat) -> (out: Mat4)
    requires
        v3_bounded(p),
        v3_bounded(s),
        quat_unit(q),
    ensures
        m4_of(out) == m4_compose(p, s, q),
        m4_bounded(m4_of(out)),
{
    proof {
        lemma_quat_entries(q);
    }
    let r00: i64 = 1 - 2 * (q.y * q.y + q.z * q.z);
    let r01: i64 = 2 * (q.x * q.y + q.w * q.z);
    let r02: i64 = 2 * (q.x * q.z - q.w * q.y);
    let r10: i64 = 2 * (q.x * q.y - q.w * q.z);
    let r11: i64 = 1 - 2 * (q.x * q.x + q.z * q.z);
    let r12: i64 = 2 * (q.y * q.z + q.w * q.x);
    let r20: i64 = 2 * (q.x * q.z + q.w * q.y);
    let r21: i64 = 2 * (q.y * q.z - q.w * q.x);
    let r22: i64 = 1 - 2 * (q.x * q.x + q.y * q.y);
    Mat4 {
        m0: mule(r00, s.x),
        m1: mule(r01, s.x),
        m2: mule(r02, s.x),
        m3: 0,
        m4: mule(r10, s.y),
        m5: mule(r11, s.y),
        m6: mule(r12, s.y),
        m7: 0,
        m8: mule(r20, s.z),
        m9: mule(r21, s.z),
        m10: mule(r22, s.z),
        m11: 0,
        m12: p.x,
        m13: p.y,
        m14: p.z,
        m15: 1,
    }
}

/// The Hamilton product of two quaternions; applying `r` first, then `a`,
/// composes as `a * r`.
pub open spec fn quat_mul_x(a: Quat, b: Quat) -> int {
    a.w * b.x + a.x * b.w + a.y * b.z - a.z * b.y
}

pub open spec fn quat_mul_y(a: Quat, b: Quat) -> int {
    a.w * b.y - a.x * b.z + a.y * b.w + a.z * b.x
}

pub open spec fn quat_mul_z(a: Quat, b: Quat) -> int {
    a.w * b.z + a.x * b.y - a.y * b.x + a.z * b.w
}

pub open spec fn quat_mul_w(a: Quat, b: Quat) -> int {
    a.w * b.w - a.x * b.x - a.y * b.y - a.z * b.z
}

/// Product of two quaternion components, each in `[-1, 1]`.
fn muls(a: i64, b: i64) -> (r: i64)
    requires
        -1 <= a <= 1,
        -1 <= b <= 1,
    ensures
        r == a * b,
        -1 <= r <= 1,
{
    proof {
        assert(-1 <= a * b <= 1) by (nonlinear_arith)
            requires
                -1 <= a <= 1,
                -1 <= b <= 1,
        ;
    }
    a * b
}

pub fn quat_mul(a: Quat, b: Quat) -> (r: Quat)
    requires
        quat_unit(a),
        quat_unit(b),
    ensures
        r.x == quat_mul_x(a, b),
        r.y == quat_mul_y(a, b),
        r.z == quat_mul_z(a, b),
        r.w == quat_mul_w(a, b),
        quat_unit(r),
{
    proof {
        lemma_quat_entries(a);
        lemma_quat_entries(b);
    }
    let x: i64 = muls(a.w, b.x) + muls(a.x, b.w) + muls(a.y, b.z) - muls(a.z, b.y);
    let y: i64 = muls(a.w, b.y) - muls(a.x, b.z) + muls(a.y, b.w) + muls(a.z, b.x);
    let z: i64 = muls(a.w, b.z) + muls(a.x, b.y) - muls(a.y, b.x) + muls(a.z, b.w);
    let w: i64 = muls(a.w, b.w) - muls(a.x, b.x) - muls(a.y, b.y) - muls(a.z, b.z);
    proof {
        assert(x * x + y * y + z * z + w * w == 1) by (nonlinear_arith)
            requires
                a.x * a.x + a.y * a.y + a.z * a.z + a.w * a.w == 1,
                b.x * b.x + b.y * b.y + b.z * b.z + b.w * b.w == 1,
                x == a.w * b.x + a.x * b.w + a.y * b.z - a.z * b.y,
                y == a.w * b.y - a.x * b.z + a.y * b.w + a.z * b.x,
                z == a.w * b.z + a.x * b.y - a.y * b.x + a.z * b.w,
                w == a.w * b.w - a.x * b.x - a.y * b.y - a.z * b.z,
        ;
    }
    Quat { x, y, z, w }
}

/// The decomposition of a spatial matrix: translation read directly, scale
/// as the length of each linear column, rotation as the canonical unit
/// quaternion where the normalized linear part is one of the exact
/// rotations, the identity quaternion otherwise.
pub ghost struct D3 {
    pub px: int,
    pub py: int,
    pub pz: int,
    pub sx: int,
    pub sy: int,
    pub sz: int,
    pub qx: int,
    pub qy: int,
    pub qz: int,
    pub qw: int,
}

pub open spec fn decompose3_spec(m: M4) -> D3 {
    let sx = sqrt_floor(m.e0 * m.e0 + m.e1 * m.e1 + m.e2 * m.e2);
    let sy = sqrt_floor(m.e4 * m.e4 + m.e5 * m.e5 + m.e6 * m.e6);
    let sz = sqrt_floor(m.e8 * m.e8 + m.e9 * m.e9 + m.e10 * m.e10);
    let diag = m.e1 == 0 && m.e2 == 0 && m.e4 == 0 && m.e6 == 0 && m.e8 == 0 && m.e9 == 0 && sx > 0
        && sy > 0 && sz > 0;
    let q: (int, int, int, int) = if diag && m.e0 == sx && m.e5 == -sy && m.e10 == -sz {
        (1int, 0int, 0int, 0int)
    } else if diag && m.e0 == -sx && m.e5 == sy && m.e10 == -sz {
        (0int, 1int, 0int, 0int)
    } else if diag && m.e0 == -sx && m.e5 == -sy && m.e10 == sz {
        (0int, 0int, 1int, 0int)
    } else {
        (0int, 0int, 0int, 1int)
    };
    D3 {
        px: m.e12,
        py: m.e13,
        pz: m.e14,
        sx: sx,
        sy: sy,
        sz: sz,
        qx: q.0,
        qy: q.1,
        qz: q.2,
        qw: q.3,
    }
}

/// Column length: the integer square root of `a*a + b*b + c*c`.
fn col_len3(a: i64, b: i64, c: i64) -> (r: i64)
    requires
        -MAT_BOUND <= a <= MAT_BOUND,
        -MAT_BOUND <= b <= MAT_BOUND,
        -MAT_BOUND <= c <= MAT_BOUND,
    ensures
        r == sqrt_floor(a * a + b * b + c * c),
        0 <= r <= 2 * MAT_BOUND,
{
    let aa: i64 = mulb4(a, a);
    let bb: i64 = mulb4(b, b);
    let cc: i64 = mulb4(c, c);
    proof {
        assert(a * a >= 0 && b * b >= 0 && c * c >= 0) by (nonlinear_arith);
    }
    let n: u64 = (aa + bb + cc) as u64;
    let r64: u64 = isqrt64(n);
    proof {
        assert(r64 * r64 <= n as int);
        assert(r64 <= 2147483648u64) by (nonlinear_arith)
            requires
                r64 * r64 <= 3458764513820540928,
        ;
    }
    r64 as i64
}

pub fn mat4_decompose(m: &Mat4) -> (r: (Vec3, Vec3, Quat))
    requires
        m4_bounded(m4_of(*m)),
    ensures
        ({
            let d = decompose3_spec(m4_of(*m));
            r.0.x == d.px && r.0.y == d.py && r.0.z == d.pz && r.1.x == d.sx && r.1.y == d.sy
                && r.1.z == d.sz && r.2.x == d.qx && r.2.y == d.qy && r.2.z == d.qz && r.2.w == d.qw
        }),
        quat_unit(r.2),
        0 <= r.1.x <= 2 * MAT_BOUND,
        0 <= r.1.y <= 2 * MAT_BOUND,
        0 <= r.1.z <= 2 * MAT_BOUND,
{
    let sx: i64 = col_len3(m.m0, m.m1, m.m2);
    let sy: i64 = col_len3(m.m4, m.m5, m.m6);
    let sz: i64 = col_len3(m.m8, m.m9, m.m10);
    let diag: bool = m.m1 == 0 && m.m2 == 0 && m.m4 == 0 && m.m6 == 0 && m.m8 == 0 && m.m9 == 0
        && sx > 0 && sy > 0 && sz > 0;
    let q: Quat = if diag && m.m0 == sx && m.m5 == -sy && m.m10 == -sz {
        Quat { x: 1, y: 0, z: 0, w: 0 }
    } else if diag && m.m0 == -sx && m.m5 == sy && m.m10 == -sz {
        Quat { x: 0, y: 1, z: 0, w: 0 }
    } else if diag && m.m0 == -sx && m.m5 == -sy && m.m10 == sz {
        Quat { x: 0, y: 0, z: 1, w: 0 }
    } else {
        Quat { x: 0, y: 0, z: 0, w: 1 }
    };
    proof {
        assert(q.x * q.x + q.y * q.y + q.z * q.z + q.w * q.w == 1) by (nonlinear_arith)
            requires
                (q.x == 1 && q.y == 0 && q.z == 0 && q.w == 0) || (q.x == 0 && q.y == 1 && q.z == 0
                    && q.w == 0) || (q.x == 0 && q.y == 0 && q.z == 1 && q.w == 0) || (q.x == 0
                    && q.y == 0 && q.z == 0 && q.w == 1),
        ;
    }
    (Vec3 { x: m.m12, y: m.m13, z: m.m14 }, Vec3 { x: sx, y: sy, z: sz }, q)
}

/// Composing a translation, a positive scale and a canonical unit
/// quaternion and then decomposing the matrix returns exactly the inputs.
/// A quaternion and its negation name the same rotation, so the
/// decomposition commits to the canonical sign; hence the requirement.
pub proof fn lemma_compose_decompose_3d(p: Vec3, s: Vec3, q: Quat)
    requires
        0 < s.x,
        0 < s.y,
        0 < s.z,
        (q.x == 1 && q.y == 0 && q.z == 0 && q.w == 0) || (q.x == 0 && q.y == 1 && q.z == 0 && q.w
            == 0) || (q.x == 0 && q.y == 0 && q.z == 1 && q.w == 0) || (q.x == 0 && q.y == 0 && q.z
            == 0 && q.w == 1),
    ensures
        ({
            let d = decompose3_spec(m4_compose(p, s, q));
            d.px == p.x && d.py == p.y && d.pz == p.z && d.sx == s.x && d.sy == s.y && d.sz == s.z
                && d.qx == q.x && d.qy == q.y && d.qz == q.z && d.qw == q.w
        }),
{
    let m = m4_compose(p, s, q);
    assert(s.x * s.x < (s.x + 1) * (s.x + 1) && s.y * s.y < (s.y + 1) * (s.y + 1) && s.z * s.z < (
    s.z + 1) * (s.z + 1)) by (nonlinear_arith)
        requires
            0 < s.x,
            0 < s.y,
            0 < s.z,
    ;
    if q.x == 1 && q.y == 0 && q.z == 0 && q.w == 0 {
        assert(m.e0 == s.x && m.e1 == 0 && m.e2 == 0 && m.e4 == 0 && m.e5 == -s.y && m.e6 == 0
            && m.e8 == 0 && m.e9 == 0 && m.e10 == -s.z) by (nonlinear_arith)
            requires
                q.x == 1 && q.y == 0 && q.z == 0 && q.w == 0,
                m.e0 == (1 - 2 * (q.y * q.y + q.z * q.z)) * s.x,
                m.e1 == (2 * (q.x * q.y + q.w * q.z)) * s.x,
                m.e2 == (2 * (q.x * q.z - q.w * q.y)) * s.x,
                m.e4 == (2 * (q.x * q.y - q.w * q.z)) * s.y,
                m.e5 == (1 - 2 * (q.x * q.x + q.z * q.z)) * s.y,
                m.e6 == (2 * (q.y * q.z + q.w * q.x)) * s.y,
                m.e8 == (2 * (q.x * q.z + q.w * q.y)) * s.z,
                m.e9 == (2 * (q.y * q.z - q.w * q.x)) * s.z,
                m.e10 == (1 - 2 * (q.x * q.x + q.y * q.y)) * s.z,
        ;
    } else if q.x == 0 && q.y == 1 && q.z == 0 && q.w == 0 {
        assert(m.e0 == -s.x && m.e1 == 0 && m.e2 == 0 && m.e4 == 0 && m.e5 == s.y && m.e6 == 0
            && m.e8 == 0 && m.e9 == 0 && m.e10 == -s.z) by (nonlinear_arith)
            requires
                q.x == 0 && q.y == 1 && q.z == 0 && q.w == 0,
                m.e0 == (1 - 2 * (q.y * q.y + q.z * q.z)) * s.x,
                m.e1 == (2 * (q.x * q.y + q.w * q.z)) * s.x,
                m.e2 == (2 * (q.x * q.z - q.w * q.y)) * s.x,
                m.e4 == (2 * (q.x * q.y - q.w * q.z)) * s.y,
                m.e5 == (1 - 2 * (q.x * q.x + q.z * q.z)) * s.y,
                m.e6 == (2 * (q.y * q.z + q.w * q.x)) * s.y,
                m.e8 == (2 * (q.x * q.z + q.w * q.y)) * s.z,
                m.e9 == (2 * (q.y * q.z - q.w * q.x)) * s.z,
                m.e10 == (1 - 2 * (q.x * q.x + q.y * q.y)) * s.z,
        ;
    } else if q.x == 0 && q.y == 0 && q.z == 1 && q.w == 0 {
        assert(m.e0 == -s.x && m.e1 == 0 && m.e2 == 0 && m.e4 == 0 && m.e5 == -s.y && m.e6 == 0
            && m.e8 == 0 && m.e9 == 0 && m.e10 == s.z) by (nonlinear_arith)
            requires
                q.x == 0 && q.y == 0 && q.z == 1 && q.w == 0,
                m.e0 == (1 - 2 * (q.y * q.y + q.z * q.z)) * s.x,
                m.e1 == (2 * (q.x * q.y + q.w * q.z)) * s.x,
                m.e2 == (2 * (q.x * q.z - q.w * q.y)) * s.x,
                m.e4 == (2 * (q.x * q.y - q.w * q.z)) * s.y,
                m.e5 == (1 - 2 * (q.x * q.x + q.z * q.z)) * s.y,
                m.e6 == (2 * (q.y * q.z + q.w * q.x)) * s.y,
                m.e8 == (2 * (q.x * q.z + q.w * q.y)) * s.z,
                m.e9 == (2 * (q.y * q.z - q.w * q.x)) * s.z,
                m.e10 == (1 - 2 * (q.x * q.x + q.y * q.y)) * s.z,
        ;
    } else {
        assert(m.e0 == s.x && m.e1 == 0 && m.e2 == 0 && m.e4 == 0 && m.e5 == s.y && m.e6 == 0
            && m.e8 == 0 && m.e9 == 0 && m.e10 == s.z) by (nonlinear_arith)
            requires
                q.x == 0 && q.y == 0 && q.z == 0 && q.w == 1,
                m.e0 == (1 - 2 * (q.y * q.y + q.z * q.z)) * s.x,
                m.e1 == (2 * (q.x * q.y + q.w * q.z)) * s.x,
                m.e2 == (2 * (q.x * q.z - q.w * q.y)) * s.x,
                m.e4 == (2 * (q.x * q.y - q.w * q.z)) * s.y,
                m.e5 == (1 - 2 * (q.x * q.x + q.z * q.z)) * s.y,
                m.e6 == (2 * (q.y * q.z + q.w * q.x)) * s.y,
                m.e8 == (2 * (q.x * q.z + q.w * q.y)) * s.z,
                m.e9 == (2 * (q.y * q.z - q.w * q.x)) * s.z,
                m.e10 == (1 - 2 * (q.x * q.x + q.y * q.y)) * s.z,
        ;
    }
    assert(m.e0 * m.e0 + m.e1 * m.e1 + m.e2 * m.e2 == s.x * s.x && m.e4 * m.e4 + m.e5 * m.e5 + m.e6
        * m.e6 == s.y * s.y && m.e8 * m.e8 + m.e9 * m.e9 + m.e10 * m.e10 == s.z * s.z)
        by (nonlinear_arith)
        requires
            (m.e0 == s.x || m.e0 == -s.x) && m.e1 == 0 && m.e2 == 0,
            m.e4 == 0 && (m.e5 == s.y || m.e5 == -s.y) && m.e6 == 0,
            m.e8 == 0 && m.e9 == 0 && (m.e10 == s.z || m.e10 == -s.z),
    ;
    assert(is_sqrt_floor(s.x * s.x, s.x as int));
    assert(is_sqrt_floor(s.y * s.y, s.y as int));
    assert(is_sqrt_floor(s.z * s.z, s.z as int));
    lemma_sqrt_floor_is(m.e0 * m.e0 + m.e1 * m.e1 + m.e2 * m.e2, s.x as int);
    lemma_sqrt_floor_is(m.e4 * m.e4 + m.e5 * m.e5 + m.e6 * m.e6, s.y as int);
    lemma_sqrt_floor_is(m.e8 * m.e8 + m.e9 * m.e9 + m.e10 * m.e10, s.z as int);
}

/// The planar matrix read off a spatial one: the xy block of the linear
/// part and the xy translation; the z axis is dropped.
pub open spec fn m2_project(m: M4) -> M2 {
    M2 { a: m.e0, b: m.e1, c: m.e4, d: m.e5, x: m.e12, y: m.e13 }
}

pub fn mat32_from_mat4(m: &Mat4) -> (r: Mat32)
    ensures
        m2_of(r) == m2_project(m4_of(*m)),
{
    Mat32 { m0: m.m0, m1: m.m1, m2: m.m4, m3: m.m5, m4: m.m12, m5: m.m13 }
}

/// The spatial matrix a planar one stands for: the xy block embedded in a
/// homogeneous matrix with the z axis untouched.
pub open spec fn m4_embed(m: M2) -> M4 {
    M4 {
        e0: m.a,
        e1: m.b,
        e2: 0,
        e3: 0,
        e4: m.c,
        e5: m.d,
        e6: 0,
        e7: 0,
        e8: 0,
        e9: 0,
        e10: 1,
        e11: 0,
        e12: m.x,
        e13: m.y,
        e14: 0,
        e15: 1,
    }
}

pub fn mat4_from_mat32(m: &Mat32) -> (r: Mat4)
    ensures
        m4_of(r) == m4_embed(m2_of(*m)),
{
    Mat4 {
        m0: m.m0,
        m1: m.m1,
        m2: 0,
        m3: 0,
        m4: m.m2,
        m5: m.m3,
        m6: 0,
        m7: 0,
        m8: 0,
        m9: 0,
        m10: 1,
        m11: 0,
        m12: m.m4,
        m13: m.m5,
        m14: 0,
        m15: 1,
    }
}

/// A 3x3 matrix, column-major: columns `(n0, n1, n2)`, `(n3, n4, n5)`,
/// `(n6, n7, n8)`.
#[derive(Clone, Copy, Debug, PartialEq, Eq, Structural)]
pub struct Mat3 {
    pub n0: i64,
    pub n1: i64,
    pub n2: i64,
    pub n3: i64,
    pub n4: i64,
    pub n5: i64,
    pub n6: i64,
    pub n7: i64,
    pub n8: i64,
}

/// The determinant of the upper-left 3x3 block of a spatial matrix.
pub open spec fn det3(m: M4) -> int {
    m.e0 * (m.e5 * m.e10 - m.e9 * m.e6) + m.e4 * (m.e9 * m.e2 - m.e1 * m.e10) + m.e8 * (m.e1 * m.e6
        - m.e5 * m.e2)
}

/// The adjugate of the upper-left 3x3 block, row `r` column `c`: the
/// transposed cofactor matrix, so that the adjugate times the block is
/// the determinant times the identity.
pub open spec fn adj3(m: M4, r: int, c: int) -> int {
    if r == 0 && c == 0 {
        m.e5 * m.e10 - m.e9 * m.e6
    } else if r == 1 && c == 0 {
        m.e9 * m.e2 - m.e1 * m.e10
    } else if r == 2 && c == 0 {
        m.e1 * m.e6 - m.e5 * m.e2
    } else if r == 0 && c == 1 {
        m.e8 * m.e6 - m.e4 * m.e10
    } else if r == 1 && c == 1 {
        m.e0 * m.e10 - m.e8 * m.e2
    } else if r == 2 && c == 1 {
        m.e4 * m.e2 - m.e0 * m.e6
    } else if r == 0 && c == 2 {
        m.e4 * m.e9 - m.e8 * m.e5
    } else if r == 1 && c == 2 {
        m.e8 * m.e1 - m.e0 * m.e9
    } else {
        m.e0 * m.e5 - m.e4 * m.e1
    }
}

/// Whether `n` is an exact integer multiple of `d`.
pub open spec fn divides(d: int, n: int) -> bool {
    exists|k: int| crate::math2::mul_eq(k, d, n)
}

/// Product of a matrix entry with a cofactor, in wide arithmetic.
fn mulec(a: i128, c: i128) -> (r: i128)
    requires
        -0x80000000 <= a <= 0x80000000,
        -0x4000000000000000 <= c <= 0x4000000000000000,
    ensures
        r == a * c,
        -0x200000000000000000000000 <= r <= 0x200000000000000000000000,
{
    proof {
        assert(-0x200000000000000000000000 <= a * c <= 0x200000000000000000000000)
            by (nonlinear_arith)
            requires
                -0x80000000 <= a <= 0x80000000,
                -0x4000000000000000 <= c <= 0x4000000000000000,
        ;
    }
    a * c
}


/// The exact wide integer quotient of `n` by `d`, where one exists.
fn div_exact_wide(n: i128, d: i128) -> (r: Option<i128>)
    requires
        d != 0,
        -0x4000000000000000000000000000000 <= n <= 0x4000000000000000000000000000000,
        -0x4000000000000000000000000000000 <= d <= 0x4000000000000000000000000000000,
    ensures
        match r {
            Some(q) => q * d == n,
            None => forall|k: int| !crate::math2::mul_eq(k, d as int, n as int),
        },
{
    let na: u128 = if n < 0 {
        (-n) as u128
    } else {
        n as u128
    };
    let da: u128 = if d < 0 {
        (-d) as u128
    } else {
        d as u128
    };
    if na % da == 0 {
        let qa: u128 = na / da;
        proof {
            vstd::arithmetic::div_mod::lemma_fundamental_div_mod(na as int, da as int);
            assert(na as int == da as int * qa as int);
            assert(qa * da == na) by (nonlinear_arith)
                requires
                    na as int == da as int * qa as int,
            ;
            assert(qa <= na) by (nonlinear_arith)
                requires
                    qa * da == na,
                    da >= 1,
                    qa >= 0,
            ;
        }
        let q: i128 = if (n < 0) != (d < 0) {
            -(qa as i128)
        } else {
            qa as i128
        };
        proof {
            assert(q * d == n) by (nonlinear_arith)
                requires
                    qa * da == na,
                    na == (if n < 0 { -(n as int) } else { n as int }),
                    da == (if d < 0 { -(d as int) } else { d as int }),
                    q == (if (n < 0) != (d < 0) { -(qa as int) } else { qa as int }),
            ;
        }
        Some(q)
    } else {
        proof {
            assert forall|k: int| !crate::math2::mul_eq(k, d as int, n as int) by {
                if crate::math2::mul_eq(k, d as int, n as int) {
                    let ka: int = if k < 0 { -k } else { k };
                    assert(ka * da == na) by (nonlinear_arith)
                        requires
                            k * d == n,
                            ka == (if k < 0 { -k } else { k }),
                            na == (if n < 0 { -(n as int) } else { n as int }),
                            da == (if d < 0 { -(d as int) } else { d as int }),
                    ;
                    vstd::arithmetic::div_mod::lemma_mod_multiples_basic(ka, da as int);
                    assert(false);
                }
            }
        }
        None
    }
}

/// One entry of the normal matrix: the exact quotient of a cofactor by
/// the determinant, where it exists.
fn normal_entry(c: i128, det: i128) -> (r: Option<i64>)
    requires
        det != 0,
        -0x2000000000000000 <= c <= 0x2000000000000000,
        -0x4000000000000000000000000000000 <= det <= 0x4000000000000000000000000000000,
    ensures
        match r {
            Some(q) => q * det == c,
            None => !divides(det as int, c as int),
        },
{
    match div_exact_wide(c, det) {
        Some(q) => {
            proof {
                assert(-0x2000000000000000 <= q <= 0x2000000000000000) by (nonlinear_arith)
                    requires
                        q * det == c,
                        det != 0,
                        -0x2000000000000000 <= c <= 0x2000000000000000,
                ;
            }
            Some(q as i64)
        },
        None => {
            proof {
                if divides(det as int, c as int) {
                    let k = choose|k: int| crate::math2::mul_eq(k, det as int, c as int);
                    assert(!crate::math2::mul_eq(k, det as int, c as int));
                }
            }
            None
        },
    }
}

/// The normal matrix of a model-view matrix: the transpose of the inverse
/// of its upper-left 3x3 block, which on the integers is the cofactor
/// matrix divided by the determinant. `Some` exactly when the block is
/// invertible and every cofactor is an exact multiple of the determinant;
/// each returned entry times the determinant is the matching cofactor.
pub fn mat3_normal_from_mat4(m: &Mat4) -> (r: Option<Mat3>)
    requires
        m4_bounded(m4_of(*m)),
    ensures
        ({
            let mm = m4_of(*m);
            match r {
                Some(n) => det3(mm) != 0 && n.n0 * det3(mm) == adj3(mm, 0, 0) && n.n1 * det3(mm)
                    == adj3(mm, 0, 1) && n.n2 * det3(mm) == adj3(mm, 0, 2) && n.n3 * det3(mm)
                    == adj3(mm, 1, 0) && n.n4 * det3(mm) == adj3(mm, 1, 1) && n.n5 * det3(mm)
                    == adj3(mm, 1, 2) && n.n6 * det3(mm) == adj3(mm, 2, 0) && n.n7 * det3(mm)
                    == adj3(mm, 2, 1) && n.n8 * det3(mm) == adj3(mm, 2, 2),
                None => det3(mm) == 0 || exists|rr: int, cc: int|
                    0 <= rr < 3 && 0 <= cc < 3 && !divides(det3(mm), #[trigger] adj3(mm, rr, cc)),
            }
        }),
{
    let ghost mm = m4_of(*m);
    let c00: i64 = mulb4(m.m5, m.m10) - mulb4(m.m9, m.m6);
    let c10: i64 = mulb4(m.m9, m.m2) - mulb4(m.m1, m.m10);
    let c20: i64 = mulb4(m.m1, m.m6) - mulb4(m.m5, m.m2);
    let c01: i64 = mulb4(m.m8, m.m6) - mulb4(m.m4, m.m10);
    let c11: i64 = mulb4(m.m0, m.m10) - mulb4(m.m8, m.m2);
    let c21: i64 = mulb4(m.m4, m.m2) - mulb4(m.m0, m.m6);
    let c02: i64 = mulb4(m.m4, m.m9) - mulb4(m.m8, m.m5);
    let c12: i64 = mulb4(m.m8, m.m1) - mulb4(m.m0, m.m9);
    let c22: i64 = mulb4(m.m0, m.m5) - mulb4(m.m4, m.m1);
    let det: i128 = mulec(m.m0 as i128, c00 as i128) + mulec(m.m4 as i128, c10 as i128) + mulec(
        m.m8 as i128,
        c20 as i128,
    );
    proof {
        assert(det == det3(mm));
    }
    if det == 0 {
        return None;
    }
    let n0 = normal_entry(c00 as i128, det);
    let n1 = normal_entry(c01 as i128, det);
    let n2 = normal_entry(c02 as i128, det);
    let n3 = normal_entry(c10 as i128, det);
    let n4 = normal_entry(c11 as i128, det);
    let n5 = normal_entry(c12 as i128, det);
    let n6 = normal_entry(c20 as i128, det);
    let n7 = normal_entry(c21 as i128, det);
    let n8 = normal_entry(c22 as i128, det);
    proof {
        assert(c00 as int == adj3(mm, 0, 0));
        assert(c10 as int == adj3(mm, 1, 0));
        assert(c20 as int == adj3(mm, 2, 0));
        assert(c01 as int == adj3(mm, 0, 1));
        assert(c11 as int == adj3(mm, 1, 1));
        assert(c21 as int == adj3(mm, 2, 1));
        assert(c02 as int == adj3(mm, 0, 2));
        assert(c12 as int == adj3(mm, 1, 2));
        assert(c22 as int == adj3(mm, 2, 2));
        if n0 is None {
            assert(!divides(det3(mm), adj3(mm, 0, 0)));
        } else if n1 is None {
            assert(!divides(det3(mm), adj3(mm, 0, 1)));
        } else if n2 is None {
            assert(!divides(det3(mm), adj3(mm, 0, 2)));
        } else if n3 is None {
            assert(!divides(det3(mm), adj3(mm, 1, 0)));
        } else if n4 is None {
            assert(!divides(det3(mm), adj3(mm, 1, 1)));
        } else if n5 is None {
            assert(!divides(det3(mm), adj3(mm, 1, 2)));
        } else if n6 is None {
            assert(!divides(det3(mm), adj3(mm, 2, 0)));
        } else if n7 is None {
            assert(!divides(det3(mm), adj3(mm, 2, 1)));
        } else if n8 is None {
            assert(!divides(det3(mm), adj3(mm, 2, 2)));
        }
    }
    if n0.is_some() && n1.is_some() && n2.is_some() && n3.is_some() && n4.is_some() && n5.is_some()
        && n6.is_some() && n7.is_some() && n8.is_some() {
        Some(
            Mat3 {
                n0: n0.unwrap(),
                n1: n1.unwrap(),
                n2: n2.unwrap(),
                n3: n3.unwrap(),
                n4: n4.unwrap(),
                n5: n5.unwrap(),
                n6: n6.unwrap(),
                n7: n7.unwrap(),
                n8: n8.unwrap(),
            },
        )
    } else {
        None
    }
}

/// Whether the spatial matrix carries the point `(ux, uy, uz)` to
/// `(px, py, pz)`, the point taken with a fourth coordinate of one.
pub open spec fn maps3(m: M4, ux: int, uy: int, uz: int, px: int, py: int, pz: int) -> bool {
    &&& m.e0 * ux + m.e4 * uy + m.e8 * uz + m.e12 == px
    &&& m.e1 * ux + m.e5 * uy + m.e9 * uz + m.e13 == py
    &&& m.e2 * ux + m.e6 * uy + m.e10 * uz + m.e14 == pz
}


/// The adjugate row for each coordinate applied to the right-hand side
/// of the linear system a spatial matrix poses at a point: coordinate
/// times determinant equals this numerator for any exact preimage.
pub open spec fn num3_x(m: M4, px: int, py: int, pz: int) -> int {
    (px - m.e12) * adj3(m, 0, 0) + (py - m.e13) * adj3(m, 0, 1) + (pz - m.e14) * adj3(m, 0, 2)
}

pub open spec fn num3_y(m: M4, px: int, py: int, pz: int) -> int {
    (px - m.e12) * adj3(m, 1, 0) + (py - m.e13) * adj3(m, 1, 1) + (pz - m.e14) * adj3(m, 1, 2)
}

pub open spec fn num3_z(m: M4, px: int, py: int, pz: int) -> int {
    (px - m.e12) * adj3(m, 2, 0) + (py - m.e13) * adj3(m, 2, 1) + (pz - m.e14) * adj3(m, 2, 2)
}

/// The candidate the solver works with: each coordinate scaled by the
/// determinant hits the matching numerator.
pub open spec fn exact_solution3(m: M4, qx: int, qy: int, qz: int, px: int, py: int, pz: int) -> bool {
    &&& qx * det3(m) == num3_x(m, px, py, pz)
    &&& qy * det3(m) == num3_y(m, px, py, pz)
    &&& qz * det3(m) == num3_z(m, px, py, pz)
}

/// The exact integer preimage of a point under a spatial matrix, the
/// point taken with a fourth coordinate of one. `Some(u)` only if the
/// matrix carries `u` to the point exactly. `None` only if the linear
/// part is singular, some numerator is no exact multiple of the
/// determinant, or the unique scaled solution exists but lies outside
/// the coordinate bound or is no preimage.
pub fn solve_point3(m: &Mat4, p: Vec3) -> (r: Option<Vec3>)
    requires
        m4_bounded(m4_of(*m)),
        v3_bounded(p),
    ensures
        ({
            let mm = m4_of(*m);
            match r {
                Some(u) => v3_bounded(u) && maps3(
                    mm,
                    u.x as int,
                    u.y as int,
                    u.z as int,
                    p.x as int,
                    p.y as int,
                    p.z as int,
                ) && exact_solution3(
                    mm,
                    u.x as int,
                    u.y as int,
                    u.z as int,
                    p.x as int,
                    p.y as int,
                    p.z as int,
                ),
                None => det3(mm) == 0 || !divides(det3(mm), num3_x(mm, p.x as int, p.y as int, p.z as int))
                    || !divides(det3(mm), num3_y(mm, p.x as int, p.y as int, p.z as int)) || !divides(
                    det3(mm),
                    num3_z(mm, p.x as int, p.y as int, p.z as int),
                ) || exists|qx: int, qy: int, qz: int|
                    #[trigger] exact_solution3(mm, qx, qy, qz, p.x as int, p.y as int, p.z as int)
                        && (!(-MAT_BOUND <= qx <= MAT_BOUND && -MAT_BOUND <= qy <= MAT_BOUND
                        && -MAT_BOUND <= qz <= MAT_BOUND) || !maps3(
                        mm,
                        qx,
                        qy,
                        qz,
                        p.x as int,
                        p.y as int,
                        p.z as int,
                    )),
            }
        }),
{
    let ghost mm = m4_of(*m);
    let c00: i64 = mulb4(m.m5, m.m10) - mulb4(m.m9, m.m6);
    let c01: i64 = mulb4(m.m8, m.m6) - mulb4(m.m4, m.m10);
    let c02: i64 = mulb4(m.m4, m.m9) - mulb4(m.m8, m.m5);
    let c10: i64 = mulb4(m.m9, m.m2) - mulb4(m.m1, m.m10);
    let c11: i64 = mulb4(m.m0, m.m10) - mulb4(m.m8, m.m2);
    let c12: i64 = mulb4(m.m8, m.m1) - mulb4(m.m0, m.m9);
    let c20: i64 = mulb4(m.m1, m.m6) - mulb4(m.m5, m.m2);
    let c21: i64 = mulb4(m.m4, m.m2) - mulb4(m.m0, m.m6);
    let c22: i64 = mulb4(m.m0, m.m5) - mulb4(m.m4, m.m1);
    let det: i128 = mulec(m.m0 as i128, c00 as i128) + mulec(m.m4 as i128, c10 as i128) + mulec(
        m.m8 as i128,
        c20 as i128,
    );
    proof {
        assert(det == det3(mm));
    }
    if det == 0 {
        return None;
    }
    let rx: i128 = (p.x - m.m12) as i128;
    let ry: i128 = (p.y - m.m13) as i128;
    let rz: i128 = (p.z - m.m14) as i128;
    let nx: i128 = mulec(rx, c00 as i128) + mulec(ry, c01 as i128) + mulec(rz, c02 as i128);
    let ny: i128 = mulec(rx, c10 as i128) + mulec(ry, c11 as i128) + mulec(rz, c12 as i128);
    let nz: i128 = mulec(rx, c20 as i128) + mulec(ry, c21 as i128) + mulec(rz, c22 as i128);
    proof {
        assert(nx == num3_x(mm, p.x as int, p.y as int, p.z as int));
        assert(ny == num3_y(mm, p.x as int, p.y as int, p.z as int));
        assert(nz == num3_z(mm, p.x as int, p.y as int, p.z as int));
    }
    let qx_opt = div_exact_wide(nx, det);
    let qy_opt = div_exact_wide(ny, det);
    let qz_opt = div_exact_wide(nz, det);
    if qx_opt.is_none() {
        proof {
            if divides(det3(mm), nx as int) {
                let k = choose|k: int| crate::math2::mul_eq(k, det3(mm), nx as int);
                assert(!crate::math2::mul_eq(k, det as int, nx as int));
            }
        }
        return None;
    }
    if qy_opt.is_none() {
        proof {
            if divides(det3(mm), ny as int) {
                let k = choose|k: int| crate::math2::mul_eq(k, det3(mm), ny as int);
                assert(!crate::math2::mul_eq(k, det as int, ny as int));
            }
        }
        return None;
    }
    if qz_opt.is_none() {
        proof {
            if divides(det3(mm), nz as int) {
                let k = choose|k: int| crate::math2::mul_eq(k, det3(mm), nz as int);
                assert(!crate::math2::mul_eq(k, det as int, nz as int));
            }
        }
        return None;
    }
    let qx: i128 = qx_opt.unwrap();
    let qy: i128 = qy_opt.unwrap();
    let qz: i128 = qz_opt.unwrap();
    proof {
        assert(exact_solution3(mm, qx as int, qy as int, qz as int, p.x as int, p.y as int, p.z as int));
    }
    if qx < -(MAT_BOUND as i128) || qx > MAT_BOUND as i128 || qy < -(MAT_BOUND as i128) || qy
        > MAT_BOUND as i128 || qz < -(MAT_BOUND as i128) || qz > MAT_BOUND as i128 {
        return None;
    }
    let ux: i64 = qx as i64;
    let uy: i64 = qy as i64;
    let uz: i64 = qz as i64;
    let fx: i64 = mulb4(m.m0, ux) + mulb4(m.m4, uy) + mulb4(m.m8, uz) + m.m12;
    let fy: i64 = mulb4(m.m1, ux) + mulb4(m.m5, uy) + mulb4(m.m9, uz) + m.m13;
    let fz: i64 = mulb4(m.m2, ux) + mulb4(m.m6, uy) + mulb4(m.m10, uz) + m.m14;
    if fx == p.x && fy == p.y && fz == p.z {
        Some(Vec3 { x: ux, y: uy, z: uz })
    } else {
        None
    }
}

} // verus!
