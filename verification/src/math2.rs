//! Planar (2D) affine transform arithmetic over exact integers.
//!
//! A planar affine matrix has six entries, laid out as the two columns of the
//! linear part followed by the translation: `[a b c d x y]` stands for the
//! linear columns `(a, b)` and `(c, d)` and the translation `(x, y)`.
//! Rotations are represented exactly by their cosine and sine, which on the
//! integers confines them to the unit circle's four lattice points.
use vstd::prelude::*;

verus! {

/// Every matrix entry handled by the resolver stays within this bound, so
/// that products and sums of two bounded matrices fit in an `i64`.
pub const MAT_BOUND: i64 = 1073741824;

/// A planar point or scale.
#[derive(Clone, Copy, Debug, PartialEq, Eq, Structural)]
pub struct Vec2 {
    pub x: i64,
    pub y: i64,
}

/// A planar rotation, given exactly by its cosine and sine.
#[derive(Clone, Copy, Debug, PartialEq, Eq, Structural)]
pub struct Rot2 {
    pub c: i64,
    pub s: i64,
}

/// A planar affine matrix: linear columns `(m0, m1)` and `(m2, m3)`,
/// translation `(m4, m5)`.
#[derive(Clone, Copy, Debug, PartialEq, Eq, Structural)]
pub struct Mat32 {
    pub m0: i64,
    pub m1: i64,
    pub m2: i64,
    pub m3: i64,
    pub m4: i64,
    pub m5: i64,
}

/// The mathematical value of a planar affine matrix.
pub ghost struct M2 {
    pub a: int,
    pub b: int,
    pub c: int,
    pub d: int,
    pub x: int,
    pub y: int,
}

pub open spec fn m2_of(m: Mat32) -> M2 {
    M2 { a: m.m0 as int, b: m.m1 as int, c: m.m2 as int, d: m.m3 as int, x: m.m4 as int, y: m.m5 as int }
}

pub open spec fn mat32_of_m2(m: M2) -> Mat32 {
    Mat32 { m0: m.a as i64, m1: m.b as i64, m2: m.c as i64, m3: m.d as i64, m4: m.x as i64, m5: m.y as i64 }
}

pub open spec fn m2_ident() -> M2 {
    M2 { a: 1, b: 0, c: 0, d: 1, x: 0, y: 0 }
}

/// Matrix product `p * l`: the transform that applies `l` first, then `p`.
pub open spec fn m2_mul(p: M2, l: M2) -> M2 {
    M2 {
        a: p.a * l.a + p.c * l.b,
        b: p.b * l.a + p.d * l.b,
        c: p.a * l.c + p.c * l.d,
        d: p.b * l.c + p.d * l.d,
        x: p.a * l.x + p.c * l.y + p.x,
        y: p.b * l.x + p.d * l.y + p.y,
    }
}

/// The affine matrix built from a translation, a scale and a rotation:
/// rotation times scale in the linear part, the position as translation.
pub open spec fn m2_compose(p: Vec2, s: Vec2, r: Rot2) -> M2 {
    M2 {
        a: s.x * r.c,
        b: s.x * r.s,
        c: -(s.y * r.s),
        d: s.y * r.c,
        x: p.x as int,
        y: p.y as int,
    }
}

pub open spec fn rot_unit(r: Rot2) -> bool {
    r.c * r.c + r.s * r.s == 1
}

pub open spec fn v2_bounded(v: Vec2) -> bool {
    -MAT_BOUND <= v.x <= MAT_BOUND && -MAT_BOUND <= v.y <= MAT_BOUND
}

pub open spec fn m2_bounded(m: M2) -> bool {
    &&& -MAT_BOUND <= m.a <= MAT_BOUND
    &&& -MAT_BOUND <= m.b <= MAT_BOUND
    &&& -MAT_BOUND <= m.c <= MAT_BOUND
    &&& -MAT_BOUND <= m.d <= MAT_BOUND
    &&& -MAT_BOUND <= m.x <= MAT_BOUND
    &&& -MAT_BOUND <= m.y <= MAT_BOUND
}

pub fn mat32_identity() -> (r: Mat32)
    ensures
        m2_of(r) == m2_ident(),
{
    Mat32 { m0: 1, m1: 0, m2: 0, m3: 0 + 1, m4: 0, m5: 0 }
}

/// Product of two entries, both within the resolver's bound.
fn mulb(a: i64, b: i64) -> (r: i64)
    requires
        -MAT_BOUND <= a <= MAT_BOUND,
        -MAT_BOUND <= b <= MAT_BOUND,
    ensures
        r == a * b,
        -1152921504606846976 <= r <= 1152921504606846976,
{
    proof {
        assert(-1152921504606846976 <= a * b <= 1152921504606846976) by (nonlinear_arith)
            requires
                -MAT_BOUND <= a <= MAT_BOUND,
                -MAT_BOUND <= b <= MAT_BOUND,
        ;
    }
    a * b
}

/// Product of a bounded entry with one at most twice the bound.
fn mulw(a: i64, b: i64) -> (r: i64)
    requires
        -MAT_BOUND <= a <= MAT_BOUND,
        -2 * MAT_BOUND <= b <= 2 * MAT_BOUND,
    ensures
        r == a * b,
        -2305843009213693952 <= r <= 2305843009213693952,
{
    proof {
        assert(-2305843009213693952 <= a * b <= 2305843009213693952) by (nonlinear_arith)
            requires
                -MAT_BOUND <= a <= MAT_BOUND,
                -2 * MAT_BOUND <= b <= 2 * MAT_BOUND,
        ;
    }
    a * b
}

pub fn mat32_mul(p: &Mat32, l: &Mat32) -> (r: Mat32)
    requires
        m2_bounded(m2_of(*p)),
        m2_bounded(m2_of(*l)),
    ensures
        m2_of(r) == m2_mul(m2_of(*p), m2_of(*l)),
{
    Mat32 {
        m0: mulb(p.m0, l.m0) + mulb(p.m2, l.m1),
        m1: mulb(p.m1, l.m0) + mulb(p.m3, l.m1),
        m2: mulb(p.m0, l.m2) + mulb(p.m2, l.m3),
        m3: mulb(p.m1, l.m2) + mulb(p.m3, l.m3),
        m4: mulb(p.m0, l.m4) + mulb(p.m2, l.m5) + p.m4,
        m5: mulb(p.m1, l.m4) + mulb(p.m3, l.m5) + p.m5,
    }
}

pub proof fn lemma_rot_components(r: Rot2)
    requires
        rot_unit(r),
    ensures
        -1 <= r.c <= 1,
        -1 <= r.s <= 1,
{
    assert(-1 <= r.c <= 1 && -1 <= r.s <= 1) by (nonlinear_arith)
        requires
            r.c * r.c + r.s * r.s == 1,
    ;
}

pub fn mat32_compose(p: Vec2, s: Vec2, r: Rot2) -> (out: Mat32)
    requires
        v2_bounded(p),
        v2_bounded(s),
        rot_unit(r),
    ensures
        m2_of(out) == m2_compose(p, s, r),
        m2_bounded(m2_of(out)),
{
    proof {
        lemma_rot_components(r);
        assert(-MAT_BOUND <= s.x * r.c <= MAT_BOUND && -MAT_BOUND <= s.x * r.s <= MAT_BOUND
            && -MAT_BOUND <= s.y * r.s <= MAT_BOUND && -MAT_BOUND <= s.y * r.c <= MAT_BOUND)
            by (nonlinear_arith)
            requires
                -MAT_BOUND <= s.x <= MAT_BOUND,
                -MAT_BOUND <= s.y <= MAT_BOUND,
                -1 <= r.c <= 1,
                -1 <= r.s <= 1,
        ;
    }
    Mat32 { m0: s.x * r.c, m1: s.x * r.s, m2: -(s.y * r.s), m3: s.y * r.c, m4: p.x, m5: p.y }
}

pub open spec fn is_sqrt_floor(n: int, r: int) -> bool {
    0 <= r && r * r <= n && n < (r + 1) * (r + 1)
}

/// The integer square root: the greatest `r` with `r * r <= n`.
pub open spec fn sqrt_floor(n: int) -> int {
    choose|r: int| is_sqrt_floor(n, r)
}

pub proof fn lemma_sqrt_floor_is(n: int, r: int)
    requires
        is_sqrt_floor(n, r),
    ensures
        sqrt_floor(n) == r,
{
    assert(exists|q: int| is_sqrt_floor(n, q)) by {
        assert(is_sqrt_floor(n, r));
    }
    let q = sqrt_floor(n);
    assert(is_sqrt_floor(n, q));
    if q < r {
        assert((q + 1) * (q + 1) <= r * r) by (nonlinear_arith)
            requires
                0 <= q,
                q < r,
        ;
        assert(false);
    }
    if r < q {
        assert((r + 1) * (r + 1) <= q * q) by (nonlinear_arith)
            requires
                0 <= r,
                r < q,
        ;
        assert(false);
    }
}

pub fn isqrt64(n: u64) -> (r: u64)
    requires
        n < 0x4000000000000000,
    ensures
        is_sqrt_floor(n as int, r as int),
        r == sqrt_floor(n as int),
{
    let mut lo: u64 = 0;
    let mut hi: u64 = 0x80000000;
    while lo + 1 < hi
        invariant
            lo < hi,
            hi <= 0x80000000u64,
            lo * lo <= n,
            n < hi * hi,
        decreases hi - lo,
    {
        let mid: u64 = lo + (hi - lo) / 2;
        proof {
            assert(mid * mid <= 0x4000000000000000) by (nonlinear_arith)
                requires
                    mid <= 0x80000000u64,
            ;
        }
        if mid * mid <= n {
            lo = mid;
        } else {
            hi = mid;
        }
    }
    proof {
        lemma_sqrt_floor_is(n as int, lo as int);
    }
    lo
}

/// The rotation read off a linear column `(a, b)` of length `s`: exact when
/// the column lies on an axis, the identity rotation otherwise.
pub open spec fn rot_extract(a: int, b: int, s: int) -> (int, int) {
    if s > 0 && a == s && b == 0 {
        (1int, 0int)
    } else if s > 0 && a == -s && b == 0 {
        (-1int, 0int)
    } else if s > 0 && a == 0 && b == s {
        (0int, 1int)
    } else if s > 0 && a == 0 && b == -s {
        (0int, -1int)
    } else {
        (1int, 0int)
    }
}

/// The decomposition of a planar affine matrix: translation read directly,
/// scale as the length of each linear column, rotation from the first column
/// where it is exact, the identity rotation otherwise.
pub ghost struct D2 {
    pub px: int,
    pub py: int,
    pub sx: int,
    pub sy: int,
    pub rc: int,
    pub rs: int,
}

pub open spec fn decompose2_spec(m: M2) -> D2 {
    let sx = sqrt_floor(m.a * m.a + m.b * m.b);
    let sy = sqrt_floor(m.c * m.c + m.d * m.d);
    let r = rot_extract(m.a, m.b, sx);
    D2 { px: m.x, py: m.y, sx: sx, sy: sy, rc: r.0, rs: r.1 }
}

/// Column length: the integer square root of `a*a + b*b`.
fn col_len2(a: i64, b: i64) -> (r: i64)
    requires
        -MAT_BOUND <= a <= MAT_BOUND,
        -MAT_BOUND <= b <= MAT_BOUND,
    ensures
        r == sqrt_floor(a * a + b * b),
        0 <= r <= 2 * MAT_BOUND,
{
    let aa: i64 = mulb(a, a);
    let bb: i64 = mulb(b, b);
    proof {
        assert(a * a >= 0 && b * b >= 0) by (nonlinear_arith);
    }
    let n: u64 = (aa + bb) as u64;
    let r64: u64 = isqrt64(n);
    proof {
        assert(r64 * r64 <= n as int);
        assert(r64 <= 2147483648u64) by (nonlinear_arith)
            requires
                r64 * r64 <= 2305843009213693952,
        ;
    }
    r64 as i64
}

pub fn mat32_decompose(m: &Mat32) -> (r: (Vec2, Vec2, Rot2))
    requires
        m2_bounded(m2_of(*m)),
    ensures
        ({
            let d = decompose2_spec(m2_of(*m));
            r.0.x == d.px && r.0.y == d.py && r.1.x == d.sx && r.1.y == d.sy && r.2.c == d.rc
                && r.2.s == d.rs
        }),
        rot_unit(r.2),
        0 <= r.1.x <= 2 * MAT_BOUND,
        0 <= r.1.y <= 2 * MAT_BOUND,
{
    let sx: i64 = col_len2(m.m0, m.m1);
    let sy: i64 = col_len2(m.m2, m.m3);
    let rot: Rot2 = if sx > 0 && m.m0 == sx && m.m1 == 0 {
        Rot2 { c: 1, s: 0 }
    } else if sx > 0 && m.m0 == -sx && m.m1 == 0 {
        Rot2 { c: -1, s: 0 }
    } else if sx > 0 && m.m0 == 0 && m.m1 == sx {
        Rot2 { c: 0, s: 1 }
    } else if sx > 0 && m.m0 == 0 && m.m1 == -sx {
        Rot2 { c: 0, s: -1 }
    } else {
        Rot2 { c: 1, s: 0 }
    };
    proof {
        assert(rot.c * rot.c + rot.s * rot.s == 1) by (nonlinear_arith)
            requires
                (rot.c == 1 && rot.s == 0) || (rot.c == -1 && rot.s == 0) || (rot.c == 0 && rot.s
                    == 1) || (rot.c == 0 && rot.s == -1),
        ;
    }
    (Vec2 { x: m.m4, y: m.m5 }, Vec2 { x: sx, y: sy }, rot)
}

/// Composing a translation, a positive scale and an exact rotation and then
/// decomposing the matrix returns exactly the inputs.
pub proof fn lemma_compose_decompose_2d(p: Vec2, s: Vec2, r: Rot2)
    requires
        rot_unit(r),
        0 < s.x,
        0 < s.y,
    ensures
        ({
            let d = decompose2_spec(m2_compose(p, s, r));
            d.px == p.x && d.py == p.y && d.sx == s.x && d.sy == s.y && d.rc == r.c && d.rs == r.s
        }),
{
    lemma_rot_components(r);
    let m = m2_compose(p, s, r);
    assert(s.x * s.x < (s.x + 1) * (s.x + 1)) by (nonlinear_arith)
        requires
            0 < s.x,
    ;
    assert(s.y * s.y < (s.y + 1) * (s.y + 1)) by (nonlinear_arith)
        requires
            0 < s.y,
    ;
    assert(is_sqrt_floor(s.x * s.x, s.x as int));
    assert(is_sqrt_floor(s.y * s.y, s.y as int));
    assert((r.c == 1 && r.s == 0) || (r.c == -1 && r.s == 0) || (r.c == 0 && r.s == 1) || (r.c == 0
        && r.s == -1)) by (nonlinear_arith)
        requires
            r.c * r.c + r.s * r.s == 1,
    ;
    if r.c == 1 && r.s == 0 {
        assert(m.a == s.x && m.b == 0 && m.c == 0 && m.d == s.y) by (nonlinear_arith)
            requires
                m.a == s.x * r.c,
                m.b == s.x * r.s,
                m.c == -(s.y * r.s),
                m.d == s.y * r.c,
                r.c == 1,
                r.s == 0,
        ;
    } else if r.c == -1 && r.s == 0 {
        assert(m.a == -s.x && m.b == 0 && m.c == 0 && m.d == -s.y) by (nonlinear_arith)
            requires
                m.a == s.x * r.c,
                m.b == s.x * r.s,
                m.c == -(s.y * r.s),
                m.d == s.y * r.c,
                r.c == -1,
                r.s == 0,
        ;
    } else if r.c == 0 && r.s == 1 {
        assert(m.a == 0 && m.b == s.x && m.c == -s.y && m.d == 0) by (nonlinear_arith)
            requires
                m.a == s.x * r.c,
                m.b == s.x * r.s,
                m.c == -(s.y * r.s),
                m.d == s.y * r.c,
                r.c == 0,
                r.s == 1,
        ;
    } else {
        assert(m.a == 0 && m.b == -s.x && m.c == s.y && m.d == 0) by (nonlinear_arith)
            requires
                m.a == s.x * r.c,
                m.b == s.x * r.s,
                m.c == -(s.y * r.s),
                m.d == s.y * r.c,
                r.c == 0,
                r.s == -1,
        ;
    }
    assert(m.a * m.a + m.b * m.b == s.x * s.x && m.c * m.c + m.d * m.d == s.y * s.y)
        by (nonlinear_arith)
        requires
            (m.a == s.x && m.b == 0 && m.c == 0 && m.d == s.y) || (m.a == -s.x && m.b == 0 && m.c
                == 0 && m.d == -s.y) || (m.a == 0 && m.b == s.x && m.c == -s.y && m.d == 0) || (m.a
                == 0 && m.b == -s.x && m.c == s.y && m.d == 0),
    ;
    lemma_sqrt_floor_is(m.a * m.a + m.b * m.b, s.x as int);
    lemma_sqrt_floor_is(m.c * m.c + m.d * m.d, s.y as int);
}

/// Whether `k * d == n`: `n` is an exact multiple of `d` with quotient `k`.
pub open spec fn mul_eq(k: int, d: int, n: int) -> bool {
    k * d == n
}

/// The exact integer quotient of `n` by `d`, where one exists.
fn div_exact(n: i64, d: i64) -> (r: Option<i64>)
    requires
        d != 0,
        -4611686018427387904 <= n <= 4611686018427387904,
        -4611686018427387904 <= d <= 4611686018427387904,
    ensures
        match r {
            Some(q) => q * d == n,
            None => forall|k: int| !mul_eq(k, d as int, n as int),
        },
{
    let na: u64 = if n < 0 {
        (-n) as u64
    } else {
        n as u64
    };
    let da: u64 = if d < 0 {
        (-d) as u64
    } else {
        d as u64
    };
    if na % da == 0 {
        let qa: u64 = na / da;
        proof {
            vstd::arithmetic::div_mod::lemma_fundamental_div_mod(na as int, da as int);
            assert(na as int == da as int * qa as int);
            assert(qa * da == na) by (nonlinear_arith)
                requires
                    na as int == da as int * qa as int,
            ;
            assert(qa <= na) by (nonlinear_arith)
                requires
                    qa * da == na,
                    da >= 1,
                    qa >= 0,
            ;
        }
        let q: i64 = if (n < 0) != (d < 0) {
            -(qa as i64)
        } else {
            qa as i64
        };
        proof {
            assert(q * d == n) by (nonlinear_arith)
                requires
                    qa * da == na,
                    na == (if n < 0 { -(n as int) } else { n as int }),
                    da == (if d < 0 { -(d as int) } else { d as int }),
                    q == (if (n < 0) != (d < 0) { -(qa as int) } else { qa as int }),
            ;
        }
        Some(q)
    } else {
        proof {
            assert forall|k: int| !mul_eq(k, d as int, n as int) by {
                if mul_eq(k, d as int, n as int) {
                    let ka: int = if k < 0 { -k } else { k };
                    assert(ka * da == na) by (nonlinear_arith)
                        requires
                            k * d == n,
                            ka == (if k < 0 { -k } else { k }),
                            na == (if n < 0 { -(n as int) } else { n as int }),
                            da == (if d < 0 { -(d as int) } else { d as int }),
                    ;
                    vstd::arithmetic::div_mod::lemma_mod_multiples_basic(ka, da as int);
                    assert(false);
                }
            }
        }
        None
    }
}

/// Whether the planar matrix carries the point `(ux, uy)` to `(px, py)`.
pub open spec fn maps2(m: M2, ux: int, uy: int, px: int, py: int) -> bool {
    m.a * ux + m.c * uy + m.x == px && m.b * ux + m.d * uy + m.y == py
}

/// The determinant of the linear part of a planar matrix.
pub open spec fn det2(m: M2) -> int {
    m.a * m.d - m.c * m.b
}

/// Cramer's rule: a preimage of a point under an affine map satisfies the
/// scaled solution equations, whatever the determinant.
#[verifier::rlimit(50)]
proof fn lemma_cramer2(m: M2, ux: int, uy: int, px: int, py: int)
    requires
        maps2(m, ux, uy, px, py),
    ensures
        ux * det2(m) == m.d * (px - m.x) - m.c * (py - m.y),
        uy * det2(m) == m.a * (py - m.y) - m.b * (px - m.x),
{
    assert(ux * (m.a * m.d - m.c * m.b) == m.d * (px - m.x) - m.c * (py - m.y)) by (nonlinear_arith)
        requires
            m.a * ux + m.c * uy + m.x == px,
            m.b * ux + m.d * uy + m.y == py,
    ;
    assert(uy * (m.a * m.d - m.c * m.b) == m.a * (py - m.y) - m.b * (px - m.x)) by (nonlinear_arith)
        requires
            m.a * ux + m.c * uy + m.x == px,
            m.b * ux + m.d * uy + m.y == py,
    ;
}

pub proof fn lemma_cancel(u: int, q: int, d: int)
    requires
        u * d == q * d,
        d != 0,
    ensures
        u == q,
{
    assert(u == q) by (nonlinear_arith)
        requires
            u * d == q * d,
            d != 0,
    ;
}

/// The exact integer preimage of a point under a planar affine matrix:
/// `Some(u)` only if the matrix carries `u` to the point exactly, `None`
/// only if the matrix is singular or no point within the coordinate
/// bound is carried to it.
pub fn solve_point2(m: &Mat32, p: Vec2) -> (r: Option<Vec2>)
    requires
        m2_bounded(m2_of(*m)),
        v2_bounded(p),
    ensures
        ({
            let mm = m2_of(*m);
            match r {
                Some(u) => v2_bounded(u) && maps2(mm, u.x as int, u.y as int, p.x as int, p.y as int),
                None => det2(mm) == 0 || forall|ux: int, uy: int|
                    !(-MAT_BOUND <= ux <= MAT_BOUND && -MAT_BOUND <= uy <= MAT_BOUND && #[trigger] maps2(
                        mm,
                        ux,
                        uy,
                        p.x as int,
                        p.y as int,
                    )),
            }
        }),
{
    let ghost mm = m2_of(*m);
    let det: i64 = mulb(m.m0, m.m3) - mulb(m.m2, m.m1);
    if det == 0 {
        return None;
    }
    let dx: i64 = p.x - m.m4;
    let dy: i64 = p.y - m.m5;
    let nx: i64 = mulw(m.m3, dx) - mulw(m.m2, dy);
    let ny: i64 = mulw(m.m0, dy) - mulw(m.m1, dx);
    let qx_opt = div_exact(nx, det);
    let qy_opt = div_exact(ny, det);
    if qx_opt.is_none() || qy_opt.is_none() {
        proof {
            assert forall|ux: int, uy: int|
                !(-MAT_BOUND <= ux <= MAT_BOUND && -MAT_BOUND <= uy <= MAT_BOUND && #[trigger] maps2(
                    mm,
                    ux,
                    uy,
                    p.x as int,
                    p.y as int,
                )) by {
                if maps2(mm, ux, uy, p.x as int, p.y as int) {
                    lemma_cramer2(mm, ux, uy, p.x as int, p.y as int);
                    assert(mul_eq(ux, det as int, nx as int));
                    assert(mul_eq(uy, det as int, ny as int));
                }
            }
        }
        return None;
    }
    let qx: i64 = qx_opt.unwrap();
    let qy: i64 = qy_opt.unwrap();
    if qx < -MAT_BOUND || qx > MAT_BOUND || qy < -MAT_BOUND || qy > MAT_BOUND {
        proof {
            assert forall|ux: int, uy: int|
                !(-MAT_BOUND <= ux <= MAT_BOUND && -MAT_BOUND <= uy <= MAT_BOUND && #[trigger] maps2(
                    mm,
                    ux,
                    uy,
                    p.x as int,
                    p.y as int,
                )) by {
                if -MAT_BOUND <= ux <= MAT_BOUND && -MAT_BOUND <= uy <= MAT_BOUND && maps2(
                    mm,
                    ux,
                    uy,
                    p.x as int,
                    p.y as int,
                ) {
                    lemma_cramer2(mm, ux, uy, p.x as int, p.y as int);
                    lemma_cancel(ux, qx as int, det as int);
                    lemma_cancel(uy, qy as int, det as int);
                }
            }
        }
        return None;
    }
    let fx: i64 = mulb(m.m0, qx) + mulb(m.m2, qy) + m.m4;
    let fy: i64 = mulb(m.m1, qx) + mulb(m.m3, qy) + m.m5;
    if fx == p.x && fy == p.y {
        Some(Vec2 { x: qx, y: qy })
    } else {
        proof {
            assert forall|ux: int, uy: int|
                !(-MAT_BOUND <= ux <= MAT_BOUND && -MAT_BOUND <= uy <= MAT_BOUND && #[trigger] maps2(
                    mm,
                    ux,
                    uy,
                    p.x as int,
                    p.y as int,
                )) by {
                if maps2(mm, ux, uy, p.x as int, p.y as int) {
                    lemma_cramer2(mm, ux, uy, p.x as int, p.y as int);
                    lemma_cancel(ux, qx as int, det as int);
                    lemma_cancel(uy, qy as int, det as int);
                }
            }
        }
        None
    }
}

} // verus!
