//! The planar transform component: authoritative local state, derived
//! world-space state, a dirty flag and the two cached matrices.
use vstd::prelude::*;
use crate::math2::MAT_BOUND;
use crate::math2::Vec2;
use crate::math2::Rot2;
use crate::math2::Mat32;
use crate::math2::m2_of;
use crate::math2::m2_compose;
use crate::math2::m2_bounded;
use crate::math2::v2_bounded;
use crate::math2::rot_unit;
use crate::math2::mat32_identity;
use crate::math2::M2;
use crate::math3::Mat4;
use crate::math3::m4_of;
use crate::math3::m4_embed;
use crate::math3::m4_mul;
use crate::math3::m4_bounded;
use crate::math3::mat4_from_mat32;
use crate::math3::mat4_mul;

verus! {

/// Applying a planar affine matrix to a point: the x coordinate.
pub open spec fn tp2_x(m: M2, x: int, y: int) -> int {
    m.a * x + m.c * y + m.x
}

/// Applying a planar affine matrix to a point: the y coordinate.
pub open spec fn tp2_y(m: M2, x: int, y: int) -> int {
    m.b * x + m.d * y + m.y
}

/// The rotation `look_at` adopts: exact when the target lies on an axis
/// through the current world position, the current rotation otherwise.
pub open spec fn look_rot2(dx: int, dy: int, cur: Rot2) -> (int, int) {
    if dy == 0 && dx > 0 {
        (1int, 0int)
    } else if dy == 0 && dx < 0 {
        (-1int, 0int)
    } else if dx == 0 && dy > 0 {
        (0int, 1int)
    } else if dx == 0 && dy < 0 {
        (0int, -1int)
    } else {
        (cur.c as int, cur.s as int)
    }
}

/// A planar (2D) transform held by one entity.
#[derive(Clone, Copy, Debug, PartialEq, Eq, Structural)]
pub struct Transform2D {
    pub entity: usize,
    pub local_position: Vec2,
    pub local_scale: Vec2,
    pub local_rotation: Rot2,
    pub position: Vec2,
    pub scale: Vec2,
    pub rotation: Rot2,
    pub needs_update: bool,
    pub local_matrix: Mat32,
    pub matrix: Mat32,
}

impl Transform2D {
    /// Well-formedness: local state bounded and exact, matrices bounded,
    /// and whenever the transform is clean its cached local matrix is
    /// exactly the composition of its local state.
    pub open spec fn inv(self) -> bool {
        &&& v2_bounded(self.local_position)
        &&& v2_bounded(self.local_scale)
        &&& rot_unit(self.local_rotation)
        &&& rot_unit(self.rotation)
        &&& v2_bounded(self.position)
        &&& -2 * MAT_BOUND <= self.scale.x <= 2 * MAT_BOUND
        &&& -2 * MAT_BOUND <= self.scale.y <= 2 * MAT_BOUND
        &&& m2_bounded(m2_of(self.local_matrix))
        &&& m2_bounded(m2_of(self.matrix))
        &&& !self.needs_update ==> m2_of(self.local_matrix) == m2_compose(
            self.local_position,
            self.local_scale,
            self.local_rotation,
        )
    }

    /// A fresh transform: local and world state at the identity, both
    /// matrices the identity, not in need of an update.
    pub fn new(entity: usize) -> (r: Transform2D)
        ensures
            r.entity == entity,
            r.local_position == (Vec2 { x: 0i64, y: 0i64 }),
            r.local_scale == (Vec2 { x: 1i64, y: 1i64 }),
            r.local_rotation == (Rot2 { c: 1i64, s: 0i64 }),
            r.position == (Vec2 { x: 0i64, y: 0i64 }),
            r.scale == (Vec2 { x: 1i64, y: 1i64 }),
            r.rotation == (Rot2 { c: 1i64, s: 0i64 }),
            !r.needs_update,
            m2_of(r.local_matrix) == crate::math2::m2_ident(),
            m2_of(r.matrix) == crate::math2::m2_ident(),
            r.inv(),
    {
        Transform2D {
            entity,
            local_position: Vec2 { x: 0, y: 0 },
            local_scale: Vec2 { x: 1, y: 1 },
            local_rotation: Rot2 { c: 1, s: 0 },
            position: Vec2 { x: 0, y: 0 },
            scale: Vec2 { x: 1, y: 1 },
            rotation: Rot2 { c: 1, s: 0 },
            needs_update: false,
            local_matrix: mat32_identity(),
            matrix: mat32_identity(),
        }
    }

    pub fn needs_update(&self) -> (r: bool)
        ensures
            r == self.needs_update,
    {
        self.needs_update
    }

    pub fn set_needs_update(&mut self)
        ensures
            *final(self) == (Transform2D { needs_update: true, ..*old(self) }),
    {
        self.needs_update = true;
    }

    pub fn position(&self) -> (r: Vec2)
        ensures
            r == self.position,
    {
        self.position
    }

    pub fn local_position(&self) -> (r: Vec2)
        ensures
            r == self.local_position,
    {
        self.local_position
    }

    /// Overwrites the local position and marks the transform dirty.
    pub fn set_position(&mut self, position: Vec2)
        requires
            old(self).inv(),
            v2_bounded(position),
        ensures
            *final(self) == (Transform2D {
                local_position: position,
                needs_update: true,
                ..*old(self)
            }),
            final(self).inv(),
    {
        self.local_position = position;
        self.needs_update = true;
    }

    pub fn scale(&self) -> (r: Vec2)
        ensures
            r == self.scale,
    {
        self.scale
    }

    pub fn local_scale(&self) -> (r: Vec2)
        ensures
            r == self.local_scale,
    {
        self.local_scale
    }

    /// Overwrites the local scale and marks the transform dirty.
    pub fn set_scale(&mut self, scale: Vec2)
        requires
            old(self).inv(),
            v2_bounded(scale),
        ensures
            *final(self) == (Transform2D { local_scale: scale, needs_update: true, ..*old(self) }),
            final(self).inv(),
    {
        self.local_scale = scale;
        self.needs_update = true;
    }

    pub fn rotation(&self) -> (r: Rot2)
        ensures
            r == self.rotation,
    {
        self.rotation
    }

    pub fn local_rotation(&self) -> (r: Rot2)
        ensures
            r == self.local_rotation,
    {
        self.local_rotation
    }

    /// Overwrites the local rotation and marks the transform dirty.
    pub fn set_rotation(&mut self, rotation: Rot2)
        requires
            old(self).inv(),
            rot_unit(rotation),
        ensures
            *final(self) == (Transform2D {
                local_rotation: rotation,
                needs_update: true,
                ..*old(self)
            }),
            final(self).inv(),
    {
        self.local_rotation = rotation;
        self.needs_update = true;
    }

    /// Adds `translation` to the local position and marks the transform
    /// dirty.
    pub fn translate(&mut self, translation: Vec2)
        requires
            old(self).inv(),
            -MAT_BOUND <= old(self).local_position.x + translation.x <= MAT_BOUND,
            -MAT_BOUND <= old(self).local_position.y + translation.y <= MAT_BOUND,
        ensures
            *final(self) == (Transform2D {
                local_position: Vec2 {
                    x: (old(self).local_position.x + translation.x) as i64,
                    y: (old(self).local_position.y + translation.y) as i64,
                },
                needs_update: true,
                ..*old(self)
            }),
            final(self).inv(),
    {
        self.local_position = Vec2 {
            x: self.local_position.x + translation.x,
            y: self.local_position.y + translation.y,
        };
        self.needs_update = true;
    }

    /// Composes `rotation` onto the local rotation (adding the angles)
    /// and marks the transform dirty.
    pub fn rotate(&mut self, rotation: Rot2)
        requires
            old(self).inv(),
            rot_unit(rotation),
        ensures
            final(self).local_rotation.c == old(self).local_rotation.c * rotation.c - old(
                self,
            ).local_rotation.s * rotation.s,
            final(self).local_rotation.s == old(self).local_rotation.c * rotation.s + old(
                self,
            ).local_rotation.s * rotation.c,
            *final(self) == (Transform2D {
                local_rotation: final(self).local_rotation,
                needs_update: true,
                ..*old(self)
            }),
            final(self).inv(),
    {
        let a = self.local_rotation;
        proof {
            crate::math2::lemma_rot_components(a);
            crate::math2::lemma_rot_components(rotation);
            assert((a.c * rotation.c - a.s * rotation.s) * (a.c * rotation.c - a.s * rotation.s) + (
            a.c * rotation.s + a.s * rotation.c) * (a.c * rotation.s + a.s * rotation.c) == 1)
                by (nonlinear_arith)
                requires
                    a.c * a.c + a.s * a.s == 1,
                    rotation.c * rotation.c + rotation.s * rotation.s == 1,
            ;
            assert(-1 <= a.c * rotation.c <= 1 && -1 <= a.s * rotation.s <= 1 && -1 <= a.c
                * rotation.s <= 1 && -1 <= a.s * rotation.c <= 1) by (nonlinear_arith)
                requires
                    -1 <= a.c <= 1,
                    -1 <= a.s <= 1,
                    -1 <= rotation.c <= 1,
                    -1 <= rotation.s <= 1,
            ;
        }
        self.local_rotation = Rot2 {
            c: a.c * rotation.c - a.s * rotation.s,
            s: a.c * rotation.s + a.s * rotation.c,
        };
        self.needs_update = true;
    }

    /// Points the rotation from the current world position toward
    /// `target` and marks the transform dirty. On the integers the new
    /// angle is exact only when the target lies on an axis through the
    /// world position; otherwise the rotation is left as it was.
    pub fn look_at(&mut self, target: Vec2)
        requires
            old(self).inv(),
            v2_bounded(target),
        ensures
            ({
                let r = look_rot2(
                    target.x - old(self).position.x,
                    target.y - old(self).position.y,
                    old(self).local_rotation,
                );
                final(self).local_rotation.c == r.0 && final(self).local_rotation.s == r.1
            }),
            *final(self) == (Transform2D {
                local_rotation: final(self).local_rotation,
                needs_update: true,
                ..*old(self)
            }),
            final(self).inv(),
    {
        let dx = target.x - self.position.x;
        let dy = target.y - self.position.y;
        if dy == 0 && dx > 0 {
            self.local_rotation = Rot2 { c: 1, s: 0 };
        } else if dy == 0 && dx < 0 {
            self.local_rotation = Rot2 { c: -1, s: 0 };
        } else if dx == 0 && dy > 0 {
            self.local_rotation = Rot2 { c: 0, s: 1 };
        } else if dx == 0 && dy < 0 {
            self.local_rotation = Rot2 { c: 0, s: -1 };
        }
        proof {
            assert(rot_unit(self.local_rotation)) by (nonlinear_arith)
                requires
                    (self.local_rotation.c == 1 && self.local_rotation.s == 0) || (
                    self.local_rotation.c == -1 && self.local_rotation.s == 0) || (
                    self.local_rotation.c == 0 && self.local_rotation.s == 1) || (
                    self.local_rotation.c == 0 && self.local_rotation.s == -1) || rot_unit(
                        self.local_rotation,
                    ),
            ;
        }
        self.needs_update = true;
    }

    /// Transforms a point from this entity's local space to world space
    /// by the cached world matrix. The caller must have resolved the
    /// transform this cycle, else the result uses the stale matrix.
    pub fn local_to_world(&self, v: Vec2) -> (r: Vec2)
        requires
            self.inv(),
            v2_bounded(v),
        ensures
            r.x == tp2_x(m2_of(self.matrix), v.x as int, v.y as int),
            r.y == tp2_y(m2_of(self.matrix), v.x as int, v.y as int),
    {
        let m = &self.matrix;
        proof {
            assert(-1152921504606846976 <= m.m0 * v.x <= 1152921504606846976
                && -1152921504606846976 <= m.m2 * v.y <= 1152921504606846976
                && -1152921504606846976 <= m.m1 * v.x <= 1152921504606846976
                && -1152921504606846976 <= m.m3 * v.y <= 1152921504606846976) by (nonlinear_arith)
                requires
                    -MAT_BOUND <= m.m0 <= MAT_BOUND,
                    -MAT_BOUND <= m.m1 <= MAT_BOUND,
                    -MAT_BOUND <= m.m2 <= MAT_BOUND,
                    -MAT_BOUND <= m.m3 <= MAT_BOUND,
                    -MAT_BOUND <= v.x <= MAT_BOUND,
                    -MAT_BOUND <= v.y <= MAT_BOUND,
            ;
        }
        Vec2 { x: m.m0 * v.x + m.m2 * v.y + m.m4, y: m.m1 * v.x + m.m3 * v.y + m.m5 }
    }

    /// The cached world matrix expanded into a homogeneous 4x4 matrix,
    /// with the z axis untouched.
    pub fn world_matrix(&self) -> (r: Mat4)
        ensures
            m4_of(r) == m4_embed(m2_of(self.matrix)),
    {
        mat4_from_mat32(&self.matrix)
    }

    /// The model-view matrix: the given view matrix times this entity's
    /// expanded world matrix.
    pub fn model_view_matrix(&self, view_matrix: &Mat4) -> (r: Mat4)
        requires
            self.inv(),
            m4_bounded(m4_of(*view_matrix)),
        ensures
            m4_of(r) == m4_mul(m4_of(*view_matrix), m4_embed(m2_of(self.matrix))),
    {
        let w = mat4_from_mat32(&self.matrix);
        mat4_mul(view_matrix, &w)
    }


    /// Transforms a point from world space back to this entity's local
    /// space: the exact integer preimage under the cached world matrix.
    /// `None` means the matrix is singular or no point within the
    /// coordinate bound maps onto `v`.
    pub fn world_to_local(&self, v: Vec2) -> (r: Option<Vec2>)
        requires
            self.inv(),
            v2_bounded(v),
        ensures
            ({
                let mm = m2_of(self.matrix);
                match r {
                    Some(u) => v2_bounded(u) && crate::math2::maps2(
                        mm,
                        u.x as int,
                        u.y as int,
                        v.x as int,
                        v.y as int,
                    ),
                    None => crate::math2::det2(mm) == 0 || forall|ux: int, uy: int|
                        !(-MAT_BOUND <= ux <= MAT_BOUND && -MAT_BOUND <= uy <= MAT_BOUND
                            && #[trigger] crate::math2::maps2(mm, ux, uy, v.x as int, v.y as int)),
                }
            }),
    {
        crate::math2::solve_point2(&self.matrix, v)
    }


    /// The normal matrix for lighting under non-uniform scale: the
    /// transpose of the inverse of the model-view matrix's upper-left
    /// 3x3 block, exact on the integers where every cofactor is a
    /// multiple of the determinant; see `mat3_normal_from_mat4`.
    pub fn normal_matrix(&self, model_view_matrix: &Mat4) -> (r: Option<crate::math3::Mat3>)
        requires
            m4_bounded(m4_of(*model_view_matrix)),
        ensures
            ({
                let mm = m4_of(*model_view_matrix);
                match r {
                    Some(n) => crate::math3::det3(mm) != 0 && n.n0 * crate::math3::det3(mm)
                        == crate::math3::adj3(mm, 0, 0) && n.n1 * crate::math3::det3(mm)
                        == crate::math3::adj3(mm, 0, 1) && n.n4 * crate::math3::det3(mm)
                        == crate::math3::adj3(mm, 1, 1) && n.n8 * crate::math3::det3(mm)
                        == crate::math3::adj3(mm, 2, 2),
                    None => crate::math3::det3(mm) == 0 || exists|rr: int, cc: int|
                        0 <= rr < 3 && 0 <= cc < 3 && !crate::math3::divides(
                            crate::math3::det3(mm),
                            #[trigger] crate::math3::adj3(mm, rr, cc),
                        ),
                }
            }),
    {
        crate::math3::mat3_normal_from_mat4(model_view_matrix)
    }

    pub fn matrix(&self) -> (r: Mat32)
        ensures
            r == self.matrix,
    {
        self.matrix
    }

    pub fn local_matrix(&self) -> (r: Mat32)
        ensures
            r == self.local_matrix,
    {
        self.local_matrix
    }
}

} // verus!
