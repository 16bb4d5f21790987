//! The spatial transform component: authoritative local state, derived
//! world-space state, a dirty flag and the two cached matrices.
use vstd::prelude::*;
use crate::math2::MAT_BOUND;
use crate::math3::Vec3;
use crate::math3::Quat;
use crate::math3::Mat4;
use crate::math3::M4;
use crate::math3::m4_of;
use crate::math3::m4_compose;
use crate::math3::m4_bounded;
use crate::math3::m4_mul;
use crate::math3::v3_bounded;
use crate::math3::quat_unit;
use crate::math3::quat_mul;
use crate::math3::quat_mul_x;
use crate::math3::quat_mul_y;
use crate::math3::quat_mul_z;
use crate::math3::quat_mul_w;
use crate::math3::mat4_identity;
use crate::math3::mat4_mul;

verus! {

/// Applying a homogeneous matrix to a point, taking the point's fourth
/// coordinate as one: the x coordinate.
pub open spec fn tp3_x(m: M4, x: int, y: int, z: int) -> int {
    m.e0 * x + m.e4 * y + m.e8 * z + m.e12
}

/// Applying a homogeneous matrix to a point: the y coordinate.
pub open spec fn tp3_y(m: M4, x: int, y: int, z: int) -> int {
    m.e1 * x + m.e5 * y + m.e9 * z + m.e13
}

/// Applying a homogeneous matrix to a point: the z coordinate.
pub open spec fn tp3_z(m: M4, x: int, y: int, z: int) -> int {
    m.e2 * x + m.e6 * y + m.e10 * z + m.e14
}

/// The rotation `look_at` adopts: the looking direction must run along
/// the z axis and the up vector along the y axis, the only cases the
/// integer unit quaternions represent; any other aim leaves the current
/// rotation in place.
pub open spec fn look_quat3(d: (int, int, int), up: (int, int, int), cur: Quat) -> (
    int,
    int,
    int,
    int,
) {
    if d.0 == 0 && d.1 == 0 && d.2 != 0 && up.0 == 0 && up.2 == 0 && up.1 != 0 {
        if d.2 < 0 && up.1 > 0 {
            (0int, 0int, 0int, 1int)
        } else if d.2 < 0 && up.1 < 0 {
            (0int, 0int, 1int, 0int)
        } else if d.2 > 0 && up.1 < 0 {
            (1int, 0int, 0int, 0int)
        } else {
            (0int, 1int, 0int, 0int)
        }
    } else {
        (cur.x as int, cur.y as int, cur.z as int, cur.w as int)
    }
}

/// A spatial (3D) transform held by one entity.
#[derive(Clone, Copy, Debug, PartialEq, Eq, Structural)]
pub struct Transform3D {
    pub entity: usize,
    pub local_position: Vec3,
    pub local_scale: Vec3,
    pub local_rotation: Quat,
    pub position: Vec3,
    pub scale: Vec3,
    pub rotation: Quat,
    pub needs_update: bool,
    pub local_matrix: Mat4,
    pub matrix: Mat4,
}

impl Transform3D {
    /// Well-formedness: local state bounded and exact, matrices bounded,
    /// and whenever the transform is clean its cached local matrix is
    /// exactly the composition of its local state.
    pub open spec fn inv(self) -> bool {
        &&& v3_bounded(self.local_position)
        &&& v3_bounded(self.local_scale)
        &&& quat_unit(self.local_rotation)
        &&& quat_unit(self.rotation)
        &&& v3_bounded(self.position)
        &&& -2 * MAT_BOUND <= self.scale.x <= 2 * MAT_BOUND
        &&& -2 * MAT_BOUND <= self.scale.y <= 2 * MAT_BOUND
        &&& -2 * MAT_BOUND <= self.scale.z <= 2 * MAT_BOUND
        &&& m4_bounded(m4_of(self.local_matrix))
        &&& m4_bounded(m4_of(self.matrix))
        &&& !self.needs_update ==> m4_of(self.local_matrix) == m4_compose(
            self.local_position,
            self.local_scale,
            self.local_rotation,
        )
    }

    /// A fresh transform: local and world state at the identity, both
    /// matrices the identity, not in need of an update.
    pub fn new(entity: usize) -> (r: Transform3D)
        ensures
            r.entity == entity,
            r.local_position == (Vec3 { x: 0i64, y: 0i64, z: 0i64 }),
            r.local_scale == (Vec3 { x: 1i64, y: 1i64, z: 1i64 }),
            r.local_rotation == (Quat { x: 0i64, y: 0i64, z: 0i64, w: 1i64 }),
            r.position == (Vec3 { x: 0i64, y: 0i64, z: 0i64 }),
            r.scale == (Vec3 { x: 1i64, y: 1i64, z: 1i64 }),
            r.rotation == (Quat { x: 0i64, y: 0i64, z: 0i64, w: 1i64 }),
            !r.needs_update,
            m4_of(r.local_matrix) == crate::math3::m4_ident(),
            m4_of(r.matrix) == crate::math3::m4_ident(),
            r.inv(),
    {
        Transform3D {
            entity,
            local_position: Vec3 { x: 0, y: 0, z: 0 },
            local_scale: Vec3 { x: 1, y: 1, z: 1 },
            local_rotation: Quat { x: 0, y: 0, z: 0, w: 1 },
            position: Vec3 { x: 0, y: 0, z: 0 },
            scale: Vec3 { x: 1, y: 1, z: 1 },
            rotation: Quat { x: 0, y: 0, z: 0, w: 1 },
            needs_update: false,
            local_matrix: mat4_identity(),
            matrix: mat4_identity(),
        }
    }

    pub fn needs_update(&self) -> (r: bool)
        ensures
            r == self.needs_update,
    {
        self.needs_update
    }

    pub fn set_needs_update(&mut self)
        ensures
            *final(self) == (Transform3D { needs_update: true, ..*old(self) }),
    {
        self.needs_update = true;
    }

    pub fn position(&self) -> (r: Vec3)
        ensures
            r == self.position,
    {
        self.position
    }

    pub fn local_position(&self) -> (r: Vec3)
        ensures
            r == self.local_position,
    {
        self.local_position
    }

    /// Overwrites the local position and marks the transform dirty.
    pub fn set_position(&mut self, position: Vec3)
        requires
            old(self).inv(),
            v3_bounded(position),
        ensures
            *final(self) == (Transform3D {
                local_position: position,
                needs_update: true,
                ..*old(self)
            }),
            final(self).inv(),
    {
        self.local_position = position;
        self.needs_update = true;
    }

    pub fn scale(&self) -> (r: Vec3)
        ensures
            r == self.scale,
    {
        self.scale
    }

    pub fn local_scale(&self) -> (r: Vec3)
        ensures
            r == self.local_scale,
    {
        self.local_scale
    }

    /// Overwrites the local scale and marks the transform dirty.
    pub fn set_scale(&mut self, scale: Vec3)
        requires
            old(self).inv(),
            v3_bounded(scale),
        ensures
            *final(self) == (Transform3D { local_scale: scale, needs_update: true, ..*old(self) }),
            final(self).inv(),
    {
        self.local_scale = scale;
        self.needs_update = true;
    }

    pub fn rotation(&self) -> (r: Quat)
        ensures
            r == self.rotation,
    {
        self.rotation
    }

    pub fn local_rotation(&self) -> (r: Quat)
        ensures
            r == self.local_rotation,
    {
        self.local_rotation
    }

    /// Overwrites the local rotation and marks the transform dirty.
    pub fn set_rotation(&mut self, rotation: Quat)
        requires
            old(self).inv(),
            quat_unit(rotation),
        ensures
            *final(self) == (Transform3D {
                local_rotation: rotation,
                needs_update: true,
                ..*old(self)
            }),
            final(self).inv(),
    {
        self.local_rotation = rotation;
        self.needs_update = true;
    }

    /// Adds `translation` to the local position and marks the transform
    /// dirty.
    pub fn translate(&mut self, translation: Vec3)
        requires
            old(self).inv(),
            -MAT_BOUND <= old(self).local_position.x + translation.x <= MAT_BOUND,
            -MAT_BOUND <= old(self).local_position.y + translation.y <= MAT_BOUND,
            -MAT_BOUND <= old(self).local_position.z + translation.z <= MAT_BOUND,
        ensures
            *final(self) == (Transform3D {
                local_position: Vec3 {
                    x: (old(self).local_position.x + translation.x) as i64,
                    y: (old(self).local_position.y + translation.y) as i64,
                    z: (old(self).local_position.z + translation.z) as i64,
                },
                needs_update: true,
                ..*old(self)
            }),
            final(self).inv(),
    {
        self.local_position = Vec3 {
            x: self.local_position.x + translation.x,
            y: self.local_position.y + translation.y,
            z: self.local_position.z + translation.z,
        };
        self.needs_update = true;
    }

    /// Composes an incremental rotation onto the local rotation, the old
    /// rotation first and the increment after it, and marks the
    /// transform dirty.
    pub fn rotate(&mut self, rotation: Quat)
        requires
            old(self).inv(),
            quat_unit(rotation),
        ensures
            final(self).local_rotation.x == quat_mul_x(old(self).local_rotation, rotation),
            final(self).local_rotation.y == quat_mul_y(old(self).local_rotation, rotation),
            final(self).local_rotation.z == quat_mul_z(old(self).local_rotation, rotation),
            final(self).local_rotation.w == quat_mul_w(old(self).local_rotation, rotation),
            *final(self) == (Transform3D {
                local_rotation: final(self).local_rotation,
                needs_update: true,
                ..*old(self)
            }),
            final(self).inv(),
    {
        self.local_rotation = quat_mul(self.local_rotation, rotation);
        self.needs_update = true;
    }

    /// Points the rotation from the current world position toward
    /// `target` with the given up vector, and marks the transform dirty.
    /// On the integers the aim is exact only along the z axis with the
    /// up vector along the y axis; any other aim leaves the rotation as
    /// it was.
    pub fn look_at(&mut self, target: Vec3, up: Vec3)
        requires
            old(self).inv(),
            v3_bounded(target),
            v3_bounded(up),
        ensures
            ({
                let q = look_quat3(
                    (
                        target.x - old(self).position.x,
                        target.y - old(self).position.y,
                        target.z - old(self).position.z,
                    ),
                    (up.x as int, up.y as int, up.z as int),
                    old(self).local_rotation,
                );
                final(self).local_rotation.x == q.0 && final(self).local_rotation.y == q.1
                    && final(self).local_rotation.z == q.2 && final(self).local_rotation.w == q.3
            }),
            *final(self) == (Transform3D {
                local_rotation: final(self).local_rotation,
                needs_update: true,
                ..*old(self)
            }),
            final(self).inv(),
    {
        let dx = target.x - self.position.x;
        let dy = target.y - self.position.y;
        let dz = target.z - self.position.z;
        if dx == 0 && dy == 0 && dz != 0 && up.x == 0 && up.z == 0 && up.y != 0 {
            if dz < 0 && up.y > 0 {
                self.local_rotation = Quat { x: 0, y: 0, z: 0, w: 1 };
            } else if dz < 0 && up.y < 0 {
                self.local_rotation = Quat { x: 0, y: 0, z: 1, w: 0 };
            } else if dz > 0 && up.y < 0 {
                self.local_rotation = Quat { x: 1, y: 0, z: 0, w: 0 };
            } else {
                self.local_rotation = Quat { x: 0, y: 1, z: 0, w: 0 };
            }
        }
        proof {
            assert(quat_unit(self.local_rotation)) by (nonlinear_arith)
                requires
                    (self.local_rotation.x == 1 && self.local_rotation.y == 0
                        && self.local_rotation.z == 0 && self.local_rotation.w == 0) || (
                    self.local_rotation.x == 0 && self.local_rotation.y == 1
                        && self.local_rotation.z == 0 && self.local_rotation.w == 0) || (
                    self.local_rotation.x == 0 && self.local_rotation.y == 0
                        && self.local_rotation.z == 1 && self.local_rotation.w == 0) || (
                    self.local_rotation.x == 0 && self.local_rotation.y == 0
                        && self.local_rotation.z == 0 && self.local_rotation.w == 1) || quat_unit(
                        self.local_rotation,
                    ),
            ;
        }
        self.needs_update = true;
    }

    /// Transforms a point from this entity's local space to world space
    /// by the cached world matrix. The caller must have resolved the
    /// transform this cycle, else the result uses the stale matrix.
    pub fn local_to_world(&self, v: Vec3) -> (r: Vec3)
        requires
            self.inv(),
            v3_bounded(v),
        ensures
            r.x == tp3_x(m4_of(self.matrix), v.x as int, v.y as int, v.z as int),
            r.y == tp3_y(m4_of(self.matrix), v.x as int, v.y as int, v.z as int),
            r.z == tp3_z(m4_of(self.matrix), v.x as int, v.y as int, v.z as int),
    {
        let m = &self.matrix;
        proof {
            assert(-1152921504606846976 <= m.m0 * v.x <= 1152921504606846976
                && -1152921504606846976 <= m.m4 * v.y <= 1152921504606846976
                && -1152921504606846976 <= m.m8 * v.z <= 1152921504606846976
                && -1152921504606846976 <= m.m1 * v.x <= 1152921504606846976
                && -1152921504606846976 <= m.m5 * v.y <= 1152921504606846976
                && -1152921504606846976 <= m.m9 * v.z <= 1152921504606846976
                && -1152921504606846976 <= m.m2 * v.x <= 1152921504606846976
                && -1152921504606846976 <= m.m6 * v.y <= 1152921504606846976
                && -1152921504606846976 <= m.m10 * v.z <= 1152921504606846976)
                by (nonlinear_arith)
                requires
                    -MAT_BOUND <= m.m0 <= MAT_BOUND,
                    -MAT_BOUND <= m.m1 <= MAT_BOUND,
                    -MAT_BOUND <= m.m2 <= MAT_BOUND,
                    -MAT_BOUND <= m.m4 <= MAT_BOUND,
                    -MAT_BOUND <= m.m5 <= MAT_BOUND,
                    -MAT_BOUND <= m.m6 <= MAT_BOUND,
                    -MAT_BOUND <= m.m8 <= MAT_BOUND,
                    -MAT_BOUND <= m.m9 <= MAT_BOUND,
                    -MAT_BOUND <= m.m10 <= MAT_BOUND,
                    -MAT_BOUND <= v.x <= MAT_BOUND,
                    -MAT_BOUND <= v.y <= MAT_BOUND,
                    -MAT_BOUND <= v.z <= MAT_BOUND,
            ;
        }
        Vec3 {
            x: m.m0 * v.x + m.m4 * v.y + m.m8 * v.z + m.m12,
            y: m.m1 * v.x + m.m5 * v.y + m.m9 * v.z + m.m13,
            z: m.m2 * v.x + m.m6 * v.y + m.m10 * v.z + m.m14,
        }
    }

    /// The cached world matrix.
    pub fn world_matrix(&self) -> (r: Mat4)
        ensures
            r == self.matrix,
    {
        self.matrix
    }

    /// The model-view matrix: the given view matrix times this entity's
    /// world matrix.
    pub fn model_view_matrix(&self, view_matrix: &Mat4) -> (r: Mat4)
        requires
            self.inv(),
            m4_bounded(m4_of(*view_matrix)),
        ensures
            m4_of(r) == m4_mul(m4_of(*view_matrix), m4_of(self.matrix)),
    {
        mat4_mul(view_matrix, &self.matrix)
    }



    /// Transforms a point from world space back to this entity's local
    /// space: the exact integer preimage under the cached world matrix.
    /// `None` means the linear part is singular, the scaled solution is
    /// not integral, or it lies outside the coordinate bound or is no
    /// preimage; see `solve_point3`.
    pub fn world_to_local(&self, v: Vec3) -> (r: Option<Vec3>)
        requires
            self.inv(),
            v3_bounded(v),
        ensures
            ({
                let mm = m4_of(self.matrix);
                match r {
                    Some(u) => v3_bounded(u) && crate::math3::maps3(
                        mm,
                        u.x as int,
                        u.y as int,
                        u.z as int,
                        v.x as int,
                        v.y as int,
                        v.z as int,
                    ),
                    None => crate::math3::det3(mm) == 0 || !crate::math3::divides(
                        crate::math3::det3(mm),
                        crate::math3::num3_x(mm, v.x as int, v.y as int, v.z as int),
                    ) || !crate::math3::divides(
                        crate::math3::det3(mm),
                        crate::math3::num3_y(mm, v.x as int, v.y as int, v.z as int),
                    ) || !crate::math3::divides(
                        crate::math3::det3(mm),
                        crate::math3::num3_z(mm, v.x as int, v.y as int, v.z as int),
                    ) || exists|qx: int, qy: int, qz: int|
                        #[trigger] crate::math3::exact_solution3(
                            mm,
                            qx,
                            qy,
                            qz,
                            v.x as int,
                            v.y as int,
                            v.z as int,
                        ) && (!(-MAT_BOUND <= qx <= MAT_BOUND && -MAT_BOUND <= qy <= MAT_BOUND
                            && -MAT_BOUND <= qz <= MAT_BOUND) || !crate::math3::maps3(
                            mm,
                            qx,
                            qy,
                            qz,
                            v.x as int,
                            v.y as int,
                            v.z as int,
                        )),
                }
            }),
    {
        crate::math3::solve_point3(&self.matrix, v)
    }

    /// The normal matrix for lighting under non-uniform scale: the
    /// transpose of the inverse of the model-view matrix's upper-left
    /// 3x3 block, exact on the integers where every cofactor is a
    /// multiple of the determinant; see `mat3_normal_from_mat4`.
    pub fn normal_matrix(&self, model_view_matrix: &Mat4) -> (r: Option<crate::math3::Mat3>)
        requires
            m4_bounded(m4_of(*model_view_matrix)),
        ensures
            ({
                let mm = m4_of(*model_view_matrix);
                match r {
                    Some(n) => crate::math3::det3(mm) != 0 && n.n0 * crate::math3::det3(mm)
                        == crate::math3::adj3(mm, 0, 0) && n.n1 * crate::math3::det3(mm)
                        == crate::math3::adj3(mm, 0, 1) && n.n4 * crate::math3::det3(mm)
                        == crate::math3::adj3(mm, 1, 1) && n.n8 * crate::math3::det3(mm)
                        == crate::math3::adj3(mm, 2, 2),
                    None => crate::math3::det3(mm) == 0 || exists|rr: int, cc: int|
                        0 <= rr < 3 && 0 <= cc < 3 && !crate::math3::divides(
                            crate::math3::det3(mm),
                            #[trigger] crate::math3::adj3(mm, rr, cc),
                        ),
                }
            }),
    {
        crate::math3::mat3_normal_from_mat4(model_view_matrix)
    }

    pub fn matrix(&self) -> (r: Mat4)
        ensures
            r == self.matrix,
    {
        self.matrix
    }

    pub fn local_matrix(&self) -> (r: Mat4)
        ensures
            r == self.local_matrix,
    {
        self.local_matrix
    }
}

} // verus!
