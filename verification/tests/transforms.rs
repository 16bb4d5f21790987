use transform_components::math2::Mat32;
use transform_components::math2::Rot2;
use transform_components::math2::Vec2;
use transform_components::math2::mat32_compose;
use transform_components::math2::mat32_decompose;
use transform_components::math2::mat32_mul;
use transform_components::math3::Mat4;
use transform_components::math3::Quat;
use transform_components::math3::Vec3;
use transform_components::math3::mat4_compose;
use transform_components::math3::mat4_decompose;
use transform_components::scene::Scene;
use transform_components::scene::TransformProcess;
use transform_components::xform2::Transform2D;
use transform_components::xform3::Transform3D;

const SIZE: usize = 1024;

fn ident2() -> Rot2 {
    Rot2 { c: 1, s: 0 }
}

fn identq() -> Quat {
    Quat { x: 0, y: 0, z: 0, w: 1 }
}

#[test]
fn test_transform2d() {
    let mut scene = Scene::new();
    for _ in 0..SIZE {
        let entity = scene.new_entity();
        let mut transform = Transform2D::new(entity);
        transform.set_position(Vec2 { x: 1, y: 1 });
        scene.add_transform2d(entity, transform);
    }
    let mut process = TransformProcess::new();
    process.handle(&mut scene);
    for e in 0..SIZE {
        let transform2d = scene.transform2d(e).unwrap();
        assert_eq!(
            transform2d.local_matrix(),
            Mat32 { m0: 1, m1: 0, m2: 0, m3: 1, m4: 1, m5: 1 }
        );
    }
}

#[test]
fn test_transform3d() {
    let mut scene = Scene::new();
    for _ in 0..SIZE {
        let entity = scene.new_entity();
        let mut transform = Transform3D::new(entity);
        transform.set_position(Vec3 { x: 1, y: 1, z: 1 });
        scene.add_transform3d(entity, transform);
    }
    let mut process = TransformProcess::new();
    process.handle(&mut scene);
    for e in 0..SIZE {
        let transform3d = scene.transform3d(e).unwrap();
        assert_eq!(
            transform3d.local_matrix(),
            Mat4 {
                m0: 1,
                m1: 0,
                m2: 0,
                m3: 0,
                m4: 0,
                m5: 1,
                m6: 0,
                m7: 0,
                m8: 0,
                m9: 0,
                m10: 1,
                m11: 0,
                m12: 1,
                m13: 1,
                m14: 1,
                m15: 1
            }
        );
    }
}

#[test]
fn compose_decompose_round_trip_2d() {
    let p = Vec2 { x: 3, y: -4 };
    let s = Vec2 { x: 2, y: 5 };
    let r = Rot2 { c: 0, s: 1 };
    let m = mat32_compose(p, s, r);
    assert_eq!(m, Mat32 { m0: 0, m1: 2, m2: -5, m3: 0, m4: 3, m5: -4 });
    let (dp, ds, dr) = mat32_decompose(&m);
    assert_eq!(dp, p);
    assert_eq!(ds, s);
    assert_eq!(dr, r);
}

#[test]
fn compose_decompose_round_trip_3d() {
    let p = Vec3 { x: 7, y: -8, z: 9 };
    let s = Vec3 { x: 2, y: 3, z: 4 };
    let q = Quat { x: 0, y: 0, z: 1, w: 0 };
    let m = mat4_compose(p, s, q);
    let (dp, ds, dq) = mat4_decompose(&m);
    assert_eq!(dp, p);
    assert_eq!(ds, s);
    assert_eq!(dq, q);
}

#[test]
fn decompose_degenerate_scale_2d() {
    let m = mat32_compose(Vec2 { x: 1, y: 2 }, Vec2 { x: 0, y: 3 }, ident2());
    let (dp, ds, dr) = mat32_decompose(&m);
    assert_eq!(dp, Vec2 { x: 1, y: 2 });
    assert_eq!(ds, Vec2 { x: 0, y: 3 });
    assert_eq!(dr, ident2());
}

#[test]
fn no_parent_world_equals_local_2d() {
    let mut scene = Scene::new();
    let e = scene.new_entity();
    let mut t = Transform2D::new(e);
    t.set_position(Vec2 { x: 2, y: 3 });
    t.set_scale(Vec2 { x: 4, y: 5 });
    t.set_rotation(Rot2 { c: -1, s: 0 });
    scene.add_transform2d(e, t);
    let mut process = TransformProcess::new();
    process.handle(&mut scene);
    let r = scene.transform2d(e).unwrap();
    assert_eq!(r.matrix(), Mat32 { m0: -4, m1: 0, m2: 0, m3: -5, m4: 2, m5: 3 });
    assert_eq!(r.matrix(), r.local_matrix());
    assert_eq!(r.position(), Vec2 { x: 2, y: 3 });
    assert_eq!(r.scale(), Vec2 { x: 4, y: 5 });
    assert_eq!(r.rotation(), Rot2 { c: -1, s: 0 });
    assert!(!r.needs_update());
}

#[test]
fn parent_composition_2d() {
    let mut scene = Scene::new();
    let parent = scene.new_entity();
    let child = scene.new_entity();
    let mut pt = Transform2D::new(parent);
    pt.set_position(Vec2 { x: 5, y: 6 });
    pt.set_scale(Vec2 { x: 2, y: 2 });
    scene.add_transform2d(parent, pt);
    let mut ct = Transform2D::new(child);
    ct.set_position(Vec2 { x: 1, y: 2 });
    scene.add_transform2d(child, ct);
    scene.set_parent(child, Some(parent));
    let mut process = TransformProcess::new();
    process.handle(&mut scene);
    let rp = scene.transform2d(parent).unwrap();
    let rc = scene.transform2d(child).unwrap();
    assert_eq!(rp.matrix(), Mat32 { m0: 2, m1: 0, m2: 0, m3: 2, m4: 5, m5: 6 });
    // the child's world matrix is parent world times child local
    assert_eq!(
        rc.matrix(),
        mat32_mul(&rp.matrix(), &rc.local_matrix())
    );
    assert_eq!(rc.matrix(), Mat32 { m0: 2, m1: 0, m2: 0, m3: 2, m4: 7, m5: 10 });
    assert_eq!(rc.position(), Vec2 { x: 7, y: 10 });
    assert_eq!(rc.scale(), Vec2 { x: 2, y: 2 });
}

#[test]
fn deep_chain_positions_2d() {
    let mut scene = Scene::new();
    let a = scene.new_entity();
    let b = scene.new_entity();
    let c = scene.new_entity();
    let mut ta = Transform2D::new(a);
    ta.set_position(Vec2 { x: 1, y: 0 });
    scene.add_transform2d(a, ta);
    let mut tb = Transform2D::new(b);
    tb.set_position(Vec2 { x: 0, y: 2 });
    scene.add_transform2d(b, tb);
    let mut tc = Transform2D::new(c);
    tc.set_position(Vec2 { x: 3, y: 3 });
    scene.add_transform2d(c, tc);
    scene.set_parent(b, Some(a));
    scene.set_parent(c, Some(b));
    let mut process = TransformProcess::new();
    process.handle(&mut scene);
    assert_eq!(scene.transform2d(a).unwrap().position(), Vec2 { x: 1, y: 0 });
    assert_eq!(scene.transform2d(b).unwrap().position(), Vec2 { x: 1, y: 2 });
    assert_eq!(scene.transform2d(c).unwrap().position(), Vec2 { x: 4, y: 5 });
}

#[test]
fn child_before_parent_in_storage_order() {
    // the child's entity id is smaller than the parent's, so the pass
    // reaches the child first and must resolve the parent eagerly
    let mut scene = Scene::new();
    let child = scene.new_entity();
    let parent = scene.new_entity();
    let mut ct = Transform2D::new(child);
    ct.set_position(Vec2 { x: 1, y: 1 });
    scene.add_transform2d(child, ct);
    let mut pt = Transform2D::new(parent);
    pt.set_position(Vec2 { x: 10, y: 20 });
    scene.add_transform2d(parent, pt);
    scene.set_parent(child, Some(parent));
    let mut process = TransformProcess::new();
    process.handle(&mut scene);
    assert_eq!(scene.transform2d(child).unwrap().position(), Vec2 { x: 11, y: 21 });
}

#[test]
fn dirty_boundary_parent_resolution_leaves_child() {
    let mut scene = Scene::new();
    let parent = scene.new_entity();
    let child = scene.new_entity();
    let mut pt = Transform2D::new(parent);
    pt.set_position(Vec2 { x: 5, y: 0 });
    scene.add_transform2d(parent, pt);
    let mut ct = Transform2D::new(child);
    ct.set_position(Vec2 { x: 1, y: 0 });
    scene.add_transform2d(child, ct);
    scene.set_parent(child, Some(parent));
    let mut process = TransformProcess::new();
    process.handle(&mut scene);
    let child_world = scene.transform2d(child).unwrap().matrix();
    assert_eq!(child_world, Mat32 { m0: 1, m1: 0, m2: 0, m3: 1, m4: 6, m5: 0 });

    // mutate the parent's local state and resolve only the parent
    let mut pt2 = scene.transform2d(parent).unwrap();
    pt2.set_position(Vec2 { x: 50, y: 0 });
    scene.add_transform2d(parent, pt2);
    scene.resolve_transform2d(parent);
    let rp = scene.transform2d(parent).unwrap();
    assert_eq!(rp.position(), Vec2 { x: 50, y: 0 });
    // the already-resolved child keeps its stale cached world matrix
    assert_eq!(scene.transform2d(child).unwrap().matrix(), child_world);
    // resolving the clean child is a no-op: memoization is per node
    scene.resolve_transform2d(child);
    assert_eq!(scene.transform2d(child).unwrap().matrix(), child_world);

    // only marking the child dirty and resolving it picks the new parent up
    let mut ct2 = scene.transform2d(child).unwrap();
    ct2.set_needs_update();
    scene.add_transform2d(child, ct2);
    scene.resolve_transform2d(child);
    assert_eq!(
        scene.transform2d(child).unwrap().matrix(),
        Mat32 { m0: 1, m1: 0, m2: 0, m3: 1, m4: 51, m5: 0 }
    );
}

#[test]
fn mixed_parent_planar_child_of_spatial_parent() {
    let mut scene = Scene::new();
    let parent = scene.new_entity();
    let child = scene.new_entity();
    let mut pt = Transform3D::new(parent);
    pt.set_position(Vec3 { x: 5, y: 6, z: 7 });
    pt.set_scale(Vec3 { x: 2, y: 3, z: 4 });
    pt.set_rotation(Quat { x: 0, y: 0, z: 1, w: 0 });
    scene.add_transform3d(parent, pt);
    let mut ct = Transform2D::new(child);
    ct.set_position(Vec2 { x: 1, y: 2 });
    scene.add_transform2d(child, ct);
    scene.set_parent(child, Some(parent));
    let mut process = TransformProcess::new();
    process.handle(&mut scene);
    // the half turn about z negates both planar axes: the parent's world
    // matrix projects to [-2, 0, 0, -3, 5, 6], and composing the child's
    // local translation (1, 2) gives the world below, computed by hand
    let rc = scene.transform2d(child).unwrap();
    assert_eq!(rc.matrix(), Mat32 { m0: -2, m1: 0, m2: 0, m3: -3, m4: 3, m5: 0 });
    assert_eq!(rc.position(), Vec2 { x: 3, y: 0 });
    assert_eq!(rc.scale(), Vec2 { x: 2, y: 3 });
    assert_eq!(rc.rotation(), Rot2 { c: -1, s: 0 });
}

#[test]
fn mixed_parent_spatial_child_of_planar_parent() {
    let mut scene = Scene::new();
    let parent = scene.new_entity();
    let child = scene.new_entity();
    let mut pt = Transform2D::new(parent);
    pt.set_position(Vec2 { x: 1, y: 2 });
    pt.set_rotation(Rot2 { c: 0, s: 1 });
    scene.add_transform2d(parent, pt);
    let mut ct = Transform3D::new(child);
    ct.set_position(Vec3 { x: 1, y: 0, z: 0 });
    scene.add_transform3d(child, ct);
    scene.set_parent(child, Some(parent));
    let mut process = TransformProcess::new();
    process.handle(&mut scene);
    // the parent's planar quarter turn embeds with an untouched z axis;
    // the child's local x offset lands on the world y axis
    let rc = scene.transform3d(child).unwrap();
    let m = rc.matrix();
    assert_eq!(
        (m.m0, m.m1, m.m2, m.m4, m.m5, m.m6, m.m8, m.m9, m.m10),
        (0, 1, 0, -1, 0, 0, 0, 0, 1)
    );
    assert_eq!((m.m12, m.m13, m.m14, m.m15), (1, 3, 0, 1));
    assert_eq!(rc.position(), Vec3 { x: 1, y: 3, z: 0 });
}

#[test]
fn look_at_2d_axis_aligned() {
    let mut t = Transform2D::new(0);
    t.look_at(Vec2 { x: 5, y: 0 });
    assert_eq!(t.local_rotation(), Rot2 { c: 1, s: 0 });
    assert!(t.needs_update());
    t.look_at(Vec2 { x: 0, y: -3 });
    assert_eq!(t.local_rotation(), Rot2 { c: 0, s: -1 });
    // an off-axis target is not representable: rotation is kept
    t.look_at(Vec2 { x: 2, y: 2 });
    assert_eq!(t.local_rotation(), Rot2 { c: 0, s: -1 });
}

#[test]
fn look_at_3d_axis_aligned() {
    let mut t = Transform3D::new(0);
    t.look_at(Vec3 { x: 0, y: 0, z: -4 }, Vec3 { x: 0, y: 1, z: 0 });
    assert_eq!(t.local_rotation(), identq());
    t.look_at(Vec3 { x: 0, y: 0, z: 4 }, Vec3 { x: 0, y: -1, z: 0 });
    assert_eq!(t.local_rotation(), Quat { x: 1, y: 0, z: 0, w: 0 });
    t.look_at(Vec3 { x: 0, y: 0, z: 4 }, Vec3 { x: 0, y: 1, z: 0 });
    assert_eq!(t.local_rotation(), Quat { x: 0, y: 1, z: 0, w: 0 });
    t.look_at(Vec3 { x: 0, y: 0, z: -4 }, Vec3 { x: 0, y: -1, z: 0 });
    assert_eq!(t.local_rotation(), Quat { x: 0, y: 0, z: 1, w: 0 });
    // an off-axis aim is not representable: rotation is kept
    t.look_at(Vec3 { x: 1, y: 2, z: 3 }, Vec3 { x: 0, y: 1, z: 0 });
    assert_eq!(t.local_rotation(), Quat { x: 0, y: 0, z: 1, w: 0 });
}

#[test]
fn rotate_2d_adds_angles() {
    let mut t = Transform2D::new(0);
    t.rotate(Rot2 { c: 0, s: 1 });
    assert_eq!(t.local_rotation(), Rot2 { c: 0, s: 1 });
    t.rotate(Rot2 { c: 0, s: 1 });
    assert_eq!(t.local_rotation(), Rot2 { c: -1, s: 0 });
}

#[test]
fn rotate_3d_composes_quaternions() {
    let mut t = Transform3D::new(0);
    t.rotate(Quat { x: 0, y: 0, z: 1, w: 0 });
    assert_eq!(t.local_rotation(), Quat { x: 0, y: 0, z: 1, w: 0 });
    t.rotate(Quat { x: 0, y: 0, z: 1, w: 0 });
    assert_eq!(t.local_rotation(), Quat { x: 0, y: 0, z: 0, w: -1 });
}

#[test]
fn translate_accumulates() {
    let mut t = Transform2D::new(0);
    t.translate(Vec2 { x: 3, y: 4 });
    t.translate(Vec2 { x: -1, y: 1 });
    assert_eq!(t.local_position(), Vec2 { x: 2, y: 5 });
    assert!(t.needs_update());
    let mut s = Transform3D::new(0);
    s.translate(Vec3 { x: 1, y: 2, z: 3 });
    s.translate(Vec3 { x: 1, y: 2, z: 3 });
    assert_eq!(s.local_position(), Vec3 { x: 2, y: 4, z: 6 });
}

#[test]
fn local_to_world_and_back_2d() {
    let mut scene = Scene::new();
    let e = scene.new_entity();
    let mut t = Transform2D::new(e);
    t.set_position(Vec2 { x: 5, y: 6 });
    t.set_scale(Vec2 { x: 2, y: 2 });
    scene.add_transform2d(e, t);
    let mut process = TransformProcess::new();
    process.handle(&mut scene);
    let r = scene.transform2d(e).unwrap();
    assert_eq!(r.local_to_world(Vec2 { x: 1, y: 1 }), Vec2 { x: 7, y: 8 });
    assert_eq!(r.world_to_local(Vec2 { x: 7, y: 8 }), Some(Vec2 { x: 1, y: 1 }));
    // (8, 8) has no exact integer preimage under a scale of two
    assert_eq!(r.world_to_local(Vec2 { x: 8, y: 8 }), None);
}

#[test]
fn world_to_local_singular_2d() {
    let mut scene = Scene::new();
    let e = scene.new_entity();
    let mut t = Transform2D::new(e);
    t.set_scale(Vec2 { x: 0, y: 0 });
    scene.add_transform2d(e, t);
    let mut process = TransformProcess::new();
    process.handle(&mut scene);
    let r = scene.transform2d(e).unwrap();
    assert_eq!(r.world_to_local(Vec2 { x: 1, y: 1 }), None);
}

#[test]
fn local_to_world_3d() {
    let mut scene = Scene::new();
    let e = scene.new_entity();
    let mut t = Transform3D::new(e);
    t.set_position(Vec3 { x: 5, y: 6, z: 7 });
    t.set_scale(Vec3 { x: 2, y: 3, z: 4 });
    scene.add_transform3d(e, t);
    let mut process = TransformProcess::new();
    process.handle(&mut scene);
    let r = scene.transform3d(e).unwrap();
    assert_eq!(r.local_to_world(Vec3 { x: 1, y: 1, z: 1 }), Vec3 { x: 7, y: 9, z: 11 });
}

#[test]
fn world_matrix_embeds_planar_as_homogeneous() {
    let mut scene = Scene::new();
    let e = scene.new_entity();
    let mut t = Transform2D::new(e);
    t.set_position(Vec2 { x: 4, y: 5 });
    t.set_rotation(Rot2 { c: 0, s: 1 });
    scene.add_transform2d(e, t);
    let mut process = TransformProcess::new();
    process.handle(&mut scene);
    let m = scene.transform2d(e).unwrap().world_matrix();
    assert_eq!(
        m,
        Mat4 {
            m0: 0,
            m1: 1,
            m2: 0,
            m3: 0,
            m4: -1,
            m5: 0,
            m6: 0,
            m7: 0,
            m8: 0,
            m9: 0,
            m10: 1,
            m11: 0,
            m12: 4,
            m13: 5,
            m14: 0,
            m15: 1
        }
    );
}

#[test]
fn model_view_matrix_multiplies_view_first() {
    let mut scene = Scene::new();
    let e = scene.new_entity();
    let mut t = Transform3D::new(e);
    t.set_position(Vec3 { x: 1, y: 2, z: 3 });
    scene.add_transform3d(e, t);
    let mut process = TransformProcess::new();
    process.handle(&mut scene);
    let r = scene.transform3d(e).unwrap();
    // a view that translates by (-1, -2, -3) cancels the model translation
    let view = Mat4 {
        m0: 1,
        m1: 0,
        m2: 0,
        m3: 0,
        m4: 0,
        m5: 1,
        m6: 0,
        m7: 0,
        m8: 0,
        m9: 0,
        m10: 1,
        m11: 0,
        m12: -1,
        m13: -2,
        m14: -3,
        m15: 1,
    };
    let mv = r.model_view_matrix(&view);
    assert_eq!((mv.m12, mv.m13, mv.m14), (0, 0, 0));
    assert_eq!((mv.m0, mv.m5, mv.m10, mv.m15), (1, 1, 1, 1));
}

#[test]
fn resolving_clean_scene_changes_nothing() {
    let mut scene = Scene::new();
    let e = scene.new_entity();
    let mut t = Transform2D::new(e);
    t.set_position(Vec2 { x: 9, y: 9 });
    scene.add_transform2d(e, t);
    let mut process = TransformProcess::new();
    process.handle(&mut scene);
    let once = scene.transform2d(e).unwrap();
    process.handle(&mut scene);
    scene.resolve_transform2d(e);
    let twice = scene.transform2d(e).unwrap();
    assert_eq!(once, twice);
}

#[test]
fn fresh_transforms_are_identity_and_clean() {
    let t = Transform2D::new(3);
    assert!(!t.needs_update());
    assert_eq!(t.position(), Vec2 { x: 0, y: 0 });
    assert_eq!(t.scale(), Vec2 { x: 1, y: 1 });
    assert_eq!(t.rotation(), Rot2 { c: 1, s: 0 });
    assert_eq!(t.local_matrix(), Mat32 { m0: 1, m1: 0, m2: 0, m3: 1, m4: 0, m5: 0 });
    let s = Transform3D::new(4);
    assert!(!s.needs_update());
    assert_eq!(s.local_rotation(), identq());
    assert_eq!(s.local_scale(), Vec3 { x: 1, y: 1, z: 1 });
}

#[test]
fn normal_matrix_of_rotation_is_the_rotation() {
    let mut scene = Scene::new();
    let e = scene.new_entity();
    let mut t = Transform3D::new(e);
    t.set_position(Vec3 { x: 5, y: 6, z: 7 });
    t.set_rotation(Quat { x: 0, y: 0, z: 1, w: 0 });
    scene.add_transform3d(e, t);
    let mut process = TransformProcess::new();
    process.handle(&mut scene);
    let r = scene.transform3d(e).unwrap();
    // the world matrix is a pure rotation plus translation: its linear
    // part is orthogonal, so the normal matrix is that linear part itself
    let n = r.normal_matrix(&r.matrix()).unwrap();
    assert_eq!((n.n0, n.n4, n.n8), (-1, -1, 1));
    assert_eq!((n.n1, n.n2, n.n3, n.n5, n.n6, n.n7), (0, 0, 0, 0, 0, 0));
}

#[test]
fn normal_matrix_inexact_or_singular_is_none() {
    let t = Transform2D::new(0);
    // a uniform scale of two: cofactors are four, the determinant eight,
    // so no integer normal matrix exists
    let mv = Mat4 {
        m0: 2,
        m1: 0,
        m2: 0,
        m3: 0,
        m4: 0,
        m5: 2,
        m6: 0,
        m7: 0,
        m8: 0,
        m9: 0,
        m10: 2,
        m11: 0,
        m12: 0,
        m13: 0,
        m14: 0,
        m15: 1,
    };
    assert_eq!(t.normal_matrix(&mv), None);
    // a singular linear part has no normal matrix at all
    let singular = Mat4 { m0: 0, ..mv };
    assert_eq!(t.normal_matrix(&singular), None);
}

#[test]
fn world_to_local_3d_exact_and_inexact() {
    let mut scene = Scene::new();
    let e = scene.new_entity();
    let mut t = Transform3D::new(e);
    t.set_position(Vec3 { x: 5, y: 6, z: 7 });
    t.set_scale(Vec3 { x: 2, y: 3, z: 4 });
    scene.add_transform3d(e, t);
    let mut process = TransformProcess::new();
    process.handle(&mut scene);
    let r = scene.transform3d(e).unwrap();
    assert_eq!(
        r.world_to_local(Vec3 { x: 7, y: 9, z: 11 }),
        Some(Vec3 { x: 1, y: 1, z: 1 })
    );
    // (8, 9, 11) has no exact integer preimage under a scale of two in x
    assert_eq!(r.world_to_local(Vec3 { x: 8, y: 9, z: 11 }), None);
}

#[test]
fn world_to_local_3d_singular() {
    let mut scene = Scene::new();
    let e = scene.new_entity();
    let mut t = Transform3D::new(e);
    t.set_scale(Vec3 { x: 0, y: 1, z: 1 });
    scene.add_transform3d(e, t);
    let mut process = TransformProcess::new();
    process.handle(&mut scene);
    let r = scene.transform3d(e).unwrap();
    assert_eq!(r.world_to_local(Vec3 { x: 1, y: 1, z: 1 }), None);
}
