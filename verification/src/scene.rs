//! Entity storage, the parent hierarchy, and the transform resolver.
//!
//! Entities are indices. Each entity may hold at most one planar and one
//! spatial transform and an optional parent. Resolution is dirty-flag
//! driven and memoized: a clean transform's cached world matrix is taken
//! as it stands; a dirty transform recomputes its local matrix, resolves
//! its nearest transformed ancestor first (of either kind, converting
//! across dimensionality), composes, and decomposes the result into
//! world-space position, scale and rotation.
use vstd::prelude::*;
use vstd::pervasive::VecAdditionalExecFns;
use crate::math2::M2;
use crate::math2::m2_of;
use crate::math2::mat32_of_m2;
use crate::math2::m2_ident;
use crate::math2::m2_mul;
use crate::math2::m2_compose;
use crate::math2::m2_bounded;
use crate::math2::decompose2_spec;
use crate::math2::mat32_compose;
use crate::math2::mat32_mul;
use crate::math2::mat32_decompose;
use crate::math2::Vec2;
use crate::math2::Rot2;
use crate::math3::M4;
use crate::math3::m4_of;
use crate::math3::mat4_of_m4;
use crate::math3::m4_ident;
use crate::math3::m4_mul;
use crate::math3::m4_compose;
use crate::math3::m4_bounded;
use crate::math3::m4_embed;
use crate::math3::m2_project;
use crate::math3::decompose3_spec;
use crate::math3::mat4_compose;
use crate::math3::mat4_mul;
use crate::math3::mat4_decompose;
use crate::math3::mat4_from_mat32;
use crate::math3::mat32_from_mat4;
use crate::math3::Vec3;
use crate::math3::Quat;
use crate::xform2::Transform2D;
use crate::xform3::Transform3D;

verus! {

/// The mathematical state of a scene: the parent of each entity and the
/// transforms each entity holds.
pub ghost struct SceneView {
    pub par: Seq<Option<usize>>,
    pub t2: Seq<Option<Transform2D>>,
    pub t3: Seq<Option<Transform3D>>,
}

pub open spec fn sv(
    par: Seq<Option<usize>>,
    t2: Seq<Option<Transform2D>>,
    t3: Seq<Option<Transform3D>>,
) -> SceneView {
    SceneView { par, t2, t3 }
}

/// The number of ancestors of `e`, if the parent chain from `e` reaches a
/// root within `fuel` steps.
pub open spec fn depth_of(par: Seq<Option<usize>>, e: int, fuel: nat) -> Option<nat>
    decreases fuel,
{
    if fuel == 0 {
        None
    } else if !(0 <= e < par.len()) {
        Some(0nat)
    } else {
        match par[e] {
            None => Some(0nat),
            Some(p) => match depth_of(par, p as int, (fuel - 1) as nat) {
                None => None,
                Some(d) => Some((d + 1) as nat),
            },
        }
    }
}

/// The hierarchy is acyclic: every parent chain reaches a root.
pub open spec fn hier_ok(par: Seq<Option<usize>>) -> bool {
    forall|e: int|
        0 <= e < par.len() ==> (#[trigger] depth_of(par, e, (par.len() + 1) as nat)) is Some
}

/// The number of ancestors of `e` in an acyclic hierarchy.
pub open spec fn depth(par: Seq<Option<usize>>, e: int) -> nat {
    match depth_of(par, e, (par.len() + 1) as nat) {
        Some(d) => d,
        None => 0,
    }
}

proof fn lemma_depth_fuel(par: Seq<Option<usize>>, e: int, f1: nat, f2: nat)
    requires
        depth_of(par, e, f1) is Some,
        f1 <= f2,
    ensures
        depth_of(par, e, f2) == depth_of(par, e, f1),
    decreases f1,
{
    if 0 <= e < par.len() {
        match par[e] {
            None => {},
            Some(p) => {
                lemma_depth_fuel(par, p as int, (f1 - 1) as nat, (f2 - 1) as nat);
            },
        }
    }
}

/// In an acyclic hierarchy a parent stands strictly closer to its root
/// than its child.
pub proof fn lemma_depth_parent(par: Seq<Option<usize>>, e: int, p: usize)
    requires
        hier_ok(par),
        0 <= e < par.len(),
        par[e] == Some(p),
    ensures
        depth(par, p as int) < depth(par, e),
{
    let full = (par.len() + 1) as nat;
    assert(depth_of(par, e, full) is Some);
    assert(depth_of(par, p as int, (full - 1) as nat) is Some);
    lemma_depth_fuel(par, p as int, (full - 1) as nat, full);
}

#[via_fn]
proof fn world2_dec(v: SceneView, e: int) {
    if 0 <= e < v.t2.len() && v.t2[e] is Some && v.t2[e]->0.needs_update && 0 <= e < v.par.len()
        && v.par[e] is Some {
        lemma_depth_parent(v.par, e, v.par[e]->0);
    }
}

#[via_fn]
proof fn world3_dec(v: SceneView, e: int) {
    if 0 <= e < v.t3.len() && v.t3[e] is Some && v.t3[e]->0.needs_update && 0 <= e < v.par.len()
        && v.par[e] is Some {
        lemma_depth_parent(v.par, e, v.par[e]->0);
    }
}

/// The world matrix `resolve` owes a planar transform: its cached world
/// matrix when it is clean, else the composition of its local state under
/// the resolved world matrix of the nearest transformed ancestor.
pub open spec fn world2(v: SceneView, e: int) -> M2
    decreases depth(v.par, e), 1int,
    when hier_ok(v.par) via world2_dec
{
    if !(0 <= e < v.t2.len()) || v.t2[e] is None {
        m2_ident()
    } else {
        let t = v.t2[e]->0;
        if !t.needs_update {
            m2_of(t.matrix)
        } else {
            let lm = m2_compose(t.local_position, t.local_scale, t.local_rotation);
            if 0 <= e < v.par.len() && v.par[e] is Some {
                let p = v.par[e]->0 as int;
                if 0 <= p < v.t2.len() && v.t2[p] is Some {
                    m2_mul(world2(v, p), lm)
                } else if 0 <= p < v.t3.len() && v.t3[p] is Some {
                    m2_mul(m2_project(world3(v, p)), lm)
                } else {
                    lm
                }
            } else {
                lm
            }
        }
    }
}

/// The world matrix `resolve` owes a spatial transform; the planar-parent
/// case embeds the parent's planar world matrix.
pub open spec fn world3(v: SceneView, e: int) -> M4
    decreases depth(v.par, e), 0int,
    when hier_ok(v.par) via world3_dec
{
    if !(0 <= e < v.t3.len()) || v.t3[e] is None {
        m4_ident()
    } else {
        let t = v.t3[e]->0;
        if !t.needs_update {
            m4_of(t.matrix)
        } else {
            let lm = m4_compose(t.local_position, t.local_scale, t.local_rotation);
            if 0 <= e < v.par.len() && v.par[e] is Some {
                let p = v.par[e]->0 as int;
                if 0 <= p < v.t3.len() && v.t3[p] is Some {
                    m4_mul(world3(v, p), lm)
                } else if 0 <= p < v.t2.len() && v.t2[p] is Some {
                    m4_mul(m4_embed(world2(v, p)), lm)
                } else {
                    lm
                }
            } else {
                lm
            }
        }
    }
}

/// The planar transform record that resolving entity `e` leaves behind: a
/// clean record is kept as it stands; a dirty one gets its local matrix
/// recomposed, its world matrix from `world2`, and its derived fields
/// from the decomposition of that world matrix.
pub open spec fn rec2(v: SceneView, e: int) -> Transform2D {
    let t = v.t2[e]->0;
    if !t.needs_update {
        t
    } else {
        let w = world2(v, e);
        let d = decompose2_spec(w);
        Transform2D {
            position: Vec2 { x: d.px as i64, y: d.py as i64 },
            scale: Vec2 { x: d.sx as i64, y: d.sy as i64 },
            rotation: Rot2 { c: d.rc as i64, s: d.rs as i64 },
            needs_update: false,
            local_matrix: mat32_of_m2(
                m2_compose(t.local_position, t.local_scale, t.local_rotation),
            ),
            matrix: mat32_of_m2(w),
            ..t
        }
    }
}

/// The spatial counterpart of `rec2`.
pub open spec fn rec3(v: SceneView, e: int) -> Transform3D {
    let t = v.t3[e]->0;
    if !t.needs_update {
        t
    } else {
        let w = world3(v, e);
        let d = decompose3_spec(w);
        Transform3D {
            position: Vec3 { x: d.px as i64, y: d.py as i64, z: d.pz as i64 },
            scale: Vec3 { x: d.sx as i64, y: d.sy as i64, z: d.sz as i64 },
            rotation: Quat { x: d.qx as i64, y: d.qy as i64, z: d.qz as i64, w: d.qw as i64 },
            needs_update: false,
            local_matrix: mat4_of_m4(
                m4_compose(t.local_position, t.local_scale, t.local_rotation),
            ),
            matrix: mat4_of_m4(w),
            ..t
        }
    }
}

#[via_fn]
proof fn chain2_dec(v: SceneView, e: int, x: int, planar: bool) {
    if 0 <= e < v.t2.len() && v.t2[e] is Some && v.t2[e]->0.needs_update && 0 <= e < v.par.len()
        && v.par[e] is Some {
        lemma_depth_parent(v.par, e, v.par[e]->0);
    }
}

#[via_fn]
proof fn chain3_dec(v: SceneView, e: int, x: int, planar: bool) {
    if 0 <= e < v.t3.len() && v.t3[e] is Some && v.t3[e]->0.needs_update && 0 <= e < v.par.len()
        && v.par[e] is Some {
        lemma_depth_parent(v.par, e, v.par[e]->0);
    }
}

/// Whether resolving the planar transform of `e` may write the planar
/// (`planar` true) or spatial (`planar` false) slot of entity `x`: the
/// slot of `e` itself, and, while the chain stays dirty, the slots its
/// ancestor resolution may write.
pub open spec fn chain2(v: SceneView, e: int, x: int, planar: bool) -> bool
    decreases depth(v.par, e), 1int,
    when hier_ok(v.par) via chain2_dec
{
    ||| (planar && x == e)
    ||| {
        &&& 0 <= e < v.t2.len()
        &&& v.t2[e] is Some
        &&& v.t2[e]->0.needs_update
        &&& 0 <= e < v.par.len()
        &&& v.par[e] is Some
        &&& {
            let p = v.par[e]->0 as int;
            if 0 <= p < v.t2.len() && v.t2[p] is Some {
                chain2(v, p, x, planar)
            } else if 0 <= p < v.t3.len() && v.t3[p] is Some {
                chain3(v, p, x, planar)
            } else {
                false
            }
        }
    }
}

/// The spatial counterpart of `chain2`.
pub open spec fn chain3(v: SceneView, e: int, x: int, planar: bool) -> bool
    decreases depth(v.par, e), 0int,
    when hier_ok(v.par) via chain3_dec
{
    ||| (!planar && x == e)
    ||| {
        &&& 0 <= e < v.t3.len()
        &&& v.t3[e] is Some
        &&& v.t3[e]->0.needs_update
        &&& 0 <= e < v.par.len()
        &&& v.par[e] is Some
        &&& {
            let p = v.par[e]->0 as int;
            if 0 <= p < v.t3.len() && v.t3[p] is Some {
                chain3(v, p, x, planar)
            } else if 0 <= p < v.t2.len() && v.t2[p] is Some {
                chain2(v, p, x, planar)
            } else {
                false
            }
        }
    }
}

/// Resolution climbs the hierarchy, so it can only write entities at
/// most as deep as the one it starts from.
pub proof fn lemma_chain_depth(v: SceneView, e: int, x: int, planar: bool)
    requires
        hier_ok(v.par),
        chain2(v, e, x, planar) || chain3(v, e, x, planar),
    ensures
        depth(v.par, x) <= depth(v.par, e),
    decreases depth(v.par, e),
{
    if x != e {
        if 0 <= e < v.par.len() && v.par[e] is Some {
            let p = v.par[e]->0;
            lemma_depth_parent(v.par, e, p);
            if chain2(v, p as int, x, planar) || chain3(v, p as int, x, planar) {
                lemma_chain_depth(v, p as int, x, planar);
            }
        }
    } else {
    }
}

/// Entity bookkeeping: both transform stores run parallel to the parent
/// store, the hierarchy is acyclic, and every stored transform is
/// well-formed.
pub open spec fn views_ok(v: SceneView) -> bool {
    &&& v.t2.len() == v.par.len()
    &&& v.t3.len() == v.par.len()
    &&& hier_ok(v.par)
    &&& forall|x: int| 0 <= x < v.t2.len() && v.t2[x] is Some ==> (#[trigger] v.t2[x])->0.inv()
    &&& forall|x: int| 0 <= x < v.t3.len() && v.t3[x] is Some ==> (#[trigger] v.t3[x])->0.inv()
}

/// Every world matrix the resolver would produce stays within the entry
/// bound, so that products and decompositions stay exact in an `i64`.
pub open spec fn fits(v: SceneView) -> bool {
    &&& forall|x: int|
        0 <= x < v.t2.len() && v.t2[x] is Some ==> m2_bounded(#[trigger] world2(v, x))
    &&& forall|x: int|
        0 <= x < v.t3.len() && v.t3[x] is Some ==> m4_bounded(#[trigger] world3(v, x))
}

/// Changing one planar slot from dirty to clean, with its cached world
/// matrix set to its resolved world matrix, changes no entity's resolved
/// world matrix.
proof fn lemma_stable2(v1: SceneView, v2: SceneView, e0: int, x: int)
    requires
        hier_ok(v1.par),
        v2.par == v1.par,
        v2.t3 == v1.t3,
        v2.t2.len() == v1.t2.len(),
        0 <= e0 < v1.t2.len(),
        forall|y: int| 0 <= y < v1.t2.len() && y != e0 ==> v2.t2[y] == v1.t2[y],
        v1.t2[e0] is Some,
        v2.t2[e0] is Some,
        !v2.t2[e0]->0.needs_update,
        m2_of(v2.t2[e0]->0.matrix) == world2(v1, e0),
    ensures
        world2(v2, x) == world2(v1, x),
        world3(v2, x) == world3(v1, x),
    decreases depth(v1.par, x),
{
    if 0 <= x < v1.par.len() && v1.par[x] is Some {
        let p = v1.par[x]->0;
        lemma_depth_parent(v1.par, x, p);
        lemma_stable2(v1, v2, e0, p as int);
    }
}

/// The spatial counterpart of `lemma_stable2`.
proof fn lemma_stable3(v1: SceneView, v2: SceneView, e0: int, x: int)
    requires
        hier_ok(v1.par),
        v2.par == v1.par,
        v2.t2 == v1.t2,
        v2.t3.len() == v1.t3.len(),
        0 <= e0 < v1.t3.len(),
        forall|y: int| 0 <= y < v1.t3.len() && y != e0 ==> v2.t3[y] == v1.t3[y],
        v1.t3[e0] is Some,
        v2.t3[e0] is Some,
        !v2.t3[e0]->0.needs_update,
        m4_of(v2.t3[e0]->0.matrix) == world3(v1, e0),
    ensures
        world2(v2, x) == world2(v1, x),
        world3(v2, x) == world3(v1, x),
    decreases depth(v1.par, x),
{
    if 0 <= x < v1.par.len() && v1.par[x] is Some {
        let p = v1.par[x]->0;
        lemma_depth_parent(v1.par, x, p);
        lemma_stable3(v1, v2, e0, p as int);
    }
}

/// Casting a bounded mathematical planar matrix into entries and back is
/// the identity.
proof fn lemma_m2_cast(w: M2)
    requires
        m2_bounded(w),
    ensures
        m2_of(mat32_of_m2(w)) == w,
{
}

/// Casting a bounded mathematical spatial matrix into entries and back is
/// the identity.
proof fn lemma_m4_cast(w: M4)
    requires
        m4_bounded(w),
    ensures
        m4_of(mat4_of_m4(w)) == w,
{
}

/// Resolves the planar transform of entity `e`: a no-op when it is clean;
/// else recomputes its local matrix, resolves its ancestors first, writes
/// its world matrix and its decomposed world-space state, and clears the
/// dirty flag. Every slot it writes gets its resolved record; everything
/// else is untouched, and no entity's resolved world matrix changes.
pub fn resolve2(
    par: &Vec<Option<usize>>,
    t2: &mut Vec<Option<Transform2D>>,
    t3: &mut Vec<Option<Transform3D>>,
    e: usize,
)
    requires
        views_ok(sv(par@, old(t2)@, old(t3)@)),
        fits(sv(par@, old(t2)@, old(t3)@)),
        e < par@.len(),
    ensures
        final(t2)@.len() == old(t2)@.len(),
        final(t3)@.len() == old(t3)@.len(),
        views_ok(sv(par@, final(t2)@, final(t3)@)),
        fits(sv(par@, final(t2)@, final(t3)@)),
        forall|x: int| 0 <= x < final(t2)@.len() ==> ((#[trigger] final(t2)@[x]) is Some <==> old(t2)@[x] is Some),
        forall|x: int| 0 <= x < final(t3)@.len() ==> ((#[trigger] final(t3)@[x]) is Some <==> old(t3)@[x] is Some),
        forall|x: int|
            0 <= x < final(t2)@.len() ==> ((#[trigger] final(t2)@[x]) == old(t2)@[x] || (old(t2)@[x] is Some
                && final(t2)@[x] == Some(rec2(sv(par@, old(t2)@, old(t3)@), x)))),
        forall|x: int|
            0 <= x < final(t3)@.len() ==> ((#[trigger] final(t3)@[x]) == old(t3)@[x] || (old(t3)@[x] is Some
                && final(t3)@[x] == Some(rec3(sv(par@, old(t2)@, old(t3)@), x)))),
        forall|x: int|
            0 <= x < final(t2)@.len() && !chain2(sv(par@, old(t2)@, old(t3)@), e as int, x, true) ==> (
            #[trigger] final(t2)@[x]) == old(t2)@[x],
        forall|x: int|
            0 <= x < final(t3)@.len() && !chain2(sv(par@, old(t2)@, old(t3)@), e as int, x, false) ==> (
            #[trigger] final(t3)@[x]) == old(t3)@[x],
        old(t2)@[e as int] is Some ==> final(t2)@[e as int] == Some(
            rec2(sv(par@, old(t2)@, old(t3)@), e as int),
        ),
        old(t2)@[e as int] is Some && !old(t2)@[e as int]->0.needs_update ==> final(t2)@ == old(t2)@ && final(t3)@
            == old(t3)@,
        forall|x: int|
            #[trigger] world2(sv(par@, final(t2)@, final(t3)@), x) == world2(
                sv(par@, old(t2)@, old(t3)@),
                x,
            ),
        forall|x: int|
            #[trigger] world3(sv(par@, final(t2)@, final(t3)@), x) == world3(
                sv(par@, old(t2)@, old(t3)@),
                x,
            ),
    decreases depth(par@, e as int),
{
    let ghost v1 = sv(par@, t2@, t3@);
    let cur: Option<Transform2D> = t2[e];
    match cur {
        None => {},
        Some(t0) => {
            if t0.needs_update {
                let mut t = t0;
                t.needs_update = false;
                t.local_matrix = mat32_compose(t.local_position, t.local_scale, t.local_rotation);
                let mut world = t.local_matrix;
                let pa: Option<usize> = par[e];
                match pa {
                    Some(p) => {
                        proof {
                            lemma_depth_parent(par@, e as int, p);
                        }
                        if p < t2.len() && t2[p].is_some() {
                            resolve2(par, t2, t3, p);
                            let pt = t2[p].unwrap();
                            proof {
                                lemma_chain_shallow(v1, p as int, e as int);
                                assert(!chain2(v1, p as int, e as int, true));
                                assert(t2@[e as int] == v1.t2[e as int]);
                                if v1.t2[p as int]->0.needs_update {
                                    lemma_m2_cast(world2(v1, p as int));
                                }
                            }
                            world = mat32_mul(&pt.matrix, &t.local_matrix);
                        } else if p < t3.len() && t3[p].is_some() {
                            resolve3(par, t2, t3, p);
                            let pt = t3[p].unwrap();
                            proof {
                                lemma_chain_shallow(v1, p as int, e as int);
                                assert(!chain3(v1, p as int, e as int, true));
                                assert(t2@[e as int] == v1.t2[e as int]);
                                if v1.t3[p as int]->0.needs_update {
                                    lemma_m4_cast(world3(v1, p as int));
                                }
                            }
                            let pm = mat32_from_mat4(&pt.matrix);
                            world = mat32_mul(&pm, &t.local_matrix);
                        }
                    },
                    None => {},
                }
                let ghost vmid = sv(par@, t2@, t3@);
                proof {
                    assert(vmid.t2[e as int] == v1.t2[e as int]);
                    assert(m2_of(world) == world2(v1, e as int));
                    assert(m2_bounded(world2(v1, e as int)));
                }
                t.matrix = world;
                let (pos, sc, rot) = mat32_decompose(&world);
                t.position = pos;
                t.scale = sc;
                t.rotation = rot;
                t2.set(e, Some(t));
                proof {
                    let v2 = sv(par@, t2@, t3@);
                    assert(t2@ == vmid.t2.update(e as int, Some(t)));
                    assert(world2(vmid, e as int) == world2(v1, e as int));
                    assert(t == rec2(v1, e as int));
                    assert forall|x: int| #[trigger] world2(v2, x) == world2(v1, x) by {
                        lemma_stable2(vmid, v2, e as int, x);
                    }
                    assert forall|x: int| #[trigger] world3(v2, x) == world3(v1, x) by {
                        lemma_stable2(vmid, v2, e as int, x);
                    }
                }
            }
        },
    }
}

/// Resolution climbs the hierarchy, so it cannot write an entity that
/// stands strictly deeper than the one it starts from.
pub proof fn lemma_chain_shallow(v: SceneView, p: int, x: int)
    requires
        hier_ok(v.par),
        depth(v.par, x) > depth(v.par, p),
    ensures
        !chain2(v, p, x, true),
        !chain2(v, p, x, false),
        !chain3(v, p, x, true),
        !chain3(v, p, x, false),
{
    if chain2(v, p, x, true) {
        lemma_chain_depth(v, p, x, true);
    }
    if chain2(v, p, x, false) {
        lemma_chain_depth(v, p, x, false);
    }
    if chain3(v, p, x, true) {
        lemma_chain_depth(v, p, x, true);
    }
    if chain3(v, p, x, false) {
        lemma_chain_depth(v, p, x, false);
    }
}

/// The spatial counterpart of `resolve2`.
pub fn resolve3(
    par: &Vec<Option<usize>>,
    t2: &mut Vec<Option<Transform2D>>,
    t3: &mut Vec<Option<Transform3D>>,
    e: usize,
)
    requires
        views_ok(sv(par@, old(t2)@, old(t3)@)),
        fits(sv(par@, old(t2)@, old(t3)@)),
        e < par@.len(),
    ensures
        final(t2)@.len() == old(t2)@.len(),
        final(t3)@.len() == old(t3)@.len(),
        views_ok(sv(par@, final(t2)@, final(t3)@)),
        fits(sv(par@, final(t2)@, final(t3)@)),
        forall|x: int| 0 <= x < final(t2)@.len() ==> ((#[trigger] final(t2)@[x]) is Some <==> old(t2)@[x] is Some),
        forall|x: int| 0 <= x < final(t3)@.len() ==> ((#[trigger] final(t3)@[x]) is Some <==> old(t3)@[x] is Some),
        forall|x: int|
            0 <= x < final(t2)@.len() ==> ((#[trigger] final(t2)@[x]) == old(t2)@[x] || (old(t2)@[x] is Some
                && final(t2)@[x] == Some(rec2(sv(par@, old(t2)@, old(t3)@), x)))),
        forall|x: int|
            0 <= x < final(t3)@.len() ==> ((#[trigger] final(t3)@[x]) == old(t3)@[x] || (old(t3)@[x] is Some
                && final(t3)@[x] == Some(rec3(sv(par@, old(t2)@, old(t3)@), x)))),
        forall|x: int|
            0 <= x < final(t2)@.len() && !chain3(sv(par@, old(t2)@, old(t3)@), e as int, x, true) ==> (
            #[trigger] final(t2)@[x]) == old(t2)@[x],
        forall|x: int|
            0 <= x < final(t3)@.len() && !chain3(sv(par@, old(t2)@, old(t3)@), e as int, x, false) ==> (
            #[trigger] final(t3)@[x]) == old(t3)@[x],
        old(t3)@[e as int] is Some ==> final(t3)@[e as int] == Some(
            rec3(sv(par@, old(t2)@, old(t3)@), e as int),
        ),
        old(t3)@[e as int] is Some && !old(t3)@[e as int]->0.needs_update ==> final(t2)@ == old(t2)@ && final(t3)@
            == old(t3)@,
        forall|x: int|
            #[trigger] world2(sv(par@, final(t2)@, final(t3)@), x) == world2(
                sv(par@, old(t2)@, old(t3)@),
                x,
            ),
        forall|x: int|
            #[trigger] world3(sv(par@, final(t2)@, final(t3)@), x) == world3(
                sv(par@, old(t2)@, old(t3)@),
                x,
            ),
    decreases depth(par@, e as int),
{
    let ghost v1 = sv(par@, t2@, t3@);
    let cur: Option<Transform3D> = t3[e];
    match cur {
        None => {},
        Some(t0) => {
            if t0.needs_update {
                let mut t = t0;
                t.needs_update = false;
                t.local_matrix = mat4_compose(t.local_position, t.local_scale, t.local_rotation);
                let mut world = t.local_matrix;
                let pa: Option<usize> = par[e];
                match pa {
                    Some(p) => {
                        proof {
                            lemma_depth_parent(par@, e as int, p);
                        }
                        if p < t3.len() && t3[p].is_some() {
                            resolve3(par, t2, t3, p);
                            let pt = t3[p].unwrap();
                            proof {
                                lemma_chain_shallow(v1, p as int, e as int);
                                assert(!chain3(v1, p as int, e as int, false));
                                assert(t3@[e as int] == v1.t3[e as int]);
                                if v1.t3[p as int]->0.needs_update {
                                    lemma_m4_cast(world3(v1, p as int));
                                }
                            }
                            world = mat4_mul(&pt.matrix, &t.local_matrix);
                        } else if p < t2.len() && t2[p].is_some() {
                            resolve2(par, t2, t3, p);
                            let pt = t2[p].unwrap();
                            proof {
                                lemma_chain_shallow(v1, p as int, e as int);
                                assert(!chain2(v1, p as int, e as int, false));
                                assert(t3@[e as int] == v1.t3[e as int]);
                                if v1.t2[p as int]->0.needs_update {
                                    lemma_m2_cast(world2(v1, p as int));
                                }
                            }
                            let pm = mat4_from_mat32(&pt.matrix);
                            world = mat4_mul(&pm, &t.local_matrix);
                        }
                    },
                    None => {},
                }
                let ghost vmid = sv(par@, t2@, t3@);
                proof {
                    assert(vmid.t3[e as int] == v1.t3[e as int]);
                    assert(m4_of(world) == world3(v1, e as int));
                    assert(m4_bounded(world3(v1, e as int)));
                }
                t.matrix = world;
                let (pos, sc, rot) = mat4_decompose(&world);
                t.position = pos;
                t.scale = sc;
                t.rotation = rot;
                t3.set(e, Some(t));
                proof {
                    let v2 = sv(par@, t2@, t3@);
                    assert(t3@ == vmid.t3.update(e as int, Some(t)));
                    assert(world3(vmid, e as int) == world3(v1, e as int));
                    assert(t == rec3(v1, e as int));
                    assert forall|x: int| #[trigger] world2(v2, x) == world2(v1, x) by {
                        lemma_stable3(vmid, v2, e as int, x);
                    }
                    assert forall|x: int| #[trigger] world3(v2, x) == world3(v1, x) by {
                        lemma_stable3(vmid, v2, e as int, x);
                    }
                }
            }
        },
    }
}

/// A transform record already resolved against `v1` resolves to itself,
/// and an untouched record resolves the same way in any view with the
/// same parents and resolved world matrices.
proof fn lemma_rec2_stable(v1: SceneView, v2: SceneView, x: int)
    requires
        hier_ok(v1.par),
        v2.par == v1.par,
        v2.t2.len() == v1.t2.len(),
        0 <= x < v1.t2.len(),
        v1.t2[x] is Some,
        v2.t2[x] == v1.t2[x] || v2.t2[x] == Some(rec2(v1, x)),
        world2(v2, x) == world2(v1, x),
    ensures
        v2.t2[x] is Some,
        rec2(v2, x) == rec2(v1, x),
{
}

/// The spatial counterpart of `lemma_rec2_stable`.
proof fn lemma_rec3_stable(v1: SceneView, v2: SceneView, x: int)
    requires
        hier_ok(v1.par),
        v2.par == v1.par,
        v2.t3.len() == v1.t3.len(),
        0 <= x < v1.t3.len(),
        v1.t3[x] is Some,
        v2.t3[x] == v1.t3[x] || v2.t3[x] == Some(rec3(v1, x)),
        world3(v2, x) == world3(v1, x),
    ensures
        v2.t3[x] is Some,
        rec3(v2, x) == rec3(v1, x),
{
}

proof fn lemma_depth_of_push(par: Seq<Option<usize>>, e: int, f: nat)
    ensures
        depth_of(par.push(None), e, f) == depth_of(par, e, f),
    decreases f,
{
    let q = par.push(None);
    if f > 0 {
        if 0 <= e < par.len() {
            match par[e] {
                None => {},
                Some(p) => {
                    lemma_depth_of_push(par, p as int, (f - 1) as nat);
                },
            }
        } else if e == par.len() {
            assert(q[e] is None);
        }
    }
}

/// The entity store and the hierarchy: one optional parent and one
/// optional transform of each kind per entity, indexed by entity id.
pub struct Scene {
    pub parent: Vec<Option<usize>>,
    pub t2: Vec<Option<Transform2D>>,
    pub t3: Vec<Option<Transform3D>>,
}

impl Scene {
    pub open spec fn view(&self) -> SceneView {
        sv(self.parent@, self.t2@, self.t3@)
    }

    pub open spec fn wf(&self) -> bool {
        views_ok(self.view())
    }

    /// An empty scene.
    pub fn new() -> (r: Scene)
        ensures
            r.wf(),
            r.view().par.len() == 0,
            r.view().t2.len() == 0,
            r.view().t3.len() == 0,
    {
        Scene { parent: Vec::new(), t2: Vec::new(), t3: Vec::new() }
    }

    pub fn entity_count(&self) -> (r: usize)
        ensures
            r == self.view().par.len(),
    {
        self.parent.len()
    }

    /// Allocates a fresh entity with no parent and no transforms; its id
    /// is the previous entity count.
    pub fn new_entity(&mut self) -> (id: usize)
        requires
            old(self).wf(),
        ensures
            final(self).wf(),
            id == old(self).view().par.len(),
            final(self).view().par == old(self).view().par.push(None),
            final(self).view().t2 == old(self).view().t2.push(None::<Transform2D>),
            final(self).view().t3 == old(self).view().t3.push(None::<Transform3D>),
    {
        let id = self.parent.len();
        self.parent.push(None);
        self.t2.push(None);
        self.t3.push(None);
        proof {
            let p0 = old(self).parent@;
            let p1 = self.parent@;
            assert(p1 == p0.push(None));
            assert forall|e: int| 0 <= e < p1.len() implies (#[trigger] depth_of(
                p1,
                e,
                (p1.len() + 1) as nat,
            )) is Some by {
                if e < p0.len() {
                    lemma_depth_fuel(p0, e, (p0.len() + 1) as nat, (p1.len() + 1) as nat);
                }
                lemma_depth_of_push(p0, e, (p1.len() + 1) as nat);
            }
        }
        id
    }

    /// Records `parent` as the parent of `child`. The caller owns the
    /// acyclicity of the hierarchy, so the updated hierarchy must still
    /// be acyclic.
    pub fn set_parent(&mut self, child: usize, parent: Option<usize>)
        requires
            old(self).wf(),
            child < old(self).view().par.len(),
            hier_ok(old(self).view().par.update(child as int, parent)),
        ensures
            final(self).wf(),
            final(self).view().par == old(self).view().par.update(child as int, parent),
            final(self).view().t2 == old(self).view().t2,
            final(self).view().t3 == old(self).view().t3,
    {
        self.parent.set(child, parent);
    }

    pub fn parent_of(&self, e: usize) -> (r: Option<usize>)
        requires
            e < self.view().par.len(),
        ensures
            r == self.view().par[e as int],
    {
        self.parent[e]
    }

    /// Stores a planar transform on entity `e`.
    pub fn add_transform2d(&mut self, e: usize, t: Transform2D)
        requires
            old(self).wf(),
            e < old(self).view().par.len(),
            t.inv(),
        ensures
            final(self).wf(),
            final(self).view().par == old(self).view().par,
            final(self).view().t2 == old(self).view().t2.update(e as int, Some(t)),
            final(self).view().t3 == old(self).view().t3,
    {
        self.t2.set(e, Some(t));
    }

    /// Stores a spatial transform on entity `e`.
    pub fn add_transform3d(&mut self, e: usize, t: Transform3D)
        requires
            old(self).wf(),
            e < old(self).view().par.len(),
            t.inv(),
        ensures
            final(self).wf(),
            final(self).view().par == old(self).view().par,
            final(self).view().t2 == old(self).view().t2,
            final(self).view().t3 == old(self).view().t3.update(e as int, Some(t)),
    {
        self.t3.set(e, Some(t));
    }

    pub fn transform2d(&self, e: usize) -> (r: Option<Transform2D>)
        requires
            self.wf(),
        ensures
            e < self.view().t2.len() ==> r == self.view().t2[e as int],
            e >= self.view().t2.len() ==> r is None,
    {
        if e < self.t2.len() {
            self.t2[e]
        } else {
            None
        }
    }

    pub fn transform3d(&self, e: usize) -> (r: Option<Transform3D>)
        requires
            self.wf(),
        ensures
            e < self.view().t3.len() ==> r == self.view().t3[e as int],
            e >= self.view().t3.len() ==> r is None,
    {
        if e < self.t3.len() {
            self.t3[e]
        } else {
            None
        }
    }

    /// Resolves the planar transform of one entity, eagerly resolving its
    /// ancestors first; see `resolve2`.
    pub fn resolve_transform2d(&mut self, e: usize)
        requires
            old(self).wf(),
            fits(old(self).view()),
            e < old(self).view().par.len(),
        ensures
            final(self).wf(),
            fits(final(self).view()),
            final(self).view().par == old(self).view().par,
            final(self).view().t2.len() == old(self).view().t2.len(),
            final(self).view().t3.len() == old(self).view().t3.len(),
            old(self).view().t2[e as int] is Some ==> final(self).view().t2[e as int] == Some(
                rec2(old(self).view(), e as int),
            ),
            forall|x: int|
                0 <= x < final(self).view().t2.len() && !chain2(
                    old(self).view(),
                    e as int,
                    x,
                    true,
                ) ==> (#[trigger] final(self).view().t2[x]) == old(self).view().t2[x],
            forall|x: int|
                0 <= x < final(self).view().t3.len() && !chain2(
                    old(self).view(),
                    e as int,
                    x,
                    false,
                ) ==> (#[trigger] final(self).view().t3[x]) == old(self).view().t3[x],
            old(self).view().t2[e as int] is Some && !old(self).view().t2[e as int]->0.needs_update
                ==> final(self).view().t2 == old(self).view().t2 && final(self).view().t3 == old(
                self,
            ).view().t3,
            forall|x: int|
                #[trigger] world2(final(self).view(), x) == world2(old(self).view(), x),
            forall|x: int|
                #[trigger] world3(final(self).view(), x) == world3(old(self).view(), x),
    {
        resolve2(&self.parent, &mut self.t2, &mut self.t3, e);
    }

    /// Resolves the spatial transform of one entity, eagerly resolving
    /// its ancestors first; see `resolve3`.
    pub fn resolve_transform3d(&mut self, e: usize)
        requires
            old(self).wf(),
            fits(old(self).view()),
            e < old(self).view().par.len(),
        ensures
            final(self).wf(),
            fits(final(self).view()),
            final(self).view().par == old(self).view().par,
            final(self).view().t2.len() == old(self).view().t2.len(),
            final(self).view().t3.len() == old(self).view().t3.len(),
            old(self).view().t3[e as int] is Some ==> final(self).view().t3[e as int] == Some(
                rec3(old(self).view(), e as int),
            ),
            forall|x: int|
                0 <= x < final(self).view().t2.len() && !chain3(
                    old(self).view(),
                    e as int,
                    x,
                    true,
                ) ==> (#[trigger] final(self).view().t2[x]) == old(self).view().t2[x],
            forall|x: int|
                0 <= x < final(self).view().t3.len() && !chain3(
                    old(self).view(),
                    e as int,
                    x,
                    false,
                ) ==> (#[trigger] final(self).view().t3[x]) == old(self).view().t3[x],
            old(self).view().t3[e as int] is Some && !old(self).view().t3[e as int]->0.needs_update
                ==> final(self).view().t2 == old(self).view().t2 && final(self).view().t3 == old(
                self,
            ).view().t3,
            forall|x: int|
                #[trigger] world2(final(self).view(), x) == world2(old(self).view(), x),
            forall|x: int|
                #[trigger] world3(final(self).view(), x) == world3(old(self).view(), x),
    {
        resolve3(&self.parent, &mut self.t2, &mut self.t3, e);
    }
}

/// The process that brings every transform in the scene up to date: one
/// pass over the planar transforms, then one over the spatial ones.
/// Ancestors reached through a child's chain are resolved at most once;
/// revisiting them later finds them clean and does nothing.
pub struct TransformProcess {}

impl TransformProcess {
    #[inline(always)]
    pub fn new() -> (r: TransformProcess)
        ensures
            r == (TransformProcess {  }),
    {
        TransformProcess {  }
    }

    /// One update cycle: afterwards every transform is clean and carries
    /// exactly its resolved record with respect to the scene as it stood
    /// when the cycle began.
    pub fn handle(&mut self, scene: &mut Scene)
        requires
            old(scene).wf(),
            fits(old(scene).view()),
        ensures
            final(scene).wf(),
            fits(final(scene).view()),
            final(scene).view().par == old(scene).view().par,
            final(scene).view().t2.len() == old(scene).view().t2.len(),
            final(scene).view().t3.len() == old(scene).view().t3.len(),
            forall|x: int|
                0 <= x < old(scene).view().t2.len() ==> ((#[trigger] final(scene).view().t2[x])
                    == if old(scene).view().t2[x] is Some {
                    Some(rec2(old(scene).view(), x))
                } else {
                    None
                }),
            forall|x: int|
                0 <= x < old(scene).view().t3.len() ==> ((#[trigger] final(scene).view().t3[x])
                    == if old(scene).view().t3[x] is Some {
                    Some(rec3(old(scene).view(), x))
                } else {
                    None
                }),
            forall|x: int|
                #[trigger] world2(final(scene).view(), x) == world2(old(scene).view(), x),
            forall|x: int|
                #[trigger] world3(final(scene).view(), x) == world3(old(scene).view(), x),
    {
        let ghost v1 = scene.view();
        let n = scene.parent.len();
        let mut i: usize = 0;
        while i < n
            invariant
                i <= n,
                n == scene.parent@.len(),
                scene.parent@ == v1.par,
                scene.t2@.len() == v1.t2.len(),
                scene.t3@.len() == v1.t3.len(),
                v1 == sv(scene.parent@, old(scene).t2@, old(scene).t3@),
                views_ok(scene.view()),
                fits(scene.view()),
                forall|x: int|
                    0 <= x < v1.t2.len() ==> ((#[trigger] scene.t2@[x]) == v1.t2[x] || (v1.t2[x]
                        is Some && scene.t2@[x] == Some(rec2(v1, x)))),
                forall|x: int|
                    0 <= x < v1.t3.len() ==> ((#[trigger] scene.t3@[x]) == v1.t3[x] || (v1.t3[x]
                        is Some && scene.t3@[x] == Some(rec3(v1, x)))),
                forall|x: int| #[trigger] world2(scene.view(), x) == world2(v1, x),
                forall|x: int| #[trigger] world3(scene.view(), x) == world3(v1, x),
                forall|x: int|
                    0 <= x < i && v1.t2[x] is Some ==> (#[trigger] scene.t2@[x]) == Some(
                        rec2(v1, x),
                    ),
            decreases n - i,
        {
            let ghost vc = scene.view();
            resolve2(&scene.parent, &mut scene.t2, &mut scene.t3, i);
            proof {
                let vn = scene.view();
                assert forall|x: int|
                    0 <= x < v1.t2.len() implies ((#[trigger] scene.t2@[x]) == v1.t2[x] || (v1.t2[x]
                    is Some && scene.t2@[x] == Some(rec2(v1, x)))) by {
                    if vn.t2[x] != vc.t2[x] {
                        lemma_rec2_stable(v1, vc, x);
                    }
                }
                assert forall|x: int|
                    0 <= x < v1.t3.len() implies ((#[trigger] scene.t3@[x]) == v1.t3[x] || (v1.t3[x]
                    is Some && scene.t3@[x] == Some(rec3(v1, x)))) by {
                    if vn.t3[x] != vc.t3[x] {
                        lemma_rec3_stable(v1, vc, x);
                    }
                }
                assert forall|x: int|
                    0 <= x < i + 1 && v1.t2[x] is Some implies (#[trigger] scene.t2@[x]) == Some(
                    rec2(v1, x),
                ) by {
                    lemma_rec2_stable(v1, vc, x);
                }
            }
            i = i + 1;
        }
        let mut j: usize = 0;
        while j < n
            invariant
                j <= n,
                n == scene.parent@.len(),
                scene.parent@ == v1.par,
                scene.t2@.len() == v1.t2.len(),
                scene.t3@.len() == v1.t3.len(),
                v1 == sv(scene.parent@, old(scene).t2@, old(scene).t3@),
                views_ok(scene.view()),
                fits(scene.view()),
                forall|x: int|
                    0 <= x < v1.t3.len() ==> ((#[trigger] scene.t3@[x]) == v1.t3[x] || (v1.t3[x]
                        is Some && scene.t3@[x] == Some(rec3(v1, x)))),
                forall|x: int| #[trigger] world2(scene.view(), x) == world2(v1, x),
                forall|x: int| #[trigger] world3(scene.view(), x) == world3(v1, x),
                forall|x: int|
                    0 <= x < v1.t2.len() && v1.t2[x] is Some ==> (#[trigger] scene.t2@[x]) == Some(
                        rec2(v1, x),
                    ),
                forall|x: int|
                    0 <= x < v1.t2.len() && v1.t2[x] is None ==> (#[trigger] scene.t2@[x]) is None,
                forall|x: int|
                    0 <= x < j && v1.t3[x] is Some ==> (#[trigger] scene.t3@[x]) == Some(
                        rec3(v1, x),
                    ),
            decreases n - j,
        {
            let ghost vc = scene.view();
            resolve3(&scene.parent, &mut scene.t2, &mut scene.t3, j);
            proof {
                let vn = scene.view();
                assert forall|x: int|
                    0 <= x < v1.t2.len() && v1.t2[x] is Some implies (#[trigger] scene.t2@[x])
                    == Some(rec2(v1, x)) by {
                    if vn.t2[x] != vc.t2[x] {
                        lemma_rec2_stable(v1, vc, x);
                    }
                }
                assert forall|x: int|
                    0 <= x < v1.t3.len() implies ((#[trigger] scene.t3@[x]) == v1.t3[x] || (v1.t3[x]
                    is Some && scene.t3@[x] == Some(rec3(v1, x)))) by {
                    if vn.t3[x] != vc.t3[x] {
                        lemma_rec3_stable(v1, vc, x);
                    }
                }
                assert forall|x: int|
                    0 <= x < j + 1 && v1.t3[x] is Some implies (#[trigger] scene.t3@[x]) == Some(
                    rec3(v1, x),
                ) by {
                    lemma_rec3_stable(v1, vc, x);
                }
            }
            j = j + 1;
        }
    }
}


} // verus!
