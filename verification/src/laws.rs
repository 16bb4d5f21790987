//! The laws the resolver obeys, stated over the resolved-world
//! specification that the resolvers' contracts are written in.
use vstd::prelude::*;
use crate::math2::m2_of;
use crate::math2::m2_mul;
use crate::math2::m2_compose;
use crate::math2::M2;
use crate::math3::m4_of;
use crate::math3::m4_mul;
use crate::math3::m4_compose;
use crate::math3::m4_embed;
use crate::math3::m2_project;
use crate::math3::M4;
use crate::scene::SceneView;
use crate::scene::hier_ok;
use crate::scene::world2;
use crate::scene::world3;
use crate::scene::rec2;
use crate::scene::rec3;
use crate::scene::chain2;
use crate::scene::chain3;
use crate::scene::lemma_depth_parent;
use crate::scene::lemma_chain_shallow;

verus! {

/// Resolving a clean planar transform is a no-op: its resolved record is
/// itself, and its resolved world matrix is its cached matrix; so
/// resolving any number of times within one cycle changes nothing.
pub proof fn lemma_clean_resolution_identity_2d(v: SceneView, x: int)
    requires
        hier_ok(v.par),
        0 <= x < v.t2.len(),
        v.t2[x] is Some,
        !v.t2[x]->0.needs_update,
    ensures
        rec2(v, x) == v.t2[x]->0,
        world2(v, x) == m2_of(v.t2[x]->0.matrix),
{
}

/// The spatial counterpart of `lemma_clean_resolution_identity_2d`.
pub proof fn lemma_clean_resolution_identity_3d(v: SceneView, x: int)
    requires
        hier_ok(v.par),
        0 <= x < v.t3.len(),
        v.t3[x] is Some,
        !v.t3[x]->0.needs_update,
    ensures
        rec3(v, x) == v.t3[x]->0,
        world3(v, x) == m4_of(v.t3[x]->0.matrix),
{
}

/// An entity with no parent, or whose parent carries no transform of
/// either kind, resolves to exactly the composition of its own local
/// state: the identity-ancestor case.
pub proof fn lemma_world_no_parent_2d(v: SceneView, e: int)
    requires
        hier_ok(v.par),
        0 <= e < v.t2.len(),
        v.t2[e] is Some,
        v.t2[e]->0.needs_update,
        0 <= e < v.par.len() && v.par[e] is Some ==> {
            let p = v.par[e]->0 as int;
            &&& !(0 <= p < v.t2.len() && v.t2[p] is Some)
            &&& !(0 <= p < v.t3.len() && v.t3[p] is Some)
        },
    ensures
        world2(v, e) == m2_compose(
            v.t2[e]->0.local_position,
            v.t2[e]->0.local_scale,
            v.t2[e]->0.local_rotation,
        ),
{
}

/// The spatial counterpart of `lemma_world_no_parent_2d`.
pub proof fn lemma_world_no_parent_3d(v: SceneView, e: int)
    requires
        hier_ok(v.par),
        0 <= e < v.t3.len(),
        v.t3[e] is Some,
        v.t3[e]->0.needs_update,
        0 <= e < v.par.len() && v.par[e] is Some ==> {
            let p = v.par[e]->0 as int;
            &&& !(0 <= p < v.t3.len() && v.t3[p] is Some)
            &&& !(0 <= p < v.t2.len() && v.t2[p] is Some)
        },
    ensures
        world3(v, e) == m4_compose(
            v.t3[e]->0.local_position,
            v.t3[e]->0.local_scale,
            v.t3[e]->0.local_rotation,
        ),
{
}

/// Parent composition: a dirty planar child of a planar parent resolves
/// to the parent's resolved world matrix times the child's local matrix,
/// in that order.
pub proof fn lemma_world_parent_2d(v: SceneView, e: int, p: usize)
    requires
        hier_ok(v.par),
        0 <= e < v.t2.len(),
        v.t2[e] is Some,
        v.t2[e]->0.needs_update,
        0 <= e < v.par.len(),
        v.par[e] == Some(p),
        0 <= p < v.t2.len(),
        v.t2[p as int] is Some,
    ensures
        world2(v, e) == m2_mul(
            world2(v, p as int),
            m2_compose(
                v.t2[e]->0.local_position,
                v.t2[e]->0.local_scale,
                v.t2[e]->0.local_rotation,
            ),
        ),
{
}

/// The spatial counterpart of `lemma_world_parent_2d`.
pub proof fn lemma_world_parent_3d(v: SceneView, e: int, p: usize)
    requires
        hier_ok(v.par),
        0 <= e < v.t3.len(),
        v.t3[e] is Some,
        v.t3[e]->0.needs_update,
        0 <= e < v.par.len(),
        v.par[e] == Some(p),
        0 <= p < v.t3.len(),
        v.t3[p as int] is Some,
    ensures
        world3(v, e) == m4_mul(
            world3(v, p as int),
            m4_compose(
                v.t3[e]->0.local_position,
                v.t3[e]->0.local_scale,
                v.t3[e]->0.local_rotation,
            ),
        ),
{
}

/// Mixed-kind parenting, planar child under a spatial parent: the
/// parent's resolved spatial world matrix is projected onto the plane
/// and composed with the child's local matrix.
pub proof fn lemma_world_mixed_parent_2d(v: SceneView, e: int, p: usize)
    requires
        hier_ok(v.par),
        0 <= e < v.t2.len(),
        v.t2[e] is Some,
        v.t2[e]->0.needs_update,
        0 <= e < v.par.len(),
        v.par[e] == Some(p),
        !(0 <= p < v.t2.len() && v.t2[p as int] is Some),
        0 <= p < v.t3.len(),
        v.t3[p as int] is Some,
    ensures
        world2(v, e) == m2_mul(
            m2_project(world3(v, p as int)),
            m2_compose(
                v.t2[e]->0.local_position,
                v.t2[e]->0.local_scale,
                v.t2[e]->0.local_rotation,
            ),
        ),
{
}

/// Mixed-kind parenting, spatial child under a planar parent: the
/// parent's resolved planar world matrix is embedded into a homogeneous
/// matrix and composed with the child's local matrix.
pub proof fn lemma_world_mixed_parent_3d(v: SceneView, e: int, p: usize)
    requires
        hier_ok(v.par),
        0 <= e < v.t3.len(),
        v.t3[e] is Some,
        v.t3[e]->0.needs_update,
        0 <= e < v.par.len(),
        v.par[e] == Some(p),
        !(0 <= p < v.t3.len() && v.t3[p as int] is Some),
        0 <= p < v.t2.len(),
        v.t2[p as int] is Some,
    ensures
        world3(v, e) == m4_mul(
            m4_embed(world2(v, p as int)),
            m4_compose(
                v.t3[e]->0.local_position,
                v.t3[e]->0.local_scale,
                v.t3[e]->0.local_rotation,
            ),
        ),
{
}

/// The dirty-propagation boundary: resolving a parent never writes one of
/// its children, of either kind, because resolution only climbs the
/// hierarchy; a stale child keeps its cached world matrix until it is
/// itself resolved. Combined with the resolvers' frame contracts this
/// says that memoization is per node, not push-based.
pub proof fn lemma_resolve_parent_leaves_child(v: SceneView, p: usize, c: int)
    requires
        hier_ok(v.par),
        0 <= c < v.par.len(),
        v.par[c] == Some(p),
    ensures
        !chain2(v, p as int, c, true),
        !chain2(v, p as int, c, false),
        !chain3(v, p as int, c, true),
        !chain3(v, p as int, c, false),
{
    lemma_depth_parent(v.par, c, p);
    lemma_chain_shallow(v, p as int, c);
}

} // verus!
