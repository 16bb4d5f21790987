//! World-space spatial state for entities in a parent-child hierarchy.
//!
//! Two transform kinds are supported: planar (position, scale and a
//! rotation angle given by its cosine and sine) and spatial (position,
//! scale and a quaternion rotation). A dirty-flag-driven, memoized,
//! recursive resolver rebuilds each entity's local matrix from its local
//! state, composes it with the resolved world matrix of the nearest
//! ancestor carrying a transform of either kind, and decomposes the
//! result back into world-space position, scale and rotation.
//!
//! All arithmetic is exact over integers: rotations live on the integer
//! unit circle (planar) and the integer unit quaternions (spatial), so
//! composing and decomposing are exact inverses wherever the inputs are
//! representable.
pub mod math2;
pub mod math3;
pub mod xform2;
pub mod xform3;
pub mod scene;
pub mod laws;
