//! A verified 2-D rigid-disk physics engine.
//!
//! A fixed set of disk-shaped bodies moves under gravity inside a
//! rectangular arena, bounces off the arena walls, and exchanges momentum
//! in pairwise, perfectly elastic collisions. One [`sim::step`] per fixed
//! tick runs gravity, the pair sweep, the wall pass and integration, in
//! that order, mutating the caller's body store in place.
//!
//! All state is fixed-point `i64` (the caller picks the unit), so every
//! tick is an exact integer computation: each public function carries a
//! contract that pins its result down completely against a model in ghost
//! integers, and the conservation laws of the collision model are proved
//! in [`laws`]. Where the physics calls for a ratio, the code divides and
//! rounds, and the contracts say exactly how; stored quantities saturate
//! at a fixed coordinate range instead of overflowing.
//!
//! The modules, leaves first: [`math`] (rounded division, saturation,
//! integer square root), [`vec2`] and [`body`] (the data model and its
//! well-formedness), [`geom`] (overlap tests, extrapolation, edges),
//! [`motion`] (gravity and integration), [`bounds`] (wall bounces and
//! penetration repair), [`collide`] (separation, the mass-weighted
//! bounce, the pair sweep), [`sim`] (the step and the spawn/pick
//! queries), and [`laws`] (momentum, energy, separation and containment
//! lemmas).

pub mod body;
pub mod bounds;
pub mod collide;
pub mod geom;
pub mod laws;
pub mod math;
pub mod motion;
pub mod sim;
pub mod vec2;
