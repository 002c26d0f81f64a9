//! Collision core for a single circular body (the "pongi") moving through a
//! bounded 2D arena of axis-aligned rectangular walls.
//!
//! Within one simulation step the resolver advances the body by its velocity,
//! detects the nearest wall crossing with a swept-sphere test, reflects the
//! velocity elastically, and repeats until the step's travel is consumed or a
//! reflection limit is reached.
//!
//! All coordinates, radii and time deltas are exact integers on a grid chosen
//! by the caller (for example 1024 grid units per world unit, and velocity in
//! grid units per tick).  Every geometric test is then exact: there is no
//! epsilon, no drift, and every contract below is a precise statement about
//! the returned values.

pub mod button;
pub mod geom;
pub mod mesh;
pub mod resolve;
pub mod shape;
