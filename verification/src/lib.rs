//! Near-duplicate photo detection engine.
//!
//! Records carry a coarse visual fingerprint (a byte sequence of RGB
//! triplets). The engine derives an average colour from each fingerprint,
//! indexes the colours in a capacity-sharded spatial index, and groups
//! records whose colours fall within a fixed radius and whose fingerprints
//! a three-tier similarity judge confirms.

pub mod corpus;
pub mod dedup;
pub mod hexcode;
pub mod index;
pub mod intersect;
pub mod judge;
pub mod record;
