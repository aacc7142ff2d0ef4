//! A procedural terrain generator: a composable noise pipeline that turns a
//! world seed and an integer position into a block, and a chunked cache that
//! generates each region of an unbounded world once, on first visit.
//!
//! All arithmetic is on integers. Continuous quantities are fixed-point
//! numbers (see [`fixed`]), so a world is the same on every machine, and no
//! input that a function admits makes it overflow or panic.
//!
//! * [`noise`] holds the interfaces of the noise framework; [`simplex`],
//!   [`hash`] and [`gradient`] are the primitive fields; [`scale`], [`sum`],
//!   [`octaves`] and [`add`] combine fields into richer ones.
//! * [`layer`] and [`random`] turn a depth and a draw into a block;
//!   [`layer_laws`] states what holds of that blend.
//! * [`game_rules`] is the registry of blocks, layers and fields, and
//!   generates chunks; [`world`] caches them.
//! * [`block`], [`colour`], [`viewport`], [`matrix`] and [`logger`] serve the
//!   renderer and the host.
pub mod add;
pub mod block;
pub mod colour;
pub mod coords;
pub mod fixed;
pub mod game_rules;
pub mod gradient;
pub mod hash;
pub mod layer;
pub mod layer_laws;
pub mod logger;
pub mod matrix;
pub mod noise;
pub mod octaves;
pub mod perm_table;
pub mod random;
pub mod scale;
pub mod simplex;
pub mod sum;
pub mod viewport;
pub mod world;
