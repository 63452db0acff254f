//! Parallax scrolling for layered 2D scenes.
//!
//! Every number that the library handles is a single-precision IEEE 754 value
//! held as its bit pattern, and every arithmetic step is the correctly rounded
//! operation of that standard, so that the results agree bit for bit with the
//! hardware while each rule of the parallax model carries a proved contract.
pub mod float;
pub mod commands;
pub mod components;
pub mod depth;
pub mod flags;
pub mod material;
pub mod plugin;
pub mod prelude;
pub mod resources;
pub mod systems;
pub mod vec2;
