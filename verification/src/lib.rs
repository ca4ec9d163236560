//! A minimal container runtime library: image reference parsing, registry
//! request planning, layer decoding and overlay semantics, sandbox layout
//! planning, confinement sequencing, and child process lifecycle logic.
pub mod confine;
pub mod image;
pub mod layers;
pub mod registry;
pub mod runner;
pub mod sandbox;
