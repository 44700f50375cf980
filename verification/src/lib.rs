//! A layered-grid scene renderer core.
//!
//! A scene is a set of layers, each a uniform grid over the output surface;
//! every cell of a layer occupies a rectangle of that grid and is painted as
//! a background fill, an optional image, and an optional text overlay, in
//! that order. This crate holds the verified core: the scene data model and
//! the builder that reads it out of a configuration document tree, the grid
//! geometry resolver that maps grid coordinates to pixel rectangles, and
//! the planner that turns a scene into an ordered list of draw commands
//! whose paint-order semantics are stated and proved over a pixel model.
//! Windowing, event handling and the actual drawing are left to the caller.

pub mod config;
pub mod geometry;
pub mod plan;
pub mod scene;
