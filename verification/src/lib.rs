//! Snapshot explorer for an OS-exposed accessibility tree.
//!
//! The crate builds an immutable, arena-indexed snapshot of a hierarchy of
//! on-screen elements, decorates every element with geometry and draw-order
//! metadata, and answers "which element is at screen point (x, y)" queries
//! against that snapshot.  The live accessibility source itself is an opaque
//! collaborator: a driver outside this crate enumerates it node by node and
//! feeds the answers to the verified builder.

pub mod app_ui;
pub mod builder;
pub mod geometry;
pub mod labels;
pub mod rectangle;
pub mod tree_map;
pub mod uiexplore;
