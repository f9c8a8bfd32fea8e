//! Per-cube triangulation dispatch for isosurface extraction (marching cubes).
//!
//! A scalar field is sampled at the eight corners of a cubic cell. A corner is
//! "inside" the surface when its density is at or below zero. The pattern of
//! inside corners selects one of 256 configurations, and a caller-supplied
//! 256-entry connectivity table maps each configuration to up to four
//! triangles, each given by the indices of the three cube edges its vertices
//! lie on. These functions classify a cell, read the table, and hand the edge
//! indices to the caller, who places the actual vertices and deduplicates them
//! across neighbouring cells.

pub mod config;
pub mod dispatch;

