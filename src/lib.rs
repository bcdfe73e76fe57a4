//! Reconstruction of a cave-survey network from a stream of decoded survey
//! records: named stations with positions, flags and passage dimensions, and
//! an undirected graph of the survey legs between them.
//!
//! Coordinates and passage dimensions are held as whole centimetres, which is
//! the resolution of the survey format, so that station lookup by position is
//! exact.
pub mod point;
pub mod read;
pub mod data;
pub mod graph;
pub mod station;
