//! Sign-uniform interval analysis for signed distance fields.
//!
//! A signed distance field, sampled along one axis, is described by a sorted
//! set of sign boundaries: from each boundary up to the next one the sign of
//! the field is uniform. Boundary positions are order keys of finite or
//! infinite `f32` values (see `order_key`), so every comparison the analysis
//! makes is an integer comparison.
pub mod order_key;
pub mod sign;
pub mod boundary;
mod btree_order;
pub mod interval;
pub mod listing;
pub mod intervals;
pub mod overlaps;
pub mod handle_stack;
pub mod laws;
