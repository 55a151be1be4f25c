//! A small collection of verified data structures and algorithms, built
//! around a library of composable lazy sequence adaptors: combinators that
//! wrap a forward-only producer of values and transform how its elements
//! are consumed, without materializing the whole sequence up front.

pub mod combinations;
pub mod comm;
pub mod conway;
pub mod cycle;
pub mod extended;
pub mod extract;
pub mod flatmap;
pub mod group_by;
pub mod lru_cache;
pub mod min_queue;
pub mod mpsc;
pub mod prefix;
pub mod producer;
pub mod puzzle;
pub mod tee;
pub mod trust;
