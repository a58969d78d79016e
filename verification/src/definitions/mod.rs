//! Type definitions and their documentation: the items they declare, a
//! builder for items, documentation tags, and the Moonwave comment format.


pub mod item;
pub mod builder;
pub mod tag;
pub mod tree;
pub mod moonwave;
