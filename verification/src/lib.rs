//! Columns of values in memory.
//!
//! An [`array::Array`] is a sequence of slots of one logical type, each
//! holding a value or a null. It is built by appending: its values lie in
//! [`buffer::Buffer`]s that double when they are full, a [`bitmap::BitMap`]
//! marks its nulls once there is one, and a [`mempool::MemoryPool`] counts
//! every byte and refuses what goes over its ceiling. An array of lists
//! keeps the values of all its lists in a child array and lends it out to be
//! appended to. When it is built, an array is frozen into a
//! [`frozen::FrozenArray`], which only reads.
//!
//! [`dtypes`] holds the logical types, [`column`] what holds of every array
//! that was built by appending, and [`types`] the schemas that name and
//! order the columns of a table.

pub mod errors;
pub mod mempool;
pub mod buffer;
pub mod bitmap;
pub mod dtypes;
pub mod array;
pub mod column;
pub mod frozen;
pub mod text;
pub mod util;
pub mod types;
