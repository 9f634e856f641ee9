//! A typed persistence layer over an embedded, ordered key-value engine.
//!
//! Records are stored in named partitions; each record derives its own key and
//! is written in its binary encoding. Several inserts can be gathered in a
//! batch and handed to a partition in one step.
//!
//! - [`store`]: the handle to the store, from which partitions are opened,
//!   listed, flushed and removed.
//! - [`tree`]: one partition.
//! - [`batch`]: writes that wait to be applied, and what a sequence of inserts
//!   leaves in a batch.
//! - [`config`]: the options with which the store is opened.
//! - [`types`]: key derivation and the names of partitions.
//! - [`error`]: the errors, and how outside failures become such errors.
//! - [`order`]: the order of keys in a listing.
//! - [`engine`] and [`codec`]: the calls into the storage engine and into the
//!   encoding, with what is taken on trust of each.
pub mod batch;
pub mod codec;
pub mod config;
pub mod engine;
pub mod error;
pub mod order;
pub mod store;
pub mod tree;
pub mod types;

pub use batch::DbBatch;
pub use error::{DbError, KeyError};
pub use store::{Database, DropReport};
pub use tree::DbTree;
