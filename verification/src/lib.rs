//! Use a directory tree of structured files as one nested data store.
//!
//! A [`Schema`] says which parts of the data are directories and which are
//! files, and in which format each file is written. A [`Store`] reads and
//! writes the data by [`Path`]: the first segments of a path lead down the
//! schema to a file, and the rest lead into the [`Value`] that the file
//! holds.
//!
//! The library does no input or output. It works on [`files::Files`], the
//! files of a store held in memory: [`Store::sources`] names the files that
//! an operation may touch, the caller loads them, and what the operation
//! wrote is noted for the caller to carry to disk.
//!
//! Every function says in its contract what it gives, over the mathematical
//! trees that the data stand for, and [`laws`] holds what follows for reading
//! after writing. The four formats are read and written by outside crates;
//! what those return is named, not described.

pub mod database;
pub mod entries;
pub mod error;
pub mod files;
pub mod float;
pub mod laws;
pub mod order;
pub mod path;
pub mod schema;
pub mod sequence;
pub mod source;
pub mod store;
pub mod value;

pub use crate::error::Error;
pub use crate::path::Path;
pub use crate::schema::Schema;
pub use crate::source::Source;
pub use crate::store::Store;
pub use crate::value::Value;
