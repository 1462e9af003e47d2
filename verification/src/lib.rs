//! Storage core of an embedded, file-backed record store.
//!
//! A store file is a 16-byte header followed by fixed-size record frames.
//! Records are only ever appended; a record is logically deleted by
//! appending a tombstone. A schema maps table names to storage backends.
//!
//! The library never touches the file system. A store file is handed to
//! it as the bytes it holds, and every operation says in its contract
//! which bytes it reads or leaves behind.

pub mod db_error;
pub mod db_file;
pub mod db_codec;
pub mod db_laws;
pub mod db_interfaces;
pub mod db_schema;
