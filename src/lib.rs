//! Packs small data chunks into larger blobs held by a storage backend, and
//! hands out persistent references to the chunks.

use vstd::prelude::*;

pub mod backend;
pub mod blob_store;
pub mod chunk_ref;
pub mod index;
pub mod laws;
pub mod store;
