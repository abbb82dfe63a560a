//! A content-addressable storage engine: opaque byte records are kept in a
//! root directory, sharded by one character of each record's encoded
//! identifier, with an atomic two-step put (temporary file, then rename), a
//! reversible tombstone delete under lazy mode, and an explicit garbage
//! collection pass.
//!
//! The engine operates on an explicit model of the root directory's contents
//! ([`fstree::FsTree`]); a shell around the library can mirror every verified
//! transition onto a real filesystem.

pub mod encoding;
pub mod error;
pub mod fstree;
pub mod ids;
pub mod fsstorage;
pub mod laws;
pub mod blocks;
pub mod fsblocks;
pub mod cid_map;
pub mod fsmultikey_map;
pub mod fsvlad_map;

pub use blocks::Blocks;
pub use cid_map::CidMap;
pub use encoding::Base;
pub use error::Error;
pub use error::FsStorageError;
pub use fsblocks::FsBlocks;
pub use fsmultikey_map::FsMultikeyMap;
pub use fsstorage::FsStorage;
pub use fstree::FsTree;
pub use fsvlad_map::FsVladMap;
pub use ids::Cid;
pub use ids::Multikey;
pub use ids::RecordId;
pub use ids::Vlad;
