//! Core of a parallel, streaming directory archiver.
//!
//! The crate holds the decisions of the pack and unpack pipelines: how a
//! scanned entry is classified, how a large file is cut into chunks, which
//! channel a message travels on, how the writer frames each entry, how a
//! large-file body is pulled out of the chunk channel, and which archive
//! entries unpack accepts and in which order it restores them. Threads,
//! files and the archive encoders are left to the program around it.

pub mod bytes;
pub mod meta;
pub mod kernel;
pub mod entry;
pub mod channel;
pub mod stream;
pub mod paths;
pub mod inode_cache;
pub mod reader;
pub mod writer;
pub mod header;
pub mod unpack;
pub mod cli;
