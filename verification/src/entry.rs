//! The unit of communication between the stages of the pack pipeline.

use vstd::prelude::*;
use crate::meta::FileMetadata;

verus! {

/// Largest number of bytes carried by one chunk of a streamed file: 4 MiB.
pub const CHUNK_SIZE: u64 = 4194304;

/// Files of at least this size are streamed in chunks: 128 MiB.
pub const MEMORY_FILE_THRESHOLD: u64 = 134217728;

/// Capacity of the channel from the scanner to the readers.
pub const PATH_CHANNEL_CAPACITY: usize = 1000;

/// Capacity of the channel that carries entries to the writer.
pub const METADATA_CHANNEL_CAPACITY: usize = 100;

/// Capacity of the channel that carries the bodies of large files.
pub const CHUNK_CHANNEL_CAPACITY: usize = 100;

/// One entry on its way from a reader to the writer. Paths are relative to
/// the parent of the packed directory; they and link targets are the bytes
/// that the platform gave.
#[derive(Debug, Clone, PartialEq, Eq)]
pub enum TarEntry {
    /// A file whose whole content is held in memory.
    SmallFile(Vec<u8>, Vec<u8>, FileMetadata),
    /// Opens the body of a large file of the given total size.
    LargeFileStart(Vec<u8>, u64, FileMetadata),
    /// A fragment of the body that is open.
    LargeFileChunk(Vec<u8>),
    /// Closes the body that is open.
    LargeFileEnd,
    /// A symlink and its target as stored on disk.
    Symlink(Vec<u8>, Vec<u8>, FileMetadata),
    /// A further name of a file already emitted under the second path.
    HardLink(Vec<u8>, Vec<u8>),
    Dir(Vec<u8>, FileMetadata),
}

/// What travels on the channels: an entry, or the failure of a reader.
pub type Message = Result<TarEntry, String>;

/// How an archive is packed.
#[derive(Debug, Clone, Copy, PartialEq, Eq)]
pub struct PackOptions {
    pub level: i32,
    pub threads: u32,
    pub long_distance: bool,
    pub ignore_errors: bool,
}

/// The two channels that reach the writer.
#[derive(Debug, Clone, Copy, PartialEq, Eq, Structural)]
pub enum Channel {
    /// Entries, whole small files and failures.
    Metadata,
    /// Bodies of large files.
    Chunk,
}

/// Body fragments and the end marker are the chunk channel's own.
pub open spec fn is_body_part(entry: TarEntry) -> bool {
    entry is LargeFileChunk || entry is LargeFileEnd
}

pub open spec fn spec_channel_of(message: Message) -> Channel {
    match message {
        Ok(entry) => if is_body_part(entry) {
            Channel::Chunk
        } else {
            Channel::Metadata
        },
        Err(_) => Channel::Metadata,
    }
}

/// The channel on which a message is forwarded: body fragments and end
/// markers on the chunk channel, every other entry and every failure on the
/// metadata channel.
pub fn channel_of(message: &Message) -> (channel: Channel)
    ensures
        channel == spec_channel_of(*message),
{
    match message {
        Ok(TarEntry::LargeFileChunk(_)) => Channel::Chunk,
        Ok(TarEntry::LargeFileEnd) => Channel::Chunk,
        _ => Channel::Metadata,
    }
}

} // verus!
