//! What a reader decides for each scanned path: how the entry is packed,
//! how a large file is cut into chunks, and what becomes of a failure.

use vstd::prelude::*;
use crate::channel::pool_take;
use crate::entry::{Message, CHUNK_SIZE, MEMORY_FILE_THRESHOLD};
use crate::inode_cache::{spec_claim, InodeCache};
use crate::meta::{get_file_id, spec_file_id, FileId, FileKind, StatInfo};

verus! {

/// How one scanned path is packed.
#[derive(Debug, Clone, PartialEq, Eq)]
pub enum ReadPlan {
    /// A directory entry; nothing is read.
    Dir,
    /// A symlink entry; the link's target is read, not followed.
    Symlink,
    /// A further name of a file packed before under the given path.
    HardLink(Vec<u8>),
    /// The whole file is read into one buffer.
    SmallFile(u64),
    /// The file is streamed in chunks, under the large-file gate.
    LargeFile(u64),
}

/// The plan without the path of a hardlink's target.
pub enum PlanKind {
    Dir,
    Symlink,
    HardLink,
    SmallFile,
    LargeFile,
}

/// Whether a regular file with this stat result was packed before under
/// another name.
pub open spec fn is_known_file(cache: Map<FileId, Seq<u8>>, stat: StatInfo) -> bool {
    match spec_file_id(stat) {
        Some(id) => cache.contains_key(id),
        None => false,
    }
}

pub open spec fn spec_plan_kind(cache: Map<FileId, Seq<u8>>, stat: StatInfo) -> PlanKind {
    match stat.kind {
        FileKind::Dir => PlanKind::Dir,
        FileKind::Symlink => PlanKind::Symlink,
        FileKind::File => if is_known_file(cache, stat) {
            PlanKind::HardLink
        } else if stat.len < MEMORY_FILE_THRESHOLD {
            PlanKind::SmallFile
        } else {
            PlanKind::LargeFile
        },
    }
}

/// The cache after a path was classified: only a regular file with an
/// identity is recorded, and only where the identity is new.
pub open spec fn spec_cache_after_plan(
    cache: Map<FileId, Seq<u8>>,
    path: Seq<u8>,
    stat: StatInfo,
) -> Map<FileId, Seq<u8>> {
    match (stat.kind, spec_file_id(stat)) {
        (FileKind::File, Some(id)) => spec_claim(cache, id, path),
        _ => cache,
    }
}

/// Decides how the entry at `relative_path` is packed.
///
/// A directory and a symlink are packed as such. A regular file whose
/// identity the cache holds becomes a hardlink to the path recorded there;
/// any other regular file is recorded in the cache, where it has an
/// identity, and is read whole if it is smaller than 128 MiB and streamed
/// otherwise.
pub fn classify(cache: &mut InodeCache, relative_path: &Vec<u8>, stat: &StatInfo) -> (plan: ReadPlan)
    ensures
        final(cache)@ == spec_cache_after_plan(old(cache)@, relative_path@, *stat),
        match spec_plan_kind(old(cache)@, *stat) {
            PlanKind::Dir => plan == ReadPlan::Dir,
            PlanKind::Symlink => plan == ReadPlan::Symlink,
            PlanKind::HardLink => plan is HardLink && plan->HardLink_0@ == old(cache)@[spec_file_id(
                *stat,
            )->Some_0],
            PlanKind::SmallFile => plan == ReadPlan::SmallFile(stat.len),
            PlanKind::LargeFile => plan == ReadPlan::LargeFile(stat.len),
        },
{
    match stat.kind {
        FileKind::Dir => ReadPlan::Dir,
        FileKind::Symlink => ReadPlan::Symlink,
        FileKind::File => {
            match get_file_id(stat) {
                Some(id) => {
                    match cache.claim(id, relative_path) {
                        Some(first) => {
                            return ReadPlan::HardLink(first);
                        },
                        None => {},
                    }
                },
                None => {},
            }
            if stat.len < MEMORY_FILE_THRESHOLD {
                ReadPlan::SmallFile(stat.len)
            } else {
                ReadPlan::LargeFile(stat.len)
            }
        },
    }
}

/// Size of the chunk that starts at `pos` in a file of `len` bytes.
pub open spec fn spec_chunk_len(len: u64, pos: u64) -> u64 {
    if len - pos < CHUNK_SIZE {
        (len - pos) as u64
    } else {
        CHUNK_SIZE
    }
}

/// The sizes of the chunks that cover a file of `len` bytes from `pos` on.
pub open spec fn spec_chunk_sizes(len: u64, pos: u64) -> Seq<u64>
    decreases len - pos,
{
    if pos >= len {
        Seq::empty()
    } else {
        let size = spec_chunk_len(len, pos);
        seq![size] + spec_chunk_sizes(len, (pos + size) as u64)
    }
}

pub open spec fn spec_sum(sizes: Seq<u64>) -> nat
    decreases sizes.len(),
{
    if sizes.len() == 0 {
        0
    } else {
        sizes[0] as nat + spec_sum(sizes.skip(1))
    }
}

/// Walks a large file chunk by chunk.
#[derive(Debug, Clone, Copy, PartialEq, Eq)]
pub struct ChunkCursor {
    len: u64,
    pos: u64,
}

impl ChunkCursor {
    pub closed spec fn wf(&self) -> bool {
        self.pos <= self.len
    }

    /// Size of the file.
    pub closed spec fn spec_len(&self) -> u64 {
        self.len
    }

    /// Offset of the next chunk.
    pub closed spec fn spec_pos(&self) -> u64 {
        self.pos
    }

    /// A cursor at the start of a file of `len` bytes.
    pub fn new(len: u64) -> (cursor: Self)
        ensures
            cursor.wf(),
            cursor.spec_len() == len,
            cursor.spec_pos() == 0,
    {
        ChunkCursor { len, pos: 0 }
    }

    /// Offset of the next chunk.
    pub fn pos(&self) -> (pos: u64)
        ensures
            pos == self.spec_pos(),
    {
        self.pos
    }

    /// The next chunk as offset and size, `None` once the file is covered.
    /// A chunk holds 4 MiB, the last one what is left.
    pub fn next_chunk(&mut self) -> (chunk: Option<(u64, u64)>)
        requires
            old(self).wf(),
        ensures
            final(self).wf(),
            final(self).spec_len() == old(self).spec_len(),
            old(self).spec_pos() == old(self).spec_len() ==> chunk is None && final(self).spec_pos()
                == old(self).spec_pos(),
            old(self).spec_pos() < old(self).spec_len() ==> chunk == Some(
                (old(self).spec_pos(), spec_chunk_len(old(self).spec_len(), old(self).spec_pos())),
            ) && final(self).spec_pos() == old(self).spec_pos() + spec_chunk_len(
                old(self).spec_len(),
                old(self).spec_pos(),
            ),
    {
        if self.pos >= self.len {
            return None;
        }
        let remaining = self.len - self.pos;
        let size = if remaining < CHUNK_SIZE {
            remaining
        } else {
            CHUNK_SIZE
        };
        let offset = self.pos;
        self.pos = self.pos + size;
        Some((offset, size))
    }
}

/// The chunks of a file cover it exactly: from any offset on, each chunk
/// holds at least one byte and at most 4 MiB, and their sizes add up to
/// what is left of the file.
pub proof fn lemma_chunks_cover_file(len: u64, pos: u64)
    requires
        pos <= len,
    ensures
        spec_sum(spec_chunk_sizes(len, pos)) == len - pos,
        forall|i: int|
            0 <= i < spec_chunk_sizes(len, pos).len() ==> 0 < #[trigger] spec_chunk_sizes(
                len,
                pos,
            )[i] <= CHUNK_SIZE,
    decreases len - pos,
{
    if pos < len {
        let size = spec_chunk_len(len, pos);
        let rest = spec_chunk_sizes(len, (pos + size) as u64);
        lemma_chunks_cover_file(len, (pos + size) as u64);
        let all = spec_chunk_sizes(len, pos);
        assert(all == seq![size] + rest);
        assert(all.skip(1) =~= rest);
        assert forall|i: int| 0 <= i < all.len() implies 0 < #[trigger] all[i] <= CHUNK_SIZE by {
            if i > 0 {
                assert(all[i] == rest[i - 1]);
            }
        }
    }
}

/// A buffer to read into: one from the pool where the pool has one, else a
/// new one with room for `capacity` bytes. Either way it comes back empty.
pub fn acquire_buffer(pool: &crossbeam_channel::Receiver<Vec<u8>>, capacity: usize) -> (buffer: Vec<
    u8,
>)
    ensures
        buffer@.len() == 0,
{
    match pool_take(pool) {
        Some(recycled) => {
            let mut buffer = recycled;
            buffer.clear();
            buffer
        },
        None => Vec::with_capacity(capacity),
    }
}

/// `num_cpus::get`: the number of processors that this process may run on.
/// It depends on the machine, so nothing is claimed about it.
#[verifier::external_body]
fn available_cpus() -> (cpus: usize) {
    num_cpus::get()
}

pub open spec fn spec_worker_count(cpus: usize) -> usize {
    if cpus < 1 {
        1
    } else {
        cpus
    }
}

/// Number of readers for a machine with `cpus` processors: one for each,
/// and at least one.
pub fn worker_count_for(cpus: usize) -> (workers: usize)
    ensures
        workers == spec_worker_count(cpus),
{
    if cpus < 1 {
        1
    } else {
        cpus
    }
}

/// Number of readers on this machine: at least one.
pub fn worker_count() -> (workers: usize)
    ensures
        workers >= 1,
        exists|cpus: usize| workers == spec_worker_count(cpus),
{
    let cpus = available_cpus();
    worker_count_for(cpus)
}

/// What becomes of an entry that could not be read.
#[derive(Debug, Clone, Copy, PartialEq, Eq, Structural)]
pub enum FailureAction {
    /// The failure is logged and the entry left out.
    Skip,
    /// The failure is sent to the writer, which ends the run.
    Abort,
}

/// An unreadable entry is skipped where errors are ignored, and ends the
/// run otherwise.
pub fn on_entry_failure(ignore_errors: bool) -> (action: FailureAction)
    ensures
        action == if ignore_errors {
            FailureAction::Skip
        } else {
            FailureAction::Abort
        },
{
    if ignore_errors {
        FailureAction::Skip
    } else {
        FailureAction::Abort
    }
}

/// What reaches the writer of one entry's outcome: the entry that was read;
/// of a failure its reason, unless errors are ignored.
pub open spec fn spec_report(outcome: Message, ignore_errors: bool) -> Option<Message> {
    match outcome {
        Ok(entry) => Some(Ok(entry)),
        Err(reason) => if ignore_errors {
            None
        } else {
            Some(Err(reason))
        },
    }
}

/// Decides what is sent to the writer for the outcome of one entry: an
/// entry that was read is sent; a failure is sent as such, so that the
/// writer ends the run, unless errors are ignored, in which case nothing is
/// sent.
pub fn report(outcome: Message, ignore_errors: bool) -> (message: Option<Message>)
    ensures
        message == spec_report(outcome, ignore_errors),
{
    match outcome {
        Ok(entry) => Some(Ok(entry)),
        Err(reason) => match on_entry_failure(ignore_errors) {
            FailureAction::Skip => None,
            FailureAction::Abort => Some(Err(reason)),
        },
    }
}

} // verus!
