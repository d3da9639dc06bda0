//! File identity and the attributes captured per entry.

use vstd::prelude::*;

verus! {

/// Identity of a file on disk, equal for two names of one file.
///
/// On POSIX it is the device and the inode; elsewhere the volume serial
/// number and the 64-bit file index stand in the same two fields.
#[derive(Debug, Clone, Copy, PartialEq, Eq, Hash, Structural)]
pub struct FileId {
    pub dev: u64,
    pub ino: u64,
}

/// Attributes written into an archive header.
#[derive(Debug, Clone, Copy, PartialEq, Eq, Structural)]
pub struct FileMetadata {
    pub mode: u32,
    pub mtime: u64,
    pub uid: u64,
    pub gid: u64,
}

/// What kind of entry a path names, symlinks not followed.
#[derive(Debug, Clone, Copy, PartialEq, Eq, Structural)]
pub enum FileKind {
    Dir,
    Symlink,
    File,
}

/// What a volume reports for an open handle.
#[derive(Debug, Clone, Copy, PartialEq, Eq, Structural)]
pub struct HandleInfo {
    pub volume_serial: u32,
    pub index_high: u32,
    pub index_low: u32,
}

/// The platform's part of a stat result.
#[derive(Debug, Clone, Copy, PartialEq, Eq, Structural)]
pub enum PlatformStat {
    /// POSIX: permission bits, owner and identity come with the stat call.
    Posix { mode: u32, uid: u32, gid: u32, dev: u64, ino: u64 },
    /// A platform with volume handles; `handle` is `None` when the handle
    /// could not be opened or queried.
    Volume { readonly: bool, handle: Option<HandleInfo> },
    /// Any other platform: only a read-only flag is known.
    Plain { readonly: bool },
}

/// One stat result, as plain values.
#[derive(Debug, Clone, Copy, PartialEq, Eq, Structural)]
pub struct StatInfo {
    pub kind: FileKind,
    pub len: u64,
    /// Seconds since the epoch.
    pub mtime: u64,
    pub platform: PlatformStat,
}

pub const MODE_DIR: u32 = 0o755;

pub const MODE_FILE_READONLY: u32 = 0o444;

pub const MODE_FILE: u32 = 0o644;

/// The 64-bit file index made of its two halves.
pub open spec fn spec_file_index(high: u32, low: u32) -> u64 {
    (high as u64 * 0x1_0000_0000 + low as u64) as u64
}

/// The mode synthesized where the platform has no permission bits.
pub open spec fn spec_synth_mode(kind: FileKind, readonly: bool) -> u32 {
    if kind == FileKind::Dir {
        MODE_DIR
    } else if readonly {
        MODE_FILE_READONLY
    } else {
        MODE_FILE
    }
}

pub open spec fn spec_mode(stat: StatInfo) -> u32 {
    match stat.platform {
        PlatformStat::Posix { mode, .. } => mode,
        PlatformStat::Volume { readonly, .. } => spec_synth_mode(stat.kind, readonly),
        PlatformStat::Plain { readonly } => spec_synth_mode(stat.kind, readonly),
    }
}

pub open spec fn spec_file_id(stat: StatInfo) -> Option<FileId> {
    match stat.platform {
        PlatformStat::Posix { dev, ino, .. } => Some(FileId { dev, ino }),
        PlatformStat::Volume { handle: Some(h), .. } => Some(
            FileId {
                dev: h.volume_serial as u64,
                ino: spec_file_index(h.index_high, h.index_low),
            },
        ),
        _ => None,
    }
}

pub open spec fn spec_file_metadata(stat: StatInfo) -> FileMetadata {
    match stat.platform {
        PlatformStat::Posix { uid, gid, .. } => FileMetadata {
            mode: spec_mode(stat),
            mtime: stat.mtime,
            uid: uid as u64,
            gid: gid as u64,
        },
        _ => FileMetadata { mode: spec_mode(stat), mtime: stat.mtime, uid: 0, gid: 0 },
    }
}

/// Joins the two halves of a file index, the high half in the upper 32 bits.
pub fn file_index(high: u32, low: u32) -> (index: u64)
    ensures
        index == spec_file_index(high, low),
        index as int == high as int * 0x1_0000_0000 + low as int,
{
    let h: u64 = high as u64;
    let l: u64 = low as u64;
    assert(((h << 32) | l) == h * 0x1_0000_0000 + l) by (bit_vector)
        requires
            h <= 0xffff_ffff,
            l <= 0xffff_ffff,
    ;
    assert(h * 0x1_0000_0000 + l <= u64::MAX) by (nonlinear_arith)
        requires
            h <= 0xffff_ffff,
            l <= 0xffff_ffff,
    ;
    (h << 32) | l
}

/// The identity under which hardlinks of this file are recognized, where the
/// platform gives one.
pub fn get_file_id(stat: &StatInfo) -> (id: Option<FileId>)
    ensures
        id == spec_file_id(*stat),
{
    match stat.platform {
        PlatformStat::Posix { mode: _, uid: _, gid: _, dev, ino } => Some(FileId { dev, ino }),
        PlatformStat::Volume { readonly: _, handle } => match handle {
            Some(h) => Some(
                FileId {
                    dev: h.volume_serial as u64,
                    ino: file_index(h.index_high, h.index_low),
                },
            ),
            None => None,
        },
        PlatformStat::Plain { readonly: _ } => None,
    }
}

fn synth_mode(kind: FileKind, readonly: bool) -> (mode: u32)
    ensures
        mode == spec_synth_mode(kind, readonly),
{
    match kind {
        FileKind::Dir => MODE_DIR,
        _ => if readonly {
            MODE_FILE_READONLY
        } else {
            MODE_FILE
        },
    }
}

/// The permission bits of an entry: those of the platform where it has
/// them, else 0o755 for a directory, 0o444 for a read-only file and 0o644
/// for any other file.
pub fn get_mode(stat: &StatInfo) -> (mode: u32)
    ensures
        mode == spec_mode(*stat),
{
    match stat.platform {
        PlatformStat::Posix { mode, uid: _, gid: _, dev: _, ino: _ } => mode,
        PlatformStat::Volume { readonly, handle: _ } => synth_mode(stat.kind, readonly),
        PlatformStat::Plain { readonly } => synth_mode(stat.kind, readonly),
    }
}

/// The attributes of an entry, taken from one stat result. Owner ids are
/// zero where the platform has none.
pub fn get_file_metadata(stat: &StatInfo) -> (meta: FileMetadata)
    ensures
        meta == spec_file_metadata(*stat),
{
    let mode = get_mode(stat);
    match stat.platform {
        PlatformStat::Posix { mode: _, uid, gid, dev: _, ino: _ } => FileMetadata {
            mode,
            mtime: stat.mtime,
            uid: uid as u64,
            gid: gid as u64,
        },
        _ => FileMetadata { mode, mtime: stat.mtime, uid: 0, gid: 0 },
    }
}

} // verus!
