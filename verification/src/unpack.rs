//! What unpack does with each archive entry, and the order in which
//! directories get their metadata back.

use vstd::prelude::*;
use crate::paths::{is_under, path_view, spec_is_under, Component};
use crate::writer::EntryType;

verus! {

/// Regular files above this size are unpacked straight from the archive
/// stream: 10 MiB.
pub const LARGE_FILE_THRESHOLD: u64 = 10485760;

/// Tasks that the worker queue holds for each thread.
pub const TASKS_PER_THREAD: u64 = 16;

/// What unpack reads of an archive entry before it decides. An entry of any
/// type but directory, symlink and hardlink counts as a regular file.
#[derive(Debug, Clone, PartialEq, Eq)]
pub struct ArchiveEntry {
    pub path: Vec<Component>,
    pub entry_type: EntryType,
    pub size: u64,
    /// Whether the header names a link target.
    pub has_link_name: bool,
}

/// What unpack does with one entry.
#[derive(Debug, Clone, Copy, PartialEq, Eq, Structural)]
pub enum UnpackAction {
    /// The entry would land outside the output root: it is logged and left
    /// out.
    SkipUnsafe,
    /// The directory is created at once; its mode and time are restored at
    /// the very end.
    CreateDir,
    /// The symlink is made after all files are written.
    DeferSymlink,
    /// The hardlink is made after all files and symlinks.
    DeferHardLink,
    /// A link without a target: nothing is done.
    Ignore,
    /// The body is written from the archive stream by the main thread.
    UnpackInPlace,
    /// The body is buffered and handed to a worker.
    SendToWorker,
}

pub open spec fn spec_dispatch(
    under_root: bool,
    entry_type: EntryType,
    size: u64,
    has_link_name: bool,
) -> UnpackAction {
    if !under_root {
        UnpackAction::SkipUnsafe
    } else {
        match entry_type {
            EntryType::Directory => UnpackAction::CreateDir,
            EntryType::Link => if has_link_name {
                UnpackAction::DeferHardLink
            } else {
                UnpackAction::Ignore
            },
            EntryType::Symlink => if has_link_name {
                UnpackAction::DeferSymlink
            } else {
                UnpackAction::Ignore
            },
            EntryType::Regular => if size > LARGE_FILE_THRESHOLD {
                UnpackAction::UnpackInPlace
            } else {
                UnpackAction::SendToWorker
            },
        }
    }
}

/// Decides what becomes of `entry` when the archive is unpacked into
/// `root`. An entry whose path does not resolve to a place at or below the
/// root is refused, whatever its type.
pub fn dispatch(root: &Vec<Component>, entry: &ArchiveEntry) -> (action: UnpackAction)
    ensures
        action == spec_dispatch(
            spec_is_under(path_view(root@), path_view(entry.path@)),
            entry.entry_type,
            entry.size,
            entry.has_link_name,
        ),
        !spec_is_under(path_view(root@), path_view(entry.path@)) ==> action
            == UnpackAction::SkipUnsafe,
{
    if !is_under(root, &entry.path) {
        return UnpackAction::SkipUnsafe;
    }
    match entry.entry_type {
        EntryType::Directory => UnpackAction::CreateDir,
        EntryType::Link => if entry.has_link_name {
            UnpackAction::DeferHardLink
        } else {
            UnpackAction::Ignore
        },
        EntryType::Symlink => if entry.has_link_name {
            UnpackAction::DeferSymlink
        } else {
            UnpackAction::Ignore
        },
        EntryType::Regular => if entry.size > LARGE_FILE_THRESHOLD {
            UnpackAction::UnpackInPlace
        } else {
            UnpackAction::SendToWorker
        },
    }
}

/// Capacity of the queue of buffered files: 16 for each worker thread.
pub fn worker_queue_capacity(threads: u32) -> (capacity: u64)
    ensures
        capacity == threads * TASKS_PER_THREAD,
{
    threads as u64 * TASKS_PER_THREAD
}

/// Whether a file with this mode is made read-only where the platform
/// knows only that flag: it is if nobody may write.
pub fn readonly_for_mode(mode: u32) -> (readonly: bool)
    ensures
        readonly == (mode & 0o222 == 0),
{
    mode & 0o222 == 0
}

/// A directory whose mode and time are restored once everything below it
/// is written.
#[derive(Debug, Clone, PartialEq, Eq)]
pub struct DirMetadata {
    pub path: Vec<Component>,
    pub mode: u32,
    pub mtime: u64,
}

/// Number of components of the path of directory `i`.
pub open spec fn depth_of(dirs: Seq<DirMetadata>, i: int) -> nat {
    dirs[i].path@.len()
}

/// Whether directory `a` is restored before directory `b`: the deeper one
/// first, and of two that are equally deep the one that came first.
pub open spec fn restored_before(dirs: Seq<DirMetadata>, a: int, b: int) -> bool {
    depth_of(dirs, a) > depth_of(dirs, b) || (depth_of(dirs, a) == depth_of(dirs, b) && a < b)
}

pub open spec fn holds_index(order: Seq<usize>, i: int) -> bool {
    exists|k: int| 0 <= k < order.len() && #[trigger] order[k] == i
}

/// Whether `order` lists every directory of `dirs` by its index, deepest
/// first.
pub open spec fn is_restore_order(dirs: Seq<DirMetadata>, order: Seq<usize>) -> bool {
    &&& forall|k: int| 0 <= k < order.len() ==> #[trigger] order[k] < dirs.len()
    &&& forall|a: int, b: int|
        0 <= a < b < order.len() ==> restored_before(
            dirs,
            #[trigger] order[a] as int,
            #[trigger] order[b] as int,
        )
    &&& forall|i: int| 0 <= i < dirs.len() ==> holds_index(order, i)
}

/// An order that lists every directory, deepest first, lists each of them
/// exactly once: it is as long as the list of directories.
pub proof fn lemma_restore_order_len(dirs: Seq<DirMetadata>, order: Seq<usize>)
    requires
        is_restore_order(dirs, order),
    ensures
        order.len() == dirs.len(),
{
    let ints = Seq::new(order.len(), |k: int| order[k] as int);
    assert forall|a: int, b: int| 0 <= a < ints.len() && 0 <= b < ints.len() && a != b implies ints[a]
        != ints[b] by {
        if a < b {
            assert(restored_before(dirs, order[a] as int, order[b] as int));
        } else {
            assert(restored_before(dirs, order[b] as int, order[a] as int));
        }
    }
    assert(ints.no_duplicates());
    ints.unique_seq_to_set();
    vstd::set_lib::lemma_int_range(0, dirs.len() as int);
    assert forall|i: int| ints.to_set().contains(i) <==> vstd::set_lib::set_int_range(
        0,
        dirs.len() as int,
    ).contains(i) by {
        if ints.to_set().contains(i) {
            let k = choose|k: int| 0 <= k < ints.len() && ints[k] == i;
            assert(order[k] < dirs.len());
        }
        if 0 <= i < dirs.len() {
            assert(holds_index(order, i));
            let k = choose|k: int| 0 <= k < order.len() && #[trigger] order[k] == i;
            assert(ints[k] == i);
        }
    }
    assert(ints.to_set() =~= vstd::set_lib::set_int_range(0, dirs.len() as int));
}

proof fn lemma_push_holds(order: Seq<usize>, last: usize, i: int)
    ensures
        holds_index(order, i) ==> holds_index(order.push(last), i),
        holds_index(order.push(last), last as int),
{
    if holds_index(order, i) {
        let k = choose|k: int| 0 <= k < order.len() && #[trigger] order[k] == i;
        assert(order.push(last)[k] == i);
    }
    assert(order.push(last)[order.len() as int] == last);
}

/// The order in which directories get their mode and time back: deepest
/// first, so that writing below a directory never touches a time already
/// restored. Directories of one depth keep the order in which they came.
/// The result lists each directory once, by its index in `dirs`.
pub fn restore_order(dirs: &Vec<DirMetadata>) -> (order: Vec<usize>)
    ensures
        is_restore_order(dirs@, order@),
        order@.len() == dirs@.len(),
{
    let n = dirs.len();
    let mut max_depth: usize = 0;
    let mut i: usize = 0;
    while i < n
        invariant
            i <= n == dirs@.len(),
            forall|j: int| 0 <= j < i ==> depth_of(dirs@, j) <= max_depth,
        decreases n - i,
    {
        if dirs[i].path.len() > max_depth {
            max_depth = dirs[i].path.len();
        }
        i = i + 1;
    }
    let mut order: Vec<usize> = Vec::new();
    let mut level: usize = max_depth;
    let mut done = false;
    while !done
        invariant
            n == dirs@.len(),
            level <= max_depth,
            forall|j: int| 0 <= j < n ==> depth_of(dirs@, j) <= max_depth,
            forall|k: int| 0 <= k < order@.len() ==> #[trigger] order@[k] < n,
            forall|k: int|
                0 <= k < order@.len() ==> done || depth_of(dirs@, #[trigger] order@[k] as int)
                    > level,
            forall|a: int, b: int|
                0 <= a < b < order@.len() ==> restored_before(
                    dirs@,
                    #[trigger] order@[a] as int,
                    #[trigger] order@[b] as int,
                ),
            forall|j: int|
                0 <= j < n && (done || depth_of(dirs@, j) > level) ==> holds_index(order@, j),
        decreases
                (if done {
                    0
                } else {
                    level + 1
                }),
    {
        let mut j: usize = 0;
        while j < n
            invariant
                j <= n == dirs@.len(),
                !done,
                forall|k: int| 0 <= k < order@.len() ==> #[trigger] order@[k] < n,
                forall|k: int|
                    0 <= k < order@.len() ==> depth_of(dirs@, #[trigger] order@[k] as int) > level
                        || (depth_of(dirs@, order@[k] as int) == level && order@[k] < j),
                forall|a: int, b: int|
                    0 <= a < b < order@.len() ==> restored_before(
                        dirs@,
                        #[trigger] order@[a] as int,
                        #[trigger] order@[b] as int,
                    ),
                forall|i: int|
                    0 <= i < n && (depth_of(dirs@, i) > level || (depth_of(dirs@, i) == level && i
                        < j)) ==> holds_index(order@, i),
            decreases n - j,
        {
            if dirs[j].path.len() == level {
                let ghost before = order@;
                order.push(j);
                assert forall|i: int|
                    0 <= i < n && (depth_of(dirs@, i) > level || (depth_of(dirs@, i) == level && i
                        < j + 1)) implies holds_index(order@, i) by {
                    lemma_push_holds(before, j, i);
                }
            }
            j = j + 1;
        }
        if level == 0 {
            done = true;
        } else {
            level = level - 1;
        }
    }
    proof {
        lemma_restore_order_len(dirs@, order@);
    }
    order
}

/// One piece of the work that unpack puts off until every file is written.
#[derive(Debug, Clone, Copy, PartialEq, Eq, Structural)]
pub enum Step {
    /// Make the symlink that was deferred as the given one.
    Symlink(usize),
    /// Make the hardlink that was deferred as the given one.
    HardLink(usize),
    /// Restore mode and time of the directory with the given index.
    DirMetadata(usize),
}

/// The directory indices in the last part of `steps`, from `from` on.
pub open spec fn dir_steps(steps: Seq<Step>, from: int) -> Seq<usize> {
    Seq::new((steps.len() - from) as nat, |k: int| steps[from + k]->DirMetadata_0)
}

/// Whether `steps` is the deferred work in its order: every symlink in the
/// order in which it came, then every hardlink likewise, so that the files
/// they name exist, then the directories, deepest first.
pub open spec fn is_deferred_order(
    symlinks: usize,
    hardlinks: usize,
    dirs: Seq<DirMetadata>,
    steps: Seq<Step>,
) -> bool {
    &&& steps.len() == symlinks + hardlinks + dirs.len()
    &&& forall|k: int| 0 <= k < symlinks ==> #[trigger] steps[k] == Step::Symlink(k as usize)
    &&& forall|k: int|
        0 <= k < hardlinks ==> #[trigger] steps[symlinks + k] == Step::HardLink(k as usize)
    &&& forall|k: int|
        symlinks + hardlinks <= k < steps.len() ==> #[trigger] steps[k] is DirMetadata
    &&& is_restore_order(dirs, dir_steps(steps, symlinks + hardlinks))
}

/// Lays out the work that was deferred while the archive was read: the
/// given number of symlinks, then the given number of hardlinks, then mode
/// and time of `dirs`, deepest directory first.
pub fn deferred_order(symlinks: usize, hardlinks: usize, dirs: &Vec<DirMetadata>) -> (steps: Vec<
    Step,
>)
    ensures
        is_deferred_order(symlinks, hardlinks, dirs@, steps@),
{
    let mut steps: Vec<Step> = Vec::new();
    let mut i: usize = 0;
    while i < symlinks
        invariant
            i <= symlinks,
            steps@.len() == i,
            forall|k: int| 0 <= k < i ==> #[trigger] steps@[k] == Step::Symlink(k as usize),
        decreases symlinks - i,
    {
        steps.push(Step::Symlink(i));
        i = i + 1;
    }
    let mut j: usize = 0;
    while j < hardlinks
        invariant
            j <= hardlinks,
            steps@.len() == symlinks + j,
            forall|k: int| 0 <= k < symlinks ==> #[trigger] steps@[k] == Step::Symlink(k as usize),
            forall|k: int|
                0 <= k < j ==> #[trigger] steps@[symlinks + k] == Step::HardLink(k as usize),
        decreases hardlinks - j,
    {
        steps.push(Step::HardLink(j));
        j = j + 1;
    }
    let order = restore_order(dirs);
    let mut d: usize = 0;
    while d < order.len()
        invariant
            d <= order@.len(),
            order@.len() == dirs@.len(),
            steps@.len() == symlinks + hardlinks + d,
            forall|k: int| 0 <= k < symlinks ==> #[trigger] steps@[k] == Step::Symlink(k as usize),
            forall|k: int|
                0 <= k < hardlinks ==> #[trigger] steps@[symlinks + k] == Step::HardLink(
                    k as usize,
                ),
            forall|k: int|
                0 <= k < d ==> #[trigger] steps@[symlinks + hardlinks + k] == Step::DirMetadata(
                    order@[k],
                ),
        decreases order@.len() - d,
    {
        steps.push(Step::DirMetadata(order[d]));
        d = d + 1;
    }
    proof {
        let from = symlinks + hardlinks;
        assert forall|k: int| from <= k < steps@.len() implies #[trigger] steps@[k] is DirMetadata by {
            assert(steps@[from + (k - from)] == Step::DirMetadata(order@[k - from]));
        }
        assert(dir_steps(steps@, from) =~= order@);
    }
    steps
}

} // verus!
