//! What the writer does with each message of the metadata channel: the
//! header it frames and where the body comes from.

use vstd::prelude::*;
use crate::entry::{is_body_part, spec_channel_of, Channel, Message, TarEntry};
use crate::reader::spec_report;

verus! {

/// The kinds of archive entry that pack produces.
#[derive(Debug, Clone, Copy, PartialEq, Eq, Structural)]
pub enum EntryType {
    Regular,
    Directory,
    Symlink,
    Link,
}

/// Owner and modification time of an entry.
#[derive(Debug, Clone, Copy, PartialEq, Eq, Structural)]
pub struct Stamp {
    pub uid: u64,
    pub gid: u64,
    pub mtime: u64,
}

/// The fields of one archive header.
#[derive(Debug, Clone, PartialEq, Eq)]
pub struct HeaderPlan {
    pub path: Vec<u8>,
    pub entry_type: EntryType,
    pub size: u64,
    pub mode: u32,
    /// Owner and time; a hardlink's header carries none.
    pub stamp: Option<Stamp>,
    pub link_name: Option<Vec<u8>>,
}

/// Where the bytes behind a header come from.
#[derive(Debug, Clone, PartialEq, Eq)]
pub enum Body {
    /// The entry has no content.
    Empty,
    /// The content is this buffer, which goes back to the pool afterwards.
    Buffer(Vec<u8>),
    /// The content of the given size arrives on the chunk channel.
    Stream(u64),
}

/// One entry of the archive, ready to be framed.
#[derive(Debug, Clone, PartialEq, Eq)]
pub struct WritePlan {
    pub header: HeaderPlan,
    pub body: Body,
}

/// Why the writer ends the run.
#[derive(Debug, Clone, PartialEq, Eq)]
pub enum PackError {
    /// A body fragment or an end marker came on the metadata channel.
    Protocol,
    /// A reader reported a failure.
    Reader(String),
}

/// The mode of every hardlink entry.
pub const HARDLINK_MODE: u32 = 0o644;

pub open spec fn spec_plan_entry(entry: TarEntry) -> WritePlan {
    match entry {
        TarEntry::Dir(path, meta) => WritePlan {
            header: HeaderPlan {
                path,
                entry_type: EntryType::Directory,
                size: 0,
                mode: meta.mode,
                stamp: Some(Stamp { uid: meta.uid, gid: meta.gid, mtime: meta.mtime }),
                link_name: None,
            },
            body: Body::Empty,
        },
        TarEntry::SmallFile(path, bytes, meta) => WritePlan {
            header: HeaderPlan {
                path,
                entry_type: EntryType::Regular,
                size: bytes@.len() as u64,
                mode: meta.mode,
                stamp: Some(Stamp { uid: meta.uid, gid: meta.gid, mtime: meta.mtime }),
                link_name: None,
            },
            body: Body::Buffer(bytes),
        },
        TarEntry::LargeFileStart(path, total, meta) => WritePlan {
            header: HeaderPlan {
                path,
                entry_type: EntryType::Regular,
                size: total,
                mode: meta.mode,
                stamp: Some(Stamp { uid: meta.uid, gid: meta.gid, mtime: meta.mtime }),
                link_name: None,
            },
            body: Body::Stream(total),
        },
        TarEntry::Symlink(path, target, meta) => WritePlan {
            header: HeaderPlan {
                path,
                entry_type: EntryType::Symlink,
                size: 0,
                mode: meta.mode,
                stamp: Some(Stamp { uid: meta.uid, gid: meta.gid, mtime: meta.mtime }),
                link_name: Some(target),
            },
            body: Body::Empty,
        },
        TarEntry::HardLink(path, target) => WritePlan {
            header: HeaderPlan {
                path,
                entry_type: EntryType::Link,
                size: 0,
                mode: HARDLINK_MODE,
                stamp: None,
                link_name: Some(target),
            },
            body: Body::Empty,
        },
        // Body parts are never framed; see `spec_plan_write`.
        _ => arbitrary(),
    }
}

pub open spec fn spec_plan_write(message: Message) -> Result<WritePlan, PackError> {
    match message {
        Err(reason) => Err(PackError::Reader(reason)),
        Ok(entry) => if is_body_part(entry) {
            Err(PackError::Protocol)
        } else {
            Ok(spec_plan_entry(entry))
        },
    }
}

/// Turns one message of the metadata channel into the entry to write.
///
/// A directory, a symlink and a hardlink get a header of their type with
/// size 0; the two kinds of link carry their target as it is, and a
/// hardlink has mode 0o644 and neither owner nor time. A small file gets a header of its buffer's
/// size, with the buffer as body. The start of a large file gets a header
/// of the announced size, with the chunk channel as body. A body fragment
/// or an end marker is a protocol error, and a reader's failure ends the
/// run with its reason.
pub fn plan_write(message: Message) -> (plan: Result<WritePlan, PackError>)
    ensures
        plan == spec_plan_write(message),
{
    match message {
        Err(reason) => Err(PackError::Reader(reason)),
        Ok(TarEntry::LargeFileChunk(_)) => Err(PackError::Protocol),
        Ok(TarEntry::LargeFileEnd) => Err(PackError::Protocol),
        Ok(TarEntry::Dir(path, meta)) => Ok(
            WritePlan {
                header: HeaderPlan {
                    path,
                    entry_type: EntryType::Directory,
                    size: 0,
                    mode: meta.mode,
                    stamp: Some(Stamp { uid: meta.uid, gid: meta.gid, mtime: meta.mtime }),
                    link_name: None,
                },
                body: Body::Empty,
            },
        ),
        Ok(TarEntry::SmallFile(path, bytes, meta)) => Ok(
            WritePlan {
                header: HeaderPlan {
                    path,
                    entry_type: EntryType::Regular,
                    size: bytes.len() as u64,
                    mode: meta.mode,
                    stamp: Some(Stamp { uid: meta.uid, gid: meta.gid, mtime: meta.mtime }),
                    link_name: None,
                },
                body: Body::Buffer(bytes),
            },
        ),
        Ok(TarEntry::LargeFileStart(path, total, meta)) => Ok(
            WritePlan {
                header: HeaderPlan {
                    path,
                    entry_type: EntryType::Regular,
                    size: total,
                    mode: meta.mode,
                    stamp: Some(Stamp { uid: meta.uid, gid: meta.gid, mtime: meta.mtime }),
                    link_name: None,
                },
                body: Body::Stream(total),
            },
        ),
        Ok(TarEntry::Symlink(path, target, meta)) => Ok(
            WritePlan {
                header: HeaderPlan {
                    path,
                    entry_type: EntryType::Symlink,
                    size: 0,
                    mode: meta.mode,
                    stamp: Some(Stamp { uid: meta.uid, gid: meta.gid, mtime: meta.mtime }),
                    link_name: Some(target),
                },
                body: Body::Empty,
            },
        ),
        Ok(TarEntry::HardLink(path, target)) => Ok(
            WritePlan {
                header: HeaderPlan {
                    path,
                    entry_type: EntryType::Link,
                    size: 0,
                    mode: HARDLINK_MODE,
                    stamp: None,
                    link_name: Some(target),
                },
                body: Body::Empty,
            },
        ),
    }
}

/// No message that is routed to the metadata channel is a protocol error
/// at the writer, and every message routed to the chunk channel would be
/// one: the two channels carry disjoint kinds of message.
pub proof fn lemma_routing_keeps_protocol(message: Message)
    ensures
        spec_channel_of(message) == Channel::Metadata <==> spec_plan_write(message) != Err::<
            WritePlan,
            PackError,
        >(PackError::Protocol),
{
}

/// The messages that reach the writer when a reader meets `outcomes` in
/// this order.
pub open spec fn spec_reports(outcomes: Seq<Message>, ignore_errors: bool) -> Seq<Message>
    decreases outcomes.len(),
{
    if outcomes.len() == 0 {
        Seq::empty()
    } else {
        let rest = spec_reports(outcomes.skip(1), ignore_errors);
        match spec_report(outcomes[0], ignore_errors) {
            Some(message) => seq![message] + rest,
            None => rest,
        }
    }
}

/// What the writer makes of `messages`: the entries it frames, in order, or
/// the first failure, at which it stops.
pub open spec fn spec_write_all(messages: Seq<Message>) -> Result<Seq<WritePlan>, PackError>
    decreases messages.len(),
{
    if messages.len() == 0 {
        Ok(Seq::empty())
    } else {
        match spec_plan_write(messages[0]) {
            Err(error) => Err(error),
            Ok(plan) => match spec_write_all(messages.skip(1)) {
                Ok(plans) => Ok(seq![plan] + plans),
                Err(error) => Err(error),
            },
        }
    }
}

/// The entries among `outcomes` that were read, framed, in order.
pub open spec fn spec_readable_plans(outcomes: Seq<Message>) -> Seq<WritePlan>
    decreases outcomes.len(),
{
    if outcomes.len() == 0 {
        Seq::empty()
    } else {
        let rest = spec_readable_plans(outcomes.skip(1));
        match outcomes[0] {
            Ok(entry) => seq![spec_plan_entry(entry)] + rest,
            Err(_) => rest,
        }
    }
}

/// The reason of the first failure among `outcomes`.
pub open spec fn spec_first_failure(outcomes: Seq<Message>) -> Option<String>
    decreases outcomes.len(),
{
    if outcomes.len() == 0 {
        None
    } else {
        match outcomes[0] {
            Ok(_) => spec_first_failure(outcomes.skip(1)),
            Err(reason) => Some(reason),
        }
    }
}

/// With errors ignored, the archive holds exactly the entries that could
/// be read, in order, whatever failed in between. With errors not ignored,
/// the first entry that cannot be read ends the run with its reason, and
/// a run without failure archives every entry. The outcomes are those of
/// the metadata channel, so none of them is a body fragment or an end
/// marker.
pub proof fn lemma_failure_policy(outcomes: Seq<Message>, ignore_errors: bool)
    requires
        forall|i: int|
            0 <= i < outcomes.len() ==> spec_channel_of(#[trigger] outcomes[i])
                == Channel::Metadata,
    ensures
        spec_write_all(spec_reports(outcomes, ignore_errors)) == if ignore_errors
            || spec_first_failure(outcomes) is None {
            Ok::<Seq<WritePlan>, PackError>(spec_readable_plans(outcomes))
        } else {
            Err::<Seq<WritePlan>, PackError>(
                PackError::Reader(spec_first_failure(outcomes)->Some_0),
            )
        },
    decreases outcomes.len(),
{
    if outcomes.len() > 0 {
        let rest = outcomes.skip(1);
        assert forall|i: int| 0 <= i < rest.len() implies spec_channel_of(#[trigger] rest[i])
            == Channel::Metadata by {
            assert(rest[i] == outcomes[i + 1]);
        }
        lemma_failure_policy(rest, ignore_errors);
        let rest_reports = spec_reports(rest, ignore_errors);
        assert(spec_channel_of(outcomes[0]) == Channel::Metadata);
        match spec_report(outcomes[0], ignore_errors) {
            Some(message) => {
                let reports = seq![message] + rest_reports;
                assert(reports.skip(1) =~= rest_reports);
                assert(reports[0] == message);
            },
            None => {},
        }
    }
}

} // verus!
