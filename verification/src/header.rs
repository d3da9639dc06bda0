//! The 512-byte header block of an archive entry, filled in by the archive
//! format's own encoder.

use vstd::prelude::*;
use crate::writer::{EntryType, HeaderPlan};

verus! {

/// `tar::Header`: one header block of an archive.
#[verifier::external_type_specification]
#[verifier::external_body]
pub struct ExHeader(tar::Header);

/// The bytes that a header holds.
pub uninterp spec fn header_bytes(header: tar::Header) -> Seq<u8>;

/// The block after the size field was encoded.
pub uninterp spec fn block_with_size(block: Seq<u8>, size: u64) -> Seq<u8>;

/// The block after the mode field was encoded.
pub uninterp spec fn block_with_mode(block: Seq<u8>, mode: u32) -> Seq<u8>;

/// The block after the field of the owner's user id was encoded.
pub uninterp spec fn block_with_uid(block: Seq<u8>, uid: u64) -> Seq<u8>;

/// The block after the field of the owner's group id was encoded.
pub uninterp spec fn block_with_gid(block: Seq<u8>, gid: u64) -> Seq<u8>;

/// The block after the field of the modification time was encoded.
pub uninterp spec fn block_with_mtime(block: Seq<u8>, mtime: u64) -> Seq<u8>;

/// The block after its checksum was computed and encoded.
pub uninterp spec fn block_with_cksum(block: Seq<u8>) -> Seq<u8>;

pub const BLOCK_SIZE: usize = 512;

/// Places of the encoded fields in a block. Each field ends where the next
/// one starts, and the checksum ends at the type's byte.
pub const MODE_START: usize = 100;

pub const UID_START: usize = 108;

pub const GID_START: usize = 116;

pub const SIZE_START: usize = 124;

pub const MTIME_START: usize = 136;

pub const MTIME_END: usize = 148;

pub const CKSUM_START: usize = 148;

/// Place of the byte that tells the entry's type.
pub const TYPE_FLAG_AT: usize = 156;

/// Place of the link name in a block, and the room it has.
pub const LINK_NAME_START: usize = 157;

pub const LINK_NAME_ROOM: usize = 100;

/// Place of the format's magic word, followed by the version.
pub const MAGIC_START: usize = 257;

/// Whether `after` is `before` but for the bytes from `from` up to `to`:
/// the same length, and every byte outside that field as it was.
pub open spec fn same_outside(before: Seq<u8>, after: Seq<u8>, from: int, to: int) -> bool {
    &&& after.len() == before.len()
    &&& forall|i: int| 0 <= i < before.len() && !(from <= i < to) ==> after[i] == before[i]
}

/// A blank block of the GNU format: the magic word `ustar` and a space,
/// the version of a space and a zero byte, the time zero in octal digits
/// closed by a zero byte, and zero bytes everywhere else.
pub open spec fn spec_blank_block() -> Seq<u8> {
    Seq::new(
        BLOCK_SIZE as nat,
        |i: int|
            if MTIME_START <= i < MTIME_END - 1 {
                0x30u8
            } else if i == MAGIC_START {
                0x75u8
            } else if i == MAGIC_START + 1 {
                0x73u8
            } else if i == MAGIC_START + 2 {
                0x74u8
            } else if i == MAGIC_START + 3 {
                0x61u8
            } else if i == MAGIC_START + 4 {
                0x72u8
            } else if i == MAGIC_START + 5 || i == MAGIC_START + 6 {
                0x20u8
            } else {
                0u8
            },
    )
}

/// The byte that stands for an entry type.
pub open spec fn spec_type_flag(entry_type: EntryType) -> u8 {
    match entry_type {
        EntryType::Regular => 0x30,
        EntryType::Link => 0x31,
        EntryType::Symlink => 0x32,
        EntryType::Directory => 0x35,
    }
}

/// Whether a link name has room in a block: at most 100 bytes, none of
/// them zero.
pub open spec fn spec_link_fits(name: Seq<u8>) -> bool {
    &&& name.len() <= LINK_NAME_ROOM
    &&& forall|i: int| 0 <= i < name.len() ==> name[i] != 0
}

/// The block with `name` written into the link name field, closed by a zero
/// byte where there is room for one.
pub open spec fn spec_with_link_name(block: Seq<u8>, name: Seq<u8>) -> Seq<u8> {
    Seq::new(
        block.len(),
        |i: int|
            if LINK_NAME_START <= i < LINK_NAME_START + name.len() {
                name[i - LINK_NAME_START]
            } else if i == LINK_NAME_START + name.len() && name.len() < LINK_NAME_ROOM {
                0u8
            } else {
                block[i]
            },
    )
}

/// `tar::Header::new_gnu`: a blank header of the GNU format.
#[verifier::external_body]
fn blank_gnu() -> (header: tar::Header)
    ensures
        header_bytes(header) == spec_blank_block(),
{
    tar::Header::new_gnu()
}

/// `tar::Header::set_entry_type`: writes the type's byte into its place and
/// leaves the rest of the block as it was.
#[verifier::external_body]
fn set_entry_type(header: &mut tar::Header, entry_type: EntryType)
    ensures
        header_bytes(*final(header)) == header_bytes(*old(header)).update(
            TYPE_FLAG_AT as int,
            spec_type_flag(entry_type),
        ),
{
    header.set_entry_type(
        match entry_type {
            EntryType::Regular => tar::EntryType::Regular,
            EntryType::Directory => tar::EntryType::Directory,
            EntryType::Symlink => tar::EntryType::Symlink,
            EntryType::Link => tar::EntryType::Link,
        },
    );
}

/// `tar::Header::set_link_name_literal`: stores the bytes of `target` as the
/// link name, unchanged, where they fit, and reports whether they did. A
/// name that does not fit leaves the block as it was.
#[verifier::external_body]
fn set_link_name_literal(header: &mut tar::Header, target: &Vec<u8>) -> (stored: bool)
    ensures
        stored == spec_link_fits(target@),
        stored ==> header_bytes(*final(header)) == spec_with_link_name(
            header_bytes(*old(header)),
            target@,
        ),
        !stored ==> header_bytes(*final(header)) == header_bytes(*old(header)),
{
    header.set_link_name_literal(target).is_ok()
}

/// `tar::Header::set_size`: encodes the size into its field and writes
/// nowhere else. The block afterwards depends on the block before and on
/// the size alone.
#[verifier::external_body]
fn set_size(header: &mut tar::Header, size: u64)
    ensures
        header_bytes(*final(header)) == block_with_size(header_bytes(*old(header)), size),
        same_outside(
            header_bytes(*old(header)),
            header_bytes(*final(header)),
            SIZE_START as int,
            MTIME_START as int,
        ),
{
    header.set_size(size);
}

/// `tar::Header::set_mode`: encodes the mode into its field and writes
/// nowhere else. The block afterwards depends on the block before and on
/// the mode alone.
#[verifier::external_body]
fn set_mode(header: &mut tar::Header, mode: u32)
    ensures
        header_bytes(*final(header)) == block_with_mode(header_bytes(*old(header)), mode),
        same_outside(
            header_bytes(*old(header)),
            header_bytes(*final(header)),
            MODE_START as int,
            UID_START as int,
        ),
{
    header.set_mode(mode);
}

/// `tar::Header::set_uid`: encodes the user id into its field and writes
/// nowhere else. The block afterwards depends on the block before and on
/// the id alone.
#[verifier::external_body]
fn set_uid(header: &mut tar::Header, uid: u64)
    ensures
        header_bytes(*final(header)) == block_with_uid(header_bytes(*old(header)), uid),
        same_outside(
            header_bytes(*old(header)),
            header_bytes(*final(header)),
            UID_START as int,
            GID_START as int,
        ),
{
    header.set_uid(uid);
}

/// `tar::Header::set_gid`: encodes the group id into its field and writes
/// nowhere else. The block afterwards depends on the block before and on
/// the id alone.
#[verifier::external_body]
fn set_gid(header: &mut tar::Header, gid: u64)
    ensures
        header_bytes(*final(header)) == block_with_gid(header_bytes(*old(header)), gid),
        same_outside(
            header_bytes(*old(header)),
            header_bytes(*final(header)),
            GID_START as int,
            SIZE_START as int,
        ),
{
    header.set_gid(gid);
}

/// `tar::Header::set_mtime`: encodes the time into its field and writes
/// nowhere else. The block afterwards depends on the block before and on
/// the time alone.
#[verifier::external_body]
fn set_mtime(header: &mut tar::Header, mtime: u64)
    ensures
        header_bytes(*final(header)) == block_with_mtime(header_bytes(*old(header)), mtime),
        same_outside(
            header_bytes(*old(header)),
            header_bytes(*final(header)),
            MTIME_START as int,
            MTIME_END as int,
        ),
{
    header.set_mtime(mtime);
}

/// `tar::Header::set_cksum`: computes the checksum of the block and encodes
/// it into its field, writing nowhere else. The block afterwards depends on
/// the block before alone.
#[verifier::external_body]
fn set_cksum(header: &mut tar::Header)
    ensures
        header_bytes(*final(header)) == block_with_cksum(header_bytes(*old(header))),
        same_outside(
            header_bytes(*old(header)),
            header_bytes(*final(header)),
            CKSUM_START as int,
            TYPE_FLAG_AT as int,
        ),
{
    header.set_cksum();
}

/// Whether the header of `plan` holds the link name: it does unless the
/// plan has one that does not fit.
pub open spec fn spec_link_stored(plan: HeaderPlan) -> bool {
    match plan.link_name {
        Some(target) => spec_link_fits(target@),
        None => true,
    }
}

/// The block of `plan`, before its numbers are encoded: a blank block with
/// the type's byte, unless the entry is a regular file, and the link name,
/// if there is one and it fits.
pub open spec fn spec_typed_block(plan: HeaderPlan) -> Seq<u8> {
    let blank = spec_blank_block();
    let typed = if plan.entry_type == EntryType::Regular {
        blank
    } else {
        blank.update(TYPE_FLAG_AT as int, spec_type_flag(plan.entry_type))
    };
    match plan.link_name {
        Some(target) => if spec_link_fits(target@) {
            spec_with_link_name(typed, target@)
        } else {
            typed
        },
        None => typed,
    }
}

/// The header block of `plan`: size and mode are encoded into the typed
/// block, then owner and time where the plan has them, and the checksum
/// last.
pub open spec fn spec_header_block(plan: HeaderPlan) -> Seq<u8> {
    let sized = block_with_mode(block_with_size(spec_typed_block(plan), plan.size), plan.mode);
    let stamped = match plan.stamp {
        Some(stamp) => block_with_mtime(
            block_with_gid(block_with_uid(sized, stamp.uid), stamp.gid),
            stamp.mtime,
        ),
        None => sized,
    };
    block_with_cksum(stamped)
}

/// Whether `block` holds what the typed block of `plan` holds wherever no
/// number is encoded: it has the same length, and differs at most in the
/// fields of mode, owner, size, time and checksum.
pub open spec fn keeps_typed_bytes(plan: HeaderPlan, block: Seq<u8>) -> bool {
    same_outside(spec_typed_block(plan), block, MODE_START as int, TYPE_FLAG_AT as int)
}

/// Builds the header of an entry, all but its path, which the archive
/// builder writes when it appends the entry.
///
/// Returns the header, and whether it holds the plan's link name: a target
/// of more than 100 bytes, or one with a zero byte, is not stored, and is
/// left to the archive builder's long-link record. The type's byte, the
/// link name and the format's magic word stand in the finished block as
/// they stand in the typed block: encoding the numbers changes only their
/// fields.
pub fn build_header(plan: &HeaderPlan) -> (built: (tar::Header, bool))
    ensures
        header_bytes(built.0) == spec_header_block(*plan),
        built.1 == spec_link_stored(*plan),
        keeps_typed_bytes(*plan, header_bytes(built.0)),
{
    let mut header = blank_gnu();
    match plan.entry_type {
        EntryType::Regular => {},
        EntryType::Directory => set_entry_type(&mut header, EntryType::Directory),
        EntryType::Symlink => set_entry_type(&mut header, EntryType::Symlink),
        EntryType::Link => set_entry_type(&mut header, EntryType::Link),
    }
    let stored = match &plan.link_name {
        Some(target) => set_link_name_literal(&mut header, target),
        None => true,
    };
    set_size(&mut header, plan.size);
    set_mode(&mut header, plan.mode);
    match plan.stamp {
        Some(stamp) => {
            set_uid(&mut header, stamp.uid);
            set_gid(&mut header, stamp.gid);
            set_mtime(&mut header, stamp.mtime);
        },
        None => {},
    }
    set_cksum(&mut header);
    (header, stored)
}

/// A link's target is stored as it is: where the name fits, the link name
/// field of every block that keeps the typed bytes of `plan`, and so of the
/// finished header, holds the target's bytes, one for one.
pub proof fn lemma_link_target_is_kept(plan: HeaderPlan, block: Seq<u8>)
    requires
        plan.link_name is Some,
        spec_link_stored(plan),
        keeps_typed_bytes(plan, block),
    ensures
        block.subrange(
            LINK_NAME_START as int,
            LINK_NAME_START + plan.link_name->Some_0@.len(),
        ) == plan.link_name->Some_0@,
{
    let name = plan.link_name->Some_0@;
    assert(block.subrange(LINK_NAME_START as int, LINK_NAME_START + name.len()) =~= name);
}

/// The entry's type is stored in its place: every block that keeps the
/// typed bytes of `plan`, and so the finished header, holds the type's byte
/// there, and the zero byte of a blank block for a regular file.
pub proof fn lemma_entry_type_is_kept(plan: HeaderPlan, block: Seq<u8>)
    requires
        keeps_typed_bytes(plan, block),
    ensures
        block.len() == BLOCK_SIZE,
        block[TYPE_FLAG_AT as int] == if plan.entry_type == EntryType::Regular {
            0u8
        } else {
            spec_type_flag(plan.entry_type)
        },
{
}

} // verus!
