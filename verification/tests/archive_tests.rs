use std::io::Read;

use zstar::channel::forward;
use zstar::entry::{Channel, Message, TarEntry, CHUNK_CHANNEL_CAPACITY, METADATA_CHANNEL_CAPACITY};
use zstar::header::build_header;
use zstar::inode_cache::InodeCache;
use zstar::meta::{get_file_metadata, FileKind, PlatformStat, StatInfo};
use zstar::reader::{classify, report, ChunkCursor, ReadPlan};
use zstar::stream::{StreamError, StreamingReader};
use zstar::writer::{plan_write, Body, PackError};

struct BodyReader<'a> {
    inner: StreamingReader,
    chunks: &'a crossbeam_channel::Receiver<Message>,
    pool: &'a crossbeam_channel::Sender<Vec<u8>>,
}

impl Read for BodyReader<'_> {
    fn read(&mut self, out: &mut [u8]) -> std::io::Result<usize> {
        loop {
            match self.inner.read(self.chunks, self.pool, out) {
                Ok(Some(n)) => return Ok(n),
                Ok(None) => continue,
                Err(StreamError::UnexpectedEof { expected, got }) => {
                    return Err(std::io::Error::new(
                        std::io::ErrorKind::UnexpectedEof,
                        format!("expected {}, got {}", expected, got),
                    ))
                }
                Err(_) => return Err(std::io::Error::new(std::io::ErrorKind::InvalidData, "bad")),
            }
        }
    }
}

struct Lanes {
    metadata_tx: crossbeam_channel::Sender<Message>,
    metadata_rx: crossbeam_channel::Receiver<Message>,
    chunk_tx: crossbeam_channel::Sender<Message>,
    chunk_rx: crossbeam_channel::Receiver<Message>,
    pool_tx: crossbeam_channel::Sender<Vec<u8>>,
    pool_rx: crossbeam_channel::Receiver<Vec<u8>>,
}

fn lanes() -> Lanes {
    let (metadata_tx, metadata_rx) = crossbeam_channel::bounded(METADATA_CHANNEL_CAPACITY);
    let (chunk_tx, chunk_rx) = crossbeam_channel::bounded(CHUNK_CHANNEL_CAPACITY);
    let (pool_tx, pool_rx) = crossbeam_channel::unbounded();
    Lanes { metadata_tx, metadata_rx, chunk_tx, chunk_rx, pool_tx, pool_rx }
}

/// A file on a disk that exists only here.
struct Source {
    path: &'static str,
    stat: StatInfo,
    content: Result<Vec<u8>, &'static str>,
    target: &'static str,
}

fn source(path: &'static str, kind: FileKind, ino: u64, mode: u32, content: &[u8]) -> Source {
    Source {
        path,
        stat: StatInfo {
            kind,
            len: content.len() as u64,
            mtime: 1_700_000_000,
            platform: PlatformStat::Posix { mode, uid: 1000, gid: 100, dev: 7, ino },
        },
        content: Ok(content.to_vec()),
        target: "",
    }
}

/// Plays the part of one reader: classifies each source and sends what the
/// plan asks for. Large files are cut at `chunk` bytes here, so that a test
/// need not hold 128 MiB.
fn read_all(sources: &[Source], lanes: &Lanes, ignore_errors: bool, large_from: u64, chunk: usize) {
    let mut cache = InodeCache::new();
    let send = |message: Message| -> Channel {
        let (channel, sent) = forward(&lanes.metadata_tx, &lanes.chunk_tx, message);
        assert!(sent);
        channel
    };
    for file in sources {
        let relative = file.path.as_bytes().to_vec();
        let meta = get_file_metadata(&file.stat);
        let plan = classify(&mut cache, &relative, &file.stat);
        let content = match &file.content {
            Ok(content) => content,
            Err(reason) => {
                if let Some(message) = report(Err(reason.to_string()), ignore_errors) {
                    send(message);
                }
                continue;
            }
        };
        match plan {
            ReadPlan::Dir => {
                send(Ok(TarEntry::Dir(relative, meta)));
            }
            ReadPlan::Symlink => {
                send(Ok(TarEntry::Symlink(relative, file.target.as_bytes().to_vec(), meta)));
            }
            ReadPlan::HardLink(first) => {
                send(Ok(TarEntry::HardLink(relative, first)));
            }
            ReadPlan::SmallFile(len) if len < large_from => {
                send(Ok(TarEntry::SmallFile(relative, content.clone(), meta)));
            }
            ReadPlan::SmallFile(len) | ReadPlan::LargeFile(len) => {
                assert_eq!(send(Ok(TarEntry::LargeFileStart(relative, len, meta))), Channel::Metadata);
                for piece in content.chunks(chunk) {
                    assert_eq!(send(Ok(TarEntry::LargeFileChunk(piece.to_vec()))), Channel::Chunk);
                }
                assert_eq!(send(Ok(TarEntry::LargeFileEnd)), Channel::Chunk);
            }
        }
    }
}

fn text(bytes: &[u8]) -> &str {
    std::str::from_utf8(bytes).unwrap()
}

/// Plays the part of the writer, into memory.
fn write_all(lanes: &Lanes) -> Result<Vec<u8>, String> {
    let encoder = zstd::Encoder::new(Vec::new(), 3).unwrap();
    let mut tar = tar::Builder::new(encoder);
    while let Ok(message) = lanes.metadata_rx.try_recv() {
        let plan = match plan_write(message) {
            Ok(plan) => plan,
            Err(PackError::Protocol) => return Err("protocol".to_string()),
            Err(PackError::Reader(reason)) => return Err(reason),
        };
        let (mut header, stored) = build_header(&plan.header);
        if let (Some(target), false) = (&plan.header.link_name, stored) {
            let (path, target) = (text(&plan.header.path), text(target));
            tar.append_link(&mut header, path, target).unwrap();
            continue;
        }
        let path = text(&plan.header.path);
        match plan.body {
            Body::Empty => tar.append_data(&mut header, path, std::io::empty()).unwrap(),
            Body::Buffer(buffer) => {
                tar.append_data(&mut header, path, &buffer[..]).unwrap();
                let _ = lanes.pool_tx.send(buffer);
            }
            Body::Stream(total) => {
                let mut body = BodyReader {
                    inner: StreamingReader::new(total),
                    chunks: &lanes.chunk_rx,
                    pool: &lanes.pool_tx,
                };
                tar.append_data(&mut header, path, &mut body).map_err(|e| e.to_string())?;
            }
        }
    }
    Ok(tar.into_inner().unwrap().finish().unwrap())
}

struct Unpacked {
    path: String,
    kind: tar::EntryType,
    mode: u32,
    mtime: u64,
    link: Option<String>,
    bytes: Vec<u8>,
}

fn unpack(archive: &[u8]) -> Vec<Unpacked> {
    let mut archive = tar::Archive::new(zstd::Decoder::new(archive).unwrap());
    let mut found = Vec::new();
    for entry in archive.entries().unwrap() {
        let mut entry = entry.unwrap();
        let mut bytes = Vec::new();
        entry.read_to_end(&mut bytes).unwrap();
        found.push(Unpacked {
            path: entry.path().unwrap().to_string_lossy().into_owned(),
            kind: entry.header().entry_type(),
            mode: entry.header().mode().unwrap(),
            mtime: entry.header().mtime().unwrap(),
            link: entry.link_name().unwrap().map(|l| l.to_string_lossy().into_owned()),
            bytes,
        });
    }
    found
}

fn pack(sources: &[Source], ignore_errors: bool) -> Result<Vec<u8>, String> {
    let lanes = lanes();
    read_all(sources, &lanes, ignore_errors, 1000, 64);
    write_all(&lanes)
}

#[test]
fn tree_with_small_file_streamed_file_and_symlink_comes_back() {
    let big: Vec<u8> = vec![0xAA; 5000];
    let mut link = source("d/s", FileKind::Symlink, 3, 0o777, b"");
    link.target = "a";
    let sources = [
        source("d", FileKind::Dir, 9, 0o755, b""),
        source("d/a", FileKind::File, 1, 0o644, b"hello\nworld"),
        source("d/b", FileKind::File, 2, 0o644, &big),
        link,
    ];
    let found = unpack(&pack(&sources, false).unwrap());
    assert_eq!(found.len(), 4);
    assert_eq!(found[0].path, "d");
    assert_eq!(found[0].kind, tar::EntryType::Directory);
    assert_eq!(found[1].path, "d/a");
    assert_eq!(found[1].bytes, b"hello\nworld");
    assert_eq!(found[2].path, "d/b");
    assert_eq!(found[2].bytes, big);
    assert_eq!(found[3].path, "d/s");
    assert_eq!(found[3].kind, tar::EntryType::Symlink);
    assert_eq!(found[3].link.as_deref(), Some("a"));
}

#[test]
fn streamed_buffers_return_to_the_pool() {
    let lanes = lanes();
    let big: Vec<u8> = (0..300u32).map(|i| (i % 251) as u8).collect();
    read_all(&[source("d/b", FileKind::File, 2, 0o644, &big)], &lanes, false, 100, 64);
    let found = unpack(&write_all(&lanes).unwrap());
    assert_eq!(found[0].bytes, big);
    let recycled: Vec<usize> = lanes.pool_rx.try_iter().map(|b| b.len()).collect();
    assert_eq!(recycled, vec![64, 64, 64, 64, 44]);
}

#[test]
fn three_hardlinked_names_give_one_regular_entry() {
    let sources = [
        source("d/x", FileKind::File, 42, 0o644, b"hi"),
        source("d/y", FileKind::File, 42, 0o644, b"hi"),
        source("d/z", FileKind::File, 42, 0o644, b"hi"),
    ];
    let found = unpack(&pack(&sources, false).unwrap());
    let regular: Vec<&Unpacked> =
        found.iter().filter(|e| e.kind == tar::EntryType::Regular).collect();
    assert_eq!(regular.len(), 1);
    assert_eq!(regular[0].path, "d/x");
    assert_eq!(regular[0].bytes, b"hi");
    let links: Vec<&Unpacked> = found.iter().filter(|e| e.kind == tar::EntryType::Link).collect();
    assert_eq!(links.len(), 2);
    for link in links {
        assert_eq!(link.link.as_deref(), Some("d/x"));
        assert_eq!(link.mode, 0o644);
        assert!(link.bytes.is_empty());
    }
}

#[test]
fn mode_and_time_come_back() {
    let found = unpack(&pack(&[source("d/perm", FileKind::File, 5, 0o600, b"x")], false).unwrap());
    assert_eq!(found[0].mode, 0o600);
    assert_eq!(found[0].mtime, 1_700_000_000);
}

#[test]
fn directory_mode_and_time_come_back() {
    let sources = [
        source("d", FileKind::Dir, 1, 0o750, b""),
        source("d/inner", FileKind::Dir, 2, 0o700, b""),
        source("d/inner/f", FileKind::File, 3, 0o640, b"later"),
    ];
    let found = unpack(&pack(&sources, false).unwrap());
    assert_eq!(found.len(), 3);
    assert_eq!((found[0].path.as_str(), found[0].mode, found[0].mtime), ("d", 0o750, 1_700_000_000));
    assert_eq!(found[0].kind, tar::EntryType::Directory);
    assert_eq!((found[1].path.as_str(), found[1].mode), ("d/inner", 0o700));
    assert_eq!(found[1].kind, tar::EntryType::Directory);
    assert_eq!((found[2].path.as_str(), found[2].mode), ("d/inner/f", 0o640));
    assert_eq!(found[2].bytes, b"later");
}

#[test]
fn unreadable_file_is_left_out_or_fails_the_run() {
    let mut unreadable = source("d/unreadable", FileKind::File, 6, 0, b"");
    unreadable.content = Err("Failed to process \"d/unreadable\": Permission denied");
    let sources = [unreadable, source("d/ok", FileKind::File, 7, 0o644, b"fine")];
    let found = unpack(&pack(&sources, true).unwrap());
    assert_eq!(found.len(), 1);
    assert_eq!(found[0].path, "d/ok");
    assert_eq!(
        pack(&sources, false),
        Err("Failed to process \"d/unreadable\": Permission denied".to_string())
    );
}

#[test]
fn empty_directory_comes_back() {
    let found = unpack(&pack(&[source("empty", FileKind::Dir, 8, 0o755, b"")], false).unwrap());
    assert_eq!(found.len(), 1);
    assert_eq!(found[0].path, "empty");
    assert_eq!(found[0].kind, tar::EntryType::Directory);
    assert!(found[0].bytes.is_empty());
}

#[test]
fn symlink_targets_come_back_as_they_were() {
    let long = "../".repeat(50) + "target";
    let odd = "./a//b/../c";
    let mut first = source("d/long", FileKind::Symlink, 1, 0o777, b"");
    first.target = Box::leak(long.clone().into_boxed_str());
    let mut second = source("d/odd", FileKind::Symlink, 2, 0o777, b"");
    second.target = odd;
    let found = unpack(&pack(&[first, second], false).unwrap());
    assert_eq!(found[0].path, "d/long");
    assert_eq!(found[0].link.as_deref(), Some(long.as_str()));
    assert_eq!(found[1].path, "d/odd");
    assert_eq!(found[1].link.as_deref(), Some(odd));
}

#[test]
fn body_shorter_than_announced_fails_the_writer() {
    let lanes = lanes();
    let meta = get_file_metadata(&source("d/b", FileKind::File, 1, 0o644, b"").stat);
    forward(&lanes.metadata_tx, &lanes.chunk_tx, Ok(TarEntry::LargeFileStart("d/b".into(), 10, meta)));
    forward(&lanes.metadata_tx, &lanes.chunk_tx, Ok(TarEntry::LargeFileChunk(vec![1; 4])));
    forward(&lanes.metadata_tx, &lanes.chunk_tx, Ok(TarEntry::LargeFileEnd));
    let error = write_all(&lanes).unwrap_err();
    assert!(error.contains("expected 10, got 4"), "{}", error);
}

#[test]
fn chunk_cursor_drives_a_streamed_body() {
    let lanes = lanes();
    let content: Vec<u8> = (0..10_000_000u32).map(|i| (i % 253) as u8).collect();
    let meta = get_file_metadata(&source("d/b", FileKind::File, 1, 0o644, b"").stat);
    let len = content.len() as u64;
    forward(&lanes.metadata_tx, &lanes.chunk_tx, Ok(TarEntry::LargeFileStart("d/b".into(), len, meta)));
    let mut cursor = ChunkCursor::new(len);
    while let Some((offset, size)) = cursor.next_chunk() {
        let piece = content[offset as usize..(offset + size) as usize].to_vec();
        forward(&lanes.metadata_tx, &lanes.chunk_tx, Ok(TarEntry::LargeFileChunk(piece)));
    }
    forward(&lanes.metadata_tx, &lanes.chunk_tx, Ok(TarEntry::LargeFileEnd));
    assert_eq!(lanes.chunk_rx.len(), 4);
    let found = unpack(&write_all(&lanes).unwrap());
    assert_eq!(found[0].bytes, content);
}

#[test]
fn names_and_targets_that_are_no_text_come_back_byte_for_byte() {
    let lanes = lanes();
    let meta = get_file_metadata(&source("x", FileKind::Symlink, 1, 0o777, b"").stat);
    let name: Vec<u8> = b"d/\xff\xfe".to_vec();
    let target: Vec<u8> = b"../\x80 a//b/./c".to_vec();
    forward(&lanes.metadata_tx, &lanes.chunk_tx, Ok(TarEntry::Symlink(name.clone(), target.clone(), meta)));
    let message = lanes.metadata_rx.try_recv().unwrap();
    let plan = plan_write(message).unwrap();
    let (mut header, stored) = build_header(&plan.header);
    assert!(stored);
    let mut tar = tar::Builder::new(Vec::new());
    header.as_old_mut().name[..plan.header.path.len()].copy_from_slice(&plan.header.path);
    header.set_cksum();
    tar.append(&header, std::io::empty()).unwrap();
    let archive = tar.into_inner().unwrap();
    let mut archive = tar::Archive::new(&archive[..]);
    let entry = archive.entries().unwrap().next().unwrap().unwrap();
    assert_eq!(entry.path_bytes().as_ref(), &name[..]);
    assert_eq!(entry.link_name_bytes().unwrap().as_ref(), &target[..]);
}
