use zstar::entry::{Message, TarEntry};
use zstar::meta::FileMetadata;
use zstar::stream::{StreamError, StreamingReader};

fn body_channels() -> (
    crossbeam_channel::Sender<Message>,
    crossbeam_channel::Receiver<Message>,
    crossbeam_channel::Sender<Vec<u8>>,
    crossbeam_channel::Receiver<Vec<u8>>,
) {
    let (chunk_tx, chunk_rx) = crossbeam_channel::bounded::<Message>(100);
    let (pool_tx, pool_rx) = crossbeam_channel::unbounded::<Vec<u8>>();
    (chunk_tx, chunk_rx, pool_tx, pool_rx)
}

#[test]
fn reads_chunks_in_order_and_ends() {
    let (chunk_tx, chunk_rx, pool_tx, pool_rx) = body_channels();
    chunk_tx.send(Ok(TarEntry::LargeFileChunk(vec![1, 2, 3]))).unwrap();
    chunk_tx.send(Ok(TarEntry::LargeFileChunk(vec![4, 5]))).unwrap();
    chunk_tx.send(Ok(TarEntry::LargeFileEnd)).unwrap();

    let mut reader = StreamingReader::new(5);
    let mut out = [0u8; 2];
    assert_eq!(reader.read(&chunk_rx, &pool_tx, &mut out), Ok(Some(2)));
    assert_eq!(out, [1, 2]);
    assert_eq!(reader.read(&chunk_rx, &pool_tx, &mut out), Ok(Some(1)));
    assert_eq!(out, [3, 2]);
    assert_eq!(pool_rx.try_recv(), Ok(vec![1, 2, 3]));
    assert_eq!(reader.read(&chunk_rx, &pool_tx, &mut out), Ok(Some(2)));
    assert_eq!(out, [4, 5]);
    assert_eq!(reader.total_read(), 5);
    assert!(!reader.is_exhausted());
    assert_eq!(reader.read(&chunk_rx, &pool_tx, &mut out), Ok(Some(0)));
    assert!(reader.is_exhausted());
    assert_eq!(reader.read(&chunk_rx, &pool_tx, &mut out), Ok(Some(0)));
    assert_eq!(reader.expected(), 5);
}

#[test]
fn short_body_is_unexpected_eof() {
    let (chunk_tx, chunk_rx, pool_tx, _pool_rx) = body_channels();
    chunk_tx.send(Ok(TarEntry::LargeFileChunk(vec![9; 7]))).unwrap();
    chunk_tx.send(Ok(TarEntry::LargeFileEnd)).unwrap();

    let mut reader = StreamingReader::new(10);
    let mut out = [0u8; 16];
    assert_eq!(reader.read(&chunk_rx, &pool_tx, &mut out), Ok(Some(7)));
    assert_eq!(
        reader.read(&chunk_rx, &pool_tx, &mut out),
        Err(StreamError::UnexpectedEof { expected: 10, got: 7 })
    );
    assert!(reader.is_exhausted());
    assert_eq!(reader.read(&chunk_rx, &pool_tx, &mut out), Ok(Some(0)));
}

#[test]
fn long_body_is_unexpected_eof() {
    let mut reader = StreamingReader::new(1);
    let (_chunk_tx, _chunk_rx, pool_tx, _pool_rx) = body_channels();
    let mut out = [0u8; 4];
    let chunk = Some(Ok(TarEntry::LargeFileChunk(vec![1, 2])));
    assert_eq!(reader.read_after(chunk, &pool_tx, &mut out), Ok(Some(2)));
    assert_eq!(
        reader.read_after(Some(Ok(TarEntry::LargeFileEnd)), &pool_tx, &mut out),
        Err(StreamError::UnexpectedEof { expected: 1, got: 2 })
    );
}

#[test]
fn empty_chunk_asks_for_another_request() {
    let (chunk_tx, chunk_rx, pool_tx, _pool_rx) = body_channels();
    chunk_tx.send(Ok(TarEntry::LargeFileChunk(Vec::new()))).unwrap();
    chunk_tx.send(Ok(TarEntry::LargeFileEnd)).unwrap();
    let mut reader = StreamingReader::new(0);
    let mut out = [7u8; 4];
    assert_eq!(reader.read(&chunk_rx, &pool_tx, &mut out), Ok(None));
    assert_eq!(out, [7, 7, 7, 7]);
    assert_eq!(reader.read(&chunk_rx, &pool_tx, &mut out), Ok(Some(0)));
    assert!(reader.is_exhausted());
}

#[test]
fn foreign_entry_is_invalid_data() {
    let (chunk_tx, chunk_rx, pool_tx, _pool_rx) = body_channels();
    let meta = FileMetadata { mode: 0o644, mtime: 0, uid: 0, gid: 0 };
    chunk_tx.send(Ok(TarEntry::Dir(b"d".to_vec(), meta))).unwrap();
    let mut reader = StreamingReader::new(3);
    let mut out = [0u8; 4];
    assert_eq!(reader.read(&chunk_rx, &pool_tx, &mut out), Err(StreamError::InvalidData));
    assert!(!reader.is_exhausted());
    assert_eq!(reader.total_read(), 0);
}

#[test]
fn closed_channel_is_broken_pipe() {
    let (chunk_tx, chunk_rx, pool_tx, _pool_rx) = body_channels();
    drop(chunk_tx);
    let mut reader = StreamingReader::new(3);
    let mut out = [0u8; 4];
    assert_eq!(reader.read(&chunk_rx, &pool_tx, &mut out), Err(StreamError::BrokenPipe));
}

#[test]
fn reader_failure_is_passed_on() {
    let (chunk_tx, chunk_rx, pool_tx, _pool_rx) = body_channels();
    chunk_tx.send(Err("disk gone".to_string())).unwrap();
    let mut reader = StreamingReader::new(3);
    let mut out = [0u8; 4];
    assert_eq!(
        reader.read(&chunk_rx, &pool_tx, &mut out),
        Err(StreamError::Upstream("disk gone".to_string()))
    );
}

#[test]
fn serve_cuts_to_the_room_offered() {
    let (_chunk_tx, _chunk_rx, pool_tx, pool_rx) = body_channels();
    let mut reader = StreamingReader::new(4);
    assert_eq!(reader.accept(Some(Ok(TarEntry::LargeFileChunk(vec![10, 20, 30, 40])))), Ok(()));
    assert_eq!(reader.pending_len(), 4);
    let mut none = [0u8; 0];
    assert_eq!(reader.serve(&pool_tx, &mut none), 0);
    let mut out = [0u8; 3];
    assert_eq!(reader.serve(&pool_tx, &mut out), 3);
    assert_eq!(out, [10, 20, 30]);
    assert_eq!(reader.pending_len(), 1);
    assert!(pool_rx.try_recv().is_err());
    assert_eq!(reader.serve(&pool_tx, &mut out), 1);
    assert_eq!(out, [40, 20, 30]);
    assert_eq!(reader.pending_len(), 0);
    assert_eq!(pool_rx.try_recv(), Ok(vec![10, 20, 30, 40]));
}
