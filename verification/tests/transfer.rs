//! Chunking, reassembly and transfer-engine tests, including the
//! scenario of a 2500-byte put and the retry/abort bound.

use ftp_core::chunks::{chunk_file, reassemble};
use ftp_core::engine::{ReceiveEngine, SendEngine, SendStatus};
use ftp_core::packet::FilePacket;
use ftp_core::proto::{FtpStatusCode, CHUNK_RETRY_LIMIT, FILE_BLOC_SIZE};

fn sample(len: usize) -> Vec<u8> {
    let mut v = vec![0u8; len];
    for (i, b) in v.iter_mut().enumerate() {
        *b = (i % 241) as u8;
    }
    v
}

fn payload(p: &FilePacket) -> Vec<u8> {
    p.data[..p.data_size].to_vec()
}

#[test]
fn chunking_empty_file() {
    let chunks = chunk_file(&Vec::new());
    assert_eq!(chunks.len(), 1);
    assert!(chunks[0].is_last);
    assert_eq!(chunks[0].data_size, 0);
    assert_eq!(chunks[0].index, 0);
    assert_eq!(chunks[0].data, vec![0u8; FILE_BLOC_SIZE]);
}

#[test]
fn chunking_counts_are_ceiling() {
    for (len, expect) in [
        (1usize, 1usize),
        (1023, 1),
        (1024, 1),
        (1025, 2),
        (2048, 2),
        (2500, 3),
        (3072, 3),
    ] {
        let chunks = chunk_file(&sample(len));
        assert_eq!(chunks.len(), expect, "length {}", len);
    }
}

#[test]
fn chunking_shape() {
    let content = sample(2500);
    let chunks = chunk_file(&content);
    assert_eq!(chunks.len(), 3);
    for (i, c) in chunks.iter().enumerate() {
        assert_eq!(c.index, i as u64);
        assert_eq!(c.is_last, i == 2);
        assert_eq!(c.data.len(), FILE_BLOC_SIZE);
    }
    assert_eq!(chunks[0].data_size, 1024);
    assert_eq!(chunks[1].data_size, 1024);
    assert_eq!(chunks[2].data_size, 452);
    assert_eq!(payload(&chunks[0]), content[0..1024].to_vec());
    assert_eq!(payload(&chunks[1]), content[1024..2048].to_vec());
    assert_eq!(payload(&chunks[2]), content[2048..2500].to_vec());
}

#[test]
fn chunking_exact_multiple_has_full_last_chunk() {
    let chunks = chunk_file(&sample(2048));
    assert_eq!(chunks.len(), 2);
    assert!(!chunks[0].is_last);
    assert!(chunks[1].is_last);
    assert_eq!(chunks[1].data_size, 1024);
}

#[test]
fn reassembly_reproduces_content() {
    for len in [0usize, 1, 451, 1023, 1024, 1025, 2048, 2500, 5000] {
        let content = sample(len);
        let back = reassemble(&chunk_file(&content));
        assert_eq!(back, content, "length {}", len);
    }
}

#[test]
fn send_engine_happy_path() {
    let content = sample(2500);
    let mut engine = SendEngine::for_content(&content);
    let mut sent: Vec<FilePacket> = Vec::new();
    while engine.status == SendStatus::InProgress {
        sent.push(engine.current().clone());
        engine.on_reply();
    }
    assert_eq!(engine.status, SendStatus::Done);
    assert_eq!(sent.len(), 3);
    assert_eq!(reassemble(&sent), content);
}

#[test]
fn send_engine_retry_bound() {
    // A data channel that drops every datagram: each attempt times
    // out. The chunk is attempted exactly CHUNK_RETRY_LIMIT times,
    // then the transfer aborts without advancing.
    let content = sample(2500);
    let mut engine = SendEngine::for_content(&content);
    let mut attempts = 0;
    while engine.status == SendStatus::InProgress {
        let _transmitted = engine.current();
        attempts += 1;
        engine.on_timeout();
    }
    assert_eq!(attempts, CHUNK_RETRY_LIMIT);
    assert_eq!(engine.status, SendStatus::Aborted);
    assert_eq!(engine.pos, 0);
}

#[test]
fn send_engine_recovers_from_fewer_timeouts() {
    let content = sample(1);
    let mut engine = SendEngine::for_content(&content);
    for _ in 0..CHUNK_RETRY_LIMIT - 1 {
        engine.on_timeout();
        assert_eq!(engine.status, SendStatus::InProgress);
        assert_eq!(engine.pos, 0);
    }
    engine.on_reply();
    assert_eq!(engine.status, SendStatus::Done);
}

#[test]
fn receive_engine_acks_and_appends() {
    let content = sample(2500);
    let chunks = chunk_file(&content);
    let mut engine = ReceiveEngine::new();
    for c in &chunks {
        assert!(!engine.done);
        let ack = engine.on_chunk(c);
        assert_eq!(ack.status, FtpStatusCode::Okay);
        assert_eq!(ack.index, c.index);
    }
    assert!(engine.done);
    assert_eq!(engine.written, content);
}

#[test]
fn put_scenario_sender_and_receiver_in_lockstep() {
    // A 2500-byte put: three chunks of 1024, 1024 and 452 payload
    // bytes cross the data channel, each acknowledged in turn, and
    // the receiver's file equals the source byte for byte.
    let content = sample(2500);
    let mut sender = SendEngine::for_content(&content);
    let mut receiver = ReceiveEngine::new();
    let mut crossed = 0;
    while sender.status == SendStatus::InProgress {
        let chunk = sender.current().clone();
        crossed += 1;
        let _ack = receiver.on_chunk(&chunk);
        sender.on_reply();
    }
    assert_eq!(crossed, 3);
    assert_eq!(sender.status, SendStatus::Done);
    assert!(receiver.done);
    assert_eq!(receiver.written, content);
}

#[test]
fn empty_put_crosses_one_empty_chunk() {
    let content = Vec::new();
    let mut sender = SendEngine::for_content(&content);
    let mut receiver = ReceiveEngine::new();
    let chunk = sender.current().clone();
    assert!(chunk.is_last);
    assert_eq!(chunk.data_size, 0);
    receiver.on_chunk(&chunk);
    sender.on_reply();
    assert_eq!(sender.status, SendStatus::Done);
    assert!(receiver.done);
    assert_eq!(receiver.written, Vec::<u8>::new());
}
