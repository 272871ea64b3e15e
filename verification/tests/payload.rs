use std::sync::Arc;

use clipferry::payload::{
    PayloadRope, ReadOutcome, RopeReader, SecretBytes, Snapshot, SnapshotReader, CHUNK_SIZE,
};

fn read_all(data: &[u8], cap: Option<usize>) -> ReadOutcome {
    PayloadRope::read_to_end(data, cap)
}

fn pattern(n: usize) -> Vec<u8> {
    (0..n).map(|i| u8::try_from(i % 251).unwrap()).collect()
}

#[test]
fn empty_input() {
    let ReadOutcome::Complete(rope) = read_all(&[], None) else {
        panic!("expected Complete");
    };
    assert!(rope.is_empty());
    assert_eq!(rope.to_contiguous().len(), 0);
}

#[test]
fn sub_chunk_payload_round_trips() {
    let data = b"hello clipboard".repeat(10);
    let ReadOutcome::Complete(rope) = read_all(&data, None) else {
        panic!("expected Complete");
    };
    assert_eq!(rope.len(), data.len());
    assert_eq!(rope.to_contiguous().as_slice(), &data[..]);
}

#[test]
fn multi_chunk_payload_round_trips() {
    let data: Vec<u8> = (0..CHUNK_SIZE * 2 + 777)
        .map(|i| u8::try_from(i % 251).unwrap())
        .collect();
    let ReadOutcome::Complete(rope) = read_all(&data, None) else {
        panic!("expected Complete");
    };
    assert_eq!(rope.len(), data.len());
    assert_eq!(rope.to_contiguous().as_slice(), &data[..]);
}

#[test]
fn exact_chunk_boundary() {
    let data = vec![0xAB_u8; CHUNK_SIZE];
    let ReadOutcome::Complete(rope) = read_all(&data, None) else {
        panic!("expected Complete");
    };
    assert_eq!(rope.len(), CHUNK_SIZE);
    assert_eq!(rope.to_contiguous().as_slice(), &data[..]);
}

#[test]
fn cap_is_enforced_while_streaming() {
    let data = vec![1_u8; CHUNK_SIZE * 3];
    let ReadOutcome::Overflow(partial) = read_all(&data, Some(CHUNK_SIZE + 1)) else {
        panic!("expected Overflow");
    };
    assert!(partial.len() > CHUNK_SIZE && partial.len() <= CHUNK_SIZE * 2);
    // At exactly the cap the payload is allowed through.
    let data = vec![1_u8; CHUNK_SIZE];
    assert!(matches!(
        read_all(&data, Some(CHUNK_SIZE)),
        ReadOutcome::Complete(_)
    ));
}

#[test]
fn chunks_come_in_order() {
    let data = pattern(CHUNK_SIZE + 5);
    let ReadOutcome::Complete(rope) = read_all(&data, None) else {
        panic!("expected Complete");
    };
    let chunks = rope.chunks();
    assert_eq!(chunks.len(), 2);
    assert_eq!(chunks[0], &data[..CHUNK_SIZE]);
    assert_eq!(chunks[1], &data[CHUNK_SIZE..]);
}

#[test]
fn reads_of_any_size_give_the_same_rope() {
    let data = pattern(CHUNK_SIZE * 2 + 10);
    let mut reader = RopeReader::new(None);
    let mut at = 0;
    while !reader.done() {
        let room = reader.space();
        let n = room.len().min(1000).min(data.len() - at);
        room[..n].copy_from_slice(&data[at..at + n]);
        reader.advance(n);
        at += n;
    }
    assert_eq!(reader.count(), data.len());
    let ReadOutcome::Complete(rope) = reader.finish() else {
        panic!("expected Complete");
    };
    assert_eq!(rope.to_contiguous().as_slice(), &data[..]);
}

#[test]
fn reading_stops_once_the_cap_is_crossed() {
    let mut reader = RopeReader::new(Some(10));
    let mut given = 0;
    while !reader.done() {
        let room = reader.space();
        let n = room.len().min(4096);
        room[..n].fill(7);
        reader.advance(n);
        given += n;
    }
    assert_eq!(given, CHUNK_SIZE);
    let ReadOutcome::Overflow(rope) = reader.finish() else {
        panic!("expected Overflow");
    };
    assert_eq!(rope.len(), CHUNK_SIZE);
}

#[test]
fn a_short_source_over_the_cap_overflows() {
    let ReadOutcome::Overflow(rope) = read_all(b"twelve bytes", Some(11)) else {
        panic!("expected Overflow");
    };
    assert_eq!(rope.len(), 12);
}

#[test]
fn snapshots_keep_what_came_whole() {
    let mut snapshot = Snapshot::new(7);
    snapshot.collect("text/plain".to_owned(), read_all(b"hello", Some(100)));
    snapshot.collect("image/png".to_owned(), read_all(b"too large", Some(3)));
    snapshot.collect("text/html".to_owned(), read_all(b"", Some(100)));
    assert_eq!(snapshot.epoch(), 7);
    assert!(snapshot.has("text/plain"));
    assert!(!snapshot.has("image/png"));
    assert!(!snapshot.has("text/html"));
    assert_eq!(snapshot.ropes().len(), 1);
    assert_eq!(
        snapshot.get("text/plain").unwrap().to_contiguous().as_slice(),
        b"hello"
    );
    assert!(snapshot.get("image/png").is_none());
    // A type that is read again is replaced.
    snapshot.collect("text/plain".to_owned(), read_all(b"again", None));
    assert_eq!(snapshot.ropes().len(), 1);
    assert_eq!(
        snapshot.get("text/plain").unwrap().to_contiguous().as_slice(),
        b"again"
    );
}

#[test]
fn snapshot_reads_give_the_payload_back() {
    let data = pattern(CHUNK_SIZE + 300);
    let mut snapshot = Snapshot::new(1);
    snapshot.collect("image/png".to_owned(), read_all(&data, None));
    let snapshot = Arc::new(snapshot);
    let mut reader = SnapshotReader::new(snapshot.clone(), "image/png".to_owned());
    let mut back = Vec::new();
    let mut buf = [0_u8; 1024];
    loop {
        let n = reader.read(&mut buf);
        if n == 0 {
            break;
        }
        back.extend_from_slice(&buf[..n]);
    }
    assert_eq!(back, data);
    let mut missing = SnapshotReader::new(snapshot, "text/plain".to_owned());
    assert_eq!(missing.read(&mut buf), 0);
}

#[test]
fn secret_bytes_hold_what_they_are_given() {
    let mut bytes = SecretBytes::new(vec![1, 2, 3]);
    bytes.push(4);
    bytes.extend(&[5, 6]);
    assert_eq!(bytes.as_slice(), &[1, 2, 3, 4, 5, 6]);
    bytes.tail_mut(4).copy_from_slice(&[9, 8]);
    assert_eq!(bytes.as_slice(), &[1, 2, 3, 4, 9, 8]);
    bytes.truncate(1);
    assert_eq!(bytes.as_slice(), &[1]);
    assert!(!bytes.is_empty());
    assert!(SecretBytes::with_capacity(3).is_empty());
}

#[test]
fn all_chunks_but_the_last_are_full() {
    for n in [0, 1, CHUNK_SIZE - 1, CHUNK_SIZE, CHUNK_SIZE + 1, 3 * CHUNK_SIZE] {
        let ReadOutcome::Complete(rope) = read_all(&pattern(n), None) else {
            panic!("expected Complete");
        };
        let sizes: Vec<usize> = rope.chunks().iter().map(|c| c.len()).collect();
        let mut expected = vec![CHUNK_SIZE; n / CHUNK_SIZE];
        if n % CHUNK_SIZE > 0 {
            expected.push(n % CHUNK_SIZE);
        }
        assert_eq!(sizes, expected);
    }
    assert!(PayloadRope::default().chunks().is_empty());
}

#[test]
fn each_payload_is_listed_once() {
    let mut snapshot = Snapshot::new(1);
    for (mime, data) in [("a", "x"), ("b", "x"), ("c", "y"), ("a", "z")] {
        snapshot.collect(mime.to_owned(), read_all(data.as_bytes(), None));
    }
    let mut held: Vec<Vec<u8>> = snapshot
        .ropes()
        .iter()
        .map(|r| r.to_contiguous().as_slice().to_vec())
        .collect();
    held.sort();
    assert_eq!(held, vec![b"x".to_vec(), b"y".to_vec(), b"z".to_vec()]);
}
