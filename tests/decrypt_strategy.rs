use cloud_sync_receiver::download::{
    known_size_strategy, CipherSizes, HeadBuffer, ReplayReader, Strategy, UnknownDownloadKind,
};
use cloud_sync_receiver::error::ReceiveError;

fn sizes() -> CipherSizes {
    CipherSizes { one_shot_max: 64, one_shot_nonce_len: 12, stream_nonce_len: 20 }
}

fn payload(n: usize) -> Vec<u8> {
    (0..n).map(|i| (i * 7 + 3) as u8).collect()
}

/// Feeds chunks as the download loop does, returning the decision and the
/// chunks that were left on the live stream.
fn buffer_chunks(chunks: &[Vec<u8>]) -> (Result<UnknownDownloadKind, ReceiveError>, Vec<u8>) {
    let mut head = HeadBuffer::new(sizes());
    let mut i = 0;
    while i < chunks.len() && !head.is_full() {
        head.absorb(&chunks[i]);
        i += 1;
    }
    let live: Vec<u8> = chunks[i..].concat();
    (head.finish(), live)
}

fn drain(reader: &mut ReplayReader, step: usize) -> Vec<u8> {
    let mut out = Vec::new();
    while let Some(piece) = reader.read_buffered(step) {
        assert!(!piece.is_empty());
        out.extend(piece);
    }
    out
}

fn split(p: &[u8], sizes: &[usize]) -> Vec<Vec<u8>> {
    let mut chunks = Vec::new();
    let mut at = 0;
    for s in sizes {
        let end = (at + s).min(p.len());
        chunks.push(p[at..end].to_vec());
        at = end;
    }
    if at < p.len() {
        chunks.push(p[at..].to_vec());
    }
    chunks
}

#[test]
fn known_size_picks_one_shot_up_to_threshold() {
    assert_eq!(known_size_strategy(0, &sizes()), Strategy::OneShot);
    assert_eq!(known_size_strategy(64, &sizes()), Strategy::OneShot);
    assert_eq!(known_size_strategy(65, &sizes()), Strategy::Stream);
    assert_eq!(known_size_strategy(u64::MAX, &sizes()), Strategy::Stream);
}

#[test]
fn one_shot_payload_same_on_both_paths() {
    let p = payload(40);
    assert_eq!(known_size_strategy(p.len() as u64, &sizes()), Strategy::OneShot);
    let (r, live) = buffer_chunks(&[p.clone()]);
    assert!(live.is_empty());
    match r {
        Ok(UnknownDownloadKind::OneShot(b)) => assert_eq!(b, p),
        _ => panic!("expected one-shot"),
    }
}

#[test]
fn one_shot_at_exact_threshold() {
    let p = payload(64);
    let (r, _) = buffer_chunks(&[p.clone()]);
    assert!(matches!(r, Ok(UnknownDownloadKind::OneShot(b)) if b == p));
}

#[test]
fn short_unknown_payload_is_incomplete() {
    let (r, _) = buffer_chunks(&[payload(11)]);
    assert!(matches!(r, Err(ReceiveError::IncompleteDownload)));
    let (r, _) = buffer_chunks(&[]);
    assert!(matches!(r, Err(ReceiveError::IncompleteDownload)));
    let (r, _) = buffer_chunks(&[payload(12)]);
    assert!(matches!(r, Ok(UnknownDownloadKind::OneShot(_))));
}

#[test]
fn stream_payload_independent_of_chunking() {
    let p = payload(5000);
    let expected_nonce = p[..20].to_vec();
    let expected_body = p[20..].to_vec();
    for pattern in [vec![5000], vec![1, 7, 4096], vec![1; 100], vec![7; 20], vec![4096], vec![65]] {
        for step in [1usize, 7, 4096] {
            let chunks = split(&p, &pattern);
            let (r, live) = buffer_chunks(&chunks);
            match r {
                Ok(UnknownDownloadKind::Stream(nonce, mut reader)) => {
                    assert_eq!(nonce, expected_nonce);
                    let mut body = drain(&mut reader, step);
                    body.extend(live);
                    assert_eq!(body, expected_body);
                }
                _ => panic!("expected stream for pattern {:?}", pattern),
            }
        }
    }
}

#[test]
fn replay_reader_respects_request_size() {
    let p = payload(100);
    let (r, _) = buffer_chunks(&[p.clone()]);
    let Ok(UnknownDownloadKind::Stream(_, mut reader)) = r else { panic!("expected stream") };
    assert_eq!(reader.read_buffered(0), Some(vec![]));
    assert_eq!(reader.read_buffered(3), Some(p[20..23].to_vec()));
    assert_eq!(reader.read_buffered(1000), Some(p[23..].to_vec()));
    assert_eq!(reader.read_buffered(1000), None);
    assert_eq!(reader.read_buffered(0), Some(vec![]));
}

#[test]
fn head_buffer_stops_after_threshold() {
    let mut head = HeadBuffer::new(sizes());
    head.absorb(&payload(64));
    assert!(!head.is_full());
    head.absorb(&[1]);
    assert!(head.is_full());
    assert_eq!(head.len(), 65);
}
