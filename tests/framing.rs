use tokio_util::bytes::BytesMut;
use vision_link::framing::{SyncSequenceCodec, DEFAULT_SYNC_BYTES};

fn codec() -> SyncSequenceCodec {
    SyncSequenceCodec::new(DEFAULT_SYNC_BYTES.to_vec(), DEFAULT_SYNC_BYTES.to_vec())
}

fn buf(parts: &[&[u8]]) -> BytesMut {
    let mut b = BytesMut::new();
    for p in parts {
        b.extend_from_slice(p);
    }
    b
}

#[test]
fn decode_resynchronizes_after_junk() {
    let c = codec();
    let mut src = buf(&[&[0x00, 0x13, 0x37, 0x1A], &DEFAULT_SYNC_BYTES, b"AB", &DEFAULT_SYNC_BYTES, b"CD"]);
    assert_eq!(c.decode(&mut src), Some(b"AB".to_vec()));
    assert_eq!(&src[..], &buf(&[&DEFAULT_SYNC_BYTES, b"CD"])[..]);
    assert_eq!(c.decode(&mut src), None);
    assert_eq!(&src[..], &buf(&[&DEFAULT_SYNC_BYTES, b"CD"])[..]);
    src.extend_from_slice(&DEFAULT_SYNC_BYTES);
    assert_eq!(c.decode(&mut src), Some(b"CD".to_vec()));
    assert_eq!(&src[..], &DEFAULT_SYNC_BYTES[..]);
}

#[test]
fn decode_waits_for_the_second_marker() {
    let c = codec();
    let mut src = buf(&[&DEFAULT_SYNC_BYTES, b"AB"]);
    assert_eq!(c.decode(&mut src), None);
    assert_eq!(&src[..], &buf(&[&DEFAULT_SYNC_BYTES, b"AB"])[..]);
    src.extend_from_slice(&DEFAULT_SYNC_BYTES);
    assert_eq!(c.decode(&mut src), Some(b"AB".to_vec()));
    assert_eq!(&src[..], &DEFAULT_SYNC_BYTES[..]);
}

#[test]
fn decode_without_marker_keeps_everything() {
    let c = codec();
    let mut src = buf(&[b"no marker here", &[0x1A, 0xCF, 0xFC]]);
    assert_eq!(c.decode(&mut src), None);
    assert_eq!(&src[..], &buf(&[b"no marker here", &[0x1A, 0xCF, 0xFC]])[..]);
    let mut empty = BytesMut::new();
    assert_eq!(c.decode(&mut empty), None);
    assert!(empty.is_empty());
}

#[test]
fn decode_adjacent_markers_give_empty_payload() {
    let c = codec();
    let mut src = buf(&[&DEFAULT_SYNC_BYTES, &DEFAULT_SYNC_BYTES, b"X"]);
    assert_eq!(c.decode(&mut src), Some(vec![]));
    assert_eq!(&src[..], &buf(&[&DEFAULT_SYNC_BYTES, b"X"])[..]);
}

#[test]
fn encode_prefixes_the_write_marker() {
    let c = codec();
    let mut dst = BytesMut::new();
    c.encode(b"AB", &mut dst);
    assert_eq!(&dst[..], &[0x1A, 0xCF, 0xFC, 0x1D, b'A', b'B'][..]);
    c.encode(b"CD", &mut dst);
    assert_eq!(&dst[..], &buf(&[&DEFAULT_SYNC_BYTES, b"AB", &DEFAULT_SYNC_BYTES, b"CD"])[..]);
}

#[test]
fn encoded_stream_decodes_payload_by_payload() {
    let c = codec();
    let mut stream = BytesMut::new();
    c.encode(b"first", &mut stream);
    c.encode(b"second", &mut stream);
    c.encode(b"", &mut stream);
    assert_eq!(c.decode(&mut stream), Some(b"first".to_vec()));
    assert_eq!(c.decode(&mut stream), Some(b"second".to_vec()));
    assert_eq!(c.decode(&mut stream), None);
}

#[test]
fn read_and_write_markers_are_independent() {
    let c = SyncSequenceCodec::new(vec![0xAA, 0xBB], vec![0x01]);
    let mut dst = BytesMut::new();
    c.encode(b"Z", &mut dst);
    assert_eq!(&dst[..], &[0x01, b'Z'][..]);
    let mut src = buf(&[b"j", &[0xAA, 0xBB], b"pq", &[0xAA, 0xBB]]);
    assert_eq!(c.decode(&mut src), Some(b"pq".to_vec()));
    assert_eq!(&src[..], &[0xAA, 0xBB][..]);
}
