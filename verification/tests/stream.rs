use aegis_vault::key::MasterKey;
use aegis_vault::stream::{OpenFailure, OpenStream, SealStream, TAG_LEN};
use aes_gcm::aead::Aead;
use aes_gcm::{Aes256Gcm, KeyInit, Nonce};

const NONCE: [u8; 7] = [1, 2, 3, 4, 5, 6, 7];

fn key_bytes() -> [u8; 32] {
    let mut key = [0u8; 32];
    for (i, b) in key.iter_mut().enumerate() {
        *b = i as u8;
    }
    key
}

fn key() -> MasterKey {
    MasterKey::from_bytes(key_bytes())
}

fn hex(bytes: &[u8]) -> String {
    bytes.iter().map(|b| format!("{:02x}", b)).collect()
}

/// A segment by plain AES-GCM: the nonce is completed by the counter and the
/// last flag.
fn reference(position: u32, last: bool, plain: &[u8]) -> Vec<u8> {
    let mut nonce = NONCE.to_vec();
    nonce.extend_from_slice(&position.to_be_bytes());
    nonce.push(if last { 1 } else { 0 });
    let aead = Aes256Gcm::new_from_slice(&key_bytes()).unwrap();
    aead.encrypt(Nonce::from_slice(&nonce), plain).unwrap()
}

/// Seals `plain` in chunks and gives the segments.
fn seal(plain: &[u8], chunk: usize) -> Vec<Vec<u8>> {
    let mut stream = SealStream::new(key(), NONCE, plain.len() as u64);
    plain.chunks(chunk).map(|c| stream.seal(c).ok().unwrap().bytes).collect()
}

/// Opens a payload in segments of `cap` bytes.
fn open(payload: &[u8], cap: usize) -> Result<Vec<u8>, OpenFailure> {
    let mut stream = OpenStream::new(key(), NONCE, cap, payload.len() as u64);
    let mut plain = Vec::new();
    let mut at = 0;
    while stream.next_len() > 0 {
        let len = stream.next_len();
        plain.extend(stream.open(&payload[at..at + len])?);
        at += len;
        assert_eq!(stream.done(), at as u64);
        assert_eq!(stream.total(), payload.len() as u64);
    }
    Ok(plain)
}

#[test]
fn sealed_segments_known_answers() {
    let text = b"attack at dawn";
    let mut whole = SealStream::new(key(), NONCE, 14);
    let sealed = whole.seal(text).ok().unwrap();
    assert!(sealed.last);
    assert_eq!(hex(&sealed.bytes), "19bd2065a9967fbefcc75c2edd4a99410b7dee55bfa77f999ac79e311005");

    let mut twice = SealStream::new(key(), NONCE, 28);
    let first = twice.seal(text).ok().unwrap();
    assert!(!first.last);
    assert_eq!(hex(&first.bytes), "772fb5ccc06e65ff74f1e3cbb38e10ef350c71e7b6888d3b62524d8b5501");
    let second = twice.seal(text).ok().unwrap();
    assert!(second.last);
    assert_eq!(hex(&second.bytes), "44db00b570e887810db22976312462ba8cd2e88980e3fd0ff3289f59e85a");

    let mut empty = SealStream::new(key(), NONCE, 0);
    assert_eq!(hex(&empty.seal(b"").ok().unwrap().bytes), "a8f5241c40f8ecb5543cf20ff4168ee6");
}

#[test]
fn segments_are_counted_and_the_last_is_flagged() {
    let plain: Vec<u8> = (0..50u8).collect();
    let sealed = seal(&plain, 20);
    assert_eq!(sealed.len(), 3);
    assert_eq!(sealed[0], reference(0, false, &plain[..20]));
    assert_eq!(sealed[1], reference(1, false, &plain[20..40]));
    assert_eq!(sealed[2], reference(2, true, &plain[40..]));
    assert_eq!(sealed[2].len(), 10 + TAG_LEN);
}

#[test]
fn the_chunk_that_completes_the_size_is_last() {
    let mut stream = SealStream::new(key(), NONCE, 10);
    assert_eq!((stream.done(), stream.size()), (0, 10));
    assert!(!stream.seal(&[1; 9]).ok().unwrap().last);
    assert_eq!(stream.done(), 9);
    assert!(!stream.ended());
    assert!(stream.seal(&[2; 5]).ok().unwrap().last);
    assert_eq!(stream.done(), 14);
    assert!(stream.ended());
}

#[test]
fn sealing_and_opening() {
    for len in [0usize, 1, 15, 16, 19, 20, 21, 39, 40, 41, 100] {
        let plain: Vec<u8> = (0..len).map(|i| (i * 7) as u8).collect();
        let payload = seal(&plain, 20).concat();
        assert_eq!(payload.len(), len + TAG_LEN * ((len + 19) / 20));
        assert_eq!(open(&payload, 20 + TAG_LEN).unwrap(), plain);
    }
}

#[test]
fn damaged_segments_do_not_open() {
    let plain = [3u8; 45];
    let payload = seal(&plain, 20).concat();
    for at in 0..payload.len() {
        let mut damaged = payload.clone();
        damaged[at] ^= 1;
        let failure = if at < 72 { OpenFailure::Segment } else { OpenFailure::Last };
        assert_eq!(open(&damaged, 36), Err(failure));
    }
}

#[test]
fn cut_or_reordered_payloads_do_not_open() {
    let plain = [3u8; 60];
    let sealed = seal(&plain, 20);
    assert_eq!(open(&sealed[..2].concat(), 36), Err(OpenFailure::Last));
    assert_eq!(open(&sealed.concat()[..70], 36), Err(OpenFailure::Last));
    let swapped = vec![sealed[1].clone(), sealed[0].clone(), sealed[2].clone()].concat();
    assert_eq!(open(&swapped, 36), Err(OpenFailure::Segment));
    assert_eq!(open(&[0; 3], 36), Err(OpenFailure::Last));
}

#[test]
fn chunks_that_are_not_full_do_not_open_again() {
    let plain = [3u8; 30];
    let mut stream = SealStream::new(key(), NONCE, 30);
    let mut payload = stream.seal(&plain[..5]).ok().unwrap().bytes;
    payload.extend(stream.seal(&plain[5..25]).ok().unwrap().bytes);
    payload.extend(stream.seal(&plain[25..]).ok().unwrap().bytes);
    assert_eq!(open(&payload, 36), Err(OpenFailure::Segment));
}

#[test]
fn another_key_or_nonce_does_not_open() {
    let payload = seal(b"attack at dawn", 20).concat();
    let mut other_key = key_bytes();
    other_key[31] ^= 1;
    let mut stream =
        OpenStream::new(MasterKey::from_bytes(other_key), NONCE, 36, payload.len() as u64);
    assert_eq!(stream.open(&payload), Err(OpenFailure::Last));
    let mut stream = OpenStream::new(key(), [1, 2, 3, 4, 5, 6, 8], 36, payload.len() as u64);
    assert_eq!(stream.open(&payload), Err(OpenFailure::Last));
    assert_eq!(stream.done(), 0);
}
