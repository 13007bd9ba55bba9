use aegis_vault::bytes::{field, push_be32, push_bytes, read_be32};
use aegis_vault::header::{
    is_magic, ClassicHeader, Header, AEGIS_MAGIC, CLASSIC_HEADER_SIZE, HEADER_SIZE, MAGIC_SIZE,
};

#[test]
fn big_endian_words() {
    let mut out = vec![0xFF];
    push_be32(&mut out, 0x0102_0304);
    assert_eq!(out, vec![0xFF, 1, 2, 3, 4]);
    for x in [0, 1, 0xFF, 0x100, 65536, 350_000, u32::MAX - 1, u32::MAX] {
        let mut word = Vec::new();
        push_be32(&mut word, x);
        assert_eq!(word, x.to_be_bytes().to_vec());
        assert_eq!(read_be32(&word, 0), x);
    }
    assert_eq!(read_be32(&[9, 0, 0, 1, 0, 9], 1), 256);
}

#[test]
fn fields_are_cut_out() {
    assert_eq!(field::<3>(&[1, 2, 3, 4, 5], 1), [2, 3, 4]);
    assert_eq!(field::<0>(&[1], 1), [0u8; 0]);
    let mut out = vec![1];
    push_bytes(&mut out, &[2, 3]);
    assert_eq!(out, vec![1, 2, 3]);
}

#[test]
fn header_layout() {
    let salt: Vec<u8> = (0..16).collect();
    let nonce: Vec<u8> = (100..112).collect();
    let header = Header::new(field::<16>(&salt, 0), field::<12>(&nonce, 0));
    let bytes = header.encode();
    assert_eq!(bytes.len() as u64, HEADER_SIZE);
    assert_eq!(HEADER_SIZE, 46);
    assert_eq!(&bytes[..6], b"AEGIS2");
    assert_eq!(&bytes[6..22], &salt[..]);
    assert_eq!(&bytes[22..34], &nonce[..]);
    assert_eq!(&bytes[34..], &[0, 1, 0, 0, 0, 0, 0, 3, 0, 0, 0, 4]);
    assert_eq!(header.stream_nonce(), [100, 101, 102, 103, 104, 105, 106]);
}

#[test]
fn header_reads_back() {
    let header = Header {
        salt: [0xA5; 16],
        nonce: [1, 2, 3, 4, 5, 6, 7, 8, 9, 10, 11, 12],
        mem_kib: 0xDEAD_BEEF,
        iters: 1,
        parallel: u32::MAX,
    };
    let bytes = header.encode();
    assert!(is_magic(&bytes[..MAGIC_SIZE]));
    let read = Header::decode_fields(&bytes[MAGIC_SIZE..]);
    assert_eq!(read.salt, header.salt);
    assert_eq!(read.nonce, header.nonce);
    assert_eq!(
        (read.mem_kib, read.iters, read.parallel),
        (header.mem_kib, header.iters, header.parallel)
    );
    assert_eq!(read.encode(), bytes);
}

#[test]
fn only_the_magic_is_the_magic() {
    assert_eq!(&AEGIS_MAGIC, b"AEGIS2");
    assert!(is_magic(b"AEGIS2"));
    assert!(!is_magic(b"AEGIS1"));
    assert!(!is_magic(b"aEGIS2"));
    assert!(!is_magic(&[0; 6]));
}

#[test]
fn fresh_headers_differ() {
    let (a, b) = (Header::fresh(), Header::fresh());
    assert_eq!((a.mem_kib, a.iters, a.parallel), (65536, 3, 4));
    assert_ne!(a.salt, b.salt);
    assert_ne!(a.nonce, b.nonce);
    assert_ne!(a.salt, [0; 16]);
    let (c, d) = (ClassicHeader::fresh(), ClassicHeader::fresh());
    assert_eq!(c.iterations, 350_000);
    assert_ne!(c.salt, d.salt);
    assert_ne!(c.nonce, d.nonce);
}

#[test]
fn classic_header_layout() {
    let salt: Vec<u8> = (0..16).collect();
    let header = ClassicHeader::new(field::<16>(&salt, 0), [7; 7]);
    let bytes = header.encode();
    assert_eq!(bytes.len() as u64, CLASSIC_HEADER_SIZE);
    assert_eq!(CLASSIC_HEADER_SIZE, 27);
    assert_eq!(&bytes[..16], &salt[..]);
    assert_eq!(&bytes[16..23], &[7; 7]);
    assert_eq!(&bytes[23..], &350_000u32.to_be_bytes());
    let read = ClassicHeader::decode(&bytes);
    assert_eq!((read.salt, read.nonce, read.iterations), (header.salt, [7; 7], 350_000));
    assert_eq!(read.encode(), bytes);
}
