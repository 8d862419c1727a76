use rattler_wheel::digest::{hash_and_size, StreamDigest};

#[test]
fn the_hashes_are_those_of_the_bytes() {
    let result = hash_and_size(b"abc");
    assert_eq!(
        hex::encode(result.sha256),
        "ba7816bf8f01cfea414140de5dae2223b00361a396177a9cb410ff61f20015ad"
    );
    assert_eq!(hex::encode(result.md5), "900150983cd24fb0d6963f7d28e17f72");
    assert_eq!(result.total_size, 3);
}

#[test]
fn nothing_has_hashes_too() {
    let result = StreamDigest::new().finish();
    assert_eq!(
        hex::encode(result.sha256),
        "e3b0c44298fc1c149afbf4c8996fb92427ae41e4649b934ca495991b7852b855"
    );
    assert_eq!(hex::encode(result.md5), "d41d8cd98f00b204e9800998ecf8427e");
    assert_eq!(result.total_size, 0);
}

#[test]
fn a_stream_may_come_in_pieces() {
    let whole: Vec<u8> = (0..=255).cycle().take(1000).collect();
    let mut digest = StreamDigest::new();
    for piece in whole.chunks(77) {
        digest = digest.update(piece);
    }
    assert_eq!(digest.total_size(), 1000);
    assert_eq!(digest.finish(), hash_and_size(&whole));
}
