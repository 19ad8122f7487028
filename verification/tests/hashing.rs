use ed25519_batch::sha512::{digest_words, hash_ed25519_challenge_words};

fn digest(first: &[u8], second: &[u8], third: &[u8]) -> Vec<u8> {
    digest_words(first, second, third).iter().flat_map(|w| w.to_le_bytes()).collect()
}

fn message(n: usize) -> Vec<u8> {
    (0..n).map(|i| (i * 7 + 3) as u8).collect()
}

#[test]
fn digests_of_short_messages() {
    let empty: [u8; 64] = [
        0xcf, 0x83, 0xe1, 0x35, 0x7e, 0xef, 0xb8, 0xbd, 0xf1, 0x54, 0x28, 0x50, 0xd6, 0x6d, 0x80, 0x07,
        0xd6, 0x20, 0xe4, 0x05, 0x0b, 0x57, 0x15, 0xdc, 0x83, 0xf4, 0xa9, 0x21, 0xd3, 0x6c, 0xe9, 0xce,
        0x47, 0xd0, 0xd1, 0x3c, 0x5d, 0x85, 0xf2, 0xb0, 0xff, 0x83, 0x18, 0xd2, 0x87, 0x7e, 0xec, 0x2f,
        0x63, 0xb9, 0x31, 0xbd, 0x47, 0x41, 0x7a, 0x81, 0xa5, 0x38, 0x32, 0x7a, 0xf9, 0x27, 0xda, 0x3e,
    ];
    let abc: [u8; 64] = [
        0xdd, 0xaf, 0x35, 0xa1, 0x93, 0x61, 0x7a, 0xba, 0xcc, 0x41, 0x73, 0x49, 0xae, 0x20, 0x41, 0x31,
        0x12, 0xe6, 0xfa, 0x4e, 0x89, 0xa9, 0x7e, 0xa2, 0x0a, 0x9e, 0xee, 0xe6, 0x4b, 0x55, 0xd3, 0x9a,
        0x21, 0x92, 0x99, 0x2a, 0x27, 0x4f, 0xc1, 0xa8, 0x36, 0xba, 0x3c, 0x23, 0xa3, 0xfe, 0xeb, 0xbd,
        0x45, 0x4d, 0x44, 0x23, 0x64, 0x3c, 0xe8, 0x0e, 0x2a, 0x9a, 0xc9, 0x4f, 0xa5, 0x4c, 0xa4, 0x9f,
    ];
    assert_eq!(digest(b"", b"", b""), empty);
    assert_eq!(digest(b"", b"", b"abc"), abc);
}

/// Lengths around the ends of a block, where the padding changes.
#[test]
fn digests_around_block_ends() {
    let expected: [(usize, [u8; 64]); 8] = [
        (111, [
            0x68, 0xcf, 0xfa, 0x6d, 0x0d, 0x76, 0xf3, 0x09, 0xc9, 0xce, 0x0d, 0x35, 0x28, 0x09, 0x39, 0xf8,
            0xe2, 0x59, 0x90, 0xc4, 0x3b, 0x7b, 0x08, 0x6c, 0xcd, 0xf7, 0x09, 0xbe, 0x35, 0xb0, 0x7d, 0x4d,
            0xdb, 0xa5, 0x99, 0x54, 0x1f, 0xf2, 0xb1, 0xc1, 0x9d, 0x34, 0xea, 0x49, 0xae, 0xaf, 0xb9, 0x65,
            0x9a, 0xdb, 0x7a, 0xc3, 0xc0, 0xb0, 0x78, 0xbb, 0x30, 0xa2, 0x2d, 0x57, 0xfc, 0x66, 0x87, 0xef,
        ]),
        (112, [
            0xd0, 0x86, 0x5c, 0x52, 0x4d, 0x1d, 0xdd, 0xf7, 0xc2, 0x3b, 0x79, 0x9c, 0x41, 0x3f, 0x5a, 0xdc,
            0xd7, 0xca, 0xef, 0xd3, 0xf6, 0x6a, 0x9b, 0x49, 0x75, 0x0e, 0xc8, 0x10, 0x66, 0x01, 0x2c, 0x25,
            0xa8, 0xbc, 0xf9, 0x4d, 0xde, 0xa6, 0xdc, 0x52, 0x56, 0x91, 0x67, 0x30, 0x97, 0xca, 0x40, 0xe0,
            0x10, 0x1e, 0x89, 0x7f, 0xc9, 0x72, 0x18, 0xcf, 0xdb, 0x07, 0x04, 0x08, 0x4e, 0x2b, 0xef, 0x4b,
        ]),
        (127, [
            0xe0, 0xb6, 0xa2, 0x0f, 0x1c, 0x0c, 0x88, 0x97, 0x0a, 0x93, 0x40, 0x15, 0x2c, 0xd5, 0xa1, 0xc1,
            0xec, 0xf3, 0xd3, 0xb8, 0xde, 0x55, 0x10, 0x27, 0x41, 0x87, 0x94, 0x38, 0x07, 0x94, 0x73, 0x54,
            0x01, 0x33, 0xb8, 0x12, 0x70, 0x6e, 0x5d, 0xbe, 0xc3, 0x22, 0xc8, 0xc9, 0x52, 0x3b, 0x6f, 0xc8,
            0xc6, 0xd1, 0x6e, 0xe6, 0x26, 0xe8, 0x7a, 0xd5, 0xfe, 0x3d, 0x29, 0x16, 0xaf, 0xed, 0xc3, 0x69,
        ]),
        (128, [
            0x99, 0xb1, 0x6f, 0x17, 0xaa, 0x0b, 0x96, 0x9a, 0x5b, 0x8f, 0x08, 0xf3, 0x67, 0x71, 0x9d, 0x51,
            0x6e, 0x33, 0x0c, 0xcd, 0x26, 0x60, 0xb6, 0xf0, 0x68, 0x8e, 0xc0, 0x31, 0xdb, 0xc7, 0x83, 0xde,
            0x50, 0xa1, 0xcd, 0x18, 0x5a, 0x25, 0x68, 0xdb, 0xa7, 0x50, 0x70, 0xa2, 0x40, 0x3d, 0x17, 0xd4,
            0x74, 0x1d, 0x16, 0x35, 0x78, 0x51, 0x5d, 0xfd, 0x2f, 0xf7, 0x56, 0xdd, 0xfe, 0x4d, 0x47, 0xb1,
        ]),
        (129, [
            0xa1, 0x55, 0x6e, 0x29, 0x18, 0x57, 0x78, 0xaa, 0x59, 0x91, 0xe3, 0x4b, 0x88, 0x84, 0xc8, 0x40,
            0xd5, 0x89, 0xf0, 0xfb, 0xb4, 0xb8, 0xed, 0x59, 0x0e, 0x51, 0xe9, 0xac, 0x4e, 0xb0, 0x3a, 0x00,
            0x81, 0x25, 0x00, 0x0d, 0xb2, 0x67, 0x1f, 0x8f, 0xe7, 0xf4, 0x85, 0xb5, 0x9a, 0x77, 0xb5, 0x18,
            0x67, 0x00, 0x78, 0xec, 0xb4, 0x1a, 0x54, 0xb4, 0xcd, 0x02, 0xa7, 0xf1, 0xd2, 0xca, 0x4c, 0x6d,
        ]),
        (239, [
            0x18, 0xee, 0x83, 0xf3, 0x02, 0x61, 0xc3, 0xc6, 0x45, 0xd5, 0x2a, 0xee, 0x6a, 0x20, 0x91, 0x05,
            0xb2, 0x5b, 0xba, 0x39, 0xd3, 0x38, 0x45, 0xef, 0x48, 0x98, 0x4c, 0xc2, 0x38, 0xe4, 0xf2, 0x16,
            0x61, 0xfb, 0x7b, 0xd7, 0xdd, 0x43, 0x36, 0xf7, 0x1c, 0x40, 0xfe, 0x87, 0xd9, 0x5e, 0x51, 0x15,
            0xd6, 0xc7, 0xbe, 0x52, 0xe0, 0xd3, 0xe7, 0xe7, 0x87, 0x7d, 0x24, 0x50, 0x0b, 0x5b, 0x58, 0xdf,
        ]),
        (240, [
            0x9d, 0x60, 0xee, 0x60, 0xd2, 0x9e, 0xc4, 0xfa, 0x0b, 0x96, 0x90, 0xc0, 0x4c, 0x1c, 0x29, 0x41,
            0x3b, 0xbe, 0x3e, 0xd3, 0x45, 0x63, 0x91, 0x82, 0xd9, 0xd5, 0x3d, 0xcc, 0x05, 0x92, 0x6b, 0x77,
            0xb0, 0x4f, 0x4f, 0xec, 0x15, 0x62, 0xfb, 0x85, 0x18, 0x29, 0x54, 0xc9, 0x6b, 0x7c, 0xbb, 0x5d,
            0x5e, 0x44, 0x10, 0x25, 0x1f, 0xf4, 0xf3, 0x52, 0xd0, 0x9a, 0x2d, 0xa9, 0x04, 0x19, 0xfb, 0x13,
        ]),
        (300, [
            0x46, 0xe5, 0x6a, 0xd3, 0x0d, 0xb9, 0xef, 0x50, 0xf8, 0xb6, 0x76, 0x2b, 0xa5, 0x58, 0x39, 0x73,
            0x7f, 0x3f, 0xba, 0x34, 0xab, 0x47, 0x86, 0x3c, 0x9d, 0xaf, 0xf7, 0xb3, 0xf5, 0x8f, 0x97, 0xfe,
            0x34, 0x65, 0xa5, 0x2d, 0xd3, 0x64, 0x56, 0x0d, 0xb4, 0x7f, 0x80, 0x29, 0x09, 0xce, 0xd4, 0x90,
            0x93, 0x32, 0x26, 0x21, 0xea, 0x0a, 0xeb, 0xf8, 0xe0, 0x69, 0x6b, 0x85, 0xca, 0x8f, 0x81, 0xf0,
        ]),
    ];
    for (n, expect) in expected {
        let m = message(n);
        assert_eq!(digest(b"", b"", &m), expect, "length {n}");
        // The parts are joined without a trace.
        assert_eq!(digest(&m[..40], &m[40..41], &m[41..]), expect, "length {n}");
        assert_eq!(digest(&m[..n - 1], b"", &m[n - 1..]), expect, "length {n}");
    }
}

#[test]
fn challenge_lanes_hash_their_own_parts() {
    let mut r = [[0u8; 32]; 8];
    let mut keys = [[0u8; 32]; 8];
    let messages: Vec<Vec<u8>> = (0..8).map(|i| message(40 * i)).collect();
    let mut slices: [&[u8]; 8] = [&[]; 8];
    for i in 0..8 {
        r[i] = [i as u8; 32];
        keys[i] = [0x80 + i as u8; 32];
        slices[i] = &messages[i];
    }
    let words = hash_ed25519_challenge_words(&r, &keys, slices);
    for i in 0..8 {
        let mut all = r[i].to_vec();
        all.extend_from_slice(&keys[i]);
        all.extend_from_slice(&messages[i]);
        assert_eq!(words[i], digest_words(b"", b"", &all));
    }
}
