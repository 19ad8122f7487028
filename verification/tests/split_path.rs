use ed25519_batch::cache::{HotKeyCache, KeyCache, NullKeyCache};
use ed25519_batch::policy::VerifyPolicy;
use ed25519_batch::verify::{Verifier, VerifyInput};

struct Owned {
    pk: [u8; 32],
    sig: [u8; 64],
    msg: Vec<u8>,
}

// The keys of eight seeds that count up from zero, and their signatures on the
// messages of five rounds.
const PUBLIC_KEYS: [[u8; 32]; 8] = [
    [
        0x3b, 0x6a, 0x27, 0xbc, 0xce, 0xb6, 0xa4, 0x2d, 0x62, 0xa3, 0xa8, 0xd0, 0x2a, 0x6f, 0x0d, 0x73,
        0x65, 0x32, 0x15, 0x77, 0x1d, 0xe2, 0x43, 0xa6, 0x3a, 0xc0, 0x48, 0xa1, 0x8b, 0x59, 0xda, 0x29,
    ],
    [
        0xce, 0xcc, 0x15, 0x07, 0xdc, 0x1d, 0xdd, 0x72, 0x95, 0x95, 0x1c, 0x29, 0x08, 0x88, 0xf0, 0x95,
        0xad, 0xb9, 0x04, 0x4d, 0x1b, 0x73, 0xd6, 0x96, 0xe6, 0xdf, 0x06, 0x5d, 0x68, 0x3b, 0xd4, 0xfc,
    ],
    [
        0x6b, 0x79, 0xc5, 0x7e, 0x6a, 0x09, 0x52, 0x39, 0x28, 0x2c, 0x04, 0x81, 0x8e, 0x96, 0x11, 0x2f,
        0x3f, 0x03, 0xa4, 0x00, 0x1b, 0xa9, 0x7a, 0x56, 0x4c, 0x23, 0x85, 0x2a, 0x3f, 0x1e, 0xa5, 0xfc,
    ],
    [
        0xda, 0xdb, 0xd1, 0x84, 0xa2, 0xd5, 0x26, 0xf1, 0xeb, 0xdd, 0x5c, 0x06, 0xfd, 0xad, 0x93, 0x59,
        0xb2, 0x28, 0x75, 0x9b, 0x4d, 0x7f, 0x79, 0xd6, 0x66, 0x89, 0xfa, 0x25, 0x4a, 0xad, 0x85, 0x46,
    ],
    [
        0x9b, 0xe3, 0x28, 0x77, 0x95, 0x90, 0x78, 0x09, 0x40, 0x7e, 0x14, 0x43, 0x9f, 0xf1, 0x98, 0xd5,
        0xbf, 0xc7, 0xdc, 0xe6, 0xf9, 0xbc, 0x74, 0x3c, 0xb3, 0x69, 0x14, 0x6f, 0x61, 0x0b, 0x48, 0x01,
    ],
    [
        0xf4, 0xbd, 0x46, 0x52, 0x1c, 0xe7, 0xb5, 0x78, 0x99, 0xae, 0x6f, 0x4c, 0xa0, 0x9e, 0xdd, 0xec,
        0x68, 0x93, 0x27, 0xa8, 0x6a, 0x22, 0x32, 0xd4, 0xa3, 0xf2, 0xa4, 0xf3, 0x9a, 0xc6, 0x8a, 0x9e,
    ],
    [
        0x34, 0x79, 0x07, 0x64, 0x30, 0x8e, 0x0b, 0x7b, 0x5f, 0x7c, 0xc9, 0xd5, 0xcd, 0xd2, 0x98, 0x45,
        0xfd, 0x82, 0xa0, 0x3d, 0xf5, 0x3d, 0x2c, 0xff, 0xef, 0x3c, 0x02, 0x28, 0x54, 0x74, 0x87, 0xc5,
    ],
    [
        0xa2, 0xfa, 0x2f, 0x4a, 0x35, 0x5b, 0xa2, 0xe9, 0x07, 0xa5, 0x30, 0x09, 0xe9, 0xe3, 0x7c, 0xad,
        0xdf, 0x7a, 0xc7, 0xe6, 0x6a, 0x08, 0xba, 0x07, 0x63, 0x1f, 0x55, 0x30, 0x72, 0xb3, 0xf2, 0x4c,
    ],
];

const SIGNATURES: [[[u8; 64]; 8]; 5] = [
    [
        [
            0x5c, 0xf9, 0x69, 0x2f, 0x99, 0xc7, 0x87, 0x16, 0x7e, 0x96, 0x16, 0xc8, 0xcc, 0x3b, 0x30, 0x8a,
            0xa1, 0x5e, 0x84, 0xe7, 0x5f, 0xb1, 0xe8, 0xd8, 0xd0, 0xca, 0xd6, 0x5b, 0x0d, 0x83, 0xab, 0xc1,
            0x09, 0x10, 0x85, 0x4f, 0xbf, 0x37, 0x0d, 0xa8, 0x5a, 0x49, 0x79, 0xe2, 0x73, 0xb6, 0x1f, 0x9e,
            0x56, 0x64, 0xee, 0x38, 0x9e, 0x38, 0x6d, 0xb8, 0x14, 0xa4, 0x81, 0x28, 0xf9, 0xfa, 0x59, 0x0a,
        ],
        [
            0x63, 0x5d, 0xf5, 0xd9, 0x7f, 0xae, 0x43, 0xcf, 0x68, 0x38, 0xa3, 0xcc, 0x24, 0xa0, 0xd6, 0xe5,
            0xd0, 0x04, 0xa0, 0x15, 0x2d, 0x81, 0x3f, 0xa9, 0x7b, 0x22, 0xf6, 0x72, 0x32, 0x93, 0xcc, 0x07,
            0xe1, 0xde, 0x09, 0xb3, 0x65, 0x1d, 0xd0, 0xc9, 0xfc, 0x5a, 0x89, 0xaa, 0x14, 0xd5, 0x39, 0xd8,
            0x7c, 0x91, 0x6a, 0xd5, 0x54, 0xf6, 0x76, 0xbc, 0xd1, 0xcb, 0x07, 0x7c, 0x41, 0x78, 0xc1, 0x0a,
        ],
        [
            0x4a, 0x09, 0x9f, 0xed, 0x44, 0x3a, 0x03, 0x7a, 0x90, 0x78, 0x8e, 0xa0, 0xb2, 0x61, 0xa5, 0xd0,
            0x98, 0x60, 0x15, 0xee, 0xfc, 0xf0, 0x4f, 0xd9, 0x9a, 0xa7, 0x50, 0x4b, 0x7e, 0x23, 0xf8, 0xcc,
            0x1e, 0x4e, 0x72, 0x4e, 0xe9, 0x5e, 0x07, 0x16, 0xb7, 0x10, 0xbb, 0xa0, 0x0e, 0x55, 0xa5, 0x1c,
            0xf5, 0x6e, 0x47, 0x6d, 0x90, 0x29, 0x4f, 0x4a, 0xd1, 0xce, 0x78, 0xc6, 0x2b, 0xd8, 0x97, 0x03,
        ],
        [
            0x52, 0x82, 0x54, 0xb7, 0x65, 0x50, 0x6b, 0x38, 0xea, 0xe1, 0xba, 0x75, 0xa9, 0xa7, 0xb5, 0x0e,
            0xa9, 0xcd, 0x5d, 0x92, 0x93, 0xa6, 0x4b, 0x92, 0xda, 0xfe, 0x61, 0x42, 0xdd, 0x81, 0xca, 0xb7,
            0xeb, 0x40, 0x3c, 0x83, 0x87, 0x67, 0xc8, 0x75, 0x73, 0xba, 0xaf, 0x9d, 0x4a, 0xb1, 0x39, 0x0b,
            0xc5, 0xf4, 0xc0, 0xdc, 0x00, 0x03, 0x03, 0x4b, 0x24, 0x20, 0x94, 0x3b, 0xa3, 0xa5, 0xbd, 0x06,
        ],
        [
            0xe0, 0xe9, 0x7e, 0x5a, 0x83, 0x4d, 0x65, 0x9a, 0x8d, 0x9f, 0x40, 0xac, 0x44, 0x52, 0x4c, 0x54,
            0xe3, 0x63, 0x26, 0xd5, 0x42, 0x59, 0xb3, 0xff, 0xd6, 0x22, 0xbb, 0xdb, 0xe7, 0x85, 0x46, 0x5f,
            0x8b, 0x8e, 0x41, 0x9a, 0x28, 0x6f, 0xd8, 0x24, 0x2e, 0x59, 0x4b, 0x83, 0xc6, 0xe4, 0x8d, 0xd7,
            0x16, 0x55, 0xe9, 0x83, 0xd4, 0xb1, 0x5b, 0x05, 0x14, 0xc5, 0x04, 0x56, 0x1f, 0xe0, 0xee, 0x01,
        ],
        [
            0xfb, 0xa4, 0xd1, 0x0e, 0xc4, 0xee, 0x09, 0x98, 0xc2, 0x09, 0xc5, 0x38, 0xa6, 0xe6, 0xaa, 0xf6,
            0x13, 0xc3, 0xd8, 0xd0, 0xd5, 0x44, 0x22, 0xf4, 0x83, 0xf7, 0xe1, 0x1b, 0x2f, 0x79, 0x61, 0x70,
            0x00, 0xb3, 0x4f, 0xd0, 0xdb, 0x9f, 0xe2, 0x16, 0x15, 0x33, 0x2e, 0x2d, 0xaf, 0x65, 0x96, 0x4d,
            0xa6, 0xed, 0xbe, 0xcc, 0x01, 0x2c, 0xa8, 0x3a, 0x8e, 0x93, 0x36, 0xd4, 0x1b, 0xc0, 0x57, 0x01,
        ],
        [
            0x95, 0x4c, 0x55, 0x40, 0x68, 0x9d, 0x7e, 0x3e, 0x55, 0xdc, 0xf8, 0x6d, 0xb8, 0xdc, 0x09, 0x6d,
            0xe3, 0x73, 0xe9, 0xeb, 0xcf, 0x25, 0x55, 0x46, 0x1a, 0xad, 0x50, 0x45, 0xc5, 0x28, 0x08, 0x9f,
            0xbd, 0x72, 0xbf, 0xe9, 0x98, 0x89, 0x7c, 0x2c, 0xbe, 0xa2, 0xa1, 0xf7, 0x37, 0x5e, 0x6b, 0xa9,
            0xe2, 0xa8, 0xa9, 0x41, 0x3f, 0x87, 0x8a, 0x13, 0x4b, 0x59, 0xc4, 0xe6, 0xf3, 0xc5, 0xbe, 0x0a,
        ],
        [
            0xc2, 0x2c, 0xd1, 0xbc, 0x64, 0x8d, 0x51, 0x51, 0x58, 0xac, 0xbe, 0x16, 0xd3, 0xf7, 0x9c, 0x57,
            0x26, 0x3a, 0x84, 0x99, 0x52, 0x5b, 0x5b, 0x1a, 0x40, 0x12, 0x57, 0x5c, 0xed, 0x36, 0x05, 0x91,
            0xe2, 0xf8, 0xee, 0xcf, 0xe7, 0xa0, 0x66, 0x1f, 0xda, 0x7b, 0xd2, 0x9f, 0xa9, 0x35, 0x59, 0x1f,
            0x05, 0xca, 0xbd, 0x30, 0xe4, 0xb7, 0x4f, 0xc1, 0x10, 0x3c, 0xf9, 0xc7, 0x17, 0xf5, 0x61, 0x0d,
        ],
    ],
    [
        [
            0xc6, 0x91, 0x68, 0x07, 0x32, 0x31, 0x77, 0x3f, 0x84, 0x6b, 0xb0, 0x00, 0x6f, 0x16, 0xcb, 0x98,
            0x69, 0xce, 0x84, 0x32, 0xa8, 0x30, 0xbb, 0x50, 0x1e, 0xfc, 0xfd, 0x66, 0x95, 0x25, 0x10, 0x95,
            0xdf, 0xa1, 0xad, 0xc4, 0xb4, 0x88, 0x03, 0x1e, 0xc6, 0xd6, 0xe1, 0x2d, 0xe5, 0xa2, 0x50, 0x5f,
            0x6d, 0x75, 0x77, 0x87, 0xf9, 0x25, 0x45, 0xe0, 0xa2, 0xc9, 0xb8, 0x2b, 0xfe, 0xa1, 0x02, 0x00,
        ],
        [
            0xbc, 0x82, 0xc6, 0xb9, 0x96, 0x62, 0xe1, 0x38, 0x67, 0x7e, 0xf1, 0xca, 0x01, 0x62, 0x8f, 0x29,
            0x75, 0x57, 0xd2, 0x0f, 0xe8, 0xe5, 0xd5, 0x3c, 0xc8, 0x32, 0x4c, 0x9f, 0x39, 0xd0, 0xfd, 0x9c,
            0xf5, 0x51, 0x76, 0x22, 0xb5, 0x7f, 0xfc, 0xab, 0x2c, 0xd5, 0x1d, 0xba, 0x39, 0x8f, 0xcb, 0x4d,
            0xa5, 0x09, 0xea, 0x75, 0xfd, 0xcb, 0x8a, 0x83, 0xfd, 0xa7, 0x0a, 0xdd, 0xed, 0xfc, 0x21, 0x0a,
        ],
        [
            0x26, 0x7b, 0x69, 0xfe, 0x4c, 0xee, 0x7a, 0x56, 0x87, 0xbc, 0xbc, 0x01, 0xa1, 0xb9, 0x40, 0xb1,
            0x2b, 0xdc, 0x84, 0x5b, 0x67, 0xdd, 0xaf, 0xae, 0x41, 0xc1, 0x81, 0xe4, 0x60, 0xe6, 0x43, 0x77,
            0x7c, 0xad, 0x39, 0x19, 0x58, 0x6b, 0x92, 0xde, 0x7a, 0x66, 0x83, 0xe7, 0x12, 0xf8, 0x02, 0x67,
            0x9f, 0x5e, 0x53, 0x3b, 0x95, 0x0d, 0x7d, 0x32, 0x1f, 0x5e, 0x72, 0x9a, 0x7a, 0xd0, 0xe1, 0x0f,
        ],
        [
            0x4f, 0x69, 0x2a, 0xe0, 0xe8, 0x9c, 0xaf, 0x30, 0xf0, 0xe3, 0x3d, 0xcc, 0x84, 0xde, 0x19, 0xbd,
            0xfd, 0x4b, 0x9e, 0x7a, 0x23, 0xe1, 0x2a, 0xe5, 0x09, 0x6c, 0xf8, 0xf4, 0xf3, 0x02, 0x4f, 0xe2,
            0x13, 0xd3, 0x59, 0xd0, 0x49, 0x5e, 0x81, 0x27, 0xf8, 0x37, 0x0a, 0x39, 0x9d, 0x1d, 0xab, 0xef,
            0xb5, 0x04, 0x51, 0xf3, 0xce, 0x0d, 0x71, 0xe6, 0x43, 0xb2, 0x7a, 0xe1, 0x76, 0xa4, 0xc7, 0x0d,
        ],
        [
            0xef, 0x8d, 0x4d, 0x66, 0x0a, 0xee, 0xea, 0xb5, 0x83, 0xd1, 0xdd, 0x95, 0x44, 0xaf, 0x4f, 0x29,
            0xd4, 0xbf, 0x46, 0x71, 0xf5, 0xc2, 0x45, 0x5e, 0x00, 0x17, 0x93, 0x1b, 0x55, 0x62, 0x00, 0xc0,
            0x62, 0x89, 0x47, 0x6f, 0x3c, 0x34, 0xc0, 0xe9, 0xc8, 0x3e, 0x57, 0xcb, 0x9c, 0x01, 0x99, 0xeb,
            0xe3, 0xa3, 0x7b, 0xec, 0x71, 0xb9, 0xd5, 0xfd, 0x5c, 0xf3, 0x01, 0x7f, 0x94, 0x93, 0x66, 0x00,
        ],
        [
            0x7e, 0xcb, 0x16, 0xb3, 0x41, 0x53, 0x13, 0xb9, 0xcd, 0x1d, 0x7f, 0xed, 0xc1, 0xa6, 0xac, 0xb7,
            0x08, 0x4f, 0xfb, 0x99, 0x82, 0x76, 0x79, 0x68, 0x59, 0x1c, 0x57, 0x41, 0x73, 0x55, 0x61, 0xbf,
            0xf4, 0xe7, 0xcc, 0x6d, 0x26, 0xd4, 0xee, 0x92, 0xd8, 0x4f, 0x99, 0x67, 0x55, 0x2e, 0x2b, 0x60,
            0xc9, 0x46, 0xcc, 0x26, 0x9b, 0x7d, 0xce, 0x3e, 0x33, 0x2c, 0xe7, 0xde, 0xd8, 0xc3, 0x6a, 0x04,
        ],
        [
            0x48, 0x77, 0x22, 0x24, 0xe1, 0x93, 0xd0, 0xe5, 0x53, 0x39, 0x7e, 0x6c, 0x05, 0xee, 0xbd, 0x71,
            0x10, 0x5f, 0x2f, 0xbf, 0x9a, 0x3a, 0x30, 0xf7, 0x7c, 0x3e, 0xd2, 0x66, 0x63, 0xab, 0x20, 0xe2,
            0xba, 0xb5, 0x04, 0x68, 0xc8, 0xd3, 0x8e, 0x11, 0x77, 0x63, 0x9f, 0x91, 0xc9, 0xbd, 0x6b, 0xf7,
            0xd3, 0xb2, 0xff, 0x5b, 0x5d, 0xc4, 0x31, 0xa1, 0xf7, 0x76, 0xb7, 0x89, 0xfd, 0x47, 0xeb, 0x01,
        ],
        [
            0xfb, 0xd2, 0x6c, 0x50, 0xaf, 0xe4, 0xb3, 0x89, 0x22, 0x64, 0x5f, 0x3c, 0xab, 0xd4, 0x82, 0x4c,
            0x65, 0x61, 0x87, 0xcb, 0x9d, 0xc9, 0x27, 0xd9, 0xca, 0xf4, 0xdc, 0xe9, 0x3f, 0xe6, 0x5d, 0x90,
            0xfa, 0x88, 0x8b, 0x28, 0xaf, 0xee, 0x3e, 0x23, 0xce, 0x91, 0xad, 0x85, 0xac, 0x37, 0xc9, 0xbb,
            0xec, 0xe1, 0x75, 0xce, 0x14, 0x84, 0x1f, 0x2c, 0xba, 0x07, 0x9b, 0x46, 0xeb, 0xff, 0x8a, 0x0d,
        ],
    ],
    [
        [
            0x0e, 0x4a, 0x16, 0xa1, 0x2a, 0x0d, 0x80, 0x8c, 0x4b, 0x0b, 0x30, 0xba, 0x2f, 0x3f, 0x3d, 0x80,
            0x1b, 0xec, 0x9c, 0x28, 0x78, 0x5c, 0x8f, 0xc8, 0x64, 0xb9, 0x16, 0x40, 0x63, 0x0c, 0x8b, 0x59,
            0x93, 0x23, 0xa7, 0xca, 0x7b, 0x52, 0x02, 0xcd, 0x4d, 0xb8, 0x32, 0xfe, 0x5b, 0x6e, 0x7c, 0x9b,
            0x2f, 0x23, 0xd2, 0x0b, 0xe4, 0x58, 0x58, 0xe0, 0x7f, 0xc2, 0x73, 0x23, 0x69, 0x7b, 0xd5, 0x02,
        ],
        [
            0x68, 0x3d, 0x22, 0x20, 0x64, 0xd4, 0xe6, 0xe3, 0xb9, 0x42, 0x1c, 0x81, 0xc6, 0x52, 0x28, 0x1b,
            0x52, 0x77, 0x86, 0xb6, 0x97, 0xbf, 0x69, 0xd2, 0x56, 0x73, 0x03, 0x33, 0xef, 0x77, 0x2c, 0xa9,
            0xfb, 0x08, 0x8d, 0xdd, 0xf6, 0x4a, 0x07, 0x69, 0x63, 0x68, 0xdf, 0x97, 0x7a, 0xef, 0x8d, 0xaf,
            0x15, 0x4f, 0x24, 0xe1, 0xe8, 0x79, 0xf7, 0xef, 0x7e, 0x4b, 0xb0, 0xc3, 0x26, 0x14, 0xc4, 0x0e,
        ],
        [
            0x0f, 0xc1, 0x23, 0x89, 0xfa, 0x26, 0x82, 0x88, 0x94, 0xd0, 0xb1, 0xab, 0xfe, 0xcc, 0x24, 0x97,
            0x9e, 0x91, 0x84, 0x40, 0x45, 0xaa, 0xa3, 0xd3, 0xd4, 0x8a, 0xb6, 0x13, 0xb6, 0x6e, 0xb2, 0x27,
            0xe5, 0x0e, 0xff, 0x19, 0xbf, 0xdc, 0xce, 0x74, 0x43, 0xe0, 0x30, 0xc0, 0xcd, 0xd5, 0xbc, 0x13,
            0x76, 0x99, 0x84, 0x8d, 0xf5, 0x1e, 0x1a, 0x0f, 0x21, 0x57, 0xb4, 0x2e, 0x93, 0x37, 0x3f, 0x08,
        ],
        [
            0x79, 0x46, 0x3d, 0x0b, 0x5b, 0x26, 0x51, 0x4a, 0xd3, 0x4c, 0x79, 0x06, 0xbd, 0xf1, 0xd2, 0x74,
            0x0e, 0x5f, 0x90, 0xf1, 0xfe, 0xd2, 0x4e, 0xa8, 0xdf, 0xb5, 0x8a, 0xca, 0xb3, 0xd6, 0xaa, 0xd6,
            0xcb, 0x22, 0x85, 0x41, 0xac, 0x44, 0x45, 0xfd, 0x7a, 0xd0, 0x67, 0xe5, 0xbf, 0x51, 0x53, 0xf3,
            0x15, 0x70, 0xbb, 0xd8, 0xef, 0x82, 0xc4, 0x33, 0x8e, 0xba, 0xd6, 0xc9, 0xa7, 0x32, 0x25, 0x0d,
        ],
        [
            0x22, 0xe9, 0xc7, 0x99, 0xaa, 0xc7, 0x47, 0xb3, 0x81, 0x33, 0xa5, 0x07, 0x13, 0x4b, 0xad, 0xa9,
            0xd6, 0xb7, 0x95, 0x4a, 0xfd, 0x96, 0xa9, 0xd0, 0xd1, 0x72, 0xf7, 0xfc, 0xcb, 0xeb, 0xaa, 0x4c,
            0x58, 0x04, 0xbd, 0x77, 0xb5, 0x5c, 0x9f, 0x54, 0xb9, 0x64, 0x4d, 0x1a, 0x60, 0x34, 0x97, 0x50,
            0xbb, 0x62, 0x7d, 0x42, 0x37, 0xf3, 0x16, 0xca, 0x1b, 0xe5, 0xfc, 0x47, 0x67, 0x20, 0xf5, 0x08,
        ],
        [
            0xd7, 0xa7, 0xb9, 0x89, 0x23, 0xde, 0x17, 0x76, 0x18, 0xe3, 0xe2, 0x84, 0xc7, 0x33, 0xab, 0xbe,
            0x7b, 0xe7, 0xef, 0x3c, 0xd6, 0x91, 0x50, 0x35, 0xae, 0x35, 0x9c, 0x67, 0xa2, 0xe5, 0x16, 0x0d,
            0x67, 0x7f, 0xd9, 0x6f, 0x5e, 0x4d, 0xfd, 0x53, 0xbc, 0x72, 0x61, 0xab, 0xd9, 0x7f, 0xac, 0xc7,
            0xcb, 0xfd, 0xf5, 0x4c, 0x3e, 0x01, 0x55, 0x3f, 0x0f, 0x0e, 0xfd, 0x59, 0xcb, 0xf4, 0x92, 0x0e,
        ],
        [
            0x9e, 0x84, 0x47, 0x60, 0xa7, 0x93, 0xf2, 0x64, 0xc4, 0x8d, 0x37, 0x6c, 0xb7, 0x25, 0x55, 0x68,
            0x9b, 0xf7, 0x47, 0x87, 0xab, 0x3d, 0xda, 0xf5, 0x0b, 0x09, 0xe3, 0x63, 0x55, 0x89, 0x94, 0xa9,
            0x92, 0x56, 0x76, 0x61, 0x49, 0xb2, 0x40, 0x4c, 0xc5, 0xf8, 0xbc, 0x48, 0x15, 0x2d, 0x63, 0x0a,
            0x40, 0x4c, 0x4f, 0xac, 0x5d, 0x32, 0x30, 0xd8, 0x56, 0x97, 0x8d, 0xc2, 0x63, 0xa1, 0x29, 0x0d,
        ],
        [
            0xd9, 0x71, 0x95, 0x39, 0x7c, 0x22, 0x7f, 0x53, 0xd9, 0xa4, 0x40, 0x5d, 0x20, 0xda, 0x0c, 0x42,
            0xd2, 0xd7, 0x35, 0x07, 0xf2, 0x5e, 0x00, 0x1e, 0x71, 0x67, 0x90, 0xb3, 0x88, 0x6b, 0xac, 0xa6,
            0xf1, 0xb7, 0x1c, 0x32, 0x62, 0x96, 0xa5, 0x09, 0xa5, 0xcb, 0x98, 0x25, 0x83, 0x86, 0xff, 0x85,
            0xc6, 0x12, 0xe0, 0xf8, 0x53, 0xae, 0x62, 0x4f, 0x2f, 0x49, 0xf0, 0x33, 0xdc, 0x5c, 0xc1, 0x07,
        ],
    ],
    [
        [
            0x43, 0xb9, 0xdd, 0xc9, 0x65, 0x52, 0x5c, 0xbc, 0xb9, 0x02, 0x95, 0x9d, 0xbf, 0x87, 0xca, 0xde,
            0xd7, 0x24, 0x44, 0x8c, 0xe6, 0xe3, 0x80, 0xed, 0xfb, 0x32, 0xc1, 0x29, 0xd4, 0x80, 0xa2, 0x88,
            0xbe, 0xc0, 0x45, 0x9a, 0xbc, 0x1f, 0xe8, 0xec, 0xb0, 0x9b, 0xda, 0xe3, 0x95, 0x5b, 0x75, 0x68,
            0xfe, 0xd7, 0x2f, 0xe8, 0x86, 0x75, 0xe7, 0xbf, 0x8f, 0x14, 0xf6, 0xa0, 0x87, 0xe4, 0xb1, 0x02,
        ],
        [
            0x1f, 0x95, 0xf7, 0xac, 0x2f, 0x1d, 0xd5, 0x73, 0xc1, 0x24, 0x1b, 0xec, 0x7a, 0x00, 0x5e, 0x7d,
            0x14, 0x6d, 0x90, 0x04, 0xad, 0xbb, 0x65, 0x1a, 0x52, 0x5c, 0x06, 0x98, 0x78, 0xfb, 0x4f, 0xe8,
            0x8f, 0x4f, 0x8e, 0x64, 0xfd, 0x2b, 0xe9, 0x64, 0xa2, 0x1c, 0x4f, 0xab, 0x57, 0xbb, 0xb4, 0x29,
            0x18, 0xb2, 0xa2, 0x0d, 0x56, 0x03, 0x3d, 0xf6, 0xad, 0x71, 0xb2, 0x8c, 0x14, 0x57, 0x5e, 0x0f,
        ],
        [
            0x7b, 0x0f, 0xc4, 0x87, 0x4b, 0x1e, 0x75, 0x0d, 0x26, 0x4f, 0x4c, 0x76, 0x0b, 0xdd, 0xa3, 0x98,
            0xe4, 0x29, 0x3a, 0x42, 0x32, 0x66, 0x92, 0xba, 0xe1, 0xf7, 0xaa, 0x32, 0x9f, 0x50, 0x56, 0x42,
            0xaf, 0x30, 0xcd, 0x49, 0xa7, 0x37, 0xb6, 0xf0, 0xb9, 0x02, 0x6a, 0x15, 0x10, 0x1a, 0x52, 0xbd,
            0x4d, 0xaa, 0x3b, 0x15, 0xc0, 0xa1, 0x60, 0xe8, 0x93, 0xc4, 0xca, 0xd8, 0xfa, 0x39, 0x27, 0x0b,
        ],
        [
            0xd9, 0xcc, 0x86, 0xdf, 0xf3, 0xe0, 0x59, 0x17, 0xc6, 0x20, 0xd8, 0x9e, 0x4c, 0xce, 0x73, 0x25,
            0x25, 0x90, 0xd1, 0xf4, 0x6c, 0x92, 0xd5, 0x6b, 0xa8, 0x1e, 0xe5, 0x61, 0x9f, 0x6e, 0x6a, 0xd5,
            0xd4, 0xa6, 0xe5, 0x0a, 0x9c, 0x0d, 0x98, 0xfc, 0xa1, 0x4b, 0xcc, 0xb4, 0x4e, 0xd6, 0xda, 0xa1,
            0x6a, 0xa6, 0x3c, 0x17, 0x49, 0x15, 0xa4, 0xd1, 0x05, 0xf0, 0x70, 0x2a, 0xcc, 0xdd, 0x7c, 0x08,
        ],
        [
            0xb6, 0xea, 0x46, 0xe1, 0xad, 0xa1, 0xf8, 0x35, 0x67, 0x86, 0x77, 0xfe, 0xbe, 0xb9, 0x60, 0xeb,
            0x3d, 0xe4, 0x0c, 0x0d, 0x18, 0x73, 0x89, 0x16, 0x5c, 0xad, 0x03, 0x83, 0xea, 0x14, 0xd0, 0xe6,
            0xb3, 0xcf, 0x23, 0x6b, 0x9a, 0xb5, 0x2a, 0xc4, 0xc8, 0xa6, 0xd0, 0x2f, 0xf0, 0x3a, 0x02, 0x33,
            0xc7, 0xa7, 0xfb, 0x4a, 0x0f, 0xa8, 0xf2, 0xf5, 0x91, 0x03, 0x26, 0xea, 0x5f, 0x18, 0xe8, 0x0a,
        ],
        [
            0xef, 0x9e, 0x95, 0x99, 0xbd, 0x01, 0x27, 0xee, 0xa9, 0x43, 0x06, 0xf4, 0x32, 0xe9, 0xa8, 0x08,
            0xac, 0xd5, 0xd8, 0x0d, 0x92, 0x9c, 0x00, 0x00, 0x44, 0xf0, 0xe6, 0x00, 0xe6, 0x69, 0xa4, 0x5c,
            0x11, 0x26, 0x77, 0x54, 0x1e, 0x18, 0x2d, 0x3b, 0x0f, 0xbb, 0x66, 0xdf, 0x7c, 0xc7, 0xb1, 0x15,
            0x36, 0x60, 0x9b, 0x6f, 0xf5, 0xd1, 0x0b, 0x37, 0x0b, 0x7b, 0x18, 0x82, 0xb6, 0xf2, 0xbb, 0x04,
        ],
        [
            0x4a, 0x9c, 0x6d, 0xdb, 0xea, 0x66, 0xbb, 0x18, 0xd9, 0xb3, 0xac, 0xd8, 0x43, 0x80, 0x3f, 0x4b,
            0x62, 0xea, 0xb1, 0x28, 0x92, 0x9c, 0xe4, 0x92, 0x03, 0x80, 0x35, 0x81, 0xc1, 0xc9, 0x7a, 0x14,
            0x6c, 0xc1, 0x8d, 0xe9, 0x83, 0x70, 0x22, 0xf6, 0x53, 0x16, 0xab, 0x5c, 0x39, 0x26, 0x40, 0x64,
            0xdf, 0xe4, 0x03, 0x14, 0xb6, 0xdb, 0x8c, 0x95, 0x49, 0x12, 0xb5, 0x63, 0xb7, 0x8b, 0x97, 0x0f,
        ],
        [
            0xee, 0x06, 0x1c, 0xc3, 0x83, 0x70, 0x75, 0x38, 0xb5, 0xec, 0x0d, 0x25, 0x05, 0x52, 0xef, 0x33,
            0x54, 0x9b, 0x99, 0x07, 0x53, 0xda, 0x27, 0x64, 0x50, 0x6e, 0x80, 0xa2, 0x65, 0x9f, 0xf0, 0x45,
            0xbb, 0xb0, 0xa7, 0x45, 0xa4, 0x33, 0xb5, 0xcf, 0xe2, 0x70, 0xdb, 0xfe, 0x55, 0xf5, 0x42, 0xc7,
            0xd8, 0x94, 0x45, 0x11, 0x7a, 0xcb, 0x76, 0xa5, 0x6c, 0x4f, 0x60, 0x54, 0x81, 0x06, 0x1d, 0x08,
        ],
    ],
    [
        [
            0x78, 0x75, 0x2d, 0xda, 0x07, 0x80, 0xb2, 0xa1, 0xa6, 0x0c, 0xe4, 0xa4, 0x17, 0xb0, 0x44, 0x57,
            0xf2, 0xd1, 0x60, 0xf3, 0x2d, 0x90, 0x7c, 0x72, 0xb8, 0xe7, 0x9f, 0x86, 0xc8, 0x36, 0x6f, 0x71,
            0xf7, 0x4b, 0xa1, 0xb7, 0xdf, 0xa7, 0xd0, 0xcc, 0x69, 0x15, 0x7b, 0x16, 0x95, 0xb3, 0xbf, 0x29,
            0xce, 0x7c, 0xeb, 0x3a, 0xdd, 0x5a, 0xbc, 0x81, 0xe4, 0xaa, 0x4f, 0x6c, 0xf1, 0x2a, 0x94, 0x0f,
        ],
        [
            0xf7, 0x98, 0x83, 0xcf, 0xf3, 0x59, 0xaf, 0xdc, 0x83, 0x21, 0x54, 0x82, 0xee, 0xda, 0x61, 0x7a,
            0x50, 0xe4, 0x5a, 0x8f, 0xbf, 0x88, 0x7c, 0x83, 0xef, 0x8e, 0xe6, 0x4d, 0x1c, 0xae, 0x2b, 0xc7,
            0x81, 0x7f, 0x15, 0x3f, 0xbf, 0x1c, 0x68, 0xbd, 0x29, 0x78, 0xe3, 0xf3, 0x69, 0x6b, 0xc6, 0xdc,
            0x80, 0xbc, 0xa8, 0x25, 0xe9, 0x82, 0xf0, 0x51, 0xa9, 0xed, 0x51, 0x42, 0x25, 0xb6, 0x1b, 0x07,
        ],
        [
            0x9c, 0x4d, 0x77, 0x05, 0xb2, 0x68, 0x35, 0xde, 0x06, 0x49, 0xa8, 0xbb, 0x6f, 0xc0, 0xd3, 0x20,
            0x66, 0x08, 0xe4, 0x58, 0x8f, 0x43, 0x22, 0x3e, 0xec, 0x5b, 0xd0, 0x6d, 0xfe, 0x65, 0xa7, 0xe9,
            0xaf, 0x12, 0x7a, 0x89, 0x6d, 0x03, 0xfe, 0x19, 0x5b, 0x03, 0x3c, 0xee, 0x51, 0xdd, 0xab, 0x28,
            0xa5, 0xcd, 0xb8, 0xbd, 0x37, 0xc7, 0x8d, 0x45, 0x78, 0x18, 0x43, 0x1d, 0xb9, 0xa4, 0x62, 0x0d,
        ],
        [
            0x45, 0x13, 0x01, 0xb2, 0xef, 0x34, 0xc0, 0x73, 0xac, 0xaf, 0x10, 0x39, 0x19, 0xac, 0xdd, 0x29,
            0x24, 0xc6, 0x30, 0x64, 0x14, 0x72, 0x9b, 0x90, 0x56, 0x9a, 0x8f, 0x6a, 0x5d, 0x9f, 0x61, 0xde,
            0x48, 0xe9, 0x0f, 0xbb, 0xbf, 0x66, 0xdd, 0x78, 0x81, 0xe3, 0xe1, 0xae, 0x24, 0x1e, 0x10, 0x52,
            0x0d, 0xfd, 0x4d, 0xfe, 0x7c, 0x80, 0x4e, 0xc9, 0x71, 0xf7, 0xfa, 0x0e, 0x9a, 0x2d, 0x91, 0x06,
        ],
        [
            0xb1, 0x04, 0xd2, 0x23, 0xd2, 0x59, 0xb9, 0x42, 0x33, 0xb9, 0xd3, 0x6a, 0x74, 0xa7, 0x3a, 0x43,
            0x36, 0xc9, 0xc7, 0xdf, 0x2d, 0x04, 0x8d, 0x47, 0xce, 0x2a, 0x7f, 0x4c, 0xd2, 0xf5, 0x8a, 0xc7,
            0x50, 0x78, 0x29, 0xbd, 0xa5, 0x99, 0x76, 0xd4, 0x34, 0xa3, 0x55, 0x02, 0x43, 0x1b, 0x79, 0x2d,
            0x37, 0x77, 0xd3, 0x98, 0xfa, 0x34, 0x50, 0x16, 0xd2, 0x71, 0xb0, 0xbf, 0x2b, 0x32, 0x47, 0x07,
        ],
        [
            0x3d, 0x84, 0xdb, 0x6b, 0x0e, 0x05, 0x56, 0x6b, 0xa4, 0xbc, 0xc0, 0xfa, 0xc4, 0x34, 0xc3, 0x5c,
            0x3f, 0xf5, 0xd6, 0xda, 0xdb, 0x27, 0x1b, 0x25, 0xab, 0x8c, 0x3c, 0xbc, 0x0e, 0x6e, 0xf5, 0x55,
            0x12, 0x6a, 0x3e, 0xed, 0x12, 0xd4, 0x97, 0xe2, 0xbd, 0x0a, 0xb1, 0xcd, 0xfa, 0x7e, 0x50, 0x71,
            0x5a, 0x48, 0x72, 0x0f, 0x29, 0xe6, 0xb8, 0x12, 0x1b, 0x2f, 0xa4, 0xa1, 0x42, 0xa0, 0xd9, 0x02,
        ],
        [
            0x5e, 0xe3, 0x9d, 0x02, 0x92, 0x39, 0x6d, 0xa4, 0x90, 0x90, 0xa0, 0x7a, 0x2f, 0x13, 0x76, 0xc9,
            0xb0, 0x05, 0x91, 0xc4, 0x5e, 0xff, 0x82, 0x82, 0x98, 0x3a, 0x60, 0x49, 0xaf, 0x45, 0x89, 0x4e,
            0x3b, 0x91, 0xa3, 0x2c, 0xcf, 0x9e, 0xa6, 0x1c, 0x82, 0xe6, 0xa6, 0x39, 0x12, 0x95, 0xc2, 0x1c,
            0xaf, 0x9a, 0x14, 0x01, 0x06, 0xba, 0x57, 0x99, 0x40, 0x14, 0x36, 0xc5, 0x2e, 0xd2, 0xda, 0x04,
        ],
        [
            0x54, 0x1a, 0x9e, 0x8f, 0x07, 0xc0, 0x69, 0x82, 0x6d, 0xe7, 0x37, 0xd4, 0x69, 0xb3, 0x20, 0xc2,
            0xcb, 0x79, 0x46, 0xd4, 0x81, 0xad, 0x31, 0xa0, 0xe8, 0x01, 0x0d, 0x66, 0x48, 0x1a, 0x46, 0x49,
            0xac, 0x17, 0xb3, 0xe2, 0x9c, 0x00, 0x8e, 0x29, 0x69, 0x5d, 0x62, 0x53, 0x96, 0xe6, 0x18, 0x06,
            0x42, 0x44, 0x6a, 0x3a, 0x3c, 0x1f, 0xa9, 0xaf, 0x0e, 0x83, 0xc6, 0x41, 0xcc, 0x65, 0x71, 0x00,
        ],
    ],
];

fn signed_inputs(round: u8) -> Vec<Owned> {
    (0..8usize)
        .map(|i| Owned {
            pk: PUBLIC_KEYS[i],
            sig: SIGNATURES[round as usize - 1][i],
            msg: vec![round, i as u8, 0x2b],
        })
        .collect()
}

fn inputs_of(cases: &[Owned]) -> Vec<VerifyInput<'_>> {
    cases
        .iter()
        .map(|c| VerifyInput { public_key: c.pk, signature: c.sig, message: &c.msg })
        .collect()
}

/// End-to-end semantics, both policies:
/// round 1 (all miss)   -> insert, no split tables (lazy);
/// round 2 (hit #1)     -> full ladder, NO promotion (hysteresis);
/// round 3 (hit #2)     -> full ladder, promotion after the chunk;
/// round 4+ (promoted)  -> split ladder, including a corrupted lane
///                         exercising per-lane masking through it.
/// Every round's outputs must equal a cold verifier's.
/// (The test's own cache reads also increment the hit counter, so keys
/// may get promoted earlier than in real use. We therefore only assert
/// that round 1 promotes nothing and all keys are promoted by round 3.)
#[test]
fn split_path_promotes_lazily_and_matches_cold_verifier() {
    for policy in [VerifyPolicy::Zip215, VerifyPolicy::Dalek] {
        let mut warm = Verifier::with_cache(policy, HotKeyCache::new());
        let mut cold = Verifier::with_cache(policy, NullKeyCache::new());

        let count_promoted = |warm: &mut Verifier<HotKeyCache>, cases: &[Owned]| {
            cases
                .iter()
                .filter(|c| {
                    warm.cache_mut()
                        .get(&c.pk)
                        .is_some_and(|k| k.table_hi().is_some_and(|t| t.is_affine()))
                })
                .count()
        };

        for round in 1u8..=5 {
            let mut cases = signed_inputs(round);
            if round >= 4 {
                // Corrupt one signature: the split chunk must mask it out.
                cases[3].sig[10] ^= 0x40;
            }
            let inputs = inputs_of(&cases);
            let mut got = vec![false; inputs.len()];
            let mut expect = vec![false; inputs.len()];
            warm.verify_batch(&inputs, &mut got);
            cold.verify_batch(&inputs, &mut expect);
            assert_eq!(got, expect, "warm/cold divergence in round {round} ({policy:?})");
            if round >= 4 {
                assert!(!got[3] && got.iter().filter(|&&b| b).count() == 7);
            } else {
                assert!(got.iter().all(|&b| b), "all-valid round {round}");
            }

            match round {
                1 => {
                    assert_eq!(count_promoted(&mut warm, &cases), 0, "insert must not promote");
                    // freshly inserted entries stay as decoded.
                    assert!(
                        cases.iter().all(|c| warm
                            .cache_mut()
                            .get(&c.pk)
                            .is_some_and(|k| !k.table().is_affine())),
                        "insert must not normalize"
                    );
                }
                // We can't check round 2: the test's own reads already
                // added hits, so the timing is off. Check the end only:
                3.. => assert_eq!(
                    count_promoted(&mut warm, &cases),
                    8,
                    "keys with repeat hits must be promoted by round {round}"
                ),
                _ => {}
            }
        }
    }
}

/// The first hit after the insert does not promote, the second one does, and
/// the count of hits goes on.
#[test]
fn promotion_takes_two_hits() {
    let mut warm = Verifier::with_cache(VerifyPolicy::Zip215, HotKeyCache::new());
    let mut hits = Vec::new();
    let mut promoted = Vec::new();
    for round in 1u8..=5 {
        let cases = signed_inputs(round);
        let inputs = inputs_of(&cases);
        let mut out = vec![false; 8];
        warm.verify_batch(&inputs, &mut out);
        let entry = warm.cache().peek(&cases[0].pk).unwrap();
        hits.push(entry.hits());
        promoted.push(entry.table_hi().is_some());
    }
    assert_eq!(promoted, vec![false, false, true, true, true]);
    // The promotion itself looks the key up once more.
    assert_eq!(hits, vec![0, 1, 3, 4, 5]);
}

/// A key in several lanes of one chunk is hit once for each of them.
#[test]
fn repeated_keys_are_promoted_once() {
    let mut warm = Verifier::with_cache(VerifyPolicy::Dalek, HotKeyCache::new());
    for round in 1u8..=2 {
        let cases = signed_inputs(round);
        let one = inputs_of(&cases[..1]);
        let batch = vec![one[0]; 5];
        let mut out = vec![false; 5];
        warm.verify_batch(&batch, &mut out);
        assert_eq!(out, vec![true; 5]);
        assert_eq!(warm.cache().len(), 1);
        let entry = warm.cache().peek(&cases[0].pk).unwrap();
        assert_eq!(entry.table_hi().is_some(), round == 2);
        assert_eq!(entry.hits(), if round == 1 { 0 } else { 9 });
    }
}

/// A cache that is too small for a chunk loses keys, never a result.
#[test]
fn eviction_does_not_change_results() {
    for capacity in [0usize, 1, 3] {
        let mut warm = Verifier::with_cache(
            VerifyPolicy::Dalek,
            HotKeyCache::with_capacity(capacity),
        );
        for round in 1u8..=5 {
            let mut cases = signed_inputs(round);
            cases[5].msg[0] ^= 1;
            let inputs = inputs_of(&cases);
            let mut out = vec![true; 8];
            warm.verify_batch(&inputs, &mut out);
            for (i, &ok) in out.iter().enumerate() {
                assert_eq!(ok, i != 5);
            }
            assert_eq!(warm.cache().len(), capacity);
        }
    }
}

/// Every length of a batch is cut into chunks and padded.
#[test]
fn batches_of_any_length() {
    let cases: Vec<Owned> = (1u8..=3).flat_map(signed_inputs).collect();
    for n in [0usize, 1, 2, 7, 8, 9, 15, 16, 17, 24] {
        let mut inputs = inputs_of(&cases[..n]);
        if n > 1 {
            inputs[n - 1].signature[40] ^= 1;
        }
        let mut v = Verifier::with_policy(VerifyPolicy::Dalek);
        let mut out = vec![false; n];
        v.verify_batch(&inputs, &mut out);
        for (i, &ok) in out.iter().enumerate() {
            assert_eq!(ok, n == 1 || i + 1 != n, "length {n}, request {i}");
        }
    }
}

const IDENTITY: [u8; 32] = [
    0x01, 0x00, 0x00, 0x00, 0x00, 0x00, 0x00, 0x00, 0x00, 0x00, 0x00, 0x00, 0x00, 0x00, 0x00, 0x00,
    0x00, 0x00, 0x00, 0x00, 0x00, 0x00, 0x00, 0x00, 0x00, 0x00, 0x00, 0x00, 0x00, 0x00, 0x00, 0x00,
];

// A point of order eight.
const ORDER_EIGHT: [u8; 32] = [
    0xc7, 0x17, 0x6a, 0x70, 0x3d, 0x4d, 0xd8, 0x4f, 0xba, 0x3c, 0x0b, 0x76, 0x0d, 0x10, 0x67, 0x0f,
    0x2a, 0x20, 0x53, 0xfa, 0x2c, 0x39, 0xcc, 0xc6, 0x4e, 0xc7, 0xfd, 0x77, 0x92, 0xac, 0x03, 0x7a,
];

// The order of the base point, the least scalar that is not canonical.
const GROUP_ORDER: [u8; 32] = [
    0xed, 0xd3, 0xf5, 0x5c, 0x1a, 0x63, 0x12, 0x58, 0xd6, 0x9c, 0xf7, 0xa2, 0xde, 0xf9, 0xde, 0x14,
    0x00, 0x00, 0x00, 0x00, 0x00, 0x00, 0x00, 0x00, 0x00, 0x00, 0x00, 0x00, 0x00, 0x00, 0x00, 0x10,
];

fn joined(r: &[u8; 32], s: &[u8; 32]) -> [u8; 64] {
    let mut sig = [0u8; 64];
    sig[..32].copy_from_slice(r);
    sig[32..].copy_from_slice(s);
    sig
}

fn no_point() -> [u8; 32] {
    let mut key = [0u8; 32];
    key[0] = 2;
    key
}

/// A key is cached whether or not its own request is valid, if some lane of the
/// chunk is usable.
#[test]
fn keys_of_rejected_requests_are_cached() {
    let good = VerifyInput {
        public_key: IDENTITY,
        signature: joined(&IDENTITY, &[0; 32]),
        message: b"m",
    };
    let mut inputs = vec![good; 8];
    inputs[1].public_key = ORDER_EIGHT;
    inputs[1].signature = joined(&IDENTITY, &GROUP_ORDER);
    let mut v = Verifier::with_cache(VerifyPolicy::Zip215, HotKeyCache::new());
    let mut out = vec![false; 8];
    v.verify_batch(&inputs, &mut out);
    assert_eq!(out, vec![true, false, true, true, true, true, true, true]);
    assert_eq!(v.cache().len(), 2);
    for key in [IDENTITY, ORDER_EIGHT] {
        let entry = v.cache().peek(&key).unwrap();
        assert!(entry.table_hi().is_none());
        assert!(!entry.table().is_affine());
        assert_eq!(entry.hits(), 0);
    }
}

/// What is no point is never cached.
#[test]
fn keys_that_are_no_points_are_not_cached() {
    let cases = signed_inputs(1);
    let mut inputs = inputs_of(&cases);
    inputs[2].public_key = no_point();
    let mut v = Verifier::with_cache(VerifyPolicy::Dalek, HotKeyCache::new());
    let mut out = vec![true; 8];
    v.verify_batch(&inputs, &mut out);
    assert_eq!(out, vec![true, true, false, true, true, true, true, true]);
    assert_eq!(v.cache().len(), 7);
    assert!(v.cache().peek(&no_point()).is_none());
}

/// A chunk without a canonical scalar does not reach the cache.
#[test]
fn no_canonical_scalar_leaves_the_cache_alone() {
    let cases = signed_inputs(1);
    let inputs = inputs_of(&cases);
    let mut v = Verifier::with_cache(VerifyPolicy::Zip215, HotKeyCache::new());
    let mut out = vec![false; 8];
    v.verify_batch(&inputs, &mut out);
    let mut rejected = inputs.clone();
    for request in rejected.iter_mut() {
        let mut r = [0u8; 32];
        r.copy_from_slice(&request.signature[..32]);
        request.signature = joined(&r, &GROUP_ORDER);
    }
    rejected[0].public_key = ORDER_EIGHT;
    let mut out = vec![true; 8];
    v.verify_batch(&rejected, &mut out);
    assert_eq!(out, vec![false; 8]);
    assert_eq!(v.cache().len(), 8);
    assert!(v.cache().peek(&ORDER_EIGHT).is_none());
    for case in &cases {
        assert_eq!(v.cache().peek(&case.pk).unwrap().hits(), 0);
    }
}

/// A chunk without a usable lane counts hits, and inserts nothing.
#[test]
fn no_usable_lane_only_counts_hits() {
    let cases = signed_inputs(1);
    let inputs = inputs_of(&cases);
    let mut v = Verifier::with_cache(VerifyPolicy::Dalek, HotKeyCache::new());
    let mut out = vec![false; 1];
    v.verify_batch(&inputs[..1], &mut out);
    let mut bad = vec![inputs[0], inputs[0], inputs[1], inputs[2]];
    for request in bad[..3].iter_mut() {
        request.signature = joined(&IDENTITY, &GROUP_ORDER);
    }
    bad[3].public_key = no_point();
    let mut out = vec![true; 4];
    v.verify_batch(&bad, &mut out);
    assert_eq!(out, vec![false; 4]);
    assert_eq!(v.cache().len(), 1);
    let entry = v.cache().peek(&cases[0].pk).unwrap();
    // Two lanes of its own, and four that repeat the first request.
    assert_eq!(entry.hits(), 6);
    assert!(entry.table_hi().is_none());
    assert!(!entry.table().is_affine());
}

/// Results that were there before are overwritten.
#[test]
fn stale_results_are_overwritten() {
    let mut signed_zero = IDENTITY;
    signed_zero[31] = 0x80;
    let mut unreduced = [0xffu8; 32];
    unreduced[0] = 0xee;
    unreduced[31] = 0x7f;
    for r in [signed_zero, unreduced] {
        let request = VerifyInput {
            public_key: IDENTITY,
            signature: joined(&r, &[0; 32]),
            message: b"m",
        };
        let mut v = Verifier::with_cache(VerifyPolicy::Dalek, HotKeyCache::new());
        for _ in 0..4 {
            let mut out = vec![true; 8];
            v.verify_batch(&vec![request; 8], &mut out);
            assert_eq!(out, vec![false; 8]);
        }
    }
}

/// A key is missing, held, hit, and promoted; then its tables stay.
#[test]
fn rounds_lead_to_promotion_and_stay() {
    let mut v = Verifier::with_cache(VerifyPolicy::Zip215, HotKeyCache::with_capacity(24));
    let mut seen: Vec<Vec<[u8; 32]>> = Vec::new();
    for round in 1u8..=5 {
        let cases = signed_inputs(round);
        let mut out = vec![false; 8];
        v.verify_batch(&inputs_of(&cases), &mut out);
        assert_eq!(v.cache().len(), 8);
        for case in &cases {
            let entry = v.cache().peek(&case.pk).unwrap();
            assert_eq!(entry.table_hi().is_some(), round >= 3);
            assert_eq!(entry.table().is_affine(), round >= 3);
            if let Some(hi) = entry.table_hi() {
                assert!(hi.is_affine());
            }
        }
        let entry = v.cache().peek(&cases[4].pk).unwrap();
        let mut bytes = Vec::new();
        for d in -8..=8i8 {
            let (plus, minus, z2, t2d) = entry.table().select_signed_cached_ref(d).coords();
            for fe in [plus, minus, z2, t2d] {
                bytes.push(fe.to_bytes());
            }
        }
        seen.push(bytes);
    }
    assert_eq!(seen[0], seen[1]);
    assert_ne!(seen[1], seen[2]);
    assert_eq!(seen[2], seen[3]);
    assert_eq!(seen[3], seen[4]);
}

/// A reader's own reads between batches count as hits, and bring the promotion
/// forward.
#[test]
fn own_reads_bring_promotion_forward() {
    let mut read = Verifier::with_cache(VerifyPolicy::Dalek, HotKeyCache::new());
    let mut peeked = Verifier::with_cache(VerifyPolicy::Dalek, HotKeyCache::new());
    for round in 1u8..=2 {
        let cases = signed_inputs(round);
        let inputs = inputs_of(&cases);
        for v in [&mut read, &mut peeked] {
            let mut out = vec![false; 8];
            v.verify_batch(&inputs, &mut out);
            assert_eq!(out, vec![true; 8]);
        }
        let key = &cases[2].pk;
        if round == 1 {
            assert_eq!(read.cache_mut().get(key).unwrap().hits(), 1);
            assert_eq!(peeked.cache().peek(key).unwrap().hits(), 0);
        } else {
            // One hit of its own, one in the chunk, one in the promotion.
            let entry = read.cache().peek(key).unwrap();
            assert!(entry.table_hi().is_some() && entry.hits() == 3);
            let entry = peeked.cache().peek(key).unwrap();
            assert!(entry.table_hi().is_none() && entry.hits() == 1);
        }
        // The other keys are not read in between.
        let other = read.cache().peek(&cases[3].pk).unwrap();
        assert!(other.table_hi().is_none() && other.hits() == round - 1);
    }
}

/// Without a cache no key is retained.
#[test]
fn no_cache_retains_nothing() {
    for policy in [VerifyPolicy::Zip215, VerifyPolicy::Dalek] {
        let mut v = Verifier::with_policy(policy);
        assert_eq!(v.policy(), policy);
        for round in 1u8..=3 {
            let cases = signed_inputs(round);
            let mut out = vec![false; 8];
            v.verify_batch(&inputs_of(&cases), &mut out);
            assert_eq!(out, vec![true; 8]);
            assert!(cases.iter().all(|c| v.cache().peek(&c.pk).is_none()));
            assert!(v.cache_mut().get(&cases[0].pk).is_none());
        }
    }
}
