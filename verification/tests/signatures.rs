use ed25519_batch::cache::{HotKeyCache, NullKeyCache};
use ed25519_batch::policy::VerifyPolicy;
use ed25519_batch::verify::{Verifier, VerifyInput};

struct Case {
    name: &'static str,
    public_key: [u8; 32],
    signature: [u8; 64],
    message: &'static [u8],
    zip215: bool,
    dalek: bool,
}

// Expected results from the definitions of the two policies.
const CASES: [Case; 23] = [
    Case {
        name: "published vector, empty message",
        public_key: [
            0xd7, 0x5a, 0x98, 0x01, 0x82, 0xb1, 0x0a, 0xb7, 0xd5, 0x4b, 0xfe, 0xd3, 0xc9, 0x64, 0x07, 0x3a,
            0x0e, 0xe1, 0x72, 0xf3, 0xda, 0xa6, 0x23, 0x25, 0xaf, 0x02, 0x1a, 0x68, 0xf7, 0x07, 0x51, 0x1a,
        ],
        signature: [
            0xe5, 0x56, 0x43, 0x00, 0xc3, 0x60, 0xac, 0x72, 0x90, 0x86, 0xe2, 0xcc, 0x80, 0x6e, 0x82, 0x8a,
            0x84, 0x87, 0x7f, 0x1e, 0xb8, 0xe5, 0xd9, 0x74, 0xd8, 0x73, 0xe0, 0x65, 0x22, 0x49, 0x01, 0x55,
            0x5f, 0xb8, 0x82, 0x15, 0x90, 0xa3, 0x3b, 0xac, 0xc6, 0x1e, 0x39, 0x70, 0x1c, 0xf9, 0xb4, 0x6b,
            0xd2, 0x5b, 0xf5, 0xf0, 0x59, 0x5b, 0xbe, 0x24, 0x65, 0x51, 0x41, 0x43, 0x8e, 0x7a, 0x10, 0x0b,
        ],
        message: &[],
        zip215: true,
        dalek: true,
    },
    Case {
        name: "published vector, one byte",
        public_key: [
            0x3d, 0x40, 0x17, 0xc3, 0xe8, 0x43, 0x89, 0x5a, 0x92, 0xb7, 0x0a, 0xa7, 0x4d, 0x1b, 0x7e, 0xbc,
            0x9c, 0x98, 0x2c, 0xcf, 0x2e, 0xc4, 0x96, 0x8c, 0xc0, 0xcd, 0x55, 0xf1, 0x2a, 0xf4, 0x66, 0x0c,
        ],
        signature: [
            0x92, 0xa0, 0x09, 0xa9, 0xf0, 0xd4, 0xca, 0xb8, 0x72, 0x0e, 0x82, 0x0b, 0x5f, 0x64, 0x25, 0x40,
            0xa2, 0xb2, 0x7b, 0x54, 0x16, 0x50, 0x3f, 0x8f, 0xb3, 0x76, 0x22, 0x23, 0xeb, 0xdb, 0x69, 0xda,
            0x08, 0x5a, 0xc1, 0xe4, 0x3e, 0x15, 0x99, 0x6e, 0x45, 0x8f, 0x36, 0x13, 0xd0, 0xf1, 0x1d, 0x8c,
            0x38, 0x7b, 0x2e, 0xae, 0xb4, 0x30, 0x2a, 0xee, 0xb0, 0x0d, 0x29, 0x16, 0x12, 0xbb, 0x0c, 0x00,
        ],
        message: &[
            0x72,
        ],
        zip215: true,
        dalek: true,
    },
    Case {
        name: "published vector, two bytes",
        public_key: [
            0xfc, 0x51, 0xcd, 0x8e, 0x62, 0x18, 0xa1, 0xa3, 0x8d, 0xa4, 0x7e, 0xd0, 0x02, 0x30, 0xf0, 0x58,
            0x08, 0x16, 0xed, 0x13, 0xba, 0x33, 0x03, 0xac, 0x5d, 0xeb, 0x91, 0x15, 0x48, 0x90, 0x80, 0x25,
        ],
        signature: [
            0x62, 0x91, 0xd6, 0x57, 0xde, 0xec, 0x24, 0x02, 0x48, 0x27, 0xe6, 0x9c, 0x3a, 0xbe, 0x01, 0xa3,
            0x0c, 0xe5, 0x48, 0xa2, 0x84, 0x74, 0x3a, 0x44, 0x5e, 0x36, 0x80, 0xd7, 0xdb, 0x5a, 0xc3, 0xac,
            0x18, 0xff, 0x9b, 0x53, 0x8d, 0x16, 0xf2, 0x90, 0xae, 0x67, 0xf7, 0x60, 0x98, 0x4d, 0xc6, 0x59,
            0x4a, 0x7c, 0x15, 0xe9, 0x71, 0x6e, 0xd2, 0x8d, 0xc0, 0x27, 0xbe, 0xce, 0xea, 0x1e, 0xc4, 0x0a,
        ],
        message: &[
            0xaf, 0x82,
        ],
        zip215: true,
        dalek: true,
    },
    Case {
        name: "another message",
        public_key: [
            0xd7, 0x5a, 0x98, 0x01, 0x82, 0xb1, 0x0a, 0xb7, 0xd5, 0x4b, 0xfe, 0xd3, 0xc9, 0x64, 0x07, 0x3a,
            0x0e, 0xe1, 0x72, 0xf3, 0xda, 0xa6, 0x23, 0x25, 0xaf, 0x02, 0x1a, 0x68, 0xf7, 0x07, 0x51, 0x1a,
        ],
        signature: [
            0xe5, 0x56, 0x43, 0x00, 0xc3, 0x60, 0xac, 0x72, 0x90, 0x86, 0xe2, 0xcc, 0x80, 0x6e, 0x82, 0x8a,
            0x84, 0x87, 0x7f, 0x1e, 0xb8, 0xe5, 0xd9, 0x74, 0xd8, 0x73, 0xe0, 0x65, 0x22, 0x49, 0x01, 0x55,
            0x5f, 0xb8, 0x82, 0x15, 0x90, 0xa3, 0x3b, 0xac, 0xc6, 0x1e, 0x39, 0x70, 0x1c, 0xf9, 0xb4, 0x6b,
            0xd2, 0x5b, 0xf5, 0xf0, 0x59, 0x5b, 0xbe, 0x24, 0x65, 0x51, 0x41, 0x43, 0x8e, 0x7a, 0x10, 0x0b,
        ],
        message: &[
            0x78,
        ],
        zip215: false,
        dalek: false,
    },
    Case {
        name: "another key",
        public_key: [
            0x3d, 0x40, 0x17, 0xc3, 0xe8, 0x43, 0x89, 0x5a, 0x92, 0xb7, 0x0a, 0xa7, 0x4d, 0x1b, 0x7e, 0xbc,
            0x9c, 0x98, 0x2c, 0xcf, 0x2e, 0xc4, 0x96, 0x8c, 0xc0, 0xcd, 0x55, 0xf1, 0x2a, 0xf4, 0x66, 0x0c,
        ],
        signature: [
            0xe5, 0x56, 0x43, 0x00, 0xc3, 0x60, 0xac, 0x72, 0x90, 0x86, 0xe2, 0xcc, 0x80, 0x6e, 0x82, 0x8a,
            0x84, 0x87, 0x7f, 0x1e, 0xb8, 0xe5, 0xd9, 0x74, 0xd8, 0x73, 0xe0, 0x65, 0x22, 0x49, 0x01, 0x55,
            0x5f, 0xb8, 0x82, 0x15, 0x90, 0xa3, 0x3b, 0xac, 0xc6, 0x1e, 0x39, 0x70, 0x1c, 0xf9, 0xb4, 0x6b,
            0xd2, 0x5b, 0xf5, 0xf0, 0x59, 0x5b, 0xbe, 0x24, 0x65, 0x51, 0x41, 0x43, 0x8e, 0x7a, 0x10, 0x0b,
        ],
        message: &[],
        zip215: false,
        dalek: false,
    },
    Case {
        name: "scalar not reduced",
        public_key: [
            0xd7, 0x5a, 0x98, 0x01, 0x82, 0xb1, 0x0a, 0xb7, 0xd5, 0x4b, 0xfe, 0xd3, 0xc9, 0x64, 0x07, 0x3a,
            0x0e, 0xe1, 0x72, 0xf3, 0xda, 0xa6, 0x23, 0x25, 0xaf, 0x02, 0x1a, 0x68, 0xf7, 0x07, 0x51, 0x1a,
        ],
        signature: [
            0xe5, 0x56, 0x43, 0x00, 0xc3, 0x60, 0xac, 0x72, 0x90, 0x86, 0xe2, 0xcc, 0x80, 0x6e, 0x82, 0x8a,
            0x84, 0x87, 0x7f, 0x1e, 0xb8, 0xe5, 0xd9, 0x74, 0xd8, 0x73, 0xe0, 0x65, 0x22, 0x49, 0x01, 0x55,
            0x4c, 0x8c, 0x78, 0x72, 0xaa, 0x06, 0x4e, 0x04, 0x9d, 0xbb, 0x30, 0x13, 0xfb, 0xf2, 0x93, 0x80,
            0xd2, 0x5b, 0xf5, 0xf0, 0x59, 0x5b, 0xbe, 0x24, 0x65, 0x51, 0x41, 0x43, 0x8e, 0x7a, 0x10, 0x1b,
        ],
        message: &[],
        zip215: false,
        dalek: false,
    },
    Case {
        name: "three blocks",
        public_key: [
            0xd7, 0x5a, 0x98, 0x01, 0x82, 0xb1, 0x0a, 0xb7, 0xd5, 0x4b, 0xfe, 0xd3, 0xc9, 0x64, 0x07, 0x3a,
            0x0e, 0xe1, 0x72, 0xf3, 0xda, 0xa6, 0x23, 0x25, 0xaf, 0x02, 0x1a, 0x68, 0xf7, 0x07, 0x51, 0x1a,
        ],
        signature: [
            0x34, 0xdd, 0x30, 0x46, 0x54, 0x44, 0xc9, 0x3a, 0x24, 0x3e, 0x43, 0x16, 0x1f, 0x92, 0xda, 0xc9,
            0x5c, 0x30, 0x0f, 0x9e, 0x7f, 0x44, 0x2a, 0x27, 0x07, 0x29, 0xeb, 0x82, 0x0b, 0xf0, 0xe0, 0xc9,
            0xd7, 0x87, 0x37, 0x90, 0xba, 0x72, 0x9a, 0x21, 0x62, 0x7e, 0xf6, 0x5d, 0xa1, 0xbf, 0x31, 0xb8,
            0xb4, 0x62, 0x06, 0x6c, 0x01, 0x1b, 0xbb, 0xee, 0xee, 0x3e, 0xf0, 0xec, 0x5c, 0x90, 0x72, 0x02,
        ],
        message: &[
            0x00, 0x01, 0x02, 0x03, 0x04, 0x05, 0x06, 0x07, 0x08, 0x09, 0x0a, 0x0b, 0x0c, 0x0d, 0x0e, 0x0f,
            0x10, 0x11, 0x12, 0x13, 0x14, 0x15, 0x16, 0x17, 0x18, 0x19, 0x1a, 0x1b, 0x1c, 0x1d, 0x1e, 0x1f,
            0x20, 0x21, 0x22, 0x23, 0x24, 0x25, 0x26, 0x27, 0x28, 0x29, 0x2a, 0x2b, 0x2c, 0x2d, 0x2e, 0x2f,
            0x30, 0x31, 0x32, 0x33, 0x34, 0x35, 0x36, 0x37, 0x38, 0x39, 0x3a, 0x3b, 0x3c, 0x3d, 0x3e, 0x3f,
            0x40, 0x41, 0x42, 0x43, 0x44, 0x45, 0x46, 0x47, 0x48, 0x49, 0x4a, 0x4b, 0x4c, 0x4d, 0x4e, 0x4f,
            0x50, 0x51, 0x52, 0x53, 0x54, 0x55, 0x56, 0x57, 0x58, 0x59, 0x5a, 0x5b, 0x5c, 0x5d, 0x5e, 0x5f,
            0x60, 0x61, 0x62, 0x63, 0x64, 0x65, 0x66, 0x67, 0x68, 0x69, 0x6a, 0x6b, 0x6c, 0x6d, 0x6e, 0x6f,
            0x70, 0x71, 0x72, 0x73, 0x74, 0x75, 0x76, 0x77, 0x78, 0x79, 0x7a, 0x7b, 0x7c, 0x7d, 0x7e, 0x7f,
            0x80, 0x81, 0x82, 0x83, 0x84, 0x85, 0x86, 0x87, 0x88, 0x89, 0x8a, 0x8b, 0x8c, 0x8d, 0x8e, 0x8f,
            0x90, 0x91, 0x92, 0x93, 0x94, 0x95, 0x96, 0x97, 0x98, 0x99, 0x9a, 0x9b, 0x9c, 0x9d, 0x9e, 0x9f,
            0xa0, 0xa1, 0xa2, 0xa3, 0xa4, 0xa5, 0xa6, 0xa7, 0xa8, 0xa9, 0xaa, 0xab, 0xac, 0xad, 0xae, 0xaf,
            0xb0, 0xb1, 0xb2, 0xb3, 0xb4, 0xb5, 0xb6, 0xb7, 0xb8, 0xb9, 0xba, 0xbb, 0xbc, 0xbd, 0xbe, 0xbf,
            0xc0, 0xc1, 0xc2, 0xc3, 0xc4, 0xc5, 0xc6, 0xc7, 0xc8, 0xc9, 0xca, 0xcb, 0xcc, 0xcd, 0xce, 0xcf,
            0xd0, 0xd1, 0xd2, 0xd3, 0xd4, 0xd5, 0xd6, 0xd7, 0xd8, 0xd9, 0xda, 0xdb, 0xdc, 0xdd, 0xde, 0xdf,
            0xe0, 0xe1, 0xe2, 0xe3, 0xe4, 0xe5, 0xe6, 0xe7, 0xe8, 0xe9, 0xea, 0xeb, 0xec, 0xed, 0xee, 0xef,
            0xf0, 0xf1, 0xf2, 0xf3, 0xf4, 0xf5, 0xf6, 0xf7, 0xf8, 0xf9, 0xfa, 0x00, 0x01, 0x02, 0x03, 0x04,
            0x05, 0x06, 0x07, 0x08, 0x09, 0x0a, 0x0b, 0x0c, 0x0d, 0x0e, 0x0f, 0x10, 0x11, 0x12, 0x13, 0x14,
            0x15, 0x16, 0x17, 0x18, 0x19, 0x1a, 0x1b, 0x1c, 0x1d, 0x1e, 0x1f, 0x20, 0x21, 0x22, 0x23, 0x24,
            0x25, 0x26, 0x27, 0x28, 0x29, 0x2a, 0x2b, 0x2c, 0x2d, 0x2e, 0x2f, 0x30,
        ],
        zip215: true,
        dalek: true,
    },
    Case {
        name: "key and R are the identity",
        public_key: [
            0x01, 0x00, 0x00, 0x00, 0x00, 0x00, 0x00, 0x00, 0x00, 0x00, 0x00, 0x00, 0x00, 0x00, 0x00, 0x00,
            0x00, 0x00, 0x00, 0x00, 0x00, 0x00, 0x00, 0x00, 0x00, 0x00, 0x00, 0x00, 0x00, 0x00, 0x00, 0x00,
        ],
        signature: [
            0x01, 0x00, 0x00, 0x00, 0x00, 0x00, 0x00, 0x00, 0x00, 0x00, 0x00, 0x00, 0x00, 0x00, 0x00, 0x00,
            0x00, 0x00, 0x00, 0x00, 0x00, 0x00, 0x00, 0x00, 0x00, 0x00, 0x00, 0x00, 0x00, 0x00, 0x00, 0x00,
            0x00, 0x00, 0x00, 0x00, 0x00, 0x00, 0x00, 0x00, 0x00, 0x00, 0x00, 0x00, 0x00, 0x00, 0x00, 0x00,
            0x00, 0x00, 0x00, 0x00, 0x00, 0x00, 0x00, 0x00, 0x00, 0x00, 0x00, 0x00, 0x00, 0x00, 0x00, 0x00,
        ],
        message: &[
            0x73, 0x6d, 0x61, 0x6c, 0x6c,
        ],
        zip215: true,
        dalek: false,
    },
    Case {
        name: "key of order two, R of order eight",
        public_key: [
            0xec, 0xff, 0xff, 0xff, 0xff, 0xff, 0xff, 0xff, 0xff, 0xff, 0xff, 0xff, 0xff, 0xff, 0xff, 0xff,
            0xff, 0xff, 0xff, 0xff, 0xff, 0xff, 0xff, 0xff, 0xff, 0xff, 0xff, 0xff, 0xff, 0xff, 0xff, 0x7f,
        ],
        signature: [
            0x26, 0xe8, 0x95, 0x8f, 0xc2, 0xb2, 0x27, 0xb0, 0x45, 0xc3, 0xf4, 0x89, 0xf2, 0xef, 0x98, 0xf0,
            0xd5, 0xdf, 0xac, 0x05, 0xd3, 0xc6, 0x33, 0x39, 0xb1, 0x38, 0x02, 0x88, 0x6d, 0x53, 0xfc, 0x05,
            0x00, 0x00, 0x00, 0x00, 0x00, 0x00, 0x00, 0x00, 0x00, 0x00, 0x00, 0x00, 0x00, 0x00, 0x00, 0x00,
            0x00, 0x00, 0x00, 0x00, 0x00, 0x00, 0x00, 0x00, 0x00, 0x00, 0x00, 0x00, 0x00, 0x00, 0x00, 0x00,
        ],
        message: &[
            0x73, 0x6d, 0x61, 0x6c, 0x6c,
        ],
        zip215: true,
        dalek: false,
    },
    Case {
        name: "key of order eight, R the identity",
        public_key: [
            0x26, 0xe8, 0x95, 0x8f, 0xc2, 0xb2, 0x27, 0xb0, 0x45, 0xc3, 0xf4, 0x89, 0xf2, 0xef, 0x98, 0xf0,
            0xd5, 0xdf, 0xac, 0x05, 0xd3, 0xc6, 0x33, 0x39, 0xb1, 0x38, 0x02, 0x88, 0x6d, 0x53, 0xfc, 0x05,
        ],
        signature: [
            0x01, 0x00, 0x00, 0x00, 0x00, 0x00, 0x00, 0x00, 0x00, 0x00, 0x00, 0x00, 0x00, 0x00, 0x00, 0x00,
            0x00, 0x00, 0x00, 0x00, 0x00, 0x00, 0x00, 0x00, 0x00, 0x00, 0x00, 0x00, 0x00, 0x00, 0x00, 0x00,
            0x00, 0x00, 0x00, 0x00, 0x00, 0x00, 0x00, 0x00, 0x00, 0x00, 0x00, 0x00, 0x00, 0x00, 0x00, 0x00,
            0x00, 0x00, 0x00, 0x00, 0x00, 0x00, 0x00, 0x00, 0x00, 0x00, 0x00, 0x00, 0x00, 0x00, 0x00, 0x00,
        ],
        message: &[
            0x73, 0x6d, 0x61, 0x6c, 0x6c,
        ],
        zip215: true,
        dalek: false,
    },
    Case {
        name: "unreduced y in R",
        public_key: [
            0x01, 0x00, 0x00, 0x00, 0x00, 0x00, 0x00, 0x00, 0x00, 0x00, 0x00, 0x00, 0x00, 0x00, 0x00, 0x00,
            0x00, 0x00, 0x00, 0x00, 0x00, 0x00, 0x00, 0x00, 0x00, 0x00, 0x00, 0x00, 0x00, 0x00, 0x00, 0x00,
        ],
        signature: [
            0xee, 0xff, 0xff, 0xff, 0xff, 0xff, 0xff, 0xff, 0xff, 0xff, 0xff, 0xff, 0xff, 0xff, 0xff, 0xff,
            0xff, 0xff, 0xff, 0xff, 0xff, 0xff, 0xff, 0xff, 0xff, 0xff, 0xff, 0xff, 0xff, 0xff, 0xff, 0x7f,
            0x00, 0x00, 0x00, 0x00, 0x00, 0x00, 0x00, 0x00, 0x00, 0x00, 0x00, 0x00, 0x00, 0x00, 0x00, 0x00,
            0x00, 0x00, 0x00, 0x00, 0x00, 0x00, 0x00, 0x00, 0x00, 0x00, 0x00, 0x00, 0x00, 0x00, 0x00, 0x00,
        ],
        message: &[
            0x73, 0x6d, 0x61, 0x6c, 0x6c,
        ],
        zip215: true,
        dalek: false,
    },
    Case {
        name: "unreduced y in the key",
        public_key: [
            0xee, 0xff, 0xff, 0xff, 0xff, 0xff, 0xff, 0xff, 0xff, 0xff, 0xff, 0xff, 0xff, 0xff, 0xff, 0xff,
            0xff, 0xff, 0xff, 0xff, 0xff, 0xff, 0xff, 0xff, 0xff, 0xff, 0xff, 0xff, 0xff, 0xff, 0xff, 0x7f,
        ],
        signature: [
            0x01, 0x00, 0x00, 0x00, 0x00, 0x00, 0x00, 0x00, 0x00, 0x00, 0x00, 0x00, 0x00, 0x00, 0x00, 0x00,
            0x00, 0x00, 0x00, 0x00, 0x00, 0x00, 0x00, 0x00, 0x00, 0x00, 0x00, 0x00, 0x00, 0x00, 0x00, 0x00,
            0x00, 0x00, 0x00, 0x00, 0x00, 0x00, 0x00, 0x00, 0x00, 0x00, 0x00, 0x00, 0x00, 0x00, 0x00, 0x00,
            0x00, 0x00, 0x00, 0x00, 0x00, 0x00, 0x00, 0x00, 0x00, 0x00, 0x00, 0x00, 0x00, 0x00, 0x00, 0x00,
        ],
        message: &[
            0x73, 0x6d, 0x61, 0x6c, 0x6c,
        ],
        zip215: true,
        dalek: false,
    },
    Case {
        name: "signed zero in R",
        public_key: [
            0x01, 0x00, 0x00, 0x00, 0x00, 0x00, 0x00, 0x00, 0x00, 0x00, 0x00, 0x00, 0x00, 0x00, 0x00, 0x00,
            0x00, 0x00, 0x00, 0x00, 0x00, 0x00, 0x00, 0x00, 0x00, 0x00, 0x00, 0x00, 0x00, 0x00, 0x00, 0x00,
        ],
        signature: [
            0x01, 0x00, 0x00, 0x00, 0x00, 0x00, 0x00, 0x00, 0x00, 0x00, 0x00, 0x00, 0x00, 0x00, 0x00, 0x00,
            0x00, 0x00, 0x00, 0x00, 0x00, 0x00, 0x00, 0x00, 0x00, 0x00, 0x00, 0x00, 0x00, 0x00, 0x00, 0x80,
            0x00, 0x00, 0x00, 0x00, 0x00, 0x00, 0x00, 0x00, 0x00, 0x00, 0x00, 0x00, 0x00, 0x00, 0x00, 0x00,
            0x00, 0x00, 0x00, 0x00, 0x00, 0x00, 0x00, 0x00, 0x00, 0x00, 0x00, 0x00, 0x00, 0x00, 0x00, 0x00,
        ],
        message: &[
            0x73, 0x6d, 0x61, 0x6c, 0x6c,
        ],
        zip215: true,
        dalek: false,
    },
    Case {
        name: "signed zero in the key",
        public_key: [
            0x01, 0x00, 0x00, 0x00, 0x00, 0x00, 0x00, 0x00, 0x00, 0x00, 0x00, 0x00, 0x00, 0x00, 0x00, 0x00,
            0x00, 0x00, 0x00, 0x00, 0x00, 0x00, 0x00, 0x00, 0x00, 0x00, 0x00, 0x00, 0x00, 0x00, 0x00, 0x80,
        ],
        signature: [
            0x01, 0x00, 0x00, 0x00, 0x00, 0x00, 0x00, 0x00, 0x00, 0x00, 0x00, 0x00, 0x00, 0x00, 0x00, 0x00,
            0x00, 0x00, 0x00, 0x00, 0x00, 0x00, 0x00, 0x00, 0x00, 0x00, 0x00, 0x00, 0x00, 0x00, 0x00, 0x00,
            0x00, 0x00, 0x00, 0x00, 0x00, 0x00, 0x00, 0x00, 0x00, 0x00, 0x00, 0x00, 0x00, 0x00, 0x00, 0x00,
            0x00, 0x00, 0x00, 0x00, 0x00, 0x00, 0x00, 0x00, 0x00, 0x00, 0x00, 0x00, 0x00, 0x00, 0x00, 0x00,
        ],
        message: &[
            0x73, 0x6d, 0x61, 0x6c, 0x6c,
        ],
        zip215: true,
        dalek: false,
    },
    Case {
        name: "key of zeros",
        public_key: [
            0x00, 0x00, 0x00, 0x00, 0x00, 0x00, 0x00, 0x00, 0x00, 0x00, 0x00, 0x00, 0x00, 0x00, 0x00, 0x00,
            0x00, 0x00, 0x00, 0x00, 0x00, 0x00, 0x00, 0x00, 0x00, 0x00, 0x00, 0x00, 0x00, 0x00, 0x00, 0x00,
        ],
        signature: [
            0x01, 0x00, 0x00, 0x00, 0x00, 0x00, 0x00, 0x00, 0x00, 0x00, 0x00, 0x00, 0x00, 0x00, 0x00, 0x00,
            0x00, 0x00, 0x00, 0x00, 0x00, 0x00, 0x00, 0x00, 0x00, 0x00, 0x00, 0x00, 0x00, 0x00, 0x00, 0x00,
            0x00, 0x00, 0x00, 0x00, 0x00, 0x00, 0x00, 0x00, 0x00, 0x00, 0x00, 0x00, 0x00, 0x00, 0x00, 0x00,
            0x00, 0x00, 0x00, 0x00, 0x00, 0x00, 0x00, 0x00, 0x00, 0x00, 0x00, 0x00, 0x00, 0x00, 0x00, 0x00,
        ],
        message: &[
            0x73, 0x6d, 0x61, 0x6c, 0x6c,
        ],
        zip215: true,
        dalek: false,
    },
    Case {
        name: "torsion in R 4",
        public_key: [
            0xd7, 0x5a, 0x98, 0x01, 0x82, 0xb1, 0x0a, 0xb7, 0xd5, 0x4b, 0xfe, 0xd3, 0xc9, 0x64, 0x07, 0x3a,
            0x0e, 0xe1, 0x72, 0xf3, 0xda, 0xa6, 0x23, 0x25, 0xaf, 0x02, 0x1a, 0x68, 0xf7, 0x07, 0x51, 0x1a,
        ],
        signature: [
            0x7f, 0x8b, 0xef, 0x90, 0x74, 0x6d, 0x02, 0x23, 0x60, 0x4d, 0xcc, 0x3d, 0x76, 0x03, 0x2f, 0x4b,
            0x2f, 0x4e, 0x9c, 0x2e, 0x52, 0x0e, 0x6a, 0x12, 0xe2, 0x19, 0xc7, 0x53, 0xb5, 0xb2, 0x95, 0x45,
            0xfd, 0x76, 0xeb, 0x7b, 0x18, 0x67, 0xee, 0xa1, 0x92, 0xfc, 0x38, 0x67, 0xcf, 0xff, 0xae, 0xe3,
            0xa1, 0x04, 0x21, 0x31, 0x3f, 0x7e, 0xa4, 0xcf, 0xbe, 0xc7, 0xb7, 0x98, 0xc6, 0x4c, 0xc0, 0x04,
        ],
        message: &[
            0x74, 0x6f, 0x72, 0x73, 0x69, 0x6f, 0x6e, 0x20, 0x34,
        ],
        zip215: true,
        dalek: false,
    },
    Case {
        name: "torsion in R 1",
        public_key: [
            0xd7, 0x5a, 0x98, 0x01, 0x82, 0xb1, 0x0a, 0xb7, 0xd5, 0x4b, 0xfe, 0xd3, 0xc9, 0x64, 0x07, 0x3a,
            0x0e, 0xe1, 0x72, 0xf3, 0xda, 0xa6, 0x23, 0x25, 0xaf, 0x02, 0x1a, 0x68, 0xf7, 0x07, 0x51, 0x1a,
        ],
        signature: [
            0x19, 0x7d, 0xc9, 0x54, 0x9f, 0x12, 0x8d, 0xce, 0x66, 0xc8, 0xa1, 0x73, 0xad, 0x5b, 0x18, 0xf4,
            0x9c, 0x51, 0xa2, 0x9b, 0x00, 0x3e, 0xa9, 0xc8, 0xd3, 0x46, 0x61, 0xee, 0xbe, 0x57, 0x70, 0x18,
            0x18, 0x6c, 0x19, 0x6c, 0xde, 0xd8, 0x1a, 0xe0, 0xc5, 0x6d, 0xf7, 0x8b, 0x22, 0x53, 0xb2, 0x32,
            0xa6, 0x99, 0xc8, 0x8e, 0x93, 0x1f, 0xbe, 0x6f, 0xac, 0x81, 0xb1, 0x38, 0xdf, 0xf3, 0x99, 0x0f,
        ],
        message: &[
            0x74, 0x6f, 0x72, 0x73, 0x69, 0x6f, 0x6e, 0x20, 0x31,
        ],
        zip215: true,
        dalek: false,
    },
    Case {
        name: "mixed key, challenge even",
        public_key: [
            0x16, 0xa5, 0x67, 0xfe, 0x7d, 0x4e, 0xf5, 0x48, 0x2a, 0xb4, 0x01, 0x2c, 0x36, 0x9b, 0xf8, 0xc5,
            0xf1, 0x1e, 0x8d, 0x0c, 0x25, 0x59, 0xdc, 0xda, 0x50, 0xfd, 0xe5, 0x97, 0x08, 0xf8, 0xae, 0xe5,
        ],
        signature: [
            0x1f, 0x84, 0xa1, 0xc0, 0x06, 0xd0, 0xec, 0xb5, 0x01, 0x0f, 0xa7, 0x58, 0xe1, 0x24, 0x16, 0xae,
            0x41, 0x30, 0xc2, 0x10, 0x41, 0x04, 0x70, 0xd3, 0x77, 0x84, 0xed, 0x5e, 0x8e, 0xca, 0xdc, 0x6f,
            0x10, 0x44, 0xd0, 0xec, 0x20, 0x6c, 0x8f, 0xb2, 0x50, 0x30, 0x40, 0xc7, 0x5f, 0xc3, 0x9a, 0x91,
            0xc8, 0x79, 0xe4, 0x53, 0x84, 0x33, 0x03, 0xfb, 0x49, 0xec, 0x1b, 0xb6, 0x3b, 0xdb, 0xb3, 0x06,
        ],
        message: &[
            0x6d, 0x69, 0x78, 0x65, 0x64, 0x20, 0x6b, 0x65, 0x79, 0x20, 0x30,
        ],
        zip215: true,
        dalek: true,
    },
    Case {
        name: "mixed key, challenge odd",
        public_key: [
            0x16, 0xa5, 0x67, 0xfe, 0x7d, 0x4e, 0xf5, 0x48, 0x2a, 0xb4, 0x01, 0x2c, 0x36, 0x9b, 0xf8, 0xc5,
            0xf1, 0x1e, 0x8d, 0x0c, 0x25, 0x59, 0xdc, 0xda, 0x50, 0xfd, 0xe5, 0x97, 0x08, 0xf8, 0xae, 0xe5,
        ],
        signature: [
            0x9c, 0xea, 0x87, 0xe2, 0xce, 0x26, 0xca, 0xdd, 0xfd, 0x5f, 0xc0, 0x32, 0x6e, 0xed, 0x9b, 0x8a,
            0x45, 0xc3, 0x5e, 0x14, 0xfd, 0x9a, 0x97, 0xde, 0x59, 0x3f, 0xb9, 0x72, 0xf9, 0xf6, 0x62, 0xf2,
            0x60, 0x05, 0x13, 0x5a, 0x27, 0xc8, 0x9d, 0x95, 0x34, 0xb5, 0x7c, 0xbb, 0xde, 0xaa, 0x62, 0xc3,
            0x45, 0x87, 0x9e, 0x0b, 0x26, 0xb4, 0xd8, 0x43, 0xfb, 0xc4, 0xf9, 0xcb, 0x27, 0x29, 0x3c, 0x0d,
        ],
        message: &[
            0x6d, 0x69, 0x78, 0x65, 0x64, 0x20, 0x6b, 0x65, 0x79, 0x20, 0x32,
        ],
        zip215: true,
        dalek: false,
    },
    Case {
        name: "key is no point",
        public_key: [
            0x02, 0x00, 0x00, 0x00, 0x00, 0x00, 0x00, 0x00, 0x00, 0x00, 0x00, 0x00, 0x00, 0x00, 0x00, 0x00,
            0x00, 0x00, 0x00, 0x00, 0x00, 0x00, 0x00, 0x00, 0x00, 0x00, 0x00, 0x00, 0x00, 0x00, 0x00, 0x00,
        ],
        signature: [
            0xe5, 0x56, 0x43, 0x00, 0xc3, 0x60, 0xac, 0x72, 0x90, 0x86, 0xe2, 0xcc, 0x80, 0x6e, 0x82, 0x8a,
            0x84, 0x87, 0x7f, 0x1e, 0xb8, 0xe5, 0xd9, 0x74, 0xd8, 0x73, 0xe0, 0x65, 0x22, 0x49, 0x01, 0x55,
            0x5f, 0xb8, 0x82, 0x15, 0x90, 0xa3, 0x3b, 0xac, 0xc6, 0x1e, 0x39, 0x70, 0x1c, 0xf9, 0xb4, 0x6b,
            0xd2, 0x5b, 0xf5, 0xf0, 0x59, 0x5b, 0xbe, 0x24, 0x65, 0x51, 0x41, 0x43, 0x8e, 0x7a, 0x10, 0x0b,
        ],
        message: &[],
        zip215: false,
        dalek: false,
    },
    Case {
        name: "R is no point",
        public_key: [
            0xd7, 0x5a, 0x98, 0x01, 0x82, 0xb1, 0x0a, 0xb7, 0xd5, 0x4b, 0xfe, 0xd3, 0xc9, 0x64, 0x07, 0x3a,
            0x0e, 0xe1, 0x72, 0xf3, 0xda, 0xa6, 0x23, 0x25, 0xaf, 0x02, 0x1a, 0x68, 0xf7, 0x07, 0x51, 0x1a,
        ],
        signature: [
            0x02, 0x00, 0x00, 0x00, 0x00, 0x00, 0x00, 0x00, 0x00, 0x00, 0x00, 0x00, 0x00, 0x00, 0x00, 0x00,
            0x00, 0x00, 0x00, 0x00, 0x00, 0x00, 0x00, 0x00, 0x00, 0x00, 0x00, 0x00, 0x00, 0x00, 0x00, 0x00,
            0x5f, 0xb8, 0x82, 0x15, 0x90, 0xa3, 0x3b, 0xac, 0xc6, 0x1e, 0x39, 0x70, 0x1c, 0xf9, 0xb4, 0x6b,
            0xd2, 0x5b, 0xf5, 0xf0, 0x59, 0x5b, 0xbe, 0x24, 0x65, 0x51, 0x41, 0x43, 0x8e, 0x7a, 0x10, 0x0b,
        ],
        message: &[],
        zip215: false,
        dalek: false,
    },
    Case {
        name: "key of order eight, fitting challenge",
        public_key: [
            0x26, 0xe8, 0x95, 0x8f, 0xc2, 0xb2, 0x27, 0xb0, 0x45, 0xc3, 0xf4, 0x89, 0xf2, 0xef, 0x98, 0xf0,
            0xd5, 0xdf, 0xac, 0x05, 0xd3, 0xc6, 0x33, 0x39, 0xb1, 0x38, 0x02, 0x88, 0x6d, 0x53, 0xfc, 0x05,
        ],
        signature: [
            0xed, 0xc8, 0x76, 0xd6, 0x83, 0x1f, 0xd2, 0x10, 0x5d, 0x0b, 0x43, 0x89, 0xca, 0x2e, 0x28, 0x31,
            0x66, 0x46, 0x92, 0x89, 0x14, 0x6e, 0x2c, 0xe0, 0x6f, 0xae, 0xfe, 0x98, 0xb2, 0x25, 0x48, 0xdf,
            0x05, 0x00, 0x00, 0x00, 0x00, 0x00, 0x00, 0x00, 0x00, 0x00, 0x00, 0x00, 0x00, 0x00, 0x00, 0x00,
            0x00, 0x00, 0x00, 0x00, 0x00, 0x00, 0x00, 0x00, 0x00, 0x00, 0x00, 0x00, 0x00, 0x00, 0x00, 0x00,
        ],
        message: &[
            0x6f, 0x72, 0x64, 0x65, 0x72, 0x20, 0x65, 0x69, 0x67, 0x68, 0x74, 0x20, 0x34,
        ],
        zip215: true,
        dalek: true,
    },
    Case {
        name: "key of zeros, fitting challenge",
        public_key: [
            0x00, 0x00, 0x00, 0x00, 0x00, 0x00, 0x00, 0x00, 0x00, 0x00, 0x00, 0x00, 0x00, 0x00, 0x00, 0x00,
            0x00, 0x00, 0x00, 0x00, 0x00, 0x00, 0x00, 0x00, 0x00, 0x00, 0x00, 0x00, 0x00, 0x00, 0x00, 0x00,
        ],
        signature: [
            0xed, 0xc8, 0x76, 0xd6, 0x83, 0x1f, 0xd2, 0x10, 0x5d, 0x0b, 0x43, 0x89, 0xca, 0x2e, 0x28, 0x31,
            0x66, 0x46, 0x92, 0x89, 0x14, 0x6e, 0x2c, 0xe0, 0x6f, 0xae, 0xfe, 0x98, 0xb2, 0x25, 0x48, 0xdf,
            0x05, 0x00, 0x00, 0x00, 0x00, 0x00, 0x00, 0x00, 0x00, 0x00, 0x00, 0x00, 0x00, 0x00, 0x00, 0x00,
            0x00, 0x00, 0x00, 0x00, 0x00, 0x00, 0x00, 0x00, 0x00, 0x00, 0x00, 0x00, 0x00, 0x00, 0x00, 0x00,
        ],
        message: &[
            0x7a, 0x65, 0x72, 0x6f, 0x20, 0x6b, 0x65, 0x79, 0x20, 0x30,
        ],
        zip215: true,
        dalek: false,
    },
];

fn inputs() -> Vec<VerifyInput<'static>> {
    CASES
        .iter()
        .map(|c| VerifyInput {
            public_key: c.public_key,
            signature: c.signature,
            message: c.message,
        })
        .collect()
}

fn check(policy: VerifyPolicy, out: &[bool]) {
    for (c, &ok) in CASES.iter().zip(out) {
        let expect = if policy == VerifyPolicy::Zip215 { c.zip215 } else { c.dalek };
        assert_eq!(ok, expect, "{} ({policy:?})", c.name);
    }
}

#[test]
fn cold_batch_gives_every_expected_result() {
    for policy in [VerifyPolicy::Zip215, VerifyPolicy::Dalek] {
        let mut v = Verifier::with_cache(policy, NullKeyCache::new());
        let mut out = vec![false; CASES.len()];
        v.verify_batch(&inputs(), &mut out);
        check(policy, &out);
    }
}

/// The results do not depend on what the cache holds: not with decoded keys, not
/// with promoted ones, and not with a mixture.
#[test]
fn warm_batches_give_the_same_results() {
    for policy in [VerifyPolicy::Zip215, VerifyPolicy::Dalek] {
        let mut v = Verifier::with_cache(policy, HotKeyCache::new());
        for _ in 0..4 {
            let mut out = vec![false; CASES.len()];
            v.verify_batch(&inputs(), &mut out);
            check(policy, &out);
        }
    }
}

/// Each request alone: its chunk is padded with repeats of it, and after three
/// batches it is verified by the split ladder.
#[test]
fn single_requests_on_every_path() {
    for policy in [VerifyPolicy::Zip215, VerifyPolicy::Dalek] {
        let mut v = Verifier::with_cache(policy, HotKeyCache::with_capacity(64));
        for (c, input) in CASES.iter().zip(inputs()) {
            let expect = if policy == VerifyPolicy::Zip215 { c.zip215 } else { c.dalek };
            for turn in 0..3 {
                let mut out = [!expect];
                v.verify_batch(&[input], &mut out);
                assert_eq!(out[0], expect, "{} ({policy:?}), turn {turn}", c.name);
            }
        }
    }
}

/// What the cofactorless policy accepts, the cofactored one accepts too, and
/// there is more that only the latter accepts.
#[test]
fn cofactorless_results_are_cofactored_ones() {
    let inputs = inputs();
    let mut dalek = vec![false; inputs.len()];
    let mut zip215 = vec![false; inputs.len()];
    Verifier::with_policy(VerifyPolicy::Dalek).verify_batch(&inputs, &mut dalek);
    Verifier::with_policy(VerifyPolicy::Zip215).verify_batch(&inputs, &mut zip215);
    assert!(dalek.iter().zip(&zip215).all(|(&d, &z)| z || !d));
    assert!(dalek.iter().any(|&d| d));
    assert!(dalek != zip215);
}

/// A batch gives what its parts give.
#[test]
fn parts_of_a_batch_give_its_results() {
    let inputs = inputs();
    let mut v = Verifier::with_cache(VerifyPolicy::Zip215, HotKeyCache::new());
    let mut whole = vec![false; inputs.len()];
    v.verify_batch(&inputs, &mut whole);
    for cut in [1, 5, 8, 13] {
        let mut parts = vec![true; inputs.len()];
        let (first, second) = parts.split_at_mut(cut);
        v.verify_batch(&inputs[..cut], first);
        v.verify_batch(&inputs[cut..], second);
        assert_eq!(parts, whole);
    }
}

#[test]
fn constructors_choose_policy_and_cache() {
    assert_eq!(Verifier::new().policy(), VerifyPolicy::Zip215);
    assert_eq!(Verifier::default().policy(), VerifyPolicy::default());
    assert_eq!(Verifier::with_policy(VerifyPolicy::Dalek).policy(), VerifyPolicy::Dalek);
    let mut v = Verifier::with_cache(VerifyPolicy::Dalek, HotKeyCache::with_capacity(3));
    assert_eq!(v.cache().len(), 0);
    *v.cache_mut() = HotKeyCache::with_capacity(1);
    let mut out = vec![false; CASES.len()];
    v.verify_batch(&inputs(), &mut out);
    assert_eq!(v.cache().len(), 1);
    check(VerifyPolicy::Dalek, &out);
}
