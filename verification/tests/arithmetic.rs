use ed25519_batch::field::Fe51;
use ed25519_batch::scalar::{is_canonical, Scalar};

const X: [u8; 32] = [
        0xef, 0xcd, 0xab, 0x90, 0x78, 0x56, 0x34, 0x12, 0xef, 0xcd, 0xab, 0x90, 0x78, 0x56, 0x34, 0x12,
        0xef, 0xcd, 0xab, 0x90, 0x78, 0x56, 0x34, 0x12, 0xef, 0xcd, 0xab, 0x90, 0x78, 0x56, 0x34, 0x12,
    ];
const Y: [u8; 32] = [
        0x21, 0x43, 0x65, 0x87, 0x09, 0xba, 0xdc, 0xfe, 0x21, 0x43, 0x65, 0x87, 0x09, 0xba, 0xdc, 0xfe,
        0x21, 0x43, 0x65, 0x87, 0x09, 0xba, 0xdc, 0xfe, 0x21, 0x43, 0x65, 0x87, 0x09, 0xba, 0xdc, 0x7e,
    ];

fn x() -> Fe51 {
    Fe51::from_bytes_unchecked(&X)
}

fn y() -> Fe51 {
    Fe51::from_bytes_unchecked(&Y)
}

#[test]
fn field_operations_give_known_values() {
    let sum: [u8; 32] = [
        0x23, 0x11, 0x11, 0x18, 0x82, 0x10, 0x11, 0x11, 0x11, 0x11, 0x11, 0x18, 0x82, 0x10, 0x11, 0x11,
        0x11, 0x11, 0x11, 0x18, 0x82, 0x10, 0x11, 0x11, 0x11, 0x11, 0x11, 0x18, 0x82, 0x10, 0x11, 0x11,
    ];
    let difference: [u8; 32] = [
        0xbb, 0x8a, 0x46, 0x09, 0x6f, 0x9c, 0x57, 0x13, 0xcd, 0x8a, 0x46, 0x09, 0x6f, 0x9c, 0x57, 0x13,
        0xcd, 0x8a, 0x46, 0x09, 0x6f, 0x9c, 0x57, 0x13, 0xcd, 0x8a, 0x46, 0x09, 0x6f, 0x9c, 0x57, 0x13,
    ];
    let product: [u8; 32] = [
        0x93, 0x80, 0xbf, 0x54, 0xf2, 0x36, 0x41, 0xb0, 0xca, 0x7b, 0xcb, 0x8f, 0xee, 0x3b, 0xf3, 0xfc,
        0x2d, 0x77, 0xd7, 0xca, 0xea, 0x40, 0xa5, 0x49, 0x91, 0x72, 0xe3, 0x05, 0xe7, 0x45, 0x57, 0x16,
    ];
    let inverse: [u8; 32] = [
        0xe1, 0xce, 0xfa, 0xfe, 0xcb, 0x37, 0xf6, 0x1e, 0x41, 0xc5, 0x4b, 0xa0, 0x3b, 0xb6, 0xcd, 0x6a,
        0xea, 0xc0, 0xc8, 0x25, 0xcf, 0xdd, 0x63, 0xdd, 0xa2, 0xf2, 0xc9, 0xad, 0x64, 0xad, 0x3a, 0x3f,
    ];
    let negative: [u8; 32] = [
        0xfe, 0x31, 0x54, 0x6f, 0x87, 0xa9, 0xcb, 0xed, 0x10, 0x32, 0x54, 0x6f, 0x87, 0xa9, 0xcb, 0xed,
        0x10, 0x32, 0x54, 0x6f, 0x87, 0xa9, 0xcb, 0xed, 0x10, 0x32, 0x54, 0x6f, 0x87, 0xa9, 0xcb, 0x6d,
    ];
    assert_eq!(x().to_bytes(), X);
    assert_eq!(x().add(&y()).to_bytes(), sum);
    assert_eq!(x().subtract(&y()).to_bytes(), difference);
    assert_eq!(x().multiply(&y()).to_bytes(), product);
    assert_eq!(x().invert().to_bytes(), inverse);
    assert_eq!(x().negate().to_bytes(), negative);
    assert_eq!(x().double().to_bytes(), x().add(&x()).to_bytes());
    assert_eq!(x().square().to_bytes(), x().multiply(&x()).to_bytes());
    assert!(x().multiply(&x().invert()).equals(&Fe51::one()));
    assert!(Fe51::zero().invert().equals(&Fe51::zero()));
    assert!(!x().equals(&y()));
    assert_eq!(x().is_odd(), X[0] % 2 == 1);
    assert!(!Fe51::two().is_odd() && Fe51::one().negate().to_bytes()[0] == 0xec);
}

#[test]
fn field_constants_belong_together() {
    assert!(Fe51::d().multiply(&Fe51::d_inv()).equals(&Fe51::one()));
    assert!(Fe51::d().double().equals(&Fe51::two_d()));
    assert!(Fe51::sqrt_minus_one().square().equals(&Fe51::one().negate()));
    assert!(Fe51::one().double().equals(&Fe51::two()));
}

/// Values from the modulus up are read as what they are modulo the modulus.
#[test]
fn unreduced_bytes_are_reduced() {
    let mut bytes = [0xffu8; 32];
    bytes[31] = 0x7f;
    let mut small = [0u8; 32];
    for k in 0..19u8 {
        bytes[0] = 0xed + k;
        small[0] = k;
        let v = Fe51::from_bytes_unchecked(&bytes);
        assert_eq!(v.to_bytes(), small);
        assert!(v.equals(&Fe51::from_bytes_unchecked(&small)));
        assert_eq!(v.is_odd(), k % 2 == 1);
    }
    bytes[0] = 0xec;
    assert_eq!(Fe51::from_bytes_unchecked(&bytes).to_bytes(), bytes);
    // All 256 bits count: the largest value is 37 above twice the modulus.
    small[0] = 37;
    assert_eq!(Fe51::from_bytes_unchecked(&[0xff; 32]).to_bytes(), small);
}

#[test]
fn square_roots_of_ratios() {
    let u = x().square().multiply(&y());
    let r = Fe51::sqrt_ratio(&u, &y()).unwrap();
    assert!(r.equals(&x()) || r.equals(&x().negate()));
    let r = Fe51::sqrt_ratio(&Fe51::one().negate(), &Fe51::one()).unwrap();
    assert!(r.square().equals(&Fe51::one().negate()));
    assert!(Fe51::sqrt_ratio(&Fe51::zero(), &y()).unwrap().equals(&Fe51::zero()));
    assert!(Fe51::sqrt_ratio(&Fe51::zero(), &Fe51::zero()).is_some());
    assert!(Fe51::sqrt_ratio(&Fe51::one(), &Fe51::zero()).is_none());
    let mut bytes = [0u8; 32];
    bytes[0] = 2;
    let nonsquare = Fe51::from_bytes_unchecked(&bytes);
    assert!(Fe51::sqrt_ratio(&nonsquare, &Fe51::one()).is_none());
    assert!(Fe51::sqrt_ratio(&Fe51::one(), &nonsquare).is_none());
    assert!(Fe51::sqrt_ratio(&nonsquare, &nonsquare).is_some());
}

const ORDER: [u8; 32] = [
        0xed, 0xd3, 0xf5, 0x5c, 0x1a, 0x63, 0x12, 0x58, 0xd6, 0x9c, 0xf7, 0xa2, 0xde, 0xf9, 0xde, 0x14,
        0x00, 0x00, 0x00, 0x00, 0x00, 0x00, 0x00, 0x00, 0x00, 0x00, 0x00, 0x00, 0x00, 0x00, 0x00, 0x10,
    ];

#[test]
fn canonical_scalars_are_below_the_order() {
    let mut below = ORDER;
    below[0] -= 1;
    let mut above = ORDER;
    above[0] += 1;
    let mut middle = ORDER;
    middle[20] = 1;
    assert!(is_canonical(&[0; 32]));
    assert!(is_canonical(&below));
    assert!(!is_canonical(&ORDER));
    assert!(!is_canonical(&above));
    assert!(!is_canonical(&middle));
    assert!(!is_canonical(&[0xff; 32]));
    middle[31] = 0x0f;
    assert!(is_canonical(&middle));
}

/// The bytes of the integer that some digits stand for, modulo `2^256`.
fn from_digits(digits: &[i8], bits: usize, into: &mut [i64; 40]) {
    for (i, &d) in digits.iter().enumerate() {
        let at = 4 * i + bits;
        into[at / 8] += (d as i64) << (at % 8);
    }
}

fn carried(mut v: [i64; 40]) -> [u8; 32] {
    let mut out = [0u8; 32];
    let mut carry = 0i64;
    for i in 0..40 {
        let t = v[i] + carry;
        v[i] = t.rem_euclid(256);
        carry = t.div_euclid(256);
        if i < 32 {
            out[i] = v[i] as u8;
        } else {
            assert_eq!(v[i], 0);
        }
    }
    assert_eq!(carry, 0);
    out
}

/// Both sets of digits stand for the scalar, and are small.
#[test]
fn digits_stand_for_the_scalar() {
    let mut below = ORDER;
    below[0] -= 1;
    let mut eights = [0x88u8; 32];
    eights[31] = 0x08;
    let mut sevens = [0x77u8; 32];
    sevens[31] = 0x07;
    let mut high = [0xffu8; 32];
    high[31] = 0x0f;
    let mut bit = [0u8; 32];
    bit[15] = 0x80;
    for bytes in [[0; 32], below, eights, sevens, high, bit] {
        assert!(is_canonical(&bytes));
        let s = Scalar::from_canonical_bytes(bytes);
        let digits = s.to_radix16();
        assert!(digits.iter().all(|d| (-8..=8).contains(d)));
        let mut v = [0i64; 40];
        from_digits(&digits, 0, &mut v);
        assert_eq!(carried(v), bytes);

        let (lo, hi) = s.split_radix16();
        assert!(lo.iter().chain(&hi).all(|d| (-8..=8).contains(d)));
        let mut v = [0i64; 40];
        from_digits(&lo, 0, &mut v);
        from_digits(&hi, 127, &mut v);
        assert_eq!(carried(v), bytes);
        // The low half is what lies below bit 127.
        let mut v = [0i64; 40];
        from_digits(&lo, 0, &mut v);
        let mut low = bytes;
        low[15] &= 0x7f;
        for b in &mut low[16..] {
            *b = 0;
        }
        assert_eq!(carried(v), low);
    }
}

#[test]
fn wide_integers_are_reduced_modulo_the_order() {
    let words = [
        0x0706050403020100,
        0x0f0e0d0c0b0a0908,
        0x1716151413121110,
        0x1f1e1d1c1b1a1918,
        0x2726252423222120,
        0x2f2e2d2c2b2a2928,
        0x3736353433323130,
        0x3f3e3d3c3b3a3938,
    ];
    let expect: [u8; 32] = [
        0x7a, 0x3c, 0x62, 0x82, 0xf0, 0x2d, 0x37, 0xa0, 0x50, 0x23, 0xb6, 0x0d, 0x54, 0x28, 0xe6, 0xcc,
        0x59, 0x61, 0xd4, 0xc3, 0x12, 0x21, 0x93, 0x7a, 0xda, 0xe0, 0xb5, 0x74, 0xe4, 0xd0, 0x72, 0x05,
    ];
    let digits = Scalar::from_wide_words(words).to_radix16();
    let mut v = [0i64; 40];
    from_digits(&digits, 0, &mut v);
    assert_eq!(carried(v), expect);

    let largest: [u8; 32] = [
        0x00, 0x0f, 0x9c, 0x44, 0xe3, 0x11, 0x06, 0xa4, 0x47, 0x93, 0x85, 0x68, 0xa7, 0x1b, 0x0e, 0xd0,
        0x65, 0xbe, 0xf5, 0x17, 0xd2, 0x73, 0xec, 0xce, 0x3d, 0x9a, 0x30, 0x7c, 0x1b, 0x41, 0x99, 0x03,
    ];
    let digits = Scalar::from_wide_words([u64::MAX; 8]).to_radix16();
    let mut v = [0i64; 40];
    from_digits(&digits, 0, &mut v);
    assert_eq!(carried(v), largest);

    // The order itself is zero.
    let mut words = [0u64; 8];
    for i in 0..4 {
        words[i] = u64::from_le_bytes(ORDER[8 * i..8 * i + 8].try_into().unwrap());
    }
    assert_eq!(Scalar::from_wide_words(words).to_radix16(), [0i8; 64]);
}
