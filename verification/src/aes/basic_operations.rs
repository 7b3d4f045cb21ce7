//! Arithmetic in GF(2^8) modulo x^8 + x^4 + x^3 + x + 1 and the AES S-box.
use vstd::prelude::*;

verus! {

/// The AES S-box: `S_BOX[x]` is the affine image of the inverse of `x` in GF(2^8).
pub const S_BOX: [u8; 256] = [
    0x63, 0x7c, 0x77, 0x7b, 0xf2, 0x6b, 0x6f, 0xc5, 0x30, 0x01, 0x67, 0x2b, 0xfe, 0xd7, 0xab, 0x76,
    0xca, 0x82, 0xc9, 0x7d, 0xfa, 0x59, 0x47, 0xf0, 0xad, 0xd4, 0xa2, 0xaf, 0x9c, 0xa4, 0x72, 0xc0,
    0xb7, 0xfd, 0x93, 0x26, 0x36, 0x3f, 0xf7, 0xcc, 0x34, 0xa5, 0xe5, 0xf1, 0x71, 0xd8, 0x31, 0x15,
    0x04, 0xc7, 0x23, 0xc3, 0x18, 0x96, 0x05, 0x9a, 0x07, 0x12, 0x80, 0xe2, 0xeb, 0x27, 0xb2, 0x75,
    0x09, 0x83, 0x2c, 0x1a, 0x1b, 0x6e, 0x5a, 0xa0, 0x52, 0x3b, 0xd6, 0xb3, 0x29, 0xe3, 0x2f, 0x84,
    0x53, 0xd1, 0x00, 0xed, 0x20, 0xfc, 0xb1, 0x5b, 0x6a, 0xcb, 0xbe, 0x39, 0x4a, 0x4c, 0x58, 0xcf,
    0xd0, 0xef, 0xaa, 0xfb, 0x43, 0x4d, 0x33, 0x85, 0x45, 0xf9, 0x02, 0x7f, 0x50, 0x3c, 0x9f, 0xa8,
    0x51, 0xa3, 0x40, 0x8f, 0x92, 0x9d, 0x38, 0xf5, 0xbc, 0xb6, 0xda, 0x21, 0x10, 0xff, 0xf3, 0xd2,
    0xcd, 0x0c, 0x13, 0xec, 0x5f, 0x97, 0x44, 0x17, 0xc4, 0xa7, 0x7e, 0x3d, 0x64, 0x5d, 0x19, 0x73,
    0x60, 0x81, 0x4f, 0xdc, 0x22, 0x2a, 0x90, 0x88, 0x46, 0xee, 0xb8, 0x14, 0xde, 0x5e, 0x0b, 0xdb,
    0xe0, 0x32, 0x3a, 0x0a, 0x49, 0x06, 0x24, 0x5c, 0xc2, 0xd3, 0xac, 0x62, 0x91, 0x95, 0xe4, 0x79,
    0xe7, 0xc8, 0x37, 0x6d, 0x8d, 0xd5, 0x4e, 0xa9, 0x6c, 0x56, 0xf4, 0xea, 0x65, 0x7a, 0xae, 0x08,
    0xba, 0x78, 0x25, 0x2e, 0x1c, 0xa6, 0xb4, 0xc6, 0xe8, 0xdd, 0x74, 0x1f, 0x4b, 0xbd, 0x8b, 0x8a,
    0x70, 0x3e, 0xb5, 0x66, 0x48, 0x03, 0xf6, 0x0e, 0x61, 0x35, 0x57, 0xb9, 0x86, 0xc1, 0x1d, 0x9e,
    0xe1, 0xf8, 0x98, 0x11, 0x69, 0xd9, 0x8e, 0x94, 0x9b, 0x1e, 0x87, 0xe9, 0xce, 0x55, 0x28, 0xdf,
    0x8c, 0xa1, 0x89, 0x0d, 0xbf, 0xe6, 0x42, 0x68, 0x41, 0x99, 0x2d, 0x0f, 0xb0, 0x54, 0xbb, 0x16,
];

/// The inverse of the AES S-box.
pub const S_BOX_INV: [u8; 256] = [
    0x52, 0x09, 0x6a, 0xd5, 0x30, 0x36, 0xa5, 0x38, 0xbf, 0x40, 0xa3, 0x9e, 0x81, 0xf3, 0xd7, 0xfb,
    0x7c, 0xe3, 0x39, 0x82, 0x9b, 0x2f, 0xff, 0x87, 0x34, 0x8e, 0x43, 0x44, 0xc4, 0xde, 0xe9, 0xcb,
    0x54, 0x7b, 0x94, 0x32, 0xa6, 0xc2, 0x23, 0x3d, 0xee, 0x4c, 0x95, 0x0b, 0x42, 0xfa, 0xc3, 0x4e,
    0x08, 0x2e, 0xa1, 0x66, 0x28, 0xd9, 0x24, 0xb2, 0x76, 0x5b, 0xa2, 0x49, 0x6d, 0x8b, 0xd1, 0x25,
    0x72, 0xf8, 0xf6, 0x64, 0x86, 0x68, 0x98, 0x16, 0xd4, 0xa4, 0x5c, 0xcc, 0x5d, 0x65, 0xb6, 0x92,
    0x6c, 0x70, 0x48, 0x50, 0xfd, 0xed, 0xb9, 0xda, 0x5e, 0x15, 0x46, 0x57, 0xa7, 0x8d, 0x9d, 0x84,
    0x90, 0xd8, 0xab, 0x00, 0x8c, 0xbc, 0xd3, 0x0a, 0xf7, 0xe4, 0x58, 0x05, 0xb8, 0xb3, 0x45, 0x06,
    0xd0, 0x2c, 0x1e, 0x8f, 0xca, 0x3f, 0x0f, 0x02, 0xc1, 0xaf, 0xbd, 0x03, 0x01, 0x13, 0x8a, 0x6b,
    0x3a, 0x91, 0x11, 0x41, 0x4f, 0x67, 0xdc, 0xea, 0x97, 0xf2, 0xcf, 0xce, 0xf0, 0xb4, 0xe6, 0x73,
    0x96, 0xac, 0x74, 0x22, 0xe7, 0xad, 0x35, 0x85, 0xe2, 0xf9, 0x37, 0xe8, 0x1c, 0x75, 0xdf, 0x6e,
    0x47, 0xf1, 0x1a, 0x71, 0x1d, 0x29, 0xc5, 0x89, 0x6f, 0xb7, 0x62, 0x0e, 0xaa, 0x18, 0xbe, 0x1b,
    0xfc, 0x56, 0x3e, 0x4b, 0xc6, 0xd2, 0x79, 0x20, 0x9a, 0xdb, 0xc0, 0xfe, 0x78, 0xcd, 0x5a, 0xf4,
    0x1f, 0xdd, 0xa8, 0x33, 0x88, 0x07, 0xc7, 0x31, 0xb1, 0x12, 0x10, 0x59, 0x27, 0x80, 0xec, 0x5f,
    0x60, 0x51, 0x7f, 0xa9, 0x19, 0xb5, 0x4a, 0x0d, 0x2d, 0xe5, 0x7a, 0x9f, 0x93, 0xc9, 0x9c, 0xef,
    0xa0, 0xe0, 0x3b, 0x4d, 0xae, 0x2a, 0xf5, 0xb0, 0xc8, 0xeb, 0xbb, 0x3c, 0x83, 0x53, 0x99, 0x61,
    0x17, 0x2b, 0x04, 0x7e, 0xba, 0x77, 0xd6, 0x26, 0xe1, 0x69, 0x14, 0x63, 0x55, 0x21, 0x0c, 0x7d,
];

/// Multiplication by `x` (the byte 0x02) in GF(2^8).
pub open spec fn xtime(a: u8) -> u8 {
    if a & 0x80u8 == 0 {
        a << 1u8
    } else {
        (a << 1u8) ^ 0x1bu8
    }
}

/// The product of `a` and `b` in GF(2^8): the xor of `a * x^i` over the set
/// bits `i` of `b`.
pub open spec fn gf_mul(a: u8, b: u8) -> u8 {
    let a1 = xtime(a);
    let a2 = xtime(a1);
    let a3 = xtime(a2);
    let a4 = xtime(a3);
    let a5 = xtime(a4);
    let a6 = xtime(a5);
    let a7 = xtime(a6);
    (if b & 0x01u8 != 0 { a } else { 0u8 }) ^ (if b & 0x02u8 != 0 { a1 } else { 0u8 }) ^ (if b
        & 0x04u8 != 0 { a2 } else { 0u8 }) ^ (if b & 0x08u8 != 0 { a3 } else { 0u8 }) ^ (if b
        & 0x10u8 != 0 { a4 } else { 0u8 }) ^ (if b & 0x20u8 != 0 { a5 } else { 0u8 }) ^ (if b
        & 0x40u8 != 0 { a6 } else { 0u8 }) ^ (if b & 0x80u8 != 0 { a7 } else { 0u8 })
}

/// `b` rotated left by `n` bits (`0 < n < 8`).
pub open spec fn rotl8(b: u8, n: u8) -> u8 {
    (b << n) | (b >> ((8 - n) as u8))
}

/// The affine transformation of the S-box.
pub open spec fn affine(b: u8) -> u8 {
    b ^ rotl8(b, 1) ^ rotl8(b, 2) ^ rotl8(b, 3) ^ rotl8(b, 4) ^ 0x63u8
}

/// `x^254` in GF(2^8): the multiplicative inverse of `x`, and 0 for 0.
pub open spec fn gf_inverse(x: u8) -> u8 {
    let x2 = gf_mul(x, x);
    let x3 = gf_mul(x2, x);
    let x6 = gf_mul(x3, x3);
    let x7 = gf_mul(x6, x);
    let x14 = gf_mul(x7, x7);
    let x15 = gf_mul(x14, x);
    let x30 = gf_mul(x15, x15);
    let x31 = gf_mul(x30, x);
    let x62 = gf_mul(x31, x31);
    let x63 = gf_mul(x62, x);
    let x126 = gf_mul(x63, x63);
    let x127 = gf_mul(x126, x);
    gf_mul(x127, x127)
}

/// The S-box as defined by FIPS-197: affine image of the inverse.
pub open spec fn sbox(x: u8) -> u8 {
    affine(gf_inverse(x))
}

/// The S-box table written as a decision tree on the bits of `x`, a form
/// that the bit-vector solver reads.
spec fn sbox_by_cases(x: u8) -> u8 {
    if x < 128u8 {
        if x < 64u8 {
            if x < 32u8 {
                if x < 16u8 {
                    if x < 8u8 {
                        if x < 4u8 {
                            if x < 2u8 {
                                if x < 1u8 {
                                    0x63u8
                                } else {
                                    0x7cu8
                                }
                            } else {
                                if x < 3u8 {
                                    0x77u8
                                } else {
                                    0x7bu8
                                }
                            }
                        } else {
                            if x < 6u8 {
                                if x < 5u8 {
                                    0xf2u8
                                } else {
                                    0x6bu8
                                }
                            } else {
                                if x < 7u8 {
                                    0x6fu8
                                } else {
                                    0xc5u8
                                }
                            }
                        }
                    } else {
                        if x < 12u8 {
                            if x < 10u8 {
                                if x < 9u8 {
                                    0x30u8
                                } else {
                                    0x01u8
                                }
                            } else {
                                if x < 11u8 {
                                    0x67u8
                                } else {
                                    0x2bu8
                                }
                            }
                        } else {
                            if x < 14u8 {
                                if x < 13u8 {
                                    0xfeu8
                                } else {
                                    0xd7u8
                                }
                            } else {
                                if x < 15u8 {
                                    0xabu8
                                } else {
                                    0x76u8
                                }
                            }
                        }
                    }
                } else {
                    if x < 24u8 {
                        if x < 20u8 {
                            if x < 18u8 {
                                if x < 17u8 {
                                    0xcau8
                                } else {
                                    0x82u8
                                }
                            } else {
                                if x < 19u8 {
                                    0xc9u8
                                } else {
                                    0x7du8
                                }
                            }
                        } else {
                            if x < 22u8 {
                                if x < 21u8 {
                                    0xfau8
                                } else {
                                    0x59u8
                                }
                            } else {
                                if x < 23u8 {
                                    0x47u8
                                } else {
                                    0xf0u8
                                }
                            }
                        }
                    } else {
                        if x < 28u8 {
                            if x < 26u8 {
                                if x < 25u8 {
                                    0xadu8
                                } else {
                                    0xd4u8
                                }
                            } else {
                                if x < 27u8 {
                                    0xa2u8
                                } else {
                                    0xafu8
                                }
                            }
                        } else {
                            if x < 30u8 {
                                if x < 29u8 {
                                    0x9cu8
                                } else {
                                    0xa4u8
                                }
                            } else {
                                if x < 31u8 {
                                    0x72u8
                                } else {
                                    0xc0u8
                                }
                            }
                        }
                    }
                }
            } else {
                if x < 48u8 {
                    if x < 40u8 {
                        if x < 36u8 {
                            if x < 34u8 {
                                if x < 33u8 {
                                    0xb7u8
                                } else {
                                    0xfdu8
                                }
                            } else {
                                if x < 35u8 {
                                    0x93u8
                                } else {
                                    0x26u8
                                }
                            }
                        } else {
                            if x < 38u8 {
                                if x < 37u8 {
                                    0x36u8
                                } else {
                                    0x3fu8
                                }
                            } else {
                                if x < 39u8 {
                                    0xf7u8
                                } else {
                                    0xccu8
                                }
                            }
                        }
                    } else {
                        if x < 44u8 {
                            if x < 42u8 {
                                if x < 41u8 {
                                    0x34u8
                                } else {
                                    0xa5u8
                                }
                            } else {
                                if x < 43u8 {
                                    0xe5u8
                                } else {
                                    0xf1u8
                                }
                            }
                        } else {
                            if x < 46u8 {
                                if x < 45u8 {
                                    0x71u8
                                } else {
                                    0xd8u8
                                }
                            } else {
                                if x < 47u8 {
                                    0x31u8
                                } else {
                                    0x15u8
                                }
                            }
                        }
                    }
                } else {
                    if x < 56u8 {
                        if x < 52u8 {
                            if x < 50u8 {
                                if x < 49u8 {
                                    0x04u8
                                } else {
                                    0xc7u8
                                }
                            } else {
                                if x < 51u8 {
                                    0x23u8
                                } else {
                                    0xc3u8
                                }
                            }
                        } else {
                            if x < 54u8 {
                                if x < 53u8 {
                                    0x18u8
                                } else {
                                    0x96u8
                                }
                            } else {
                                if x < 55u8 {
                                    0x05u8
                                } else {
                                    0x9au8
                                }
                            }
                        }
                    } else {
                        if x < 60u8 {
                            if x < 58u8 {
                                if x < 57u8 {
                                    0x07u8
                                } else {
                                    0x12u8
                                }
                            } else {
                                if x < 59u8 {
                                    0x80u8
                                } else {
                                    0xe2u8
                                }
                            }
                        } else {
                            if x < 62u8 {
                                if x < 61u8 {
                                    0xebu8
                                } else {
                                    0x27u8
                                }
                            } else {
                                if x < 63u8 {
                                    0xb2u8
                                } else {
                                    0x75u8
                                }
                            }
                        }
                    }
                }
            }
        } else {
            if x < 96u8 {
                if x < 80u8 {
                    if x < 72u8 {
                        if x < 68u8 {
                            if x < 66u8 {
                                if x < 65u8 {
                                    0x09u8
                                } else {
                                    0x83u8
                                }
                            } else {
                                if x < 67u8 {
                                    0x2cu8
                                } else {
                                    0x1au8
                                }
                            }
                        } else {
                            if x < 70u8 {
                                if x < 69u8 {
                                    0x1bu8
                                } else {
                                    0x6eu8
                                }
                            } else {
                                if x < 71u8 {
                                    0x5au8
                                } else {
                                    0xa0u8
                                }
                            }
                        }
                    } else {
                        if x < 76u8 {
                            if x < 74u8 {
                                if x < 73u8 {
                                    0x52u8
                                } else {
                                    0x3bu8
                                }
                            } else {
                                if x < 75u8 {
                                    0xd6u8
                                } else {
                                    0xb3u8
                                }
                            }
                        } else {
                            if x < 78u8 {
                                if x < 77u8 {
                                    0x29u8
                                } else {
                                    0xe3u8
                                }
                            } else {
                                if x < 79u8 {
                                    0x2fu8
                                } else {
                                    0x84u8
                                }
                            }
                        }
                    }
                } else {
                    if x < 88u8 {
                        if x < 84u8 {
                            if x < 82u8 {
                                if x < 81u8 {
                                    0x53u8
                                } else {
                                    0xd1u8
                                }
                            } else {
                                if x < 83u8 {
                                    0x00u8
                                } else {
                                    0xedu8
                                }
                            }
                        } else {
                            if x < 86u8 {
                                if x < 85u8 {
                                    0x20u8
                                } else {
                                    0xfcu8
                                }
                            } else {
                                if x < 87u8 {
                                    0xb1u8
                                } else {
                                    0x5bu8
                                }
                            }
                        }
                    } else {
                        if x < 92u8 {
                            if x < 90u8 {
                                if x < 89u8 {
                                    0x6au8
                                } else {
                                    0xcbu8
                                }
                            } else {
                                if x < 91u8 {
                                    0xbeu8
                                } else {
                                    0x39u8
                                }
                            }
                        } else {
                            if x < 94u8 {
                                if x < 93u8 {
                                    0x4au8
                                } else {
                                    0x4cu8
                                }
                            } else {
                                if x < 95u8 {
                                    0x58u8
                                } else {
                                    0xcfu8
                                }
                            }
                        }
                    }
                }
            } else {
                if x < 112u8 {
                    if x < 104u8 {
                        if x < 100u8 {
                            if x < 98u8 {
                                if x < 97u8 {
                                    0xd0u8
                                } else {
                                    0xefu8
                                }
                            } else {
                                if x < 99u8 {
                                    0xaau8
                                } else {
                                    0xfbu8
                                }
                            }
                        } else {
                            if x < 102u8 {
                                if x < 101u8 {
                                    0x43u8
                                } else {
                                    0x4du8
                                }
                            } else {
                                if x < 103u8 {
                                    0x33u8
                                } else {
                                    0x85u8
                                }
                            }
                        }
                    } else {
                        if x < 108u8 {
                            if x < 106u8 {
                                if x < 105u8 {
                                    0x45u8
                                } else {
                                    0xf9u8
                                }
                            } else {
                                if x < 107u8 {
                                    0x02u8
                                } else {
                                    0x7fu8
                                }
                            }
                        } else {
                            if x < 110u8 {
                                if x < 109u8 {
                                    0x50u8
                                } else {
                                    0x3cu8
                                }
                            } else {
                                if x < 111u8 {
                                    0x9fu8
                                } else {
                                    0xa8u8
                                }
                            }
                        }
                    }
                } else {
                    if x < 120u8 {
                        if x < 116u8 {
                            if x < 114u8 {
                                if x < 113u8 {
                                    0x51u8
                                } else {
                                    0xa3u8
                                }
                            } else {
                                if x < 115u8 {
                                    0x40u8
                                } else {
                                    0x8fu8
                                }
                            }
                        } else {
                            if x < 118u8 {
                                if x < 117u8 {
                                    0x92u8
                                } else {
                                    0x9du8
                                }
                            } else {
                                if x < 119u8 {
                                    0x38u8
                                } else {
                                    0xf5u8
                                }
                            }
                        }
                    } else {
                        if x < 124u8 {
                            if x < 122u8 {
                                if x < 121u8 {
                                    0xbcu8
                                } else {
                                    0xb6u8
                                }
                            } else {
                                if x < 123u8 {
                                    0xdau8
                                } else {
                                    0x21u8
                                }
                            }
                        } else {
                            if x < 126u8 {
                                if x < 125u8 {
                                    0x10u8
                                } else {
                                    0xffu8
                                }
                            } else {
                                if x < 127u8 {
                                    0xf3u8
                                } else {
                                    0xd2u8
                                }
                            }
                        }
                    }
                }
            }
        }
    } else {
        if x < 192u8 {
            if x < 160u8 {
                if x < 144u8 {
                    if x < 136u8 {
                        if x < 132u8 {
                            if x < 130u8 {
                                if x < 129u8 {
                                    0xcdu8
                                } else {
                                    0x0cu8
                                }
                            } else {
                                if x < 131u8 {
                                    0x13u8
                                } else {
                                    0xecu8
                                }
                            }
                        } else {
                            if x < 134u8 {
                                if x < 133u8 {
                                    0x5fu8
                                } else {
                                    0x97u8
                                }
                            } else {
                                if x < 135u8 {
                                    0x44u8
                                } else {
                                    0x17u8
                                }
                            }
                        }
                    } else {
                        if x < 140u8 {
                            if x < 138u8 {
                                if x < 137u8 {
                                    0xc4u8
                                } else {
                                    0xa7u8
                                }
                            } else {
                                if x < 139u8 {
                                    0x7eu8
                                } else {
                                    0x3du8
                                }
                            }
                        } else {
                            if x < 142u8 {
                                if x < 141u8 {
                                    0x64u8
                                } else {
                                    0x5du8
                                }
                            } else {
                                if x < 143u8 {
                                    0x19u8
                                } else {
                                    0x73u8
                                }
                            }
                        }
                    }
                } else {
                    if x < 152u8 {
                        if x < 148u8 {
                            if x < 146u8 {
                                if x < 145u8 {
                                    0x60u8
                                } else {
                                    0x81u8
                                }
                            } else {
                                if x < 147u8 {
                                    0x4fu8
                                } else {
                                    0xdcu8
                                }
                            }
                        } else {
                            if x < 150u8 {
                                if x < 149u8 {
                                    0x22u8
                                } else {
                                    0x2au8
                                }
                            } else {
                                if x < 151u8 {
                                    0x90u8
                                } else {
                                    0x88u8
                                }
                            }
                        }
                    } else {
                        if x < 156u8 {
                            if x < 154u8 {
                                if x < 153u8 {
                                    0x46u8
                                } else {
                                    0xeeu8
                                }
                            } else {
                                if x < 155u8 {
                                    0xb8u8
                                } else {
                                    0x14u8
                                }
                            }
                        } else {
                            if x < 158u8 {
                                if x < 157u8 {
                                    0xdeu8
                                } else {
                                    0x5eu8
                                }
                            } else {
                                if x < 159u8 {
                                    0x0bu8
                                } else {
                                    0xdbu8
                                }
                            }
                        }
                    }
                }
            } else {
                if x < 176u8 {
                    if x < 168u8 {
                        if x < 164u8 {
                            if x < 162u8 {
                                if x < 161u8 {
                                    0xe0u8
                                } else {
                                    0x32u8
                                }
                            } else {
                                if x < 163u8 {
                                    0x3au8
                                } else {
                                    0x0au8
                                }
                            }
                        } else {
                            if x < 166u8 {
                                if x < 165u8 {
                                    0x49u8
                                } else {
                                    0x06u8
                                }
                            } else {
                                if x < 167u8 {
                                    0x24u8
                                } else {
                                    0x5cu8
                                }
                            }
                        }
                    } else {
                        if x < 172u8 {
                            if x < 170u8 {
                                if x < 169u8 {
                                    0xc2u8
                                } else {
                                    0xd3u8
                                }
                            } else {
                                if x < 171u8 {
                                    0xacu8
                                } else {
                                    0x62u8
                                }
                            }
                        } else {
                            if x < 174u8 {
                                if x < 173u8 {
                                    0x91u8
                                } else {
                                    0x95u8
                                }
                            } else {
                                if x < 175u8 {
                                    0xe4u8
                                } else {
                                    0x79u8
                                }
                            }
                        }
                    }
                } else {
                    if x < 184u8 {
                        if x < 180u8 {
                            if x < 178u8 {
                                if x < 177u8 {
                                    0xe7u8
                                } else {
                                    0xc8u8
                                }
                            } else {
                                if x < 179u8 {
                                    0x37u8
                                } else {
                                    0x6du8
                                }
                            }
                        } else {
                            if x < 182u8 {
                                if x < 181u8 {
                                    0x8du8
                                } else {
                                    0xd5u8
                                }
                            } else {
                                if x < 183u8 {
                                    0x4eu8
                                } else {
                                    0xa9u8
                                }
                            }
                        }
                    } else {
                        if x < 188u8 {
                            if x < 186u8 {
                                if x < 185u8 {
                                    0x6cu8
                                } else {
                                    0x56u8
                                }
                            } else {
                                if x < 187u8 {
                                    0xf4u8
                                } else {
                                    0xeau8
                                }
                            }
                        } else {
                            if x < 190u8 {
                                if x < 189u8 {
                                    0x65u8
                                } else {
                                    0x7au8
                                }
                            } else {
                                if x < 191u8 {
                                    0xaeu8
                                } else {
                                    0x08u8
                                }
                            }
                        }
                    }
                }
            }
        } else {
            if x < 224u8 {
                if x < 208u8 {
                    if x < 200u8 {
                        if x < 196u8 {
                            if x < 194u8 {
                                if x < 193u8 {
                                    0xbau8
                                } else {
                                    0x78u8
                                }
                            } else {
                                if x < 195u8 {
                                    0x25u8
                                } else {
                                    0x2eu8
                                }
                            }
                        } else {
                            if x < 198u8 {
                                if x < 197u8 {
                                    0x1cu8
                                } else {
                                    0xa6u8
                                }
                            } else {
                                if x < 199u8 {
                                    0xb4u8
                                } else {
                                    0xc6u8
                                }
                            }
                        }
                    } else {
                        if x < 204u8 {
                            if x < 202u8 {
                                if x < 201u8 {
                                    0xe8u8
                                } else {
                                    0xddu8
                                }
                            } else {
                                if x < 203u8 {
                                    0x74u8
                                } else {
                                    0x1fu8
                                }
                            }
                        } else {
                            if x < 206u8 {
                                if x < 205u8 {
                                    0x4bu8
                                } else {
                                    0xbdu8
                                }
                            } else {
                                if x < 207u8 {
                                    0x8bu8
                                } else {
                                    0x8au8
                                }
                            }
                        }
                    }
                } else {
                    if x < 216u8 {
                        if x < 212u8 {
                            if x < 210u8 {
                                if x < 209u8 {
                                    0x70u8
                                } else {
                                    0x3eu8
                                }
                            } else {
                                if x < 211u8 {
                                    0xb5u8
                                } else {
                                    0x66u8
                                }
                            }
                        } else {
                            if x < 214u8 {
                                if x < 213u8 {
                                    0x48u8
                                } else {
                                    0x03u8
                                }
                            } else {
                                if x < 215u8 {
                                    0xf6u8
                                } else {
                                    0x0eu8
                                }
                            }
                        }
                    } else {
                        if x < 220u8 {
                            if x < 218u8 {
                                if x < 217u8 {
                                    0x61u8
                                } else {
                                    0x35u8
                                }
                            } else {
                                if x < 219u8 {
                                    0x57u8
                                } else {
                                    0xb9u8
                                }
                            }
                        } else {
                            if x < 222u8 {
                                if x < 221u8 {
                                    0x86u8
                                } else {
                                    0xc1u8
                                }
                            } else {
                                if x < 223u8 {
                                    0x1du8
                                } else {
                                    0x9eu8
                                }
                            }
                        }
                    }
                }
            } else {
                if x < 240u8 {
                    if x < 232u8 {
                        if x < 228u8 {
                            if x < 226u8 {
                                if x < 225u8 {
                                    0xe1u8
                                } else {
                                    0xf8u8
                                }
                            } else {
                                if x < 227u8 {
                                    0x98u8
                                } else {
                                    0x11u8
                                }
                            }
                        } else {
                            if x < 230u8 {
                                if x < 229u8 {
                                    0x69u8
                                } else {
                                    0xd9u8
                                }
                            } else {
                                if x < 231u8 {
                                    0x8eu8
                                } else {
                                    0x94u8
                                }
                            }
                        }
                    } else {
                        if x < 236u8 {
                            if x < 234u8 {
                                if x < 233u8 {
                                    0x9bu8
                                } else {
                                    0x1eu8
                                }
                            } else {
                                if x < 235u8 {
                                    0x87u8
                                } else {
                                    0xe9u8
                                }
                            }
                        } else {
                            if x < 238u8 {
                                if x < 237u8 {
                                    0xceu8
                                } else {
                                    0x55u8
                                }
                            } else {
                                if x < 239u8 {
                                    0x28u8
                                } else {
                                    0xdfu8
                                }
                            }
                        }
                    }
                } else {
                    if x < 248u8 {
                        if x < 244u8 {
                            if x < 242u8 {
                                if x < 241u8 {
                                    0x8cu8
                                } else {
                                    0xa1u8
                                }
                            } else {
                                if x < 243u8 {
                                    0x89u8
                                } else {
                                    0x0du8
                                }
                            }
                        } else {
                            if x < 246u8 {
                                if x < 245u8 {
                                    0xbfu8
                                } else {
                                    0xe6u8
                                }
                            } else {
                                if x < 247u8 {
                                    0x42u8
                                } else {
                                    0x68u8
                                }
                            }
                        }
                    } else {
                        if x < 252u8 {
                            if x < 250u8 {
                                if x < 249u8 {
                                    0x41u8
                                } else {
                                    0x99u8
                                }
                            } else {
                                if x < 251u8 {
                                    0x2du8
                                } else {
                                    0x0fu8
                                }
                            }
                        } else {
                            if x < 254u8 {
                                if x < 253u8 {
                                    0xb0u8
                                } else {
                                    0x54u8
                                }
                            } else {
                                if x < 255u8 {
                                    0xbbu8
                                } else {
                                    0x16u8
                                }
                            }
                        }
                    }
                }
            }
        }
    }
}

#[verifier::rlimit(100)]
proof fn lemma_sbox_by_cases(
    x: u8,
    x2: u8,
    x3: u8,
    x6: u8,
    x7: u8,
    x14: u8,
    x15: u8,
    x30: u8,
    x31: u8,
    x62: u8,
    x63: u8,
    x126: u8,
    x127: u8,
    x254: u8,
)
    by (bit_vector)
    requires
        x2 == gf_mul(x, x),
        x3 == gf_mul(x2, x),
        x6 == gf_mul(x3, x3),
        x7 == gf_mul(x6, x),
        x14 == gf_mul(x7, x7),
        x15 == gf_mul(x14, x),
        x30 == gf_mul(x15, x15),
        x31 == gf_mul(x30, x),
        x62 == gf_mul(x31, x31),
        x63 == gf_mul(x62, x),
        x126 == gf_mul(x63, x63),
        x127 == gf_mul(x126, x),
        x254 == gf_mul(x127, x127),
    ensures
        affine(x254) == sbox_by_cases(x),
{
}

proof fn lemma_table_by_cases(x: u8)
    ensures
        S_BOX@[x as int] == sbox_by_cases(x),
{
    if x == 0 {
    } else if x == 1 {
    } else if x == 2 {
    } else if x == 3 {
    } else if x == 4 {
    } else if x == 5 {
    } else if x == 6 {
    } else if x == 7 {
    } else if x == 8 {
    } else if x == 9 {
    } else if x == 10 {
    } else if x == 11 {
    } else if x == 12 {
    } else if x == 13 {
    } else if x == 14 {
    } else if x == 15 {
    } else if x == 16 {
    } else if x == 17 {
    } else if x == 18 {
    } else if x == 19 {
    } else if x == 20 {
    } else if x == 21 {
    } else if x == 22 {
    } else if x == 23 {
    } else if x == 24 {
    } else if x == 25 {
    } else if x == 26 {
    } else if x == 27 {
    } else if x == 28 {
    } else if x == 29 {
    } else if x == 30 {
    } else if x == 31 {
    } else if x == 32 {
    } else if x == 33 {
    } else if x == 34 {
    } else if x == 35 {
    } else if x == 36 {
    } else if x == 37 {
    } else if x == 38 {
    } else if x == 39 {
    } else if x == 40 {
    } else if x == 41 {
    } else if x == 42 {
    } else if x == 43 {
    } else if x == 44 {
    } else if x == 45 {
    } else if x == 46 {
    } else if x == 47 {
    } else if x == 48 {
    } else if x == 49 {
    } else if x == 50 {
    } else if x == 51 {
    } else if x == 52 {
    } else if x == 53 {
    } else if x == 54 {
    } else if x == 55 {
    } else if x == 56 {
    } else if x == 57 {
    } else if x == 58 {
    } else if x == 59 {
    } else if x == 60 {
    } else if x == 61 {
    } else if x == 62 {
    } else if x == 63 {
    } else if x == 64 {
    } else if x == 65 {
    } else if x == 66 {
    } else if x == 67 {
    } else if x == 68 {
    } else if x == 69 {
    } else if x == 70 {
    } else if x == 71 {
    } else if x == 72 {
    } else if x == 73 {
    } else if x == 74 {
    } else if x == 75 {
    } else if x == 76 {
    } else if x == 77 {
    } else if x == 78 {
    } else if x == 79 {
    } else if x == 80 {
    } else if x == 81 {
    } else if x == 82 {
    } else if x == 83 {
    } else if x == 84 {
    } else if x == 85 {
    } else if x == 86 {
    } else if x == 87 {
    } else if x == 88 {
    } else if x == 89 {
    } else if x == 90 {
    } else if x == 91 {
    } else if x == 92 {
    } else if x == 93 {
    } else if x == 94 {
    } else if x == 95 {
    } else if x == 96 {
    } else if x == 97 {
    } else if x == 98 {
    } else if x == 99 {
    } else if x == 100 {
    } else if x == 101 {
    } else if x == 102 {
    } else if x == 103 {
    } else if x == 104 {
    } else if x == 105 {
    } else if x == 106 {
    } else if x == 107 {
    } else if x == 108 {
    } else if x == 109 {
    } else if x == 110 {
    } else if x == 111 {
    } else if x == 112 {
    } else if x == 113 {
    } else if x == 114 {
    } else if x == 115 {
    } else if x == 116 {
    } else if x == 117 {
    } else if x == 118 {
    } else if x == 119 {
    } else if x == 120 {
    } else if x == 121 {
    } else if x == 122 {
    } else if x == 123 {
    } else if x == 124 {
    } else if x == 125 {
    } else if x == 126 {
    } else if x == 127 {
    } else if x == 128 {
    } else if x == 129 {
    } else if x == 130 {
    } else if x == 131 {
    } else if x == 132 {
    } else if x == 133 {
    } else if x == 134 {
    } else if x == 135 {
    } else if x == 136 {
    } else if x == 137 {
    } else if x == 138 {
    } else if x == 139 {
    } else if x == 140 {
    } else if x == 141 {
    } else if x == 142 {
    } else if x == 143 {
    } else if x == 144 {
    } else if x == 145 {
    } else if x == 146 {
    } else if x == 147 {
    } else if x == 148 {
    } else if x == 149 {
    } else if x == 150 {
    } else if x == 151 {
    } else if x == 152 {
    } else if x == 153 {
    } else if x == 154 {
    } else if x == 155 {
    } else if x == 156 {
    } else if x == 157 {
    } else if x == 158 {
    } else if x == 159 {
    } else if x == 160 {
    } else if x == 161 {
    } else if x == 162 {
    } else if x == 163 {
    } else if x == 164 {
    } else if x == 165 {
    } else if x == 166 {
    } else if x == 167 {
    } else if x == 168 {
    } else if x == 169 {
    } else if x == 170 {
    } else if x == 171 {
    } else if x == 172 {
    } else if x == 173 {
    } else if x == 174 {
    } else if x == 175 {
    } else if x == 176 {
    } else if x == 177 {
    } else if x == 178 {
    } else if x == 179 {
    } else if x == 180 {
    } else if x == 181 {
    } else if x == 182 {
    } else if x == 183 {
    } else if x == 184 {
    } else if x == 185 {
    } else if x == 186 {
    } else if x == 187 {
    } else if x == 188 {
    } else if x == 189 {
    } else if x == 190 {
    } else if x == 191 {
    } else if x == 192 {
    } else if x == 193 {
    } else if x == 194 {
    } else if x == 195 {
    } else if x == 196 {
    } else if x == 197 {
    } else if x == 198 {
    } else if x == 199 {
    } else if x == 200 {
    } else if x == 201 {
    } else if x == 202 {
    } else if x == 203 {
    } else if x == 204 {
    } else if x == 205 {
    } else if x == 206 {
    } else if x == 207 {
    } else if x == 208 {
    } else if x == 209 {
    } else if x == 210 {
    } else if x == 211 {
    } else if x == 212 {
    } else if x == 213 {
    } else if x == 214 {
    } else if x == 215 {
    } else if x == 216 {
    } else if x == 217 {
    } else if x == 218 {
    } else if x == 219 {
    } else if x == 220 {
    } else if x == 221 {
    } else if x == 222 {
    } else if x == 223 {
    } else if x == 224 {
    } else if x == 225 {
    } else if x == 226 {
    } else if x == 227 {
    } else if x == 228 {
    } else if x == 229 {
    } else if x == 230 {
    } else if x == 231 {
    } else if x == 232 {
    } else if x == 233 {
    } else if x == 234 {
    } else if x == 235 {
    } else if x == 236 {
    } else if x == 237 {
    } else if x == 238 {
    } else if x == 239 {
    } else if x == 240 {
    } else if x == 241 {
    } else if x == 242 {
    } else if x == 243 {
    } else if x == 244 {
    } else if x == 245 {
    } else if x == 246 {
    } else if x == 247 {
    } else if x == 248 {
    } else if x == 249 {
    } else if x == 250 {
    } else if x == 251 {
    } else if x == 252 {
    } else if x == 253 {
    } else if x == 254 {
    } else {
    }
}

/// Every entry of `S_BOX` is the S-box of FIPS-197.
pub proof fn lemma_s_box_table(x: u8)
    ensures
        S_BOX@[x as int] == sbox(x),
{
    let x2 = gf_mul(x, x);
    let x3 = gf_mul(x2, x);
    let x6 = gf_mul(x3, x3);
    let x7 = gf_mul(x6, x);
    let x14 = gf_mul(x7, x7);
    let x15 = gf_mul(x14, x);
    let x30 = gf_mul(x15, x15);
    let x31 = gf_mul(x30, x);
    let x62 = gf_mul(x31, x31);
    let x63 = gf_mul(x62, x);
    let x126 = gf_mul(x63, x63);
    let x127 = gf_mul(x126, x);
    let x254 = gf_mul(x127, x127);
    lemma_sbox_by_cases(x, x2, x3, x6, x7, x14, x15, x30, x31, x62, x63, x126, x127, x254);
    lemma_table_by_cases(x);
}

/// `S_BOX_INV` undoes `S_BOX`.
pub proof fn lemma_s_box_inverse(x: u8)
    ensures
        S_BOX_INV@[S_BOX@[x as int] as int] == x,
{
    if x == 0 {
    } else if x == 1 {
    } else if x == 2 {
    } else if x == 3 {
    } else if x == 4 {
    } else if x == 5 {
    } else if x == 6 {
    } else if x == 7 {
    } else if x == 8 {
    } else if x == 9 {
    } else if x == 10 {
    } else if x == 11 {
    } else if x == 12 {
    } else if x == 13 {
    } else if x == 14 {
    } else if x == 15 {
    } else if x == 16 {
    } else if x == 17 {
    } else if x == 18 {
    } else if x == 19 {
    } else if x == 20 {
    } else if x == 21 {
    } else if x == 22 {
    } else if x == 23 {
    } else if x == 24 {
    } else if x == 25 {
    } else if x == 26 {
    } else if x == 27 {
    } else if x == 28 {
    } else if x == 29 {
    } else if x == 30 {
    } else if x == 31 {
    } else if x == 32 {
    } else if x == 33 {
    } else if x == 34 {
    } else if x == 35 {
    } else if x == 36 {
    } else if x == 37 {
    } else if x == 38 {
    } else if x == 39 {
    } else if x == 40 {
    } else if x == 41 {
    } else if x == 42 {
    } else if x == 43 {
    } else if x == 44 {
    } else if x == 45 {
    } else if x == 46 {
    } else if x == 47 {
    } else if x == 48 {
    } else if x == 49 {
    } else if x == 50 {
    } else if x == 51 {
    } else if x == 52 {
    } else if x == 53 {
    } else if x == 54 {
    } else if x == 55 {
    } else if x == 56 {
    } else if x == 57 {
    } else if x == 58 {
    } else if x == 59 {
    } else if x == 60 {
    } else if x == 61 {
    } else if x == 62 {
    } else if x == 63 {
    } else if x == 64 {
    } else if x == 65 {
    } else if x == 66 {
    } else if x == 67 {
    } else if x == 68 {
    } else if x == 69 {
    } else if x == 70 {
    } else if x == 71 {
    } else if x == 72 {
    } else if x == 73 {
    } else if x == 74 {
    } else if x == 75 {
    } else if x == 76 {
    } else if x == 77 {
    } else if x == 78 {
    } else if x == 79 {
    } else if x == 80 {
    } else if x == 81 {
    } else if x == 82 {
    } else if x == 83 {
    } else if x == 84 {
    } else if x == 85 {
    } else if x == 86 {
    } else if x == 87 {
    } else if x == 88 {
    } else if x == 89 {
    } else if x == 90 {
    } else if x == 91 {
    } else if x == 92 {
    } else if x == 93 {
    } else if x == 94 {
    } else if x == 95 {
    } else if x == 96 {
    } else if x == 97 {
    } else if x == 98 {
    } else if x == 99 {
    } else if x == 100 {
    } else if x == 101 {
    } else if x == 102 {
    } else if x == 103 {
    } else if x == 104 {
    } else if x == 105 {
    } else if x == 106 {
    } else if x == 107 {
    } else if x == 108 {
    } else if x == 109 {
    } else if x == 110 {
    } else if x == 111 {
    } else if x == 112 {
    } else if x == 113 {
    } else if x == 114 {
    } else if x == 115 {
    } else if x == 116 {
    } else if x == 117 {
    } else if x == 118 {
    } else if x == 119 {
    } else if x == 120 {
    } else if x == 121 {
    } else if x == 122 {
    } else if x == 123 {
    } else if x == 124 {
    } else if x == 125 {
    } else if x == 126 {
    } else if x == 127 {
    } else if x == 128 {
    } else if x == 129 {
    } else if x == 130 {
    } else if x == 131 {
    } else if x == 132 {
    } else if x == 133 {
    } else if x == 134 {
    } else if x == 135 {
    } else if x == 136 {
    } else if x == 137 {
    } else if x == 138 {
    } else if x == 139 {
    } else if x == 140 {
    } else if x == 141 {
    } else if x == 142 {
    } else if x == 143 {
    } else if x == 144 {
    } else if x == 145 {
    } else if x == 146 {
    } else if x == 147 {
    } else if x == 148 {
    } else if x == 149 {
    } else if x == 150 {
    } else if x == 151 {
    } else if x == 152 {
    } else if x == 153 {
    } else if x == 154 {
    } else if x == 155 {
    } else if x == 156 {
    } else if x == 157 {
    } else if x == 158 {
    } else if x == 159 {
    } else if x == 160 {
    } else if x == 161 {
    } else if x == 162 {
    } else if x == 163 {
    } else if x == 164 {
    } else if x == 165 {
    } else if x == 166 {
    } else if x == 167 {
    } else if x == 168 {
    } else if x == 169 {
    } else if x == 170 {
    } else if x == 171 {
    } else if x == 172 {
    } else if x == 173 {
    } else if x == 174 {
    } else if x == 175 {
    } else if x == 176 {
    } else if x == 177 {
    } else if x == 178 {
    } else if x == 179 {
    } else if x == 180 {
    } else if x == 181 {
    } else if x == 182 {
    } else if x == 183 {
    } else if x == 184 {
    } else if x == 185 {
    } else if x == 186 {
    } else if x == 187 {
    } else if x == 188 {
    } else if x == 189 {
    } else if x == 190 {
    } else if x == 191 {
    } else if x == 192 {
    } else if x == 193 {
    } else if x == 194 {
    } else if x == 195 {
    } else if x == 196 {
    } else if x == 197 {
    } else if x == 198 {
    } else if x == 199 {
    } else if x == 200 {
    } else if x == 201 {
    } else if x == 202 {
    } else if x == 203 {
    } else if x == 204 {
    } else if x == 205 {
    } else if x == 206 {
    } else if x == 207 {
    } else if x == 208 {
    } else if x == 209 {
    } else if x == 210 {
    } else if x == 211 {
    } else if x == 212 {
    } else if x == 213 {
    } else if x == 214 {
    } else if x == 215 {
    } else if x == 216 {
    } else if x == 217 {
    } else if x == 218 {
    } else if x == 219 {
    } else if x == 220 {
    } else if x == 221 {
    } else if x == 222 {
    } else if x == 223 {
    } else if x == 224 {
    } else if x == 225 {
    } else if x == 226 {
    } else if x == 227 {
    } else if x == 228 {
    } else if x == 229 {
    } else if x == 230 {
    } else if x == 231 {
    } else if x == 232 {
    } else if x == 233 {
    } else if x == 234 {
    } else if x == 235 {
    } else if x == 236 {
    } else if x == 237 {
    } else if x == 238 {
    } else if x == 239 {
    } else if x == 240 {
    } else if x == 241 {
    } else if x == 242 {
    } else if x == 243 {
    } else if x == 244 {
    } else if x == 245 {
    } else if x == 246 {
    } else if x == 247 {
    } else if x == 248 {
    } else if x == 249 {
    } else if x == 250 {
    } else if x == 251 {
    } else if x == 252 {
    } else if x == 253 {
    } else if x == 254 {
    } else {
    }
}


/// 1 is the unit and 0 the zero of GF(2^8) multiplication.
pub proof fn lemma_gf_mul_unit_zero(a: u8)
    by (bit_vector)
    ensures
        gf_mul(1u8, a) == a,
        gf_mul(a, 1u8) == a,
        gf_mul(0u8, a) == 0u8,
        gf_mul(a, 0u8) == 0u8,
{
}

/// Multiplication by a fixed element distributes over xor.
pub proof fn lemma_gf_mul_xor(c: u8, x: u8, y: u8)
    by (bit_vector)
    ensures
        gf_mul(c, x ^ y) == gf_mul(c, x) ^ gf_mul(c, y),
{
}

/// What byte 0 of a column contributes to each byte of the column after
/// MixColumns followed by inverse MixColumns.
proof fn lemma_mix_inverse_contribution_0(a: u8)
    by (bit_vector)
    ensures
        gf_mul(0x0eu8, gf_mul(0x02u8, a)) ^ gf_mul(0x0bu8, gf_mul(0x01u8, a)) ^ gf_mul(0x0du8, gf_mul(0x01u8, a)) ^ gf_mul(0x09u8, gf_mul(0x03u8, a)) == a,
        gf_mul(0x09u8, gf_mul(0x02u8, a)) ^ gf_mul(0x0eu8, gf_mul(0x01u8, a)) ^ gf_mul(0x0bu8, gf_mul(0x01u8, a)) ^ gf_mul(0x0du8, gf_mul(0x03u8, a)) == 0u8,
        gf_mul(0x0du8, gf_mul(0x02u8, a)) ^ gf_mul(0x09u8, gf_mul(0x01u8, a)) ^ gf_mul(0x0eu8, gf_mul(0x01u8, a)) ^ gf_mul(0x0bu8, gf_mul(0x03u8, a)) == 0u8,
        gf_mul(0x0bu8, gf_mul(0x02u8, a)) ^ gf_mul(0x0du8, gf_mul(0x01u8, a)) ^ gf_mul(0x09u8, gf_mul(0x01u8, a)) ^ gf_mul(0x0eu8, gf_mul(0x03u8, a)) == 0u8,
{
}

/// What byte 1 of a column contributes to each byte of the column after
/// MixColumns followed by inverse MixColumns.
proof fn lemma_mix_inverse_contribution_1(a: u8)
    by (bit_vector)
    ensures
        gf_mul(0x0eu8, gf_mul(0x03u8, a)) ^ gf_mul(0x0bu8, gf_mul(0x02u8, a)) ^ gf_mul(0x0du8, gf_mul(0x01u8, a)) ^ gf_mul(0x09u8, gf_mul(0x01u8, a)) == 0u8,
        gf_mul(0x09u8, gf_mul(0x03u8, a)) ^ gf_mul(0x0eu8, gf_mul(0x02u8, a)) ^ gf_mul(0x0bu8, gf_mul(0x01u8, a)) ^ gf_mul(0x0du8, gf_mul(0x01u8, a)) == a,
        gf_mul(0x0du8, gf_mul(0x03u8, a)) ^ gf_mul(0x09u8, gf_mul(0x02u8, a)) ^ gf_mul(0x0eu8, gf_mul(0x01u8, a)) ^ gf_mul(0x0bu8, gf_mul(0x01u8, a)) == 0u8,
        gf_mul(0x0bu8, gf_mul(0x03u8, a)) ^ gf_mul(0x0du8, gf_mul(0x02u8, a)) ^ gf_mul(0x09u8, gf_mul(0x01u8, a)) ^ gf_mul(0x0eu8, gf_mul(0x01u8, a)) == 0u8,
{
}

/// What byte 2 of a column contributes to each byte of the column after
/// MixColumns followed by inverse MixColumns.
proof fn lemma_mix_inverse_contribution_2(a: u8)
    by (bit_vector)
    ensures
        gf_mul(0x0eu8, gf_mul(0x01u8, a)) ^ gf_mul(0x0bu8, gf_mul(0x03u8, a)) ^ gf_mul(0x0du8, gf_mul(0x02u8, a)) ^ gf_mul(0x09u8, gf_mul(0x01u8, a)) == 0u8,
        gf_mul(0x09u8, gf_mul(0x01u8, a)) ^ gf_mul(0x0eu8, gf_mul(0x03u8, a)) ^ gf_mul(0x0bu8, gf_mul(0x02u8, a)) ^ gf_mul(0x0du8, gf_mul(0x01u8, a)) == 0u8,
        gf_mul(0x0du8, gf_mul(0x01u8, a)) ^ gf_mul(0x09u8, gf_mul(0x03u8, a)) ^ gf_mul(0x0eu8, gf_mul(0x02u8, a)) ^ gf_mul(0x0bu8, gf_mul(0x01u8, a)) == a,
        gf_mul(0x0bu8, gf_mul(0x01u8, a)) ^ gf_mul(0x0du8, gf_mul(0x03u8, a)) ^ gf_mul(0x09u8, gf_mul(0x02u8, a)) ^ gf_mul(0x0eu8, gf_mul(0x01u8, a)) == 0u8,
{
}

/// What byte 3 of a column contributes to each byte of the column after
/// MixColumns followed by inverse MixColumns.
proof fn lemma_mix_inverse_contribution_3(a: u8)
    by (bit_vector)
    ensures
        gf_mul(0x0eu8, gf_mul(0x01u8, a)) ^ gf_mul(0x0bu8, gf_mul(0x01u8, a)) ^ gf_mul(0x0du8, gf_mul(0x03u8, a)) ^ gf_mul(0x09u8, gf_mul(0x02u8, a)) == 0u8,
        gf_mul(0x09u8, gf_mul(0x01u8, a)) ^ gf_mul(0x0eu8, gf_mul(0x01u8, a)) ^ gf_mul(0x0bu8, gf_mul(0x03u8, a)) ^ gf_mul(0x0du8, gf_mul(0x02u8, a)) == 0u8,
        gf_mul(0x0du8, gf_mul(0x01u8, a)) ^ gf_mul(0x09u8, gf_mul(0x01u8, a)) ^ gf_mul(0x0eu8, gf_mul(0x03u8, a)) ^ gf_mul(0x0bu8, gf_mul(0x02u8, a)) == 0u8,
        gf_mul(0x0bu8, gf_mul(0x01u8, a)) ^ gf_mul(0x0du8, gf_mul(0x01u8, a)) ^ gf_mul(0x09u8, gf_mul(0x03u8, a)) ^ gf_mul(0x0eu8, gf_mul(0x02u8, a)) == a,
{
}

proof fn lemma_xor_regroup(
    g00: u8, g01: u8, g02: u8, g03: u8,
    g10: u8, g11: u8, g12: u8, g13: u8,
    g20: u8, g21: u8, g22: u8, g23: u8,
    g30: u8, g31: u8, g32: u8, g33: u8,
)
    by (bit_vector)
    ensures
        (g00 ^ g01 ^ g02 ^ g03) ^ (g10 ^ g11 ^ g12 ^ g13) ^ (g20 ^ g21 ^ g22 ^ g23) ^ (g30 ^ g31 ^ g32 ^ g33)
            == (g00 ^ g10 ^ g20 ^ g30) ^ (g01 ^ g11 ^ g21 ^ g31) ^ (g02 ^ g12 ^ g22 ^ g32) ^ (g03 ^ g13 ^ g23 ^ g33),
{
}

pub(crate) proof fn lemma_xor_unit(a: u8)
    by (bit_vector)
    ensures
        a ^ 0u8 ^ 0u8 ^ 0u8 == a,
        0u8 ^ a ^ 0u8 ^ 0u8 == a,
        0u8 ^ 0u8 ^ a ^ 0u8 == a,
        0u8 ^ 0u8 ^ 0u8 ^ a == a,
{
}

proof fn lemma_gf_mul_xor4(c: u8, x0: u8, x1: u8, x2: u8, x3: u8)
    ensures
        gf_mul(c, x0 ^ x1 ^ x2 ^ x3) == gf_mul(c, x0) ^ gf_mul(c, x1) ^ gf_mul(c, x2) ^ gf_mul(c, x3),
{
    lemma_gf_mul_xor(c, x0 ^ x1 ^ x2, x3);
    lemma_gf_mul_xor(c, x0 ^ x1, x2);
    lemma_gf_mul_xor(c, x0, x1);
}

/// Inverse MixColumns undoes MixColumns on one column `a0..a3`.
pub proof fn lemma_mix_column_inverse(a0: u8, a1: u8, a2: u8, a3: u8, m0: u8, m1: u8, m2: u8, m3: u8)
    requires
        m0 == gf_mul(0x02u8, a0) ^ gf_mul(0x03u8, a1) ^ gf_mul(0x01u8, a2) ^ gf_mul(0x01u8, a3),
        m1 == gf_mul(0x01u8, a0) ^ gf_mul(0x02u8, a1) ^ gf_mul(0x03u8, a2) ^ gf_mul(0x01u8, a3),
        m2 == gf_mul(0x01u8, a0) ^ gf_mul(0x01u8, a1) ^ gf_mul(0x02u8, a2) ^ gf_mul(0x03u8, a3),
        m3 == gf_mul(0x03u8, a0) ^ gf_mul(0x01u8, a1) ^ gf_mul(0x01u8, a2) ^ gf_mul(0x02u8, a3),
    ensures
        gf_mul(0x0eu8, m0) ^ gf_mul(0x0bu8, m1) ^ gf_mul(0x0du8, m2) ^ gf_mul(0x09u8, m3) == a0,
        gf_mul(0x09u8, m0) ^ gf_mul(0x0eu8, m1) ^ gf_mul(0x0bu8, m2) ^ gf_mul(0x0du8, m3) == a1,
        gf_mul(0x0du8, m0) ^ gf_mul(0x09u8, m1) ^ gf_mul(0x0eu8, m2) ^ gf_mul(0x0bu8, m3) == a2,
        gf_mul(0x0bu8, m0) ^ gf_mul(0x0du8, m1) ^ gf_mul(0x09u8, m2) ^ gf_mul(0x0eu8, m3) == a3,
{
    lemma_gf_mul_xor4(0x0eu8, gf_mul(0x02u8, a0), gf_mul(0x03u8, a1), gf_mul(0x01u8, a2), gf_mul(0x01u8, a3));
    lemma_gf_mul_xor4(0x0bu8, gf_mul(0x01u8, a0), gf_mul(0x02u8, a1), gf_mul(0x03u8, a2), gf_mul(0x01u8, a3));
    lemma_gf_mul_xor4(0x0du8, gf_mul(0x01u8, a0), gf_mul(0x01u8, a1), gf_mul(0x02u8, a2), gf_mul(0x03u8, a3));
    lemma_gf_mul_xor4(0x09u8, gf_mul(0x03u8, a0), gf_mul(0x01u8, a1), gf_mul(0x01u8, a2), gf_mul(0x02u8, a3));
    lemma_gf_mul_xor4(0x09u8, gf_mul(0x02u8, a0), gf_mul(0x03u8, a1), gf_mul(0x01u8, a2), gf_mul(0x01u8, a3));
    lemma_gf_mul_xor4(0x0eu8, gf_mul(0x01u8, a0), gf_mul(0x02u8, a1), gf_mul(0x03u8, a2), gf_mul(0x01u8, a3));
    lemma_gf_mul_xor4(0x0bu8, gf_mul(0x01u8, a0), gf_mul(0x01u8, a1), gf_mul(0x02u8, a2), gf_mul(0x03u8, a3));
    lemma_gf_mul_xor4(0x0du8, gf_mul(0x03u8, a0), gf_mul(0x01u8, a1), gf_mul(0x01u8, a2), gf_mul(0x02u8, a3));
    lemma_gf_mul_xor4(0x0du8, gf_mul(0x02u8, a0), gf_mul(0x03u8, a1), gf_mul(0x01u8, a2), gf_mul(0x01u8, a3));
    lemma_gf_mul_xor4(0x09u8, gf_mul(0x01u8, a0), gf_mul(0x02u8, a1), gf_mul(0x03u8, a2), gf_mul(0x01u8, a3));
    lemma_gf_mul_xor4(0x0eu8, gf_mul(0x01u8, a0), gf_mul(0x01u8, a1), gf_mul(0x02u8, a2), gf_mul(0x03u8, a3));
    lemma_gf_mul_xor4(0x0bu8, gf_mul(0x03u8, a0), gf_mul(0x01u8, a1), gf_mul(0x01u8, a2), gf_mul(0x02u8, a3));
    lemma_gf_mul_xor4(0x0bu8, gf_mul(0x02u8, a0), gf_mul(0x03u8, a1), gf_mul(0x01u8, a2), gf_mul(0x01u8, a3));
    lemma_gf_mul_xor4(0x0du8, gf_mul(0x01u8, a0), gf_mul(0x02u8, a1), gf_mul(0x03u8, a2), gf_mul(0x01u8, a3));
    lemma_gf_mul_xor4(0x09u8, gf_mul(0x01u8, a0), gf_mul(0x01u8, a1), gf_mul(0x02u8, a2), gf_mul(0x03u8, a3));
    lemma_gf_mul_xor4(0x0eu8, gf_mul(0x03u8, a0), gf_mul(0x01u8, a1), gf_mul(0x01u8, a2), gf_mul(0x02u8, a3));
    lemma_mix_inverse_contribution_0(a0);
    lemma_mix_inverse_contribution_1(a1);
    lemma_mix_inverse_contribution_2(a2);
    lemma_mix_inverse_contribution_3(a3);
    lemma_xor_regroup(gf_mul(0x0eu8, gf_mul(0x02u8, a0)), gf_mul(0x0eu8, gf_mul(0x03u8, a1)), gf_mul(0x0eu8, gf_mul(0x01u8, a2)), gf_mul(0x0eu8, gf_mul(0x01u8, a3)), gf_mul(0x0bu8, gf_mul(0x01u8, a0)), gf_mul(0x0bu8, gf_mul(0x02u8, a1)), gf_mul(0x0bu8, gf_mul(0x03u8, a2)), gf_mul(0x0bu8, gf_mul(0x01u8, a3)), gf_mul(0x0du8, gf_mul(0x01u8, a0)), gf_mul(0x0du8, gf_mul(0x01u8, a1)), gf_mul(0x0du8, gf_mul(0x02u8, a2)), gf_mul(0x0du8, gf_mul(0x03u8, a3)), gf_mul(0x09u8, gf_mul(0x03u8, a0)), gf_mul(0x09u8, gf_mul(0x01u8, a1)), gf_mul(0x09u8, gf_mul(0x01u8, a2)), gf_mul(0x09u8, gf_mul(0x02u8, a3)));
    lemma_xor_regroup(gf_mul(0x09u8, gf_mul(0x02u8, a0)), gf_mul(0x09u8, gf_mul(0x03u8, a1)), gf_mul(0x09u8, gf_mul(0x01u8, a2)), gf_mul(0x09u8, gf_mul(0x01u8, a3)), gf_mul(0x0eu8, gf_mul(0x01u8, a0)), gf_mul(0x0eu8, gf_mul(0x02u8, a1)), gf_mul(0x0eu8, gf_mul(0x03u8, a2)), gf_mul(0x0eu8, gf_mul(0x01u8, a3)), gf_mul(0x0bu8, gf_mul(0x01u8, a0)), gf_mul(0x0bu8, gf_mul(0x01u8, a1)), gf_mul(0x0bu8, gf_mul(0x02u8, a2)), gf_mul(0x0bu8, gf_mul(0x03u8, a3)), gf_mul(0x0du8, gf_mul(0x03u8, a0)), gf_mul(0x0du8, gf_mul(0x01u8, a1)), gf_mul(0x0du8, gf_mul(0x01u8, a2)), gf_mul(0x0du8, gf_mul(0x02u8, a3)));
    lemma_xor_regroup(gf_mul(0x0du8, gf_mul(0x02u8, a0)), gf_mul(0x0du8, gf_mul(0x03u8, a1)), gf_mul(0x0du8, gf_mul(0x01u8, a2)), gf_mul(0x0du8, gf_mul(0x01u8, a3)), gf_mul(0x09u8, gf_mul(0x01u8, a0)), gf_mul(0x09u8, gf_mul(0x02u8, a1)), gf_mul(0x09u8, gf_mul(0x03u8, a2)), gf_mul(0x09u8, gf_mul(0x01u8, a3)), gf_mul(0x0eu8, gf_mul(0x01u8, a0)), gf_mul(0x0eu8, gf_mul(0x01u8, a1)), gf_mul(0x0eu8, gf_mul(0x02u8, a2)), gf_mul(0x0eu8, gf_mul(0x03u8, a3)), gf_mul(0x0bu8, gf_mul(0x03u8, a0)), gf_mul(0x0bu8, gf_mul(0x01u8, a1)), gf_mul(0x0bu8, gf_mul(0x01u8, a2)), gf_mul(0x0bu8, gf_mul(0x02u8, a3)));
    lemma_xor_regroup(gf_mul(0x0bu8, gf_mul(0x02u8, a0)), gf_mul(0x0bu8, gf_mul(0x03u8, a1)), gf_mul(0x0bu8, gf_mul(0x01u8, a2)), gf_mul(0x0bu8, gf_mul(0x01u8, a3)), gf_mul(0x0du8, gf_mul(0x01u8, a0)), gf_mul(0x0du8, gf_mul(0x02u8, a1)), gf_mul(0x0du8, gf_mul(0x03u8, a2)), gf_mul(0x0du8, gf_mul(0x01u8, a3)), gf_mul(0x09u8, gf_mul(0x01u8, a0)), gf_mul(0x09u8, gf_mul(0x01u8, a1)), gf_mul(0x09u8, gf_mul(0x02u8, a2)), gf_mul(0x09u8, gf_mul(0x03u8, a3)), gf_mul(0x0eu8, gf_mul(0x03u8, a0)), gf_mul(0x0eu8, gf_mul(0x01u8, a1)), gf_mul(0x0eu8, gf_mul(0x01u8, a2)), gf_mul(0x0eu8, gf_mul(0x02u8, a3)));
    lemma_xor_unit(a0);
    lemma_xor_unit(a1);
    lemma_xor_unit(a2);
    lemma_xor_unit(a3);
}


/// `S_BOX` undoes `S_BOX_INV`.
pub proof fn lemma_s_box_inverse_other(x: u8)
    ensures
        S_BOX@[S_BOX_INV@[x as int] as int] == x,
{
    if x == 0 {
    } else if x == 1 {
    } else if x == 2 {
    } else if x == 3 {
    } else if x == 4 {
    } else if x == 5 {
    } else if x == 6 {
    } else if x == 7 {
    } else if x == 8 {
    } else if x == 9 {
    } else if x == 10 {
    } else if x == 11 {
    } else if x == 12 {
    } else if x == 13 {
    } else if x == 14 {
    } else if x == 15 {
    } else if x == 16 {
    } else if x == 17 {
    } else if x == 18 {
    } else if x == 19 {
    } else if x == 20 {
    } else if x == 21 {
    } else if x == 22 {
    } else if x == 23 {
    } else if x == 24 {
    } else if x == 25 {
    } else if x == 26 {
    } else if x == 27 {
    } else if x == 28 {
    } else if x == 29 {
    } else if x == 30 {
    } else if x == 31 {
    } else if x == 32 {
    } else if x == 33 {
    } else if x == 34 {
    } else if x == 35 {
    } else if x == 36 {
    } else if x == 37 {
    } else if x == 38 {
    } else if x == 39 {
    } else if x == 40 {
    } else if x == 41 {
    } else if x == 42 {
    } else if x == 43 {
    } else if x == 44 {
    } else if x == 45 {
    } else if x == 46 {
    } else if x == 47 {
    } else if x == 48 {
    } else if x == 49 {
    } else if x == 50 {
    } else if x == 51 {
    } else if x == 52 {
    } else if x == 53 {
    } else if x == 54 {
    } else if x == 55 {
    } else if x == 56 {
    } else if x == 57 {
    } else if x == 58 {
    } else if x == 59 {
    } else if x == 60 {
    } else if x == 61 {
    } else if x == 62 {
    } else if x == 63 {
    } else if x == 64 {
    } else if x == 65 {
    } else if x == 66 {
    } else if x == 67 {
    } else if x == 68 {
    } else if x == 69 {
    } else if x == 70 {
    } else if x == 71 {
    } else if x == 72 {
    } else if x == 73 {
    } else if x == 74 {
    } else if x == 75 {
    } else if x == 76 {
    } else if x == 77 {
    } else if x == 78 {
    } else if x == 79 {
    } else if x == 80 {
    } else if x == 81 {
    } else if x == 82 {
    } else if x == 83 {
    } else if x == 84 {
    } else if x == 85 {
    } else if x == 86 {
    } else if x == 87 {
    } else if x == 88 {
    } else if x == 89 {
    } else if x == 90 {
    } else if x == 91 {
    } else if x == 92 {
    } else if x == 93 {
    } else if x == 94 {
    } else if x == 95 {
    } else if x == 96 {
    } else if x == 97 {
    } else if x == 98 {
    } else if x == 99 {
    } else if x == 100 {
    } else if x == 101 {
    } else if x == 102 {
    } else if x == 103 {
    } else if x == 104 {
    } else if x == 105 {
    } else if x == 106 {
    } else if x == 107 {
    } else if x == 108 {
    } else if x == 109 {
    } else if x == 110 {
    } else if x == 111 {
    } else if x == 112 {
    } else if x == 113 {
    } else if x == 114 {
    } else if x == 115 {
    } else if x == 116 {
    } else if x == 117 {
    } else if x == 118 {
    } else if x == 119 {
    } else if x == 120 {
    } else if x == 121 {
    } else if x == 122 {
    } else if x == 123 {
    } else if x == 124 {
    } else if x == 125 {
    } else if x == 126 {
    } else if x == 127 {
    } else if x == 128 {
    } else if x == 129 {
    } else if x == 130 {
    } else if x == 131 {
    } else if x == 132 {
    } else if x == 133 {
    } else if x == 134 {
    } else if x == 135 {
    } else if x == 136 {
    } else if x == 137 {
    } else if x == 138 {
    } else if x == 139 {
    } else if x == 140 {
    } else if x == 141 {
    } else if x == 142 {
    } else if x == 143 {
    } else if x == 144 {
    } else if x == 145 {
    } else if x == 146 {
    } else if x == 147 {
    } else if x == 148 {
    } else if x == 149 {
    } else if x == 150 {
    } else if x == 151 {
    } else if x == 152 {
    } else if x == 153 {
    } else if x == 154 {
    } else if x == 155 {
    } else if x == 156 {
    } else if x == 157 {
    } else if x == 158 {
    } else if x == 159 {
    } else if x == 160 {
    } else if x == 161 {
    } else if x == 162 {
    } else if x == 163 {
    } else if x == 164 {
    } else if x == 165 {
    } else if x == 166 {
    } else if x == 167 {
    } else if x == 168 {
    } else if x == 169 {
    } else if x == 170 {
    } else if x == 171 {
    } else if x == 172 {
    } else if x == 173 {
    } else if x == 174 {
    } else if x == 175 {
    } else if x == 176 {
    } else if x == 177 {
    } else if x == 178 {
    } else if x == 179 {
    } else if x == 180 {
    } else if x == 181 {
    } else if x == 182 {
    } else if x == 183 {
    } else if x == 184 {
    } else if x == 185 {
    } else if x == 186 {
    } else if x == 187 {
    } else if x == 188 {
    } else if x == 189 {
    } else if x == 190 {
    } else if x == 191 {
    } else if x == 192 {
    } else if x == 193 {
    } else if x == 194 {
    } else if x == 195 {
    } else if x == 196 {
    } else if x == 197 {
    } else if x == 198 {
    } else if x == 199 {
    } else if x == 200 {
    } else if x == 201 {
    } else if x == 202 {
    } else if x == 203 {
    } else if x == 204 {
    } else if x == 205 {
    } else if x == 206 {
    } else if x == 207 {
    } else if x == 208 {
    } else if x == 209 {
    } else if x == 210 {
    } else if x == 211 {
    } else if x == 212 {
    } else if x == 213 {
    } else if x == 214 {
    } else if x == 215 {
    } else if x == 216 {
    } else if x == 217 {
    } else if x == 218 {
    } else if x == 219 {
    } else if x == 220 {
    } else if x == 221 {
    } else if x == 222 {
    } else if x == 223 {
    } else if x == 224 {
    } else if x == 225 {
    } else if x == 226 {
    } else if x == 227 {
    } else if x == 228 {
    } else if x == 229 {
    } else if x == 230 {
    } else if x == 231 {
    } else if x == 232 {
    } else if x == 233 {
    } else if x == 234 {
    } else if x == 235 {
    } else if x == 236 {
    } else if x == 237 {
    } else if x == 238 {
    } else if x == 239 {
    } else if x == 240 {
    } else if x == 241 {
    } else if x == 242 {
    } else if x == 243 {
    } else if x == 244 {
    } else if x == 245 {
    } else if x == 246 {
    } else if x == 247 {
    } else if x == 248 {
    } else if x == 249 {
    } else if x == 250 {
    } else if x == 251 {
    } else if x == 252 {
    } else if x == 253 {
    } else if x == 254 {
    } else {
    }
}

/// What byte 0 of a column contributes to each byte of the column after
/// inverse MixColumns followed by MixColumns.
proof fn lemma_inv_mix_contribution_0(a: u8)
    by (bit_vector)
    ensures
        gf_mul(0x02u8, gf_mul(0x0eu8, a)) ^ gf_mul(0x03u8, gf_mul(0x09u8, a)) ^ gf_mul(0x01u8, gf_mul(0x0du8, a)) ^ gf_mul(0x01u8, gf_mul(0x0bu8, a)) == a,
        gf_mul(0x01u8, gf_mul(0x0eu8, a)) ^ gf_mul(0x02u8, gf_mul(0x09u8, a)) ^ gf_mul(0x03u8, gf_mul(0x0du8, a)) ^ gf_mul(0x01u8, gf_mul(0x0bu8, a)) == 0u8,
        gf_mul(0x01u8, gf_mul(0x0eu8, a)) ^ gf_mul(0x01u8, gf_mul(0x09u8, a)) ^ gf_mul(0x02u8, gf_mul(0x0du8, a)) ^ gf_mul(0x03u8, gf_mul(0x0bu8, a)) == 0u8,
        gf_mul(0x03u8, gf_mul(0x0eu8, a)) ^ gf_mul(0x01u8, gf_mul(0x09u8, a)) ^ gf_mul(0x01u8, gf_mul(0x0du8, a)) ^ gf_mul(0x02u8, gf_mul(0x0bu8, a)) == 0u8,
{
}

/// What byte 1 of a column contributes to each byte of the column after
/// inverse MixColumns followed by MixColumns.
proof fn lemma_inv_mix_contribution_1(a: u8)
    by (bit_vector)
    ensures
        gf_mul(0x02u8, gf_mul(0x0bu8, a)) ^ gf_mul(0x03u8, gf_mul(0x0eu8, a)) ^ gf_mul(0x01u8, gf_mul(0x09u8, a)) ^ gf_mul(0x01u8, gf_mul(0x0du8, a)) == 0u8,
        gf_mul(0x01u8, gf_mul(0x0bu8, a)) ^ gf_mul(0x02u8, gf_mul(0x0eu8, a)) ^ gf_mul(0x03u8, gf_mul(0x09u8, a)) ^ gf_mul(0x01u8, gf_mul(0x0du8, a)) == a,
        gf_mul(0x01u8, gf_mul(0x0bu8, a)) ^ gf_mul(0x01u8, gf_mul(0x0eu8, a)) ^ gf_mul(0x02u8, gf_mul(0x09u8, a)) ^ gf_mul(0x03u8, gf_mul(0x0du8, a)) == 0u8,
        gf_mul(0x03u8, gf_mul(0x0bu8, a)) ^ gf_mul(0x01u8, gf_mul(0x0eu8, a)) ^ gf_mul(0x01u8, gf_mul(0x09u8, a)) ^ gf_mul(0x02u8, gf_mul(0x0du8, a)) == 0u8,
{
}

/// What byte 2 of a column contributes to each byte of the column after
/// inverse MixColumns followed by MixColumns.
proof fn lemma_inv_mix_contribution_2(a: u8)
    by (bit_vector)
    ensures
        gf_mul(0x02u8, gf_mul(0x0du8, a)) ^ gf_mul(0x03u8, gf_mul(0x0bu8, a)) ^ gf_mul(0x01u8, gf_mul(0x0eu8, a)) ^ gf_mul(0x01u8, gf_mul(0x09u8, a)) == 0u8,
        gf_mul(0x01u8, gf_mul(0x0du8, a)) ^ gf_mul(0x02u8, gf_mul(0x0bu8, a)) ^ gf_mul(0x03u8, gf_mul(0x0eu8, a)) ^ gf_mul(0x01u8, gf_mul(0x09u8, a)) == 0u8,
        gf_mul(0x01u8, gf_mul(0x0du8, a)) ^ gf_mul(0x01u8, gf_mul(0x0bu8, a)) ^ gf_mul(0x02u8, gf_mul(0x0eu8, a)) ^ gf_mul(0x03u8, gf_mul(0x09u8, a)) == a,
        gf_mul(0x03u8, gf_mul(0x0du8, a)) ^ gf_mul(0x01u8, gf_mul(0x0bu8, a)) ^ gf_mul(0x01u8, gf_mul(0x0eu8, a)) ^ gf_mul(0x02u8, gf_mul(0x09u8, a)) == 0u8,
{
}

/// What byte 3 of a column contributes to each byte of the column after
/// inverse MixColumns followed by MixColumns.
proof fn lemma_inv_mix_contribution_3(a: u8)
    by (bit_vector)
    ensures
        gf_mul(0x02u8, gf_mul(0x09u8, a)) ^ gf_mul(0x03u8, gf_mul(0x0du8, a)) ^ gf_mul(0x01u8, gf_mul(0x0bu8, a)) ^ gf_mul(0x01u8, gf_mul(0x0eu8, a)) == 0u8,
        gf_mul(0x01u8, gf_mul(0x09u8, a)) ^ gf_mul(0x02u8, gf_mul(0x0du8, a)) ^ gf_mul(0x03u8, gf_mul(0x0bu8, a)) ^ gf_mul(0x01u8, gf_mul(0x0eu8, a)) == 0u8,
        gf_mul(0x01u8, gf_mul(0x09u8, a)) ^ gf_mul(0x01u8, gf_mul(0x0du8, a)) ^ gf_mul(0x02u8, gf_mul(0x0bu8, a)) ^ gf_mul(0x03u8, gf_mul(0x0eu8, a)) == 0u8,
        gf_mul(0x03u8, gf_mul(0x09u8, a)) ^ gf_mul(0x01u8, gf_mul(0x0du8, a)) ^ gf_mul(0x01u8, gf_mul(0x0bu8, a)) ^ gf_mul(0x02u8, gf_mul(0x0eu8, a)) == a,
{
}

/// MixColumns undoes inverse MixColumns on one column `a0..a3`.
pub proof fn lemma_inv_mix_column_inverse(a0: u8, a1: u8, a2: u8, a3: u8, m0: u8, m1: u8, m2: u8, m3: u8)
    requires
        m0 == gf_mul(0x0eu8, a0) ^ gf_mul(0x0bu8, a1) ^ gf_mul(0x0du8, a2) ^ gf_mul(0x09u8, a3),
        m1 == gf_mul(0x09u8, a0) ^ gf_mul(0x0eu8, a1) ^ gf_mul(0x0bu8, a2) ^ gf_mul(0x0du8, a3),
        m2 == gf_mul(0x0du8, a0) ^ gf_mul(0x09u8, a1) ^ gf_mul(0x0eu8, a2) ^ gf_mul(0x0bu8, a3),
        m3 == gf_mul(0x0bu8, a0) ^ gf_mul(0x0du8, a1) ^ gf_mul(0x09u8, a2) ^ gf_mul(0x0eu8, a3),
    ensures
        gf_mul(0x02u8, m0) ^ gf_mul(0x03u8, m1) ^ gf_mul(0x01u8, m2) ^ gf_mul(0x01u8, m3) == a0,
        gf_mul(0x01u8, m0) ^ gf_mul(0x02u8, m1) ^ gf_mul(0x03u8, m2) ^ gf_mul(0x01u8, m3) == a1,
        gf_mul(0x01u8, m0) ^ gf_mul(0x01u8, m1) ^ gf_mul(0x02u8, m2) ^ gf_mul(0x03u8, m3) == a2,
        gf_mul(0x03u8, m0) ^ gf_mul(0x01u8, m1) ^ gf_mul(0x01u8, m2) ^ gf_mul(0x02u8, m3) == a3,
{
    lemma_gf_mul_xor4(0x02u8, gf_mul(0x0eu8, a0), gf_mul(0x0bu8, a1), gf_mul(0x0du8, a2), gf_mul(0x09u8, a3));
    lemma_gf_mul_xor4(0x03u8, gf_mul(0x09u8, a0), gf_mul(0x0eu8, a1), gf_mul(0x0bu8, a2), gf_mul(0x0du8, a3));
    lemma_gf_mul_xor4(0x01u8, gf_mul(0x0du8, a0), gf_mul(0x09u8, a1), gf_mul(0x0eu8, a2), gf_mul(0x0bu8, a3));
    lemma_gf_mul_xor4(0x01u8, gf_mul(0x0bu8, a0), gf_mul(0x0du8, a1), gf_mul(0x09u8, a2), gf_mul(0x0eu8, a3));
    lemma_gf_mul_xor4(0x01u8, gf_mul(0x0eu8, a0), gf_mul(0x0bu8, a1), gf_mul(0x0du8, a2), gf_mul(0x09u8, a3));
    lemma_gf_mul_xor4(0x02u8, gf_mul(0x09u8, a0), gf_mul(0x0eu8, a1), gf_mul(0x0bu8, a2), gf_mul(0x0du8, a3));
    lemma_gf_mul_xor4(0x03u8, gf_mul(0x0du8, a0), gf_mul(0x09u8, a1), gf_mul(0x0eu8, a2), gf_mul(0x0bu8, a3));
    lemma_gf_mul_xor4(0x01u8, gf_mul(0x0bu8, a0), gf_mul(0x0du8, a1), gf_mul(0x09u8, a2), gf_mul(0x0eu8, a3));
    lemma_gf_mul_xor4(0x01u8, gf_mul(0x0eu8, a0), gf_mul(0x0bu8, a1), gf_mul(0x0du8, a2), gf_mul(0x09u8, a3));
    lemma_gf_mul_xor4(0x01u8, gf_mul(0x09u8, a0), gf_mul(0x0eu8, a1), gf_mul(0x0bu8, a2), gf_mul(0x0du8, a3));
    lemma_gf_mul_xor4(0x02u8, gf_mul(0x0du8, a0), gf_mul(0x09u8, a1), gf_mul(0x0eu8, a2), gf_mul(0x0bu8, a3));
    lemma_gf_mul_xor4(0x03u8, gf_mul(0x0bu8, a0), gf_mul(0x0du8, a1), gf_mul(0x09u8, a2), gf_mul(0x0eu8, a3));
    lemma_gf_mul_xor4(0x03u8, gf_mul(0x0eu8, a0), gf_mul(0x0bu8, a1), gf_mul(0x0du8, a2), gf_mul(0x09u8, a3));
    lemma_gf_mul_xor4(0x01u8, gf_mul(0x09u8, a0), gf_mul(0x0eu8, a1), gf_mul(0x0bu8, a2), gf_mul(0x0du8, a3));
    lemma_gf_mul_xor4(0x01u8, gf_mul(0x0du8, a0), gf_mul(0x09u8, a1), gf_mul(0x0eu8, a2), gf_mul(0x0bu8, a3));
    lemma_gf_mul_xor4(0x02u8, gf_mul(0x0bu8, a0), gf_mul(0x0du8, a1), gf_mul(0x09u8, a2), gf_mul(0x0eu8, a3));
    lemma_inv_mix_contribution_0(a0);
    lemma_inv_mix_contribution_1(a1);
    lemma_inv_mix_contribution_2(a2);
    lemma_inv_mix_contribution_3(a3);
    lemma_xor_regroup(gf_mul(0x02u8, gf_mul(0x0eu8, a0)), gf_mul(0x02u8, gf_mul(0x0bu8, a1)), gf_mul(0x02u8, gf_mul(0x0du8, a2)), gf_mul(0x02u8, gf_mul(0x09u8, a3)), gf_mul(0x03u8, gf_mul(0x09u8, a0)), gf_mul(0x03u8, gf_mul(0x0eu8, a1)), gf_mul(0x03u8, gf_mul(0x0bu8, a2)), gf_mul(0x03u8, gf_mul(0x0du8, a3)), gf_mul(0x01u8, gf_mul(0x0du8, a0)), gf_mul(0x01u8, gf_mul(0x09u8, a1)), gf_mul(0x01u8, gf_mul(0x0eu8, a2)), gf_mul(0x01u8, gf_mul(0x0bu8, a3)), gf_mul(0x01u8, gf_mul(0x0bu8, a0)), gf_mul(0x01u8, gf_mul(0x0du8, a1)), gf_mul(0x01u8, gf_mul(0x09u8, a2)), gf_mul(0x01u8, gf_mul(0x0eu8, a3)));
    lemma_xor_regroup(gf_mul(0x01u8, gf_mul(0x0eu8, a0)), gf_mul(0x01u8, gf_mul(0x0bu8, a1)), gf_mul(0x01u8, gf_mul(0x0du8, a2)), gf_mul(0x01u8, gf_mul(0x09u8, a3)), gf_mul(0x02u8, gf_mul(0x09u8, a0)), gf_mul(0x02u8, gf_mul(0x0eu8, a1)), gf_mul(0x02u8, gf_mul(0x0bu8, a2)), gf_mul(0x02u8, gf_mul(0x0du8, a3)), gf_mul(0x03u8, gf_mul(0x0du8, a0)), gf_mul(0x03u8, gf_mul(0x09u8, a1)), gf_mul(0x03u8, gf_mul(0x0eu8, a2)), gf_mul(0x03u8, gf_mul(0x0bu8, a3)), gf_mul(0x01u8, gf_mul(0x0bu8, a0)), gf_mul(0x01u8, gf_mul(0x0du8, a1)), gf_mul(0x01u8, gf_mul(0x09u8, a2)), gf_mul(0x01u8, gf_mul(0x0eu8, a3)));
    lemma_xor_regroup(gf_mul(0x01u8, gf_mul(0x0eu8, a0)), gf_mul(0x01u8, gf_mul(0x0bu8, a1)), gf_mul(0x01u8, gf_mul(0x0du8, a2)), gf_mul(0x01u8, gf_mul(0x09u8, a3)), gf_mul(0x01u8, gf_mul(0x09u8, a0)), gf_mul(0x01u8, gf_mul(0x0eu8, a1)), gf_mul(0x01u8, gf_mul(0x0bu8, a2)), gf_mul(0x01u8, gf_mul(0x0du8, a3)), gf_mul(0x02u8, gf_mul(0x0du8, a0)), gf_mul(0x02u8, gf_mul(0x09u8, a1)), gf_mul(0x02u8, gf_mul(0x0eu8, a2)), gf_mul(0x02u8, gf_mul(0x0bu8, a3)), gf_mul(0x03u8, gf_mul(0x0bu8, a0)), gf_mul(0x03u8, gf_mul(0x0du8, a1)), gf_mul(0x03u8, gf_mul(0x09u8, a2)), gf_mul(0x03u8, gf_mul(0x0eu8, a3)));
    lemma_xor_regroup(gf_mul(0x03u8, gf_mul(0x0eu8, a0)), gf_mul(0x03u8, gf_mul(0x0bu8, a1)), gf_mul(0x03u8, gf_mul(0x0du8, a2)), gf_mul(0x03u8, gf_mul(0x09u8, a3)), gf_mul(0x01u8, gf_mul(0x09u8, a0)), gf_mul(0x01u8, gf_mul(0x0eu8, a1)), gf_mul(0x01u8, gf_mul(0x0bu8, a2)), gf_mul(0x01u8, gf_mul(0x0du8, a3)), gf_mul(0x01u8, gf_mul(0x0du8, a0)), gf_mul(0x01u8, gf_mul(0x09u8, a1)), gf_mul(0x01u8, gf_mul(0x0eu8, a2)), gf_mul(0x01u8, gf_mul(0x0bu8, a3)), gf_mul(0x02u8, gf_mul(0x0bu8, a0)), gf_mul(0x02u8, gf_mul(0x0du8, a1)), gf_mul(0x02u8, gf_mul(0x09u8, a2)), gf_mul(0x02u8, gf_mul(0x0eu8, a3)));
    lemma_xor_unit(a0);
    lemma_xor_unit(a1);
    lemma_xor_unit(a2);
    lemma_xor_unit(a3);
}

// ---------------------------------------------------------------------------
// Executable arithmetic
// ---------------------------------------------------------------------------

fn xtime_byte(a: u8) -> (r: u8)
    ensures
        r == xtime(a),
{
    if a & 0x80u8 == 0 {
        a << 1u8
    } else {
        (a << 1u8) ^ 0x1bu8
    }
}

/// The product of two bytes in GF(2^8).
pub fn gf_mul_byte(a: u8, b: u8) -> (r: u8)
    ensures
        r == gf_mul(a, b),
{
    let a1 = xtime_byte(a);
    let a2 = xtime_byte(a1);
    let a3 = xtime_byte(a2);
    let a4 = xtime_byte(a3);
    let a5 = xtime_byte(a4);
    let a6 = xtime_byte(a5);
    let a7 = xtime_byte(a6);
    (if b & 0x01u8 != 0 { a } else { 0u8 }) ^ (if b & 0x02u8 != 0 { a1 } else { 0u8 }) ^ (if b
        & 0x04u8 != 0 { a2 } else { 0u8 }) ^ (if b & 0x08u8 != 0 { a3 } else { 0u8 }) ^ (if b
        & 0x10u8 != 0 { a4 } else { 0u8 }) ^ (if b & 0x20u8 != 0 { a5 } else { 0u8 }) ^ (if b
        & 0x40u8 != 0 { a6 } else { 0u8 }) ^ (if b & 0x80u8 != 0 { a7 } else { 0u8 })
}

/// The product in GF(2^8) of two bytes held in `u16`s.
pub fn multiply(a: &u16, b: &u16) -> (r: u16)
    requires
        *a < 256,
        *b < 256,
    ensures
        r == gf_mul(*a as u8, *b as u8) as u16,
{
    gf_mul_byte(*a as u8, *b as u8) as u16
}

fn rotl8_byte(b: u8, n: u8) -> (r: u8)
    requires
        0 < n < 8,
    ensures
        r == rotl8(b, n),
{
    (b << n) | (b >> (8 - n))
}

/// The S-box of `x`, computed from its definition: the affine image of the
/// inverse of `x` in GF(2^8).
pub fn s_box(x: &u8) -> (r: u8)
    ensures
        r == sbox(*x),
        r == S_BOX@[*x as int],
{
    let x = *x;
    let x2 = gf_mul_byte(x, x);
    let x3 = gf_mul_byte(x2, x);
    let x6 = gf_mul_byte(x3, x3);
    let x7 = gf_mul_byte(x6, x);
    let x14 = gf_mul_byte(x7, x7);
    let x15 = gf_mul_byte(x14, x);
    let x30 = gf_mul_byte(x15, x15);
    let x31 = gf_mul_byte(x30, x);
    let x62 = gf_mul_byte(x31, x31);
    let x63 = gf_mul_byte(x62, x);
    let x126 = gf_mul_byte(x63, x63);
    let x127 = gf_mul_byte(x126, x);
    let b = gf_mul_byte(x127, x127);
    proof {
        lemma_s_box_table(x);
    }
    b ^ rotl8_byte(b, 1) ^ rotl8_byte(b, 2) ^ rotl8_byte(b, 3) ^ rotl8_byte(b, 4) ^ 0x63u8
}

} // verus!
