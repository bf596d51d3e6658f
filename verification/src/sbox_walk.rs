//! The walk over the nonzero elements of GF(2^8) that builds the Rijndael
//! substitution box, tabulated so that the bit-vector solver can follow it.

use vstd::prelude::*;

use crate::crypto::SBOX;

verus! {

/// Multiplication by 3 in GF(2^8) modulo the Rijndael polynomial.
pub open spec fn times_three(p: u8) -> u8 {
    p ^ ((p << 1u8) ^ (((p >> 7u8) * 0x1b) as u8))
}

/// Division by 3 in GF(2^8) modulo the Rijndael polynomial.
pub open spec fn third(q: u8) -> u8 {
    let q1 = q ^ (q << 1u8);
    let q2 = q1 ^ (q1 << 2u8);
    let q3 = q2 ^ (q2 << 4u8);
    q3 ^ (((q3 >> 7u8) * 0x09) as u8)
}

/// Rotation of a byte to the left by `n` bits, for `0 < n < 8`.
pub open spec fn spec_rotl8(v: u8, n: u8) -> u8 {
    (v << n) | (v >> ((8 - n) as u8))
}

/// The affine part of the Rijndael substitution, without its constant 0x63.
pub open spec fn affine(q: u8) -> u8 {
    q ^ spec_rotl8(q, 1) ^ spec_rotl8(q, 2) ^ spec_rotl8(q, 3) ^ spec_rotl8(q, 4)
}

/// The point reached after `k` steps of the walk from 1: three to the power `k`.
pub(crate) closed spec fn walk_point(k: u8) -> u8 {
    if k < 128 {
        if k < 64 {
            if k < 32 {
                if k < 16 {
                    if k < 8 {
                        if k < 4 {
                            if k < 2 {
                                if k < 1 { 0x01 } else { 0x03 }
                            } else {
                                if k < 3 { 0x05 } else { 0x0f }
                            }
                        } else {
                            if k < 6 {
                                if k < 5 { 0x11 } else { 0x33 }
                            } else {
                                if k < 7 { 0x55 } else { 0xff }
                            }
                        }
                    } else {
                        if k < 12 {
                            if k < 10 {
                                if k < 9 { 0x1a } else { 0x2e }
                            } else {
                                if k < 11 { 0x72 } else { 0x96 }
                            }
                        } else {
                            if k < 14 {
                                if k < 13 { 0xa1 } else { 0xf8 }
                            } else {
                                if k < 15 { 0x13 } else { 0x35 }
                            }
                        }
                    }
                } else {
                    if k < 24 {
                        if k < 20 {
                            if k < 18 {
                                if k < 17 { 0x5f } else { 0xe1 }
                            } else {
                                if k < 19 { 0x38 } else { 0x48 }
                            }
                        } else {
                            if k < 22 {
                                if k < 21 { 0xd8 } else { 0x73 }
                            } else {
                                if k < 23 { 0x95 } else { 0xa4 }
                            }
                        }
                    } else {
                        if k < 28 {
                            if k < 26 {
                                if k < 25 { 0xf7 } else { 0x02 }
                            } else {
                                if k < 27 { 0x06 } else { 0x0a }
                            }
                        } else {
                            if k < 30 {
                                if k < 29 { 0x1e } else { 0x22 }
                            } else {
                                if k < 31 { 0x66 } else { 0xaa }
                            }
                        }
                    }
                }
            } else {
                if k < 48 {
                    if k < 40 {
                        if k < 36 {
                            if k < 34 {
                                if k < 33 { 0xe5 } else { 0x34 }
                            } else {
                                if k < 35 { 0x5c } else { 0xe4 }
                            }
                        } else {
                            if k < 38 {
                                if k < 37 { 0x37 } else { 0x59 }
                            } else {
                                if k < 39 { 0xeb } else { 0x26 }
                            }
                        }
                    } else {
                        if k < 44 {
                            if k < 42 {
                                if k < 41 { 0x6a } else { 0xbe }
                            } else {
                                if k < 43 { 0xd9 } else { 0x70 }
                            }
                        } else {
                            if k < 46 {
                                if k < 45 { 0x90 } else { 0xab }
                            } else {
                                if k < 47 { 0xe6 } else { 0x31 }
                            }
                        }
                    }
                } else {
                    if k < 56 {
                        if k < 52 {
                            if k < 50 {
                                if k < 49 { 0x53 } else { 0xf5 }
                            } else {
                                if k < 51 { 0x04 } else { 0x0c }
                            }
                        } else {
                            if k < 54 {
                                if k < 53 { 0x14 } else { 0x3c }
                            } else {
                                if k < 55 { 0x44 } else { 0xcc }
                            }
                        }
                    } else {
                        if k < 60 {
                            if k < 58 {
                                if k < 57 { 0x4f } else { 0xd1 }
                            } else {
                                if k < 59 { 0x68 } else { 0xb8 }
                            }
                        } else {
                            if k < 62 {
                                if k < 61 { 0xd3 } else { 0x6e }
                            } else {
                                if k < 63 { 0xb2 } else { 0xcd }
                            }
                        }
                    }
                }
            }
        } else {
            if k < 96 {
                if k < 80 {
                    if k < 72 {
                        if k < 68 {
                            if k < 66 {
                                if k < 65 { 0x4c } else { 0xd4 }
                            } else {
                                if k < 67 { 0x67 } else { 0xa9 }
                            }
                        } else {
                            if k < 70 {
                                if k < 69 { 0xe0 } else { 0x3b }
                            } else {
                                if k < 71 { 0x4d } else { 0xd7 }
                            }
                        }
                    } else {
                        if k < 76 {
                            if k < 74 {
                                if k < 73 { 0x62 } else { 0xa6 }
                            } else {
                                if k < 75 { 0xf1 } else { 0x08 }
                            }
                        } else {
                            if k < 78 {
                                if k < 77 { 0x18 } else { 0x28 }
                            } else {
                                if k < 79 { 0x78 } else { 0x88 }
                            }
                        }
                    }
                } else {
                    if k < 88 {
                        if k < 84 {
                            if k < 82 {
                                if k < 81 { 0x83 } else { 0x9e }
                            } else {
                                if k < 83 { 0xb9 } else { 0xd0 }
                            }
                        } else {
                            if k < 86 {
                                if k < 85 { 0x6b } else { 0xbd }
                            } else {
                                if k < 87 { 0xdc } else { 0x7f }
                            }
                        }
                    } else {
                        if k < 92 {
                            if k < 90 {
                                if k < 89 { 0x81 } else { 0x98 }
                            } else {
                                if k < 91 { 0xb3 } else { 0xce }
                            }
                        } else {
                            if k < 94 {
                                if k < 93 { 0x49 } else { 0xdb }
                            } else {
                                if k < 95 { 0x76 } else { 0x9a }
                            }
                        }
                    }
                }
            } else {
                if k < 112 {
                    if k < 104 {
                        if k < 100 {
                            if k < 98 {
                                if k < 97 { 0xb5 } else { 0xc4 }
                            } else {
                                if k < 99 { 0x57 } else { 0xf9 }
                            }
                        } else {
                            if k < 102 {
                                if k < 101 { 0x10 } else { 0x30 }
                            } else {
                                if k < 103 { 0x50 } else { 0xf0 }
                            }
                        }
                    } else {
                        if k < 108 {
                            if k < 106 {
                                if k < 105 { 0x0b } else { 0x1d }
                            } else {
                                if k < 107 { 0x27 } else { 0x69 }
                            }
                        } else {
                            if k < 110 {
                                if k < 109 { 0xbb } else { 0xd6 }
                            } else {
                                if k < 111 { 0x61 } else { 0xa3 }
                            }
                        }
                    }
                } else {
                    if k < 120 {
                        if k < 116 {
                            if k < 114 {
                                if k < 113 { 0xfe } else { 0x19 }
                            } else {
                                if k < 115 { 0x2b } else { 0x7d }
                            }
                        } else {
                            if k < 118 {
                                if k < 117 { 0x87 } else { 0x92 }
                            } else {
                                if k < 119 { 0xad } else { 0xec }
                            }
                        }
                    } else {
                        if k < 124 {
                            if k < 122 {
                                if k < 121 { 0x2f } else { 0x71 }
                            } else {
                                if k < 123 { 0x93 } else { 0xae }
                            }
                        } else {
                            if k < 126 {
                                if k < 125 { 0xe9 } else { 0x20 }
                            } else {
                                if k < 127 { 0x60 } else { 0xa0 }
                            }
                        }
                    }
                }
            }
        }
    } else {
        if k < 192 {
            if k < 160 {
                if k < 144 {
                    if k < 136 {
                        if k < 132 {
                            if k < 130 {
                                if k < 129 { 0xfb } else { 0x16 }
                            } else {
                                if k < 131 { 0x3a } else { 0x4e }
                            }
                        } else {
                            if k < 134 {
                                if k < 133 { 0xd2 } else { 0x6d }
                            } else {
                                if k < 135 { 0xb7 } else { 0xc2 }
                            }
                        }
                    } else {
                        if k < 140 {
                            if k < 138 {
                                if k < 137 { 0x5d } else { 0xe7 }
                            } else {
                                if k < 139 { 0x32 } else { 0x56 }
                            }
                        } else {
                            if k < 142 {
                                if k < 141 { 0xfa } else { 0x15 }
                            } else {
                                if k < 143 { 0x3f } else { 0x41 }
                            }
                        }
                    }
                } else {
                    if k < 152 {
                        if k < 148 {
                            if k < 146 {
                                if k < 145 { 0xc3 } else { 0x5e }
                            } else {
                                if k < 147 { 0xe2 } else { 0x3d }
                            }
                        } else {
                            if k < 150 {
                                if k < 149 { 0x47 } else { 0xc9 }
                            } else {
                                if k < 151 { 0x40 } else { 0xc0 }
                            }
                        }
                    } else {
                        if k < 156 {
                            if k < 154 {
                                if k < 153 { 0x5b } else { 0xed }
                            } else {
                                if k < 155 { 0x2c } else { 0x74 }
                            }
                        } else {
                            if k < 158 {
                                if k < 157 { 0x9c } else { 0xbf }
                            } else {
                                if k < 159 { 0xda } else { 0x75 }
                            }
                        }
                    }
                }
            } else {
                if k < 176 {
                    if k < 168 {
                        if k < 164 {
                            if k < 162 {
                                if k < 161 { 0x9f } else { 0xba }
                            } else {
                                if k < 163 { 0xd5 } else { 0x64 }
                            }
                        } else {
                            if k < 166 {
                                if k < 165 { 0xac } else { 0xef }
                            } else {
                                if k < 167 { 0x2a } else { 0x7e }
                            }
                        }
                    } else {
                        if k < 172 {
                            if k < 170 {
                                if k < 169 { 0x82 } else { 0x9d }
                            } else {
                                if k < 171 { 0xbc } else { 0xdf }
                            }
                        } else {
                            if k < 174 {
                                if k < 173 { 0x7a } else { 0x8e }
                            } else {
                                if k < 175 { 0x89 } else { 0x80 }
                            }
                        }
                    }
                } else {
                    if k < 184 {
                        if k < 180 {
                            if k < 178 {
                                if k < 177 { 0x9b } else { 0xb6 }
                            } else {
                                if k < 179 { 0xc1 } else { 0x58 }
                            }
                        } else {
                            if k < 182 {
                                if k < 181 { 0xe8 } else { 0x23 }
                            } else {
                                if k < 183 { 0x65 } else { 0xaf }
                            }
                        }
                    } else {
                        if k < 188 {
                            if k < 186 {
                                if k < 185 { 0xea } else { 0x25 }
                            } else {
                                if k < 187 { 0x6f } else { 0xb1 }
                            }
                        } else {
                            if k < 190 {
                                if k < 189 { 0xc8 } else { 0x43 }
                            } else {
                                if k < 191 { 0xc5 } else { 0x54 }
                            }
                        }
                    }
                }
            }
        } else {
            if k < 224 {
                if k < 208 {
                    if k < 200 {
                        if k < 196 {
                            if k < 194 {
                                if k < 193 { 0xfc } else { 0x1f }
                            } else {
                                if k < 195 { 0x21 } else { 0x63 }
                            }
                        } else {
                            if k < 198 {
                                if k < 197 { 0xa5 } else { 0xf4 }
                            } else {
                                if k < 199 { 0x07 } else { 0x09 }
                            }
                        }
                    } else {
                        if k < 204 {
                            if k < 202 {
                                if k < 201 { 0x1b } else { 0x2d }
                            } else {
                                if k < 203 { 0x77 } else { 0x99 }
                            }
                        } else {
                            if k < 206 {
                                if k < 205 { 0xb0 } else { 0xcb }
                            } else {
                                if k < 207 { 0x46 } else { 0xca }
                            }
                        }
                    }
                } else {
                    if k < 216 {
                        if k < 212 {
                            if k < 210 {
                                if k < 209 { 0x45 } else { 0xcf }
                            } else {
                                if k < 211 { 0x4a } else { 0xde }
                            }
                        } else {
                            if k < 214 {
                                if k < 213 { 0x79 } else { 0x8b }
                            } else {
                                if k < 215 { 0x86 } else { 0x91 }
                            }
                        }
                    } else {
                        if k < 220 {
                            if k < 218 {
                                if k < 217 { 0xa8 } else { 0xe3 }
                            } else {
                                if k < 219 { 0x3e } else { 0x42 }
                            }
                        } else {
                            if k < 222 {
                                if k < 221 { 0xc6 } else { 0x51 }
                            } else {
                                if k < 223 { 0xf3 } else { 0x0e }
                            }
                        }
                    }
                }
            } else {
                if k < 240 {
                    if k < 232 {
                        if k < 228 {
                            if k < 226 {
                                if k < 225 { 0x12 } else { 0x36 }
                            } else {
                                if k < 227 { 0x5a } else { 0xee }
                            }
                        } else {
                            if k < 230 {
                                if k < 229 { 0x29 } else { 0x7b }
                            } else {
                                if k < 231 { 0x8d } else { 0x8c }
                            }
                        }
                    } else {
                        if k < 236 {
                            if k < 234 {
                                if k < 233 { 0x8f } else { 0x8a }
                            } else {
                                if k < 235 { 0x85 } else { 0x94 }
                            }
                        } else {
                            if k < 238 {
                                if k < 237 { 0xa7 } else { 0xf2 }
                            } else {
                                if k < 239 { 0x0d } else { 0x17 }
                            }
                        }
                    }
                } else {
                    if k < 248 {
                        if k < 244 {
                            if k < 242 {
                                if k < 241 { 0x39 } else { 0x4b }
                            } else {
                                if k < 243 { 0xdd } else { 0x7c }
                            }
                        } else {
                            if k < 246 {
                                if k < 245 { 0x84 } else { 0x97 }
                            } else {
                                if k < 247 { 0xa2 } else { 0xfd }
                            }
                        }
                    } else {
                        if k < 252 {
                            if k < 250 {
                                if k < 249 { 0x1c } else { 0x24 }
                            } else {
                                if k < 251 { 0x6c } else { 0xb4 }
                            }
                        } else {
                            if k < 254 {
                                if k < 253 { 0xc7 } else { 0x52 }
                            } else {
                                if k < 255 { 0xf6 } else { 0x01 }
                            }
                        }
                    }
                }
            }
        }
    }
}

/// The inverse of `walk_point(k)`: one third to the power `k`.
pub(crate) closed spec fn walk_inverse(k: u8) -> u8 {
    if k < 128 {
        if k < 64 {
            if k < 32 {
                if k < 16 {
                    if k < 8 {
                        if k < 4 {
                            if k < 2 {
                                if k < 1 { 0x01 } else { 0xf6 }
                            } else {
                                if k < 3 { 0x52 } else { 0xc7 }
                            }
                        } else {
                            if k < 6 {
                                if k < 5 { 0xb4 } else { 0x6c }
                            } else {
                                if k < 7 { 0x24 } else { 0x1c }
                            }
                        }
                    } else {
                        if k < 12 {
                            if k < 10 {
                                if k < 9 { 0xfd } else { 0xa2 }
                            } else {
                                if k < 11 { 0x97 } else { 0x84 }
                            }
                        } else {
                            if k < 14 {
                                if k < 13 { 0x7c } else { 0xdd }
                            } else {
                                if k < 15 { 0x4b } else { 0x39 }
                            }
                        }
                    }
                } else {
                    if k < 24 {
                        if k < 20 {
                            if k < 18 {
                                if k < 17 { 0x17 } else { 0x0d }
                            } else {
                                if k < 19 { 0xf2 } else { 0xa7 }
                            }
                        } else {
                            if k < 22 {
                                if k < 21 { 0x94 } else { 0x85 }
                            } else {
                                if k < 23 { 0x8a } else { 0x8f }
                            }
                        }
                    } else {
                        if k < 28 {
                            if k < 26 {
                                if k < 25 { 0x8c } else { 0x8d }
                            } else {
                                if k < 27 { 0x7b } else { 0x29 }
                            }
                        } else {
                            if k < 30 {
                                if k < 29 { 0xee } else { 0x5a }
                            } else {
                                if k < 31 { 0x36 } else { 0x12 }
                            }
                        }
                    }
                }
            } else {
                if k < 48 {
                    if k < 40 {
                        if k < 36 {
                            if k < 34 {
                                if k < 33 { 0x0e } else { 0xf3 }
                            } else {
                                if k < 35 { 0x51 } else { 0xc6 }
                            }
                        } else {
                            if k < 38 {
                                if k < 37 { 0x42 } else { 0x3e }
                            } else {
                                if k < 39 { 0xe3 } else { 0xa8 }
                            }
                        }
                    } else {
                        if k < 44 {
                            if k < 42 {
                                if k < 41 { 0x91 } else { 0x86 }
                            } else {
                                if k < 43 { 0x8b } else { 0x79 }
                            }
                        } else {
                            if k < 46 {
                                if k < 45 { 0xde } else { 0x4a }
                            } else {
                                if k < 47 { 0xcf } else { 0x45 }
                            }
                        }
                    }
                } else {
                    if k < 56 {
                        if k < 52 {
                            if k < 50 {
                                if k < 49 { 0xca } else { 0x46 }
                            } else {
                                if k < 51 { 0xcb } else { 0xb0 }
                            }
                        } else {
                            if k < 54 {
                                if k < 53 { 0x99 } else { 0x77 }
                            } else {
                                if k < 55 { 0x2d } else { 0x1b }
                            }
                        }
                    } else {
                        if k < 60 {
                            if k < 58 {
                                if k < 57 { 0x09 } else { 0x07 }
                            } else {
                                if k < 59 { 0xf4 } else { 0xa5 }
                            }
                        } else {
                            if k < 62 {
                                if k < 61 { 0x63 } else { 0x21 }
                            } else {
                                if k < 63 { 0x1f } else { 0xfc }
                            }
                        }
                    }
                }
            }
        } else {
            if k < 96 {
                if k < 80 {
                    if k < 72 {
                        if k < 68 {
                            if k < 66 {
                                if k < 65 { 0x54 } else { 0xc5 }
                            } else {
                                if k < 67 { 0x43 } else { 0xc8 }
                            }
                        } else {
                            if k < 70 {
                                if k < 69 { 0xb1 } else { 0x6f }
                            } else {
                                if k < 71 { 0x25 } else { 0xea }
                            }
                        }
                    } else {
                        if k < 76 {
                            if k < 74 {
                                if k < 73 { 0xaf } else { 0x65 }
                            } else {
                                if k < 75 { 0x23 } else { 0xe8 }
                            }
                        } else {
                            if k < 78 {
                                if k < 77 { 0x58 } else { 0xc1 }
                            } else {
                                if k < 79 { 0xb6 } else { 0x9b }
                            }
                        }
                    }
                } else {
                    if k < 88 {
                        if k < 84 {
                            if k < 82 {
                                if k < 81 { 0x80 } else { 0x89 }
                            } else {
                                if k < 83 { 0x8e } else { 0x7a }
                            }
                        } else {
                            if k < 86 {
                                if k < 85 { 0xdf } else { 0xbc }
                            } else {
                                if k < 87 { 0x9d } else { 0x82 }
                            }
                        }
                    } else {
                        if k < 92 {
                            if k < 90 {
                                if k < 89 { 0x7e } else { 0x2a }
                            } else {
                                if k < 91 { 0xef } else { 0xac }
                            }
                        } else {
                            if k < 94 {
                                if k < 93 { 0x64 } else { 0xd5 }
                            } else {
                                if k < 95 { 0xba } else { 0x9f }
                            }
                        }
                    }
                }
            } else {
                if k < 112 {
                    if k < 104 {
                        if k < 100 {
                            if k < 98 {
                                if k < 97 { 0x75 } else { 0xda }
                            } else {
                                if k < 99 { 0xbf } else { 0x9c }
                            }
                        } else {
                            if k < 102 {
                                if k < 101 { 0x74 } else { 0x2c }
                            } else {
                                if k < 103 { 0xed } else { 0x5b }
                            }
                        }
                    } else {
                        if k < 108 {
                            if k < 106 {
                                if k < 105 { 0xc0 } else { 0x40 }
                            } else {
                                if k < 107 { 0xc9 } else { 0x47 }
                            }
                        } else {
                            if k < 110 {
                                if k < 109 { 0x3d } else { 0xe2 }
                            } else {
                                if k < 111 { 0x5e } else { 0xc3 }
                            }
                        }
                    }
                } else {
                    if k < 120 {
                        if k < 116 {
                            if k < 114 {
                                if k < 113 { 0x41 } else { 0x3f }
                            } else {
                                if k < 115 { 0x15 } else { 0xfa }
                            }
                        } else {
                            if k < 118 {
                                if k < 117 { 0x56 } else { 0x32 }
                            } else {
                                if k < 119 { 0xe7 } else { 0x5d }
                            }
                        }
                    } else {
                        if k < 124 {
                            if k < 122 {
                                if k < 121 { 0xc2 } else { 0xb7 }
                            } else {
                                if k < 123 { 0x6d } else { 0xd2 }
                            }
                        } else {
                            if k < 126 {
                                if k < 125 { 0x4e } else { 0x3a }
                            } else {
                                if k < 127 { 0x16 } else { 0xfb }
                            }
                        }
                    }
                }
            }
        }
    } else {
        if k < 192 {
            if k < 160 {
                if k < 144 {
                    if k < 136 {
                        if k < 132 {
                            if k < 130 {
                                if k < 129 { 0xa0 } else { 0x60 }
                            } else {
                                if k < 131 { 0x20 } else { 0xe9 }
                            }
                        } else {
                            if k < 134 {
                                if k < 133 { 0xae } else { 0x93 }
                            } else {
                                if k < 135 { 0x71 } else { 0x2f }
                            }
                        }
                    } else {
                        if k < 140 {
                            if k < 138 {
                                if k < 137 { 0xec } else { 0xad }
                            } else {
                                if k < 139 { 0x92 } else { 0x87 }
                            }
                        } else {
                            if k < 142 {
                                if k < 141 { 0x7d } else { 0x2b }
                            } else {
                                if k < 143 { 0x19 } else { 0xfe }
                            }
                        }
                    }
                } else {
                    if k < 152 {
                        if k < 148 {
                            if k < 146 {
                                if k < 145 { 0xa3 } else { 0x61 }
                            } else {
                                if k < 147 { 0xd6 } else { 0xbb }
                            }
                        } else {
                            if k < 150 {
                                if k < 149 { 0x69 } else { 0x27 }
                            } else {
                                if k < 151 { 0x1d } else { 0x0b }
                            }
                        }
                    } else {
                        if k < 156 {
                            if k < 154 {
                                if k < 153 { 0xf0 } else { 0x50 }
                            } else {
                                if k < 155 { 0x30 } else { 0x10 }
                            }
                        } else {
                            if k < 158 {
                                if k < 157 { 0xf9 } else { 0x57 }
                            } else {
                                if k < 159 { 0xc4 } else { 0xb5 }
                            }
                        }
                    }
                }
            } else {
                if k < 176 {
                    if k < 168 {
                        if k < 164 {
                            if k < 162 {
                                if k < 161 { 0x9a } else { 0x76 }
                            } else {
                                if k < 163 { 0xdb } else { 0x49 }
                            }
                        } else {
                            if k < 166 {
                                if k < 165 { 0xce } else { 0xb3 }
                            } else {
                                if k < 167 { 0x98 } else { 0x81 }
                            }
                        }
                    } else {
                        if k < 172 {
                            if k < 170 {
                                if k < 169 { 0x7f } else { 0xdc }
                            } else {
                                if k < 171 { 0xbd } else { 0x6b }
                            }
                        } else {
                            if k < 174 {
                                if k < 173 { 0xd0 } else { 0xb9 }
                            } else {
                                if k < 175 { 0x9e } else { 0x83 }
                            }
                        }
                    }
                } else {
                    if k < 184 {
                        if k < 180 {
                            if k < 178 {
                                if k < 177 { 0x88 } else { 0x78 }
                            } else {
                                if k < 179 { 0x28 } else { 0x18 }
                            }
                        } else {
                            if k < 182 {
                                if k < 181 { 0x08 } else { 0xf1 }
                            } else {
                                if k < 183 { 0xa6 } else { 0x62 }
                            }
                        }
                    } else {
                        if k < 188 {
                            if k < 186 {
                                if k < 185 { 0xd7 } else { 0x4d }
                            } else {
                                if k < 187 { 0x3b } else { 0xe0 }
                            }
                        } else {
                            if k < 190 {
                                if k < 189 { 0xa9 } else { 0x67 }
                            } else {
                                if k < 191 { 0xd4 } else { 0x4c }
                            }
                        }
                    }
                }
            }
        } else {
            if k < 224 {
                if k < 208 {
                    if k < 200 {
                        if k < 196 {
                            if k < 194 {
                                if k < 193 { 0xcd } else { 0xb2 }
                            } else {
                                if k < 195 { 0x6e } else { 0xd3 }
                            }
                        } else {
                            if k < 198 {
                                if k < 197 { 0xb8 } else { 0x68 }
                            } else {
                                if k < 199 { 0xd1 } else { 0x4f }
                            }
                        }
                    } else {
                        if k < 204 {
                            if k < 202 {
                                if k < 201 { 0xcc } else { 0x44 }
                            } else {
                                if k < 203 { 0x3c } else { 0x14 }
                            }
                        } else {
                            if k < 206 {
                                if k < 205 { 0x0c } else { 0x04 }
                            } else {
                                if k < 207 { 0xf5 } else { 0x53 }
                            }
                        }
                    }
                } else {
                    if k < 216 {
                        if k < 212 {
                            if k < 210 {
                                if k < 209 { 0x31 } else { 0xe6 }
                            } else {
                                if k < 211 { 0xab } else { 0x90 }
                            }
                        } else {
                            if k < 214 {
                                if k < 213 { 0x70 } else { 0xd9 }
                            } else {
                                if k < 215 { 0xbe } else { 0x6a }
                            }
                        }
                    } else {
                        if k < 220 {
                            if k < 218 {
                                if k < 217 { 0x26 } else { 0xeb }
                            } else {
                                if k < 219 { 0x59 } else { 0x37 }
                            }
                        } else {
                            if k < 222 {
                                if k < 221 { 0xe4 } else { 0x5c }
                            } else {
                                if k < 223 { 0x34 } else { 0xe5 }
                            }
                        }
                    }
                }
            } else {
                if k < 240 {
                    if k < 232 {
                        if k < 228 {
                            if k < 226 {
                                if k < 225 { 0xaa } else { 0x66 }
                            } else {
                                if k < 227 { 0x22 } else { 0x1e }
                            }
                        } else {
                            if k < 230 {
                                if k < 229 { 0x0a } else { 0x06 }
                            } else {
                                if k < 231 { 0x02 } else { 0xf7 }
                            }
                        }
                    } else {
                        if k < 236 {
                            if k < 234 {
                                if k < 233 { 0xa4 } else { 0x95 }
                            } else {
                                if k < 235 { 0x73 } else { 0xd8 }
                            }
                        } else {
                            if k < 238 {
                                if k < 237 { 0x48 } else { 0x38 }
                            } else {
                                if k < 239 { 0xe1 } else { 0x5f }
                            }
                        }
                    }
                } else {
                    if k < 248 {
                        if k < 244 {
                            if k < 242 {
                                if k < 241 { 0x35 } else { 0x13 }
                            } else {
                                if k < 243 { 0xf8 } else { 0xa1 }
                            }
                        } else {
                            if k < 246 {
                                if k < 245 { 0x96 } else { 0x72 }
                            } else {
                                if k < 247 { 0x2e } else { 0x1a }
                            }
                        }
                    } else {
                        if k < 252 {
                            if k < 250 {
                                if k < 249 { 0xff } else { 0x55 }
                            } else {
                                if k < 251 { 0x33 } else { 0x11 }
                            }
                        } else {
                            if k < 254 {
                                if k < 253 { 0x0f } else { 0x05 }
                            } else {
                                if k < 255 { 0x03 } else { 0x01 }
                            }
                        }
                    }
                }
            }
        }
    }
}

/// For a nonzero point, the number of steps (from 1 to 255) after which the walk reaches it.
pub(crate) closed spec fn walk_step_count(i: u8) -> u8 {
    if i < 128 {
        if i < 64 {
            if i < 32 {
                if i < 16 {
                    if i < 8 {
                        if i < 4 {
                            if i < 2 {
                                if i < 1 { 0x00 } else { 0xff }
                            } else {
                                if i < 3 { 0x19 } else { 0x01 }
                            }
                        } else {
                            if i < 6 {
                                if i < 5 { 0x32 } else { 0x02 }
                            } else {
                                if i < 7 { 0x1a } else { 0xc6 }
                            }
                        }
                    } else {
                        if i < 12 {
                            if i < 10 {
                                if i < 9 { 0x4b } else { 0xc7 }
                            } else {
                                if i < 11 { 0x1b } else { 0x68 }
                            }
                        } else {
                            if i < 14 {
                                if i < 13 { 0x33 } else { 0xee }
                            } else {
                                if i < 15 { 0xdf } else { 0x03 }
                            }
                        }
                    }
                } else {
                    if i < 24 {
                        if i < 20 {
                            if i < 18 {
                                if i < 17 { 0x64 } else { 0x04 }
                            } else {
                                if i < 19 { 0xe0 } else { 0x0e }
                            }
                        } else {
                            if i < 22 {
                                if i < 21 { 0x34 } else { 0x8d }
                            } else {
                                if i < 23 { 0x81 } else { 0xef }
                            }
                        }
                    } else {
                        if i < 28 {
                            if i < 26 {
                                if i < 25 { 0x4c } else { 0x71 }
                            } else {
                                if i < 27 { 0x08 } else { 0xc8 }
                            }
                        } else {
                            if i < 30 {
                                if i < 29 { 0xf8 } else { 0x69 }
                            } else {
                                if i < 31 { 0x1c } else { 0xc1 }
                            }
                        }
                    }
                }
            } else {
                if i < 48 {
                    if i < 40 {
                        if i < 36 {
                            if i < 34 {
                                if i < 33 { 0x7d } else { 0xc2 }
                            } else {
                                if i < 35 { 0x1d } else { 0xb5 }
                            }
                        } else {
                            if i < 38 {
                                if i < 37 { 0xf9 } else { 0xb9 }
                            } else {
                                if i < 39 { 0x27 } else { 0x6a }
                            }
                        }
                    } else {
                        if i < 44 {
                            if i < 42 {
                                if i < 41 { 0x4d } else { 0xe4 }
                            } else {
                                if i < 43 { 0xa6 } else { 0x72 }
                            }
                        } else {
                            if i < 46 {
                                if i < 45 { 0x9a } else { 0xc9 }
                            } else {
                                if i < 47 { 0x09 } else { 0x78 }
                            }
                        }
                    }
                } else {
                    if i < 56 {
                        if i < 52 {
                            if i < 50 {
                                if i < 49 { 0x65 } else { 0x2f }
                            } else {
                                if i < 51 { 0x8a } else { 0x05 }
                            }
                        } else {
                            if i < 54 {
                                if i < 53 { 0x21 } else { 0x0f }
                            } else {
                                if i < 55 { 0xe1 } else { 0x24 }
                            }
                        }
                    } else {
                        if i < 60 {
                            if i < 58 {
                                if i < 57 { 0x12 } else { 0xf0 }
                            } else {
                                if i < 59 { 0x82 } else { 0x45 }
                            }
                        } else {
                            if i < 62 {
                                if i < 61 { 0x35 } else { 0x93 }
                            } else {
                                if i < 63 { 0xda } else { 0x8e }
                            }
                        }
                    }
                }
            }
        } else {
            if i < 96 {
                if i < 80 {
                    if i < 72 {
                        if i < 68 {
                            if i < 66 {
                                if i < 65 { 0x96 } else { 0x8f }
                            } else {
                                if i < 67 { 0xdb } else { 0xbd }
                            }
                        } else {
                            if i < 70 {
                                if i < 69 { 0x36 } else { 0xd0 }
                            } else {
                                if i < 71 { 0xce } else { 0x94 }
                            }
                        }
                    } else {
                        if i < 76 {
                            if i < 74 {
                                if i < 73 { 0x13 } else { 0x5c }
                            } else {
                                if i < 75 { 0xd2 } else { 0xf1 }
                            }
                        } else {
                            if i < 78 {
                                if i < 77 { 0x40 } else { 0x46 }
                            } else {
                                if i < 79 { 0x83 } else { 0x38 }
                            }
                        }
                    }
                } else {
                    if i < 88 {
                        if i < 84 {
                            if i < 82 {
                                if i < 81 { 0x66 } else { 0xdd }
                            } else {
                                if i < 83 { 0xfd } else { 0x30 }
                            }
                        } else {
                            if i < 86 {
                                if i < 85 { 0xbf } else { 0x06 }
                            } else {
                                if i < 87 { 0x8b } else { 0x62 }
                            }
                        }
                    } else {
                        if i < 92 {
                            if i < 90 {
                                if i < 89 { 0xb3 } else { 0x25 }
                            } else {
                                if i < 91 { 0xe2 } else { 0x98 }
                            }
                        } else {
                            if i < 94 {
                                if i < 93 { 0x22 } else { 0x88 }
                            } else {
                                if i < 95 { 0x91 } else { 0x10 }
                            }
                        }
                    }
                }
            } else {
                if i < 112 {
                    if i < 104 {
                        if i < 100 {
                            if i < 98 {
                                if i < 97 { 0x7e } else { 0x6e }
                            } else {
                                if i < 99 { 0x48 } else { 0xc3 }
                            }
                        } else {
                            if i < 102 {
                                if i < 101 { 0xa3 } else { 0xb6 }
                            } else {
                                if i < 103 { 0x1e } else { 0x42 }
                            }
                        }
                    } else {
                        if i < 108 {
                            if i < 106 {
                                if i < 105 { 0x3a } else { 0x6b }
                            } else {
                                if i < 107 { 0x28 } else { 0x54 }
                            }
                        } else {
                            if i < 110 {
                                if i < 109 { 0xfa } else { 0x85 }
                            } else {
                                if i < 111 { 0x3d } else { 0xba }
                            }
                        }
                    }
                } else {
                    if i < 120 {
                        if i < 116 {
                            if i < 114 {
                                if i < 113 { 0x2b } else { 0x79 }
                            } else {
                                if i < 115 { 0x0a } else { 0x15 }
                            }
                        } else {
                            if i < 118 {
                                if i < 117 { 0x9b } else { 0x9f }
                            } else {
                                if i < 119 { 0x5e } else { 0xca }
                            }
                        }
                    } else {
                        if i < 124 {
                            if i < 122 {
                                if i < 121 { 0x4e } else { 0xd4 }
                            } else {
                                if i < 123 { 0xac } else { 0xe5 }
                            }
                        } else {
                            if i < 126 {
                                if i < 125 { 0xf3 } else { 0x73 }
                            } else {
                                if i < 127 { 0xa7 } else { 0x57 }
                            }
                        }
                    }
                }
            }
        }
    } else {
        if i < 192 {
            if i < 160 {
                if i < 144 {
                    if i < 136 {
                        if i < 132 {
                            if i < 130 {
                                if i < 129 { 0xaf } else { 0x58 }
                            } else {
                                if i < 131 { 0xa8 } else { 0x50 }
                            }
                        } else {
                            if i < 134 {
                                if i < 133 { 0xf4 } else { 0xea }
                            } else {
                                if i < 135 { 0xd6 } else { 0x74 }
                            }
                        }
                    } else {
                        if i < 140 {
                            if i < 138 {
                                if i < 137 { 0x4f } else { 0xae }
                            } else {
                                if i < 139 { 0xe9 } else { 0xd5 }
                            }
                        } else {
                            if i < 142 {
                                if i < 141 { 0xe7 } else { 0xe6 }
                            } else {
                                if i < 143 { 0xad } else { 0xe8 }
                            }
                        }
                    }
                } else {
                    if i < 152 {
                        if i < 148 {
                            if i < 146 {
                                if i < 145 { 0x2c } else { 0xd7 }
                            } else {
                                if i < 147 { 0x75 } else { 0x7a }
                            }
                        } else {
                            if i < 150 {
                                if i < 149 { 0xeb } else { 0x16 }
                            } else {
                                if i < 151 { 0x0b } else { 0xf5 }
                            }
                        }
                    } else {
                        if i < 156 {
                            if i < 154 {
                                if i < 153 { 0x59 } else { 0xcb }
                            } else {
                                if i < 155 { 0x5f } else { 0xb0 }
                            }
                        } else {
                            if i < 158 {
                                if i < 157 { 0x9c } else { 0xa9 }
                            } else {
                                if i < 159 { 0x51 } else { 0xa0 }
                            }
                        }
                    }
                }
            } else {
                if i < 176 {
                    if i < 168 {
                        if i < 164 {
                            if i < 162 {
                                if i < 161 { 0x7f } else { 0x0c }
                            } else {
                                if i < 163 { 0xf6 } else { 0x6f }
                            }
                        } else {
                            if i < 166 {
                                if i < 165 { 0x17 } else { 0xc4 }
                            } else {
                                if i < 167 { 0x49 } else { 0xec }
                            }
                        }
                    } else {
                        if i < 172 {
                            if i < 170 {
                                if i < 169 { 0xd8 } else { 0x43 }
                            } else {
                                if i < 171 { 0x1f } else { 0x2d }
                            }
                        } else {
                            if i < 174 {
                                if i < 173 { 0xa4 } else { 0x76 }
                            } else {
                                if i < 175 { 0x7b } else { 0xb7 }
                            }
                        }
                    }
                } else {
                    if i < 184 {
                        if i < 180 {
                            if i < 178 {
                                if i < 177 { 0xcc } else { 0xbb }
                            } else {
                                if i < 179 { 0x3e } else { 0x5a }
                            }
                        } else {
                            if i < 182 {
                                if i < 181 { 0xfb } else { 0x60 }
                            } else {
                                if i < 183 { 0xb1 } else { 0x86 }
                            }
                        }
                    } else {
                        if i < 188 {
                            if i < 186 {
                                if i < 185 { 0x3b } else { 0x52 }
                            } else {
                                if i < 187 { 0xa1 } else { 0x6c }
                            }
                        } else {
                            if i < 190 {
                                if i < 189 { 0xaa } else { 0x55 }
                            } else {
                                if i < 191 { 0x29 } else { 0x9d }
                            }
                        }
                    }
                }
            }
        } else {
            if i < 224 {
                if i < 208 {
                    if i < 200 {
                        if i < 196 {
                            if i < 194 {
                                if i < 193 { 0x97 } else { 0xb2 }
                            } else {
                                if i < 195 { 0x87 } else { 0x90 }
                            }
                        } else {
                            if i < 198 {
                                if i < 197 { 0x61 } else { 0xbe }
                            } else {
                                if i < 199 { 0xdc } else { 0xfc }
                            }
                        }
                    } else {
                        if i < 204 {
                            if i < 202 {
                                if i < 201 { 0xbc } else { 0x95 }
                            } else {
                                if i < 203 { 0xcf } else { 0xcd }
                            }
                        } else {
                            if i < 206 {
                                if i < 205 { 0x37 } else { 0x3f }
                            } else {
                                if i < 207 { 0x5b } else { 0xd1 }
                            }
                        }
                    }
                } else {
                    if i < 216 {
                        if i < 212 {
                            if i < 210 {
                                if i < 209 { 0x53 } else { 0x39 }
                            } else {
                                if i < 211 { 0x84 } else { 0x3c }
                            }
                        } else {
                            if i < 214 {
                                if i < 213 { 0x41 } else { 0xa2 }
                            } else {
                                if i < 215 { 0x6d } else { 0x47 }
                            }
                        }
                    } else {
                        if i < 220 {
                            if i < 218 {
                                if i < 217 { 0x14 } else { 0x2a }
                            } else {
                                if i < 219 { 0x9e } else { 0x5d }
                            }
                        } else {
                            if i < 222 {
                                if i < 221 { 0x56 } else { 0xf2 }
                            } else {
                                if i < 223 { 0xd3 } else { 0xab }
                            }
                        }
                    }
                }
            } else {
                if i < 240 {
                    if i < 232 {
                        if i < 228 {
                            if i < 226 {
                                if i < 225 { 0x44 } else { 0x11 }
                            } else {
                                if i < 227 { 0x92 } else { 0xd9 }
                            }
                        } else {
                            if i < 230 {
                                if i < 229 { 0x23 } else { 0x20 }
                            } else {
                                if i < 231 { 0x2e } else { 0x89 }
                            }
                        }
                    } else {
                        if i < 236 {
                            if i < 234 {
                                if i < 233 { 0xb4 } else { 0x7c }
                            } else {
                                if i < 235 { 0xb8 } else { 0x26 }
                            }
                        } else {
                            if i < 238 {
                                if i < 237 { 0x77 } else { 0x99 }
                            } else {
                                if i < 239 { 0xe3 } else { 0xa5 }
                            }
                        }
                    }
                } else {
                    if i < 248 {
                        if i < 244 {
                            if i < 242 {
                                if i < 241 { 0x67 } else { 0x4a }
                            } else {
                                if i < 243 { 0xed } else { 0xde }
                            }
                        } else {
                            if i < 246 {
                                if i < 245 { 0xc5 } else { 0x31 }
                            } else {
                                if i < 247 { 0xfe } else { 0x18 }
                            }
                        }
                    } else {
                        if i < 252 {
                            if i < 250 {
                                if i < 249 { 0x0d } else { 0x63 }
                            } else {
                                if i < 251 { 0x8c } else { 0x80 }
                            }
                        } else {
                            if i < 254 {
                                if i < 253 { 0xc0 } else { 0xf7 }
                            } else {
                                if i < 255 { 0x70 } else { 0x07 }
                            }
                        }
                    }
                }
            }
        }
    }
}

/// The substitution box, entry by entry.
pub(crate) closed spec fn sbox_entry(i: u8) -> u8 {
    if i < 128 {
        if i < 64 {
            if i < 32 {
                if i < 16 {
                    if i < 8 {
                        if i < 4 {
                            if i < 2 {
                                if i < 1 { 0x63 } else { 0x7c }
                            } else {
                                if i < 3 { 0x77 } else { 0x7b }
                            }
                        } else {
                            if i < 6 {
                                if i < 5 { 0xf2 } else { 0x6b }
                            } else {
                                if i < 7 { 0x6f } else { 0xc5 }
                            }
                        }
                    } else {
                        if i < 12 {
                            if i < 10 {
                                if i < 9 { 0x30 } else { 0x01 }
                            } else {
                                if i < 11 { 0x67 } else { 0x2b }
                            }
                        } else {
                            if i < 14 {
                                if i < 13 { 0xfe } else { 0xd7 }
                            } else {
                                if i < 15 { 0xab } else { 0x76 }
                            }
                        }
                    }
                } else {
                    if i < 24 {
                        if i < 20 {
                            if i < 18 {
                                if i < 17 { 0xca } else { 0x82 }
                            } else {
                                if i < 19 { 0xc9 } else { 0x7d }
                            }
                        } else {
                            if i < 22 {
                                if i < 21 { 0xfa } else { 0x59 }
                            } else {
                                if i < 23 { 0x47 } else { 0xf0 }
                            }
                        }
                    } else {
                        if i < 28 {
                            if i < 26 {
                                if i < 25 { 0xad } else { 0xd4 }
                            } else {
                                if i < 27 { 0xa2 } else { 0xaf }
                            }
                        } else {
                            if i < 30 {
                                if i < 29 { 0x9c } else { 0xa4 }
                            } else {
                                if i < 31 { 0x72 } else { 0xc0 }
                            }
                        }
                    }
                }
            } else {
                if i < 48 {
                    if i < 40 {
                        if i < 36 {
                            if i < 34 {
                                if i < 33 { 0xb7 } else { 0xfd }
                            } else {
                                if i < 35 { 0x93 } else { 0x26 }
                            }
                        } else {
                            if i < 38 {
                                if i < 37 { 0x36 } else { 0x3f }
                            } else {
                                if i < 39 { 0xf7 } else { 0xcc }
                            }
                        }
                    } else {
                        if i < 44 {
                            if i < 42 {
                                if i < 41 { 0x34 } else { 0xa5 }
                            } else {
                                if i < 43 { 0xe5 } else { 0xf1 }
                            }
                        } else {
                            if i < 46 {
                                if i < 45 { 0x71 } else { 0xd8 }
                            } else {
                                if i < 47 { 0x31 } else { 0x15 }
                            }
                        }
                    }
                } else {
                    if i < 56 {
                        if i < 52 {
                            if i < 50 {
                                if i < 49 { 0x04 } else { 0xc7 }
                            } else {
                                if i < 51 { 0x23 } else { 0xc3 }
                            }
                        } else {
                            if i < 54 {
                                if i < 53 { 0x18 } else { 0x96 }
                            } else {
                                if i < 55 { 0x05 } else { 0x9a }
                            }
                        }
                    } else {
                        if i < 60 {
                            if i < 58 {
                                if i < 57 { 0x07 } else { 0x12 }
                            } else {
                                if i < 59 { 0x80 } else { 0xe2 }
                            }
                        } else {
                            if i < 62 {
                                if i < 61 { 0xeb } else { 0x27 }
                            } else {
                                if i < 63 { 0xb2 } else { 0x75 }
                            }
                        }
                    }
                }
            }
        } else {
            if i < 96 {
                if i < 80 {
                    if i < 72 {
                        if i < 68 {
                            if i < 66 {
                                if i < 65 { 0x09 } else { 0x83 }
                            } else {
                                if i < 67 { 0x2c } else { 0x1a }
                            }
                        } else {
                            if i < 70 {
                                if i < 69 { 0x1b } else { 0x6e }
                            } else {
                                if i < 71 { 0x5a } else { 0xa0 }
                            }
                        }
                    } else {
                        if i < 76 {
                            if i < 74 {
                                if i < 73 { 0x52 } else { 0x3b }
                            } else {
                                if i < 75 { 0xd6 } else { 0xb3 }
                            }
                        } else {
                            if i < 78 {
                                if i < 77 { 0x29 } else { 0xe3 }
                            } else {
                                if i < 79 { 0x2f } else { 0x84 }
                            }
                        }
                    }
                } else {
                    if i < 88 {
                        if i < 84 {
                            if i < 82 {
                                if i < 81 { 0x53 } else { 0xd1 }
                            } else {
                                if i < 83 { 0x00 } else { 0xed }
                            }
                        } else {
                            if i < 86 {
                                if i < 85 { 0x20 } else { 0xfc }
                            } else {
                                if i < 87 { 0xb1 } else { 0x5b }
                            }
                        }
                    } else {
                        if i < 92 {
                            if i < 90 {
                                if i < 89 { 0x6a } else { 0xcb }
                            } else {
                                if i < 91 { 0xbe } else { 0x39 }
                            }
                        } else {
                            if i < 94 {
                                if i < 93 { 0x4a } else { 0x4c }
                            } else {
                                if i < 95 { 0x58 } else { 0xcf }
                            }
                        }
                    }
                }
            } else {
                if i < 112 {
                    if i < 104 {
                        if i < 100 {
                            if i < 98 {
                                if i < 97 { 0xd0 } else { 0xef }
                            } else {
                                if i < 99 { 0xaa } else { 0xfb }
                            }
                        } else {
                            if i < 102 {
                                if i < 101 { 0x43 } else { 0x4d }
                            } else {
                                if i < 103 { 0x33 } else { 0x85 }
                            }
                        }
                    } else {
                        if i < 108 {
                            if i < 106 {
                                if i < 105 { 0x45 } else { 0xf9 }
                            } else {
                                if i < 107 { 0x02 } else { 0x7f }
                            }
                        } else {
                            if i < 110 {
                                if i < 109 { 0x50 } else { 0x3c }
                            } else {
                                if i < 111 { 0x9f } else { 0xa8 }
                            }
                        }
                    }
                } else {
                    if i < 120 {
                        if i < 116 {
                            if i < 114 {
                                if i < 113 { 0x51 } else { 0xa3 }
                            } else {
                                if i < 115 { 0x40 } else { 0x8f }
                            }
                        } else {
                            if i < 118 {
                                if i < 117 { 0x92 } else { 0x9d }
                            } else {
                                if i < 119 { 0x38 } else { 0xf5 }
                            }
                        }
                    } else {
                        if i < 124 {
                            if i < 122 {
                                if i < 121 { 0xbc } else { 0xb6 }
                            } else {
                                if i < 123 { 0xda } else { 0x21 }
                            }
                        } else {
                            if i < 126 {
                                if i < 125 { 0x10 } else { 0xff }
                            } else {
                                if i < 127 { 0xf3 } else { 0xd2 }
                            }
                        }
                    }
                }
            }
        }
    } else {
        if i < 192 {
            if i < 160 {
                if i < 144 {
                    if i < 136 {
                        if i < 132 {
                            if i < 130 {
                                if i < 129 { 0xcd } else { 0x0c }
                            } else {
                                if i < 131 { 0x13 } else { 0xec }
                            }
                        } else {
                            if i < 134 {
                                if i < 133 { 0x5f } else { 0x97 }
                            } else {
                                if i < 135 { 0x44 } else { 0x17 }
                            }
                        }
                    } else {
                        if i < 140 {
                            if i < 138 {
                                if i < 137 { 0xc4 } else { 0xa7 }
                            } else {
                                if i < 139 { 0x7e } else { 0x3d }
                            }
                        } else {
                            if i < 142 {
                                if i < 141 { 0x64 } else { 0x5d }
                            } else {
                                if i < 143 { 0x19 } else { 0x73 }
                            }
                        }
                    }
                } else {
                    if i < 152 {
                        if i < 148 {
                            if i < 146 {
                                if i < 145 { 0x60 } else { 0x81 }
                            } else {
                                if i < 147 { 0x4f } else { 0xdc }
                            }
                        } else {
                            if i < 150 {
                                if i < 149 { 0x22 } else { 0x2a }
                            } else {
                                if i < 151 { 0x90 } else { 0x88 }
                            }
                        }
                    } else {
                        if i < 156 {
                            if i < 154 {
                                if i < 153 { 0x46 } else { 0xee }
                            } else {
                                if i < 155 { 0xb8 } else { 0x14 }
                            }
                        } else {
                            if i < 158 {
                                if i < 157 { 0xde } else { 0x5e }
                            } else {
                                if i < 159 { 0x0b } else { 0xdb }
                            }
                        }
                    }
                }
            } else {
                if i < 176 {
                    if i < 168 {
                        if i < 164 {
                            if i < 162 {
                                if i < 161 { 0xe0 } else { 0x32 }
                            } else {
                                if i < 163 { 0x3a } else { 0x0a }
                            }
                        } else {
                            if i < 166 {
                                if i < 165 { 0x49 } else { 0x06 }
                            } else {
                                if i < 167 { 0x24 } else { 0x5c }
                            }
                        }
                    } else {
                        if i < 172 {
                            if i < 170 {
                                if i < 169 { 0xc2 } else { 0xd3 }
                            } else {
                                if i < 171 { 0xac } else { 0x62 }
                            }
                        } else {
                            if i < 174 {
                                if i < 173 { 0x91 } else { 0x95 }
                            } else {
                                if i < 175 { 0xe4 } else { 0x79 }
                            }
                        }
                    }
                } else {
                    if i < 184 {
                        if i < 180 {
                            if i < 178 {
                                if i < 177 { 0xe7 } else { 0xc8 }
                            } else {
                                if i < 179 { 0x37 } else { 0x6d }
                            }
                        } else {
                            if i < 182 {
                                if i < 181 { 0x8d } else { 0xd5 }
                            } else {
                                if i < 183 { 0x4e } else { 0xa9 }
                            }
                        }
                    } else {
                        if i < 188 {
                            if i < 186 {
                                if i < 185 { 0x6c } else { 0x56 }
                            } else {
                                if i < 187 { 0xf4 } else { 0xea }
                            }
                        } else {
                            if i < 190 {
                                if i < 189 { 0x65 } else { 0x7a }
                            } else {
                                if i < 191 { 0xae } else { 0x08 }
                            }
                        }
                    }
                }
            }
        } else {
            if i < 224 {
                if i < 208 {
                    if i < 200 {
                        if i < 196 {
                            if i < 194 {
                                if i < 193 { 0xba } else { 0x78 }
                            } else {
                                if i < 195 { 0x25 } else { 0x2e }
                            }
                        } else {
                            if i < 198 {
                                if i < 197 { 0x1c } else { 0xa6 }
                            } else {
                                if i < 199 { 0xb4 } else { 0xc6 }
                            }
                        }
                    } else {
                        if i < 204 {
                            if i < 202 {
                                if i < 201 { 0xe8 } else { 0xdd }
                            } else {
                                if i < 203 { 0x74 } else { 0x1f }
                            }
                        } else {
                            if i < 206 {
                                if i < 205 { 0x4b } else { 0xbd }
                            } else {
                                if i < 207 { 0x8b } else { 0x8a }
                            }
                        }
                    }
                } else {
                    if i < 216 {
                        if i < 212 {
                            if i < 210 {
                                if i < 209 { 0x70 } else { 0x3e }
                            } else {
                                if i < 211 { 0xb5 } else { 0x66 }
                            }
                        } else {
                            if i < 214 {
                                if i < 213 { 0x48 } else { 0x03 }
                            } else {
                                if i < 215 { 0xf6 } else { 0x0e }
                            }
                        }
                    } else {
                        if i < 220 {
                            if i < 218 {
                                if i < 217 { 0x61 } else { 0x35 }
                            } else {
                                if i < 219 { 0x57 } else { 0xb9 }
                            }
                        } else {
                            if i < 222 {
                                if i < 221 { 0x86 } else { 0xc1 }
                            } else {
                                if i < 223 { 0x1d } else { 0x9e }
                            }
                        }
                    }
                }
            } else {
                if i < 240 {
                    if i < 232 {
                        if i < 228 {
                            if i < 226 {
                                if i < 225 { 0xe1 } else { 0xf8 }
                            } else {
                                if i < 227 { 0x98 } else { 0x11 }
                            }
                        } else {
                            if i < 230 {
                                if i < 229 { 0x69 } else { 0xd9 }
                            } else {
                                if i < 231 { 0x8e } else { 0x94 }
                            }
                        }
                    } else {
                        if i < 236 {
                            if i < 234 {
                                if i < 233 { 0x9b } else { 0x1e }
                            } else {
                                if i < 235 { 0x87 } else { 0xe9 }
                            }
                        } else {
                            if i < 238 {
                                if i < 237 { 0xce } else { 0x55 }
                            } else {
                                if i < 239 { 0x28 } else { 0xdf }
                            }
                        }
                    }
                } else {
                    if i < 248 {
                        if i < 244 {
                            if i < 242 {
                                if i < 241 { 0x8c } else { 0xa1 }
                            } else {
                                if i < 243 { 0x89 } else { 0x0d }
                            }
                        } else {
                            if i < 246 {
                                if i < 245 { 0xbf } else { 0xe6 }
                            } else {
                                if i < 247 { 0x42 } else { 0x68 }
                            }
                        }
                    } else {
                        if i < 252 {
                            if i < 250 {
                                if i < 249 { 0x41 } else { 0x99 }
                            } else {
                                if i < 251 { 0x2d } else { 0x0f }
                            }
                        } else {
                            if i < 254 {
                                if i < 253 { 0xb0 } else { 0x54 }
                            } else {
                                if i < 255 { 0xbb } else { 0x16 }
                            }
                        }
                    }
                }
            }
        }
    }
}

/// The inverse of the substitution box: the byte that `sbox_entry` takes to `y`.
pub(crate) closed spec fn sbox_inverse(y: u8) -> u8 {
    if y < 128 {
        if y < 64 {
            if y < 32 {
                if y < 16 {
                    if y < 8 {
                        if y < 4 {
                            if y < 2 {
                                if y < 1 { 0x52 } else { 0x09 }
                            } else {
                                if y < 3 { 0x6a } else { 0xd5 }
                            }
                        } else {
                            if y < 6 {
                                if y < 5 { 0x30 } else { 0x36 }
                            } else {
                                if y < 7 { 0xa5 } else { 0x38 }
                            }
                        }
                    } else {
                        if y < 12 {
                            if y < 10 {
                                if y < 9 { 0xbf } else { 0x40 }
                            } else {
                                if y < 11 { 0xa3 } else { 0x9e }
                            }
                        } else {
                            if y < 14 {
                                if y < 13 { 0x81 } else { 0xf3 }
                            } else {
                                if y < 15 { 0xd7 } else { 0xfb }
                            }
                        }
                    }
                } else {
                    if y < 24 {
                        if y < 20 {
                            if y < 18 {
                                if y < 17 { 0x7c } else { 0xe3 }
                            } else {
                                if y < 19 { 0x39 } else { 0x82 }
                            }
                        } else {
                            if y < 22 {
                                if y < 21 { 0x9b } else { 0x2f }
                            } else {
                                if y < 23 { 0xff } else { 0x87 }
                            }
                        }
                    } else {
                        if y < 28 {
                            if y < 26 {
                                if y < 25 { 0x34 } else { 0x8e }
                            } else {
                                if y < 27 { 0x43 } else { 0x44 }
                            }
                        } else {
                            if y < 30 {
                                if y < 29 { 0xc4 } else { 0xde }
                            } else {
                                if y < 31 { 0xe9 } else { 0xcb }
                            }
                        }
                    }
                }
            } else {
                if y < 48 {
                    if y < 40 {
                        if y < 36 {
                            if y < 34 {
                                if y < 33 { 0x54 } else { 0x7b }
                            } else {
                                if y < 35 { 0x94 } else { 0x32 }
                            }
                        } else {
                            if y < 38 {
                                if y < 37 { 0xa6 } else { 0xc2 }
                            } else {
                                if y < 39 { 0x23 } else { 0x3d }
                            }
                        }
                    } else {
                        if y < 44 {
                            if y < 42 {
                                if y < 41 { 0xee } else { 0x4c }
                            } else {
                                if y < 43 { 0x95 } else { 0x0b }
                            }
                        } else {
                            if y < 46 {
                                if y < 45 { 0x42 } else { 0xfa }
                            } else {
                                if y < 47 { 0xc3 } else { 0x4e }
                            }
                        }
                    }
                } else {
                    if y < 56 {
                        if y < 52 {
                            if y < 50 {
                                if y < 49 { 0x08 } else { 0x2e }
                            } else {
                                if y < 51 { 0xa1 } else { 0x66 }
                            }
                        } else {
                            if y < 54 {
                                if y < 53 { 0x28 } else { 0xd9 }
                            } else {
                                if y < 55 { 0x24 } else { 0xb2 }
                            }
                        }
                    } else {
                        if y < 60 {
                            if y < 58 {
                                if y < 57 { 0x76 } else { 0x5b }
                            } else {
                                if y < 59 { 0xa2 } else { 0x49 }
                            }
                        } else {
                            if y < 62 {
                                if y < 61 { 0x6d } else { 0x8b }
                            } else {
                                if y < 63 { 0xd1 } else { 0x25 }
                            }
                        }
                    }
                }
            }
        } else {
            if y < 96 {
                if y < 80 {
                    if y < 72 {
                        if y < 68 {
                            if y < 66 {
                                if y < 65 { 0x72 } else { 0xf8 }
                            } else {
                                if y < 67 { 0xf6 } else { 0x64 }
                            }
                        } else {
                            if y < 70 {
                                if y < 69 { 0x86 } else { 0x68 }
                            } else {
                                if y < 71 { 0x98 } else { 0x16 }
                            }
                        }
                    } else {
                        if y < 76 {
                            if y < 74 {
                                if y < 73 { 0xd4 } else { 0xa4 }
                            } else {
                                if y < 75 { 0x5c } else { 0xcc }
                            }
                        } else {
                            if y < 78 {
                                if y < 77 { 0x5d } else { 0x65 }
                            } else {
                                if y < 79 { 0xb6 } else { 0x92 }
                            }
                        }
                    }
                } else {
                    if y < 88 {
                        if y < 84 {
                            if y < 82 {
                                if y < 81 { 0x6c } else { 0x70 }
                            } else {
                                if y < 83 { 0x48 } else { 0x50 }
                            }
                        } else {
                            if y < 86 {
                                if y < 85 { 0xfd } else { 0xed }
                            } else {
                                if y < 87 { 0xb9 } else { 0xda }
                            }
                        }
                    } else {
                        if y < 92 {
                            if y < 90 {
                                if y < 89 { 0x5e } else { 0x15 }
                            } else {
                                if y < 91 { 0x46 } else { 0x57 }
                            }
                        } else {
                            if y < 94 {
                                if y < 93 { 0xa7 } else { 0x8d }
                            } else {
                                if y < 95 { 0x9d } else { 0x84 }
                            }
                        }
                    }
                }
            } else {
                if y < 112 {
                    if y < 104 {
                        if y < 100 {
                            if y < 98 {
                                if y < 97 { 0x90 } else { 0xd8 }
                            } else {
                                if y < 99 { 0xab } else { 0x00 }
                            }
                        } else {
                            if y < 102 {
                                if y < 101 { 0x8c } else { 0xbc }
                            } else {
                                if y < 103 { 0xd3 } else { 0x0a }
                            }
                        }
                    } else {
                        if y < 108 {
                            if y < 106 {
                                if y < 105 { 0xf7 } else { 0xe4 }
                            } else {
                                if y < 107 { 0x58 } else { 0x05 }
                            }
                        } else {
                            if y < 110 {
                                if y < 109 { 0xb8 } else { 0xb3 }
                            } else {
                                if y < 111 { 0x45 } else { 0x06 }
                            }
                        }
                    }
                } else {
                    if y < 120 {
                        if y < 116 {
                            if y < 114 {
                                if y < 113 { 0xd0 } else { 0x2c }
                            } else {
                                if y < 115 { 0x1e } else { 0x8f }
                            }
                        } else {
                            if y < 118 {
                                if y < 117 { 0xca } else { 0x3f }
                            } else {
                                if y < 119 { 0x0f } else { 0x02 }
                            }
                        }
                    } else {
                        if y < 124 {
                            if y < 122 {
                                if y < 121 { 0xc1 } else { 0xaf }
                            } else {
                                if y < 123 { 0xbd } else { 0x03 }
                            }
                        } else {
                            if y < 126 {
                                if y < 125 { 0x01 } else { 0x13 }
                            } else {
                                if y < 127 { 0x8a } else { 0x6b }
                            }
                        }
                    }
                }
            }
        }
    } else {
        if y < 192 {
            if y < 160 {
                if y < 144 {
                    if y < 136 {
                        if y < 132 {
                            if y < 130 {
                                if y < 129 { 0x3a } else { 0x91 }
                            } else {
                                if y < 131 { 0x11 } else { 0x41 }
                            }
                        } else {
                            if y < 134 {
                                if y < 133 { 0x4f } else { 0x67 }
                            } else {
                                if y < 135 { 0xdc } else { 0xea }
                            }
                        }
                    } else {
                        if y < 140 {
                            if y < 138 {
                                if y < 137 { 0x97 } else { 0xf2 }
                            } else {
                                if y < 139 { 0xcf } else { 0xce }
                            }
                        } else {
                            if y < 142 {
                                if y < 141 { 0xf0 } else { 0xb4 }
                            } else {
                                if y < 143 { 0xe6 } else { 0x73 }
                            }
                        }
                    }
                } else {
                    if y < 152 {
                        if y < 148 {
                            if y < 146 {
                                if y < 145 { 0x96 } else { 0xac }
                            } else {
                                if y < 147 { 0x74 } else { 0x22 }
                            }
                        } else {
                            if y < 150 {
                                if y < 149 { 0xe7 } else { 0xad }
                            } else {
                                if y < 151 { 0x35 } else { 0x85 }
                            }
                        }
                    } else {
                        if y < 156 {
                            if y < 154 {
                                if y < 153 { 0xe2 } else { 0xf9 }
                            } else {
                                if y < 155 { 0x37 } else { 0xe8 }
                            }
                        } else {
                            if y < 158 {
                                if y < 157 { 0x1c } else { 0x75 }
                            } else {
                                if y < 159 { 0xdf } else { 0x6e }
                            }
                        }
                    }
                }
            } else {
                if y < 176 {
                    if y < 168 {
                        if y < 164 {
                            if y < 162 {
                                if y < 161 { 0x47 } else { 0xf1 }
                            } else {
                                if y < 163 { 0x1a } else { 0x71 }
                            }
                        } else {
                            if y < 166 {
                                if y < 165 { 0x1d } else { 0x29 }
                            } else {
                                if y < 167 { 0xc5 } else { 0x89 }
                            }
                        }
                    } else {
                        if y < 172 {
                            if y < 170 {
                                if y < 169 { 0x6f } else { 0xb7 }
                            } else {
                                if y < 171 { 0x62 } else { 0x0e }
                            }
                        } else {
                            if y < 174 {
                                if y < 173 { 0xaa } else { 0x18 }
                            } else {
                                if y < 175 { 0xbe } else { 0x1b }
                            }
                        }
                    }
                } else {
                    if y < 184 {
                        if y < 180 {
                            if y < 178 {
                                if y < 177 { 0xfc } else { 0x56 }
                            } else {
                                if y < 179 { 0x3e } else { 0x4b }
                            }
                        } else {
                            if y < 182 {
                                if y < 181 { 0xc6 } else { 0xd2 }
                            } else {
                                if y < 183 { 0x79 } else { 0x20 }
                            }
                        }
                    } else {
                        if y < 188 {
                            if y < 186 {
                                if y < 185 { 0x9a } else { 0xdb }
                            } else {
                                if y < 187 { 0xc0 } else { 0xfe }
                            }
                        } else {
                            if y < 190 {
                                if y < 189 { 0x78 } else { 0xcd }
                            } else {
                                if y < 191 { 0x5a } else { 0xf4 }
                            }
                        }
                    }
                }
            }
        } else {
            if y < 224 {
                if y < 208 {
                    if y < 200 {
                        if y < 196 {
                            if y < 194 {
                                if y < 193 { 0x1f } else { 0xdd }
                            } else {
                                if y < 195 { 0xa8 } else { 0x33 }
                            }
                        } else {
                            if y < 198 {
                                if y < 197 { 0x88 } else { 0x07 }
                            } else {
                                if y < 199 { 0xc7 } else { 0x31 }
                            }
                        }
                    } else {
                        if y < 204 {
                            if y < 202 {
                                if y < 201 { 0xb1 } else { 0x12 }
                            } else {
                                if y < 203 { 0x10 } else { 0x59 }
                            }
                        } else {
                            if y < 206 {
                                if y < 205 { 0x27 } else { 0x80 }
                            } else {
                                if y < 207 { 0xec } else { 0x5f }
                            }
                        }
                    }
                } else {
                    if y < 216 {
                        if y < 212 {
                            if y < 210 {
                                if y < 209 { 0x60 } else { 0x51 }
                            } else {
                                if y < 211 { 0x7f } else { 0xa9 }
                            }
                        } else {
                            if y < 214 {
                                if y < 213 { 0x19 } else { 0xb5 }
                            } else {
                                if y < 215 { 0x4a } else { 0x0d }
                            }
                        }
                    } else {
                        if y < 220 {
                            if y < 218 {
                                if y < 217 { 0x2d } else { 0xe5 }
                            } else {
                                if y < 219 { 0x7a } else { 0x9f }
                            }
                        } else {
                            if y < 222 {
                                if y < 221 { 0x93 } else { 0xc9 }
                            } else {
                                if y < 223 { 0x9c } else { 0xef }
                            }
                        }
                    }
                }
            } else {
                if y < 240 {
                    if y < 232 {
                        if y < 228 {
                            if y < 226 {
                                if y < 225 { 0xa0 } else { 0xe0 }
                            } else {
                                if y < 227 { 0x3b } else { 0x4d }
                            }
                        } else {
                            if y < 230 {
                                if y < 229 { 0xae } else { 0x2a }
                            } else {
                                if y < 231 { 0xf5 } else { 0xb0 }
                            }
                        }
                    } else {
                        if y < 236 {
                            if y < 234 {
                                if y < 233 { 0xc8 } else { 0xeb }
                            } else {
                                if y < 235 { 0xbb } else { 0x3c }
                            }
                        } else {
                            if y < 238 {
                                if y < 237 { 0x83 } else { 0x53 }
                            } else {
                                if y < 239 { 0x99 } else { 0x61 }
                            }
                        }
                    }
                } else {
                    if y < 248 {
                        if y < 244 {
                            if y < 242 {
                                if y < 241 { 0x17 } else { 0x2b }
                            } else {
                                if y < 243 { 0x04 } else { 0x7e }
                            }
                        } else {
                            if y < 246 {
                                if y < 245 { 0xba } else { 0x77 }
                            } else {
                                if y < 247 { 0xd6 } else { 0x26 }
                            }
                        }
                    } else {
                        if y < 252 {
                            if y < 250 {
                                if y < 249 { 0xe1 } else { 0x69 }
                            } else {
                                if y < 251 { 0x14 } else { 0x63 }
                            }
                        } else {
                            if y < 254 {
                                if y < 253 { 0x55 } else { 0x21 }
                            } else {
                                if y < 255 { 0x0c } else { 0x7d }
                            }
                        }
                    }
                }
            }
        }
    }
}

/// The walk starts at (1, 1) and comes back to the point 1 after 255 steps; the
/// box holds 0x63 at zero.
pub(crate) proof fn lemma_walk_ends()
    by (bit_vector)
    ensures
        walk_point(0) == 1,
        walk_inverse(0) == 1,
        walk_point(255) == 1,
        sbox_entry(0) == 0x63,
{
}

/// Each step of the walk multiplies the point by 3.
#[verifier::rlimit(100)]
pub(crate) proof fn lemma_walk_point_step()
    by (bit_vector)
    ensures
        forall|k: u8| k < 255 ==> times_three(#[trigger] walk_point(k)) == walk_point((k + 1) as u8),
{
}

/// Each step of the walk divides the companion by 3.
#[verifier::rlimit(100)]
pub(crate) proof fn lemma_walk_inverse_step()
    by (bit_vector)
    ensures
        forall|k: u8| k < 255 ==> third(#[trigger] walk_inverse(k)) == walk_inverse((k + 1) as u8),
{
}

/// At the point reached by a step, the box holds the affine image of the new
/// companion, plus 0x63.
#[verifier::rlimit(100)]
pub(crate) proof fn lemma_walk_entry()
    by (bit_vector)
    ensures
        forall|k: u8|
            k < 255 ==> sbox_entry(walk_point((k + 1) as u8)) == 0x63 ^ affine(
                third(#[trigger] walk_inverse(k)),
            ),
{
}

/// The walk meets every nonzero point exactly once, at its step count.
#[verifier::rlimit(100)]
pub(crate) proof fn lemma_walk_step_count()
    by (bit_vector)
    ensures
        forall|k: u8| 1 <= k ==> walk_step_count(#[trigger] walk_point(k)) == k,
        forall|i: u8| i != 0 ==> 1 <= #[trigger] walk_step_count(i),
        forall|i: u8| i != 0 ==> walk_point(#[trigger] walk_step_count(i)) == i,
        forall|k: u8| #[trigger] walk_point(k) != 0,
{
}

/// One step of the walk, from step `k` to step `k + 1`.
pub(crate) proof fn lemma_walk_advance(k: u8)
    requires
        k < 255,
    ensures
        times_three(walk_point(k)) == walk_point((k + 1) as u8),
        third(walk_inverse(k)) == walk_inverse((k + 1) as u8),
        sbox_entry(walk_point((k + 1) as u8)) == 0x63 ^ affine(walk_inverse((k + 1) as u8)),
        walk_step_count(walk_point((k + 1) as u8)) == k + 1,
        walk_point((k + 1) as u8) == 1 <==> k + 1 == 255,
        walk_point((k + 1) as u8) != 0,
        forall|i: u8|
            i != 0 && #[trigger] walk_step_count(i) == k + 1 ==> i == walk_point((k + 1) as u8),
{
    lemma_walk_ends();
    lemma_walk_point_step();
    lemma_walk_inverse_step();
    lemma_walk_entry();
    lemma_walk_step_count();
    assert(times_three(walk_point(k)) == walk_point((k + 1) as u8));
    assert(third(walk_inverse(k)) == walk_inverse((k + 1) as u8));
    assert(walk_step_count(walk_point((k + 1) as u8)) == k + 1);
    if walk_point((k + 1) as u8) == 1 {
        assert(walk_step_count(walk_point(255)) == 255);
    }
    assert forall|i: u8| i != 0 && #[trigger] walk_step_count(i) == k + 1 implies i == walk_point(
        (k + 1) as u8,
    ) by {
        assert(walk_point(walk_step_count(i)) == i);
    }
}

/// Before the walk starts, no nonzero point has been reached.
pub(crate) proof fn lemma_walk_start()
    ensures
        walk_point(0) == 1,
        walk_inverse(0) == 1,
        forall|i: u8| i != 0 ==> 1 <= #[trigger] walk_step_count(i),
{
    lemma_walk_ends();
    lemma_walk_step_count();
}

/// The substitution box is one to one: `sbox_inverse` undoes it.
#[verifier::rlimit(100)]
pub(crate) proof fn lemma_sbox_inverse()
    by (bit_vector)
    ensures
        forall|x: u8| #[trigger] sbox_inverse(sbox_entry(x)) == x,
{
}

/// After the whole walk, every entry of the box is the one the walk tabulates.
pub(crate) proof fn lemma_sbox_table(i: int)
    requires
        0 <= i < 256,
    ensures
        SBOX@[i] == sbox_entry(i as u8),
        i == 0 ==> sbox_entry(i as u8) == 0x63,
{
    lemma_walk_ends();
}

} // verus!
