//! A UTF-8 validity check, proved against `vstd::utf8::valid_utf8`.
//!
//! The classifier must reject log text that does not decode as UTF-8.  The
//! check walks the bytes one encoded scalar at a time: width from the
//! leading byte, continuation bytes, and the overlong-encoding and
//! surrogate-range restrictions on the decoded codepoint.

use vstd::prelude::*;
use vstd::utf8::decode_first_codepoint;
use vstd::utf8::is_continuation_byte;
use vstd::utf8::is_leading_byte_width_1;
use vstd::utf8::is_leading_byte_width_2;
use vstd::utf8::is_leading_byte_width_3;
use vstd::utf8::is_leading_byte_width_4;
use vstd::utf8::length_of_first_scalar;
use vstd::utf8::pop_first_scalar;
use vstd::utf8::valid_first_scalar;
use vstd::utf8::valid_leading_and_continuation_bytes_first_codepoint;
use vstd::utf8::valid_utf8;

verus! {

/// Whether `bytes` is a valid UTF-8 encoding.
pub fn utf8_valid(bytes: &[u8]) -> (r: bool)
    ensures
        r == valid_utf8(bytes@),
{
    let n = bytes.len();
    let mut p: usize = 0;
    proof {
        assert(bytes@.subrange(0, n as int) =~= bytes@);
    }
    while p < n
        invariant
            n == bytes@.len(),
            0 <= p <= n,
            valid_utf8(bytes@) == valid_utf8(bytes@.subrange(p as int, n as int)),
        decreases n - p,
    {
        let ghost suffix = bytes@.subrange(p as int, n as int);
        let b0 = bytes[p];
        proof {
            assert(suffix[0] == b0);
        }
        let width: usize = if b0 <= 0x7f {
            1
        } else if b0 >= 0xc0 && b0 <= 0xdf {
            2
        } else if b0 >= 0xe0 && b0 <= 0xef {
            3
        } else if b0 >= 0xf0 && b0 <= 0xf7 {
            4
        } else {
            // A stray continuation byte or an invalid leading byte.
            proof {
                assert(!valid_leading_and_continuation_bytes_first_codepoint(suffix));
            }
            return false;
        };
        if n - p < width {
            // The encoding is cut short.
            proof {
                assert(!valid_leading_and_continuation_bytes_first_codepoint(suffix));
            }
            return false;
        }
        if width == 1 {
            proof {
                assert(((b0 & 0x7f) as u32) < 0xd800) by (bit_vector);
                assert(valid_first_scalar(suffix));
                assert(length_of_first_scalar(suffix) == 1);
                assert(pop_first_scalar(suffix) =~= bytes@.subrange(p + 1, n as int));
            }
            p += 1;
        } else if width == 2 {
            let b1 = bytes[p + 1];
            proof {
                assert(suffix[1] == b1);
            }
            if !(b1 >= 0x80 && b1 <= 0xbf) {
                proof {
                    assert(!valid_leading_and_continuation_bytes_first_codepoint(suffix));
                }
                return false;
            }
            let cp: u32 = (((b0 & 0x1f) as u32) << 6) | ((b1 & 0x3f) as u32);
            if cp < 0x80 {
                // Overlong: two bytes spent on a one-byte codepoint.
                proof {
                    assert(decode_first_codepoint(suffix) == cp);
                }
                return false;
            }
            proof {
                assert((((b0 & 0x1f) as u32) << 6 | ((b1 & 0x3f) as u32)) < 0xd800)
                    by (bit_vector);
                assert(decode_first_codepoint(suffix) == cp);
                assert(valid_first_scalar(suffix));
                assert(length_of_first_scalar(suffix) == 2);
                assert(pop_first_scalar(suffix) =~= bytes@.subrange(p + 2, n as int));
            }
            p += 2;
        } else if width == 3 {
            let b1 = bytes[p + 1];
            let b2 = bytes[p + 2];
            proof {
                assert(suffix[1] == b1);
                assert(suffix[2] == b2);
            }
            if !(b1 >= 0x80 && b1 <= 0xbf) || !(b2 >= 0x80 && b2 <= 0xbf) {
                proof {
                    assert(!valid_leading_and_continuation_bytes_first_codepoint(suffix));
                }
                return false;
            }
            let cp: u32 = (((b0 & 0x0f) as u32) << 12) | (((b1 & 0x3f) as u32) << 6) | ((b2
                & 0x3f) as u32);
            if cp < 0x800 || (cp >= 0xd800 && cp <= 0xdfff) {
                // Overlong or in the surrogate range.
                proof {
                    assert(decode_first_codepoint(suffix) == cp);
                }
                return false;
            }
            proof {
                assert(decode_first_codepoint(suffix) == cp);
                assert(valid_first_scalar(suffix));
                assert(length_of_first_scalar(suffix) == 3);
                assert(pop_first_scalar(suffix) =~= bytes@.subrange(p + 3, n as int));
            }
            p += 3;
        } else {
            let b1 = bytes[p + 1];
            let b2 = bytes[p + 2];
            let b3 = bytes[p + 3];
            proof {
                assert(suffix[1] == b1);
                assert(suffix[2] == b2);
                assert(suffix[3] == b3);
            }
            if !(b1 >= 0x80 && b1 <= 0xbf) || !(b2 >= 0x80 && b2 <= 0xbf) || !(b3 >= 0x80 && b3
                <= 0xbf) {
                proof {
                    assert(!valid_leading_and_continuation_bytes_first_codepoint(suffix));
                }
                return false;
            }
            let cp: u32 = (((b0 & 0x07) as u32) << 18) | (((b1 & 0x3f) as u32) << 12) | (((b2
                & 0x3f) as u32) << 6) | ((b3 & 0x3f) as u32);
            if cp < 0x10000 || cp > 0x10ffff {
                // Overlong or beyond the last Unicode scalar.
                proof {
                    assert(decode_first_codepoint(suffix) == cp);
                }
                return false;
            }
            proof {
                assert(decode_first_codepoint(suffix) == cp);
                assert(valid_first_scalar(suffix));
                assert(length_of_first_scalar(suffix) == 4);
                assert(pop_first_scalar(suffix) =~= bytes@.subrange(p + 4, n as int));
            }
            p += 4;
        }
    }
    proof {
        assert(bytes@.subrange(n as int, n as int) =~= Seq::<u8>::empty());
    }
    true
}

} // verus!
