//! Executable UTF-8 validity check.
//!
//! Decides, for an arbitrary byte sequence, whether it is a well-formed
//! UTF-8 encoding, against the specification `vstd::utf8::valid_utf8`:
//! correct leading/continuation bit patterns, no overlong encodings, no
//! surrogate codepoints, and nothing past the last Unicode scalar value.

use vstd::prelude::*;
use vstd::utf8::*;

verus! {

/// The suffix of `s` from `from` on, written as a skip of a skip, is the
/// suffix from `from + more` on.
proof fn lemma_skip_skip(s: Seq<u8>, from: int, more: int)
    requires
        0 <= from,
        0 <= more,
        from + more <= s.len(),
    ensures
        s.skip(from).skip(more) == s.skip(from + more),
{
    assert(s.skip(from).skip(more) =~= s.skip(from + more));
}

/// A byte sequence whose first scalar is malformed is not valid UTF-8.
proof fn lemma_invalid_first_scalar(s: Seq<u8>)
    requires
        s.len() > 0,
        !valid_first_scalar(s),
    ensures
        !valid_utf8(s),
{
}

/// Dropping a well-formed first scalar preserves validity of the rest.
proof fn lemma_valid_step(s: Seq<u8>, w: int)
    requires
        s.len() > 0,
        valid_first_scalar(s),
        w == length_of_first_scalar(s),
    ensures
        valid_utf8(s) == valid_utf8(s.skip(w)),
{
    assert(pop_first_scalar(s) =~= s.skip(w));
}

/// True exactly when `v` is a well-formed UTF-8 encoding.
///
/// Walks the bytes scalar by scalar: a leading byte fixes the width of the
/// encoding, the continuation bytes must carry the `10xxxxxx` pattern, and
/// the decoded codepoint must be neither an overlong encoding nor a
/// surrogate nor beyond the last scalar value.
pub fn is_valid_utf8(v: &[u8]) -> (r: bool)
    ensures
        r == valid_utf8(v@),
{
    let len = v.len();
    let mut i: usize = 0;
    proof {
        assert(v@.skip(0) =~= v@);
    }
    while i < len
        invariant
            i <= len,
            len == v@.len(),
            valid_utf8(v@) == valid_utf8(v@.skip(i as int)),
        decreases len - i,
    {
        let ghost s = v@.skip(i as int);
        proof {
            assert(s.len() == len - i);
            assert(s[0] == v@[i as int]);
        }
        let b0 = v[i];
        if b0 <= 0x7f {
            // One-byte scalar: always well-formed.
            proof {
                assert(b0 & 0x7f == b0) by (bit_vector)
                    requires
                        b0 <= 0x7f,
                ;
                assert(valid_first_scalar(s));
                assert(length_of_first_scalar(s) == 1);
                lemma_valid_step(s, 1);
                lemma_skip_skip(v@, i as int, 1);
            }
            i = i + 1;
        } else if 0xc0 <= b0 && b0 <= 0xdf {
            // Two-byte scalar: one continuation byte, codepoint at least 0x80.
            if len - i < 2 || !is_continuation(v[i + 1]) {
                proof {
                    if 1 < s.len() {
                        assert(s[1] == v@[i + 1]);
                    }
                    lemma_invalid_first_scalar(s);
                }
                return false;
            }
            let b1 = v[i + 1];
            proof {
                assert(s[1] == v@[i + 1]);
            }
            let cp: u32 = (((b0 & 0x1f) as u32) << 6u32) | ((b1 & 0x3f) as u32);
            proof {
                assert(cp == codepoint_width_2(s[0], s[1]));
                assert(cp <= 0x7ff) by (bit_vector)
                    requires
                        cp == (((b0 & 0x1f) as u32) << 6u32) | ((b1 & 0x3f) as u32),
                ;
            }
            if cp < 0x80 {
                // Overlong two-byte encoding.
                proof {
                    lemma_invalid_first_scalar(s);
                }
                return false;
            }
            proof {
                assert(valid_first_scalar(s));
                assert(length_of_first_scalar(s) == 2);
                lemma_valid_step(s, 2);
                lemma_skip_skip(v@, i as int, 2);
            }
            i = i + 2;
        } else if 0xe0 <= b0 && b0 <= 0xef {
            // Three-byte scalar: two continuation bytes, codepoint at least
            // 0x800 and outside the surrogate range.
            if len - i < 3 || !is_continuation(v[i + 1]) || !is_continuation(v[i + 2]) {
                proof {
                    if 1 < s.len() {
                        assert(s[1] == v@[i + 1]);
                    }
                    if 2 < s.len() {
                        assert(s[2] == v@[i + 2]);
                    }
                    lemma_invalid_first_scalar(s);
                }
                return false;
            }
            let b1 = v[i + 1];
            let b2 = v[i + 2];
            proof {
                assert(s[1] == v@[i + 1]);
                assert(s[2] == v@[i + 2]);
            }
            let cp: u32 = (((b0 & 0x0f) as u32) << 12u32) | (((b1 & 0x3f) as u32) << 6u32) | ((b2
                & 0x3f) as u32);
            proof {
                assert(cp == codepoint_width_3(s[0], s[1], s[2]));
            }
            if cp < 0x800 || (0xd800 <= cp && cp <= 0xdfff) {
                // Overlong encoding or surrogate codepoint.
                proof {
                    lemma_invalid_first_scalar(s);
                }
                return false;
            }
            proof {
                assert(valid_first_scalar(s));
                assert(length_of_first_scalar(s) == 3);
                lemma_valid_step(s, 3);
                lemma_skip_skip(v@, i as int, 3);
            }
            i = i + 3;
        } else if 0xf0 <= b0 && b0 <= 0xf7 {
            // Four-byte scalar: three continuation bytes, codepoint between
            // 0x10000 and the last scalar value 0x10ffff.
            if len - i < 4 || !is_continuation(v[i + 1]) || !is_continuation(v[i + 2])
                || !is_continuation(v[i + 3]) {
                proof {
                    if 1 < s.len() {
                        assert(s[1] == v@[i + 1]);
                    }
                    if 2 < s.len() {
                        assert(s[2] == v@[i + 2]);
                    }
                    if 3 < s.len() {
                        assert(s[3] == v@[i + 3]);
                    }
                    lemma_invalid_first_scalar(s);
                }
                return false;
            }
            let b1 = v[i + 1];
            let b2 = v[i + 2];
            let b3 = v[i + 3];
            proof {
                assert(s[1] == v@[i + 1]);
                assert(s[2] == v@[i + 2]);
                assert(s[3] == v@[i + 3]);
            }
            let cp: u32 = (((b0 & 0x07) as u32) << 18u32) | (((b1 & 0x3f) as u32) << 12u32) | (((b2
                & 0x3f) as u32) << 6u32) | ((b3 & 0x3f) as u32);
            proof {
                assert(cp == codepoint_width_4(s[0], s[1], s[2], s[3]));
            }
            if cp < 0x10000 || cp > 0x10ffff {
                // Overlong encoding or beyond the last scalar value.
                proof {
                    lemma_invalid_first_scalar(s);
                }
                return false;
            }
            proof {
                assert(valid_first_scalar(s));
                assert(length_of_first_scalar(s) == 4);
                lemma_valid_step(s, 4);
                lemma_skip_skip(v@, i as int, 4);
            }
            i = i + 4;
        } else {
            // A stray continuation byte (0x80..=0xbf) or a byte no UTF-8
            // encoding uses at all (0xf8..=0xff).
            proof {
                lemma_invalid_first_scalar(s);
            }
            return false;
        }
    }
    proof {
        assert(v@.skip(i as int) =~= Seq::<u8>::empty());
        assert(valid_utf8(v@.skip(i as int)));
    }
    true
}

/// A sequence of bytes that are all below 0x80 is plain ASCII, and ASCII
/// is always valid UTF-8: every byte stands alone as a one-byte scalar.
pub proof fn lemma_ascii_valid_utf8(s: Seq<u8>)
    requires
        forall|i: int| 0 <= i < s.len() ==> #[trigger] s[i] < 0x80,
    ensures
        valid_utf8(s),
    decreases s.len(),
{
    if s.len() > 0 {
        let b0 = s[0];
        assert(b0 & 0x7f == b0) by (bit_vector)
            requires
                b0 < 0x80,
        ;
        assert(valid_first_scalar(s));
        assert(length_of_first_scalar(s) == 1);
        assert(pop_first_scalar(s) =~= s.skip(1));
        lemma_ascii_valid_utf8(s.skip(1));
    }
}

/// True for bytes of the form `10xxxxxx`, the continuation pattern.
fn is_continuation(b: u8) -> (r: bool)
    ensures
        r == is_continuation_byte(b),
{
    0x80 <= b && b <= 0xbf
}

} // verus!
