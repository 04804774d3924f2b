//! Binary-safe byte sanitizer.
//!
//! Converts an arbitrary byte sequence into printable ASCII text of the same
//! length: tab, line feed, carriage return and the printable ASCII range pass
//! through unchanged, every other byte becomes the placeholder `.`.

use vstd::prelude::*;

verus! {

/// The placeholder byte `.` that stands in for a byte outside the
/// pass-through set.
pub const PLACEHOLDER: u8 = 46;

/// True for the bytes the sanitizer copies through unchanged: tab (9),
/// line feed (10), carriage return (13), and 32..=127.
pub open spec fn passes_through(b: u8) -> bool {
    b == 9 || b == 10 || b == 13 || (32 <= b && b <= 127)
}

/// What the sanitizer makes of a single byte.
pub open spec fn sanitize_byte(b: u8) -> u8 {
    if passes_through(b) {
        b
    } else {
        PLACEHOLDER
    }
}

/// The sanitized form of a whole byte sequence: the same length, each byte
/// mapped independently by [`sanitize_byte`].
pub open spec fn sanitized(s: Seq<u8>) -> Seq<u8> {
    Seq::new(s.len(), |i: int| sanitize_byte(s[i]))
}

/// Renders arbitrary bytes as printable ASCII, one output byte per input
/// byte: control bytes (except tab and carriage return) and all bytes at or
/// above 128 become `.`, everything else is copied through.
pub fn sanitize(v: &[u8]) -> (out: Vec<u8>)
    ensures
        out@ == sanitized(v@),
{
    let len = v.len();
    let mut out: Vec<u8> = Vec::new();
    let mut i: usize = 0;
    while i < len
        invariant
            i <= len,
            len == v@.len(),
            out@ == sanitized(v@).take(i as int),
        decreases len - i,
    {
        let b = v[i];
        if b == 9 || b == 10 || b == 13 || (32 <= b && b <= 127) {
            out.push(b);
        } else {
            out.push(PLACEHOLDER);
        }
        i = i + 1;
        proof {
            assert(out@ =~= sanitized(v@).take(i as int));
        }
    }
    proof {
        assert(out@ =~= sanitized(v@));
    }
    out
}

/// The sanitizer is total and length-preserving: for every byte sequence,
/// the sanitized form has exactly the input's length.
pub proof fn lemma_sanitize_len(s: Seq<u8>)
    ensures
        sanitized(s).len() == s.len(),
{
}

/// On input made only of pass-through bytes the sanitizer is the identity.
pub proof fn lemma_sanitize_identity(s: Seq<u8>)
    requires
        forall|i: int| 0 <= i < s.len() ==> passes_through(#[trigger] s[i]),
    ensures
        sanitized(s) == s,
{
    assert(sanitized(s) =~= s);
}

/// Every byte outside the pass-through set comes out as the placeholder `.`.
pub proof fn lemma_sanitize_placeholder(s: Seq<u8>, i: int)
    requires
        0 <= i < s.len(),
        !passes_through(s[i]),
    ensures
        sanitized(s)[i] == PLACEHOLDER,
{
}

/// Every byte of the sanitized form is itself a pass-through byte, so the
/// output is always printable ASCII text (and sanitizing twice changes
/// nothing).
pub proof fn lemma_sanitize_idempotent(s: Seq<u8>)
    ensures
        forall|i: int|
            0 <= i < sanitized(s).len() ==> passes_through(#[trigger] sanitized(s)[i]),
        sanitized(sanitized(s)) == sanitized(s),
{
    assert(sanitized(sanitized(s)) =~= sanitized(s));
}

} // verus!
