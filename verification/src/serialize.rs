//! Deterministic request-to-text serializer.
//!
//! Renders method, URI, header list and body into one text blob: header
//! lines are `name: value` joined by a single newline in arrival order, a
//! blank line separates headers from the body, and a body that is not valid
//! UTF-8 in its entirety is rendered through the byte sanitizer instead.

use vstd::prelude::*;
use vstd::utf8::valid_utf8;
use crate::sanitize::{sanitize, sanitized};
use crate::utf8check::is_valid_utf8;

verus! {

/// One inbound request as the transport layer hands it over: plain byte
/// strings for method and URI, the header pairs in arrival order (duplicate
/// names kept, never merged), and the raw body bytes.
pub struct IncomingRequest {
    pub method: Vec<u8>,
    pub uri: Vec<u8>,
    pub headers: Vec<(Vec<u8>, Vec<u8>)>,
    pub body: Vec<u8>,
}

/// The mathematical content of an [`IncomingRequest`].
pub struct IncomingRequestView {
    pub method: Seq<u8>,
    pub uri: Seq<u8>,
    pub headers: Seq<(Seq<u8>, Seq<u8>)>,
    pub body: Seq<u8>,
}

impl View for IncomingRequest {
    type V = IncomingRequestView;

    open spec fn view(&self) -> IncomingRequestView {
        IncomingRequestView {
            method: self.method@,
            uri: self.uri@,
            headers: self.headers@.map_values(|p: (Vec<u8>, Vec<u8>)| (p.0@, p.1@)),
            body: self.body@,
        }
    }
}

/// One rendered header line: `name: value`.
pub open spec fn header_line(h: (Seq<u8>, Seq<u8>)) -> Seq<u8> {
    h.0 + seq![58u8, 32u8] + h.1
}

/// The rendered header block: the lines in arrival order, joined by a
/// single newline, with no trailing newline after the last line; empty
/// when there are no headers.
pub open spec fn header_block(hs: Seq<(Seq<u8>, Seq<u8>)>) -> Seq<u8>
    decreases hs.len(),
{
    if hs.len() == 0 {
        Seq::empty()
    } else if hs.len() == 1 {
        header_line(hs[0])
    } else {
        header_block(hs.drop_last()) + seq![10u8] + header_line(hs.last())
    }
}

/// The body as it appears in the echo text: verbatim when the whole body
/// is valid UTF-8, otherwise the sanitized rendering of all of it. The
/// fallback is all-or-nothing; there is no partial interpretation.
pub open spec fn body_text(body: Seq<u8>) -> Seq<u8> {
    if valid_utf8(body) {
        body
    } else {
        sanitized(body)
    }
}

/// The full echo text: `method SP uri LF headers LF LF body`, with exactly
/// one blank line between the header block and the body and no trailing
/// newline after the body.
pub open spec fn echo_text(r: IncomingRequestView) -> Seq<u8> {
    r.method + seq![32u8] + r.uri + seq![10u8] + header_block(r.headers) + seq![10u8, 10u8]
        + body_text(r.body)
}

/// Appends all of `src` to `out`.
pub(crate) fn push_all(out: &mut Vec<u8>, src: &[u8])
    ensures
        final(out)@ == old(out)@ + src@,
{
    let len = src.len();
    let mut i: usize = 0;
    while i < len
        invariant
            i <= len,
            len == src@.len(),
            out@ == old(out)@ + src@.take(i as int),
        decreases len - i,
    {
        out.push(src[i]);
        i = i + 1;
        proof {
            assert(old(out)@ + src@.take(i as int) =~= (old(out)@ + src@.take(i as int - 1)).push(
                src@[i as int - 1],
            ));
        }
    }
    proof {
        assert(old(out)@ + src@.take(len as int) =~= old(out)@ + src@);
    }
}

/// Renders the header block of `headers`, preserving arrival order.
pub fn render_headers(headers: &Vec<(Vec<u8>, Vec<u8>)>) -> (out: Vec<u8>)
    ensures
        out@ == header_block(headers@.map_values(|p: (Vec<u8>, Vec<u8>)| (p.0@, p.1@))),
{
    let ghost hs = headers@.map_values(|p: (Vec<u8>, Vec<u8>)| (p.0@, p.1@));
    let len = headers.len();
    let mut out: Vec<u8> = Vec::new();
    let mut i: usize = 0;
    while i < len
        invariant
            i <= len,
            len == headers@.len(),
            hs == headers@.map_values(|p: (Vec<u8>, Vec<u8>)| (p.0@, p.1@)),
            out@ == header_block(hs.take(i as int)),
        decreases len - i,
    {
        if i > 0 {
            out.push(10);
        }
        let h = &headers[i];
        push_all(&mut out, h.0.as_slice());
        out.push(58);
        out.push(32);
        push_all(&mut out, h.1.as_slice());
        i = i + 1;
        proof {
            let prev = hs.take(i as int - 1);
            let cur = hs.take(i as int);
            assert(hs[i - 1] == (headers@[i - 1].0@, headers@[i - 1].1@));
            assert(cur.last() == hs[i - 1]);
            assert(cur.drop_last() =~= prev);
            if i == 1 {
                assert(out@ =~= header_line(hs[0]));
                assert(header_block(cur) == header_line(cur[0]));
            } else {
                assert(header_block(cur) == header_block(prev) + seq![10u8] + header_line(
                    cur.last(),
                ));
                assert(out@ =~= header_block(prev) + seq![10u8] + header_line(hs[i - 1]));
            }
        }
    }
    proof {
        assert(hs.take(len as int) =~= hs);
    }
    out
}

impl IncomingRequest {
    /// Serializes this request into its canonical echo text. Cannot fail:
    /// a body that is not valid UTF-8 degrades to its sanitized rendering
    /// rather than propagating an error.
    pub fn serialize(&self) -> (out: Vec<u8>)
        ensures
            out@ == echo_text(self@),
    {
        let mut out: Vec<u8> = Vec::new();
        push_all(&mut out, self.method.as_slice());
        out.push(32);
        push_all(&mut out, self.uri.as_slice());
        out.push(10);
        let hdrs = render_headers(&self.headers);
        push_all(&mut out, hdrs.as_slice());
        out.push(10);
        out.push(10);
        if is_valid_utf8(self.body.as_slice()) {
            push_all(&mut out, self.body.as_slice());
        } else {
            let sb = sanitize(self.body.as_slice());
            push_all(&mut out, sb.as_slice());
        }
        proof {
            assert(out@ =~= echo_text(self@));
        }
        out
    }
}

/// The rendered body text is always valid UTF-8, whatever the body bytes
/// were: a fully valid body is echoed verbatim, and the sanitizer's
/// fallback emits only printable ASCII (plus tab, LF and CR), which is
/// valid UTF-8 byte for byte. The echo text therefore never carries an
/// undecodable body.
pub proof fn lemma_body_text_valid_utf8(body: Seq<u8>)
    ensures
        valid_utf8(body_text(body)),
{
    if !valid_utf8(body) {
        assert forall|i: int| 0 <= i < sanitized(body).len() implies #[trigger] sanitized(
            body,
        )[i] < 0x80 by {
            crate::sanitize::lemma_sanitize_idempotent(body);
        }
        crate::utf8check::lemma_ascii_valid_utf8(sanitized(body));
    }
}

/// Serialization is deterministic: any two outputs that meet the
/// serializer's contract for the same request data are byte-identical.
/// There is no hidden timestamp, randomness or ordering nondeterminism.
pub proof fn lemma_serialize_deterministic(r: IncomingRequestView, out1: Seq<u8>, out2: Seq<u8>)
    requires
        out1 == echo_text(r),
        out2 == echo_text(r),
    ensures
        out1 == out2,
{
}

} // verus!
