//! multipart/form-data encoder.
//!
//! Builds a byte-exact multipart body from an ordered list of named fields,
//! with CRLF framing: each field opens with `--boundary` and a
//! `Content-Disposition` line, a file field adds `filename` and a
//! `Content-Type` line, and the message closes with `--boundary--`. The
//! boundary is emitted exactly as given, with no validation or escaping,
//! and file bytes are treated as opaque: copied verbatim, never re-encoded.

use vstd::prelude::*;
use crate::serialize::push_all;

verus! {

/// The value of one multipart field: inline text, or a file with a
/// filename, raw content bytes and a content type.
pub enum MultipartFieldValue {
    Text(Vec<u8>),
    File { filename: Vec<u8>, data: Vec<u8>, content_type: Vec<u8> },
}

/// The mathematical content of a [`MultipartFieldValue`].
pub enum MultipartFieldView {
    Text(Seq<u8>),
    File { filename: Seq<u8>, data: Seq<u8>, content_type: Seq<u8> },
}

impl View for MultipartFieldValue {
    type V = MultipartFieldView;

    open spec fn view(&self) -> MultipartFieldView {
        match self {
            MultipartFieldValue::Text(v) => MultipartFieldView::Text(v@),
            MultipartFieldValue::File { filename, data, content_type } => MultipartFieldView::File {
                filename: filename@,
                data: data@,
                content_type: content_type@,
            },
        }
    }
}

/// An ordered list of named multipart fields; the encoder emits them in
/// exactly this order.
pub struct MultipartFields(pub Vec<(Vec<u8>, MultipartFieldValue)>);

impl View for MultipartFields {
    type V = Seq<(Seq<u8>, MultipartFieldView)>;

    open spec fn view(&self) -> Seq<(Seq<u8>, MultipartFieldView)> {
        self.0@.map_values(|f: (Vec<u8>, MultipartFieldValue)| (f.0@, f.1@))
    }
}

/// `\r\n`, the line ending of multipart framing.
pub open spec fn crlf() -> Seq<u8> {
    seq![13u8, 10u8]
}

/// `--`, the delimiter dashes.
pub open spec fn dashes() -> Seq<u8> {
    seq![45u8, 45u8]
}

/// `Content-Disposition: form-data; name="`.
pub open spec fn disposition_prefix() -> Seq<u8> {
    seq![
        67u8, 111u8, 110u8, 116u8, 101u8, 110u8, 116u8, 45u8, 68u8, 105u8, 115u8, 112u8, 111u8,
        115u8, 105u8, 116u8, 105u8, 111u8, 110u8, 58u8, 32u8, 102u8, 111u8, 114u8, 109u8, 45u8,
        100u8, 97u8, 116u8, 97u8, 59u8, 32u8, 110u8, 97u8, 109u8, 101u8, 61u8, 34u8,
    ]
}

/// `; filename="`.
pub open spec fn filename_prefix() -> Seq<u8> {
    seq![59u8, 32u8, 102u8, 105u8, 108u8, 101u8, 110u8, 97u8, 109u8, 101u8, 61u8, 34u8]
}

/// `Content-Type: `.
pub open spec fn content_type_prefix() -> Seq<u8> {
    seq![67u8, 111u8, 110u8, 116u8, 101u8, 110u8, 116u8, 45u8, 84u8, 121u8, 112u8, 101u8, 58u8,
        32u8]
}

/// The bytes of one encoded field: `--boundary` CRLF, the
/// `Content-Disposition` line naming the field, then for text the value
/// after a blank line, and for a file the filename, a `Content-Type`
/// line, a blank line and the raw file bytes; each part ends with CRLF.
pub open spec fn part_bytes(boundary: Seq<u8>, name: Seq<u8>, value: MultipartFieldView) -> Seq<
    u8,
> {
    let head = dashes() + boundary + crlf() + disposition_prefix() + name + seq![34u8];
    match value {
        MultipartFieldView::Text(v) => head + crlf() + crlf() + v + crlf(),
        MultipartFieldView::File { filename, data, content_type } => head + filename_prefix()
            + filename + seq![34u8] + crlf() + content_type_prefix() + content_type + crlf()
            + crlf() + data + crlf(),
    }
}

/// The concatenation of the encoded fields, in the given order.
pub open spec fn parts_bytes(boundary: Seq<u8>, fields: Seq<(Seq<u8>, MultipartFieldView)>) -> Seq<
    u8,
>
    decreases fields.len(),
{
    if fields.len() == 0 {
        Seq::empty()
    } else {
        parts_bytes(boundary, fields.drop_last()) + part_bytes(
            boundary,
            fields.last().0,
            fields.last().1,
        )
    }
}

/// The whole multipart message: every field in order, then the closing
/// delimiter `--boundary--` CRLF.
pub open spec fn message_bytes(
    boundary: Seq<u8>,
    fields: Seq<(Seq<u8>, MultipartFieldView)>,
) -> Seq<u8> {
    parts_bytes(boundary, fields) + dashes() + boundary + dashes() + crlf()
}

/// Appends the delimiter dashes followed by the boundary, exactly as given.
fn push_delimiter(out: &mut Vec<u8>, boundary: &[u8])
    ensures
        final(out)@ == old(out)@ + dashes() + boundary@,
{
    out.push(45);
    out.push(45);
    push_all(out, boundary);
    proof {
        assert(out@ =~= old(out)@ + dashes() + boundary@);
    }
}

/// Appends the encoding of one field to `out`.
#[verifier::rlimit(50)]
fn push_part(out: &mut Vec<u8>, boundary: &[u8], name: &[u8], value: &MultipartFieldValue)
    ensures
        final(out)@ == old(out)@ + part_bytes(boundary@, name@, value@),
{
    push_delimiter(out, boundary);
    out.push(13);
    out.push(10);
    let prefix: Vec<u8> = vec![
        67u8, 111u8, 110u8, 116u8, 101u8, 110u8, 116u8, 45u8, 68u8, 105u8, 115u8, 112u8, 111u8,
        115u8, 105u8, 116u8, 105u8, 111u8, 110u8, 58u8, 32u8, 102u8, 111u8, 114u8, 109u8, 45u8,
        100u8, 97u8, 116u8, 97u8, 59u8, 32u8, 110u8, 97u8, 109u8, 101u8, 61u8, 34u8,
    ];
    proof {
        assert(prefix@ =~= disposition_prefix());
    }
    push_all(out, prefix.as_slice());
    push_all(out, name);
    out.push(34);
    proof {
        assert(out@ =~= old(out)@ + dashes() + boundary@ + crlf() + disposition_prefix() + name@
            + seq![34u8]);
    }
    let ghost head_done = out@;
    match value {
        MultipartFieldValue::Text(v) => {
            out.push(13);
            out.push(10);
            out.push(13);
            out.push(10);
            push_all(out, v.as_slice());
            out.push(13);
            out.push(10);
            proof {
                assert(out@ =~= head_done + crlf() + crlf() + v@ + crlf());
            }
        },
        MultipartFieldValue::File { filename, data, content_type } => {
            let fprefix: Vec<u8> = vec![
                59u8, 32u8, 102u8, 105u8, 108u8, 101u8, 110u8, 97u8, 109u8, 101u8, 61u8, 34u8,
            ];
            proof {
                assert(fprefix@ =~= filename_prefix());
            }
            push_all(out, fprefix.as_slice());
            push_all(out, filename.as_slice());
            out.push(34);
            out.push(13);
            out.push(10);
            let cprefix: Vec<u8> = vec![
                67u8, 111u8, 110u8, 116u8, 101u8, 110u8, 116u8, 45u8, 84u8, 121u8, 112u8, 101u8,
                58u8, 32u8,
            ];
            proof {
                assert(cprefix@ =~= content_type_prefix());
            }
            push_all(out, cprefix.as_slice());
            push_all(out, content_type.as_slice());
            out.push(13);
            out.push(10);
            out.push(13);
            out.push(10);
            push_all(out, data.as_slice());
            out.push(13);
            out.push(10);
            proof {
                assert(out@ =~= head_done + filename_prefix() + filename@ + seq![34u8] + crlf()
                    + content_type_prefix() + content_type@ + crlf() + crlf() + data@ + crlf());
            }
        },
    }
}

impl MultipartFields {
    /// Wraps an ordered field list.
    pub fn new(fields: Vec<(Vec<u8>, MultipartFieldValue)>) -> (r: Self)
        ensures
            r@ == fields@.map_values(|f: (Vec<u8>, MultipartFieldValue)| (f.0@, f.1@)),
    {
        MultipartFields(fields)
    }

    /// Encodes the fields as a multipart/form-data body with the given
    /// boundary: byte-exact CRLF framing, fields in input order, boundary
    /// and file bytes emitted verbatim.
    pub fn to_http(&self, boundary: &[u8]) -> (out: Vec<u8>)
        ensures
            out@ == message_bytes(boundary@, self@),
    {
        let ghost fs = self@;
        let len = self.0.len();
        let mut out: Vec<u8> = Vec::new();
        let mut i: usize = 0;
        while i < len
            invariant
                i <= len,
                len == self.0@.len(),
                fs == self@,
                out@ == parts_bytes(boundary@, fs.take(i as int)),
            decreases len - i,
        {
            let field = &self.0[i];
            push_part(&mut out, boundary, field.0.as_slice(), &field.1);
            i = i + 1;
            proof {
                assert(fs[i - 1] == (self.0@[i - 1].0@, self.0@[i - 1].1@));
                let cur = fs.take(i as int);
                assert(cur.drop_last() =~= fs.take(i as int - 1));
                assert(cur.last() == fs[i - 1]);
            }
        }
        push_delimiter(&mut out, boundary);
        out.push(45);
        out.push(45);
        out.push(13);
        out.push(10);
        proof {
            assert(fs.take(len as int) =~= fs);
            assert(out@ =~= message_bytes(boundary@, fs));
        }
        out
    }
}

} // verus!
