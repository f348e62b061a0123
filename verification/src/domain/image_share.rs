//! Image-based share codes.
//!
//! A share image is a PNG with a `tEXt` chunk whose keyword is `kindroid`
//! and whose text is the JSON payload `{"v":2,"p":{...persona}}`. This
//! module walks PNG chunks to find or remove that chunk, frames the chunk
//! for encoding, and checks the payload version; turning the JSON text into
//! values is done by the caller.
use vstd::prelude::*;
use vstd::utf8::*;

use crate::domain::share_code::{PartialCharacter, CURRENT_VERSION, MIN_SUPPORTED_VERSION};
use crate::text::{concat2, decimal, u64_to_string};

verus! {

/// The payload of a share image: the format version and the persona.
#[derive(Debug, Clone)]
pub struct SharePayload {
    pub v: u32,
    pub p: PartialCharacter,
}

/// Errors of the image share format.
#[derive(Debug, PartialEq, Eq)]
pub enum ImageShareError {
    NotPng,
    Malformed(String),
    NoPayload,
    UnsupportedVersion(u32),
    Codec(String),
}

impl ImageShareError {
    /// The user-facing text of the error.
    pub fn message(&self) -> (res: String)
        ensures
            res@ == image_share_error_text(*self),
    {
        match self {
            ImageShareError::NotPng => crate::text::to_owned_string("not a PNG file"),
            ImageShareError::Malformed(m) => concat2("malformed: ", m.as_str()),
            ImageShareError::NoPayload => crate::text::to_owned_string(
                "no kindroid metadata in image",
            ),
            ImageShareError::UnsupportedVersion(v) => {
                let n = u64_to_string(*v as u64);
                concat2("unsupported share-code version: ", n.as_str())
            },
            ImageShareError::Codec(m) => concat2("image codec error: ", m.as_str()),
        }
    }
}

/// The user-facing text of an image share error.
pub open spec fn image_share_error_text(e: ImageShareError) -> Seq<char> {
    match e {
        ImageShareError::NotPng => "not a PNG file"@,
        ImageShareError::Malformed(m) => "malformed: "@ + m@,
        ImageShareError::NoPayload => "no kindroid metadata in image"@,
        ImageShareError::UnsupportedVersion(v) => "unsupported share-code version: "@ + decimal(
            v as nat,
        ),
        ImageShareError::Codec(m) => "image codec error: "@ + m@,
    }
}

/// The eight-byte PNG signature.
pub open spec fn png_signature() -> Seq<u8> {
    seq![0x89u8, 0x50u8, 0x4Eu8, 0x47u8, 0x0Du8, 0x0Au8, 0x1Au8, 0x0Au8]
}

/// The keyword of our `tEXt` chunk: `kindroid`.
pub open spec fn keyword() -> Seq<u8> {
    seq![0x6Bu8, 0x69u8, 0x6Eu8, 0x64u8, 0x72u8, 0x6Fu8, 0x69u8, 0x64u8]
}

/// The chunk type `tEXt`.
pub open spec fn text_type() -> Seq<u8> {
    seq![0x74u8, 0x45u8, 0x58u8, 0x74u8]
}

/// Does `b` start with the PNG signature?
pub open spec fn is_png(b: Seq<u8>) -> bool {
    b.len() >= 8 && b.take(8) == png_signature()
}

/// The big-endian 32-bit number stored at `b[i..i+4]`.
pub open spec fn be32(b: Seq<u8>, i: int) -> int {
    (b[i] as int) * 16777216 + (b[i + 1] as int) * 65536 + (b[i + 2] as int) * 256 + (
    b[i + 3] as int)
}

/// Is the chunk whose data of `len` bytes starts at `c[8]` our `tEXt`
/// chunk, that is, is its type `tEXt` and does its text start with the
/// keyword `kindroid` followed by the NUL separator?
pub open spec fn is_our_chunk(c: Seq<u8>, len: int) -> bool {
    &&& c.subrange(4, 8) == text_type()
    &&& len >= 9
    &&& c.subrange(8, 16) == keyword()
    &&& c[16] == 0
}

/// The chunks of `c` (the bytes after the signature) with our chunk
/// removed; `None` when a chunk other than ours runs past the end.
/// Fewer than twelve trailing bytes end the walk and are dropped.
pub open spec fn strip_chunks(c: Seq<u8>) -> Option<Seq<u8>>
    decreases c.len(),
{
    if c.len() < 12 {
        Some(Seq::empty())
    } else {
        let len = be32(c, 0);
        if 8 + len > c.len() {
            None
        } else if is_our_chunk(c, len) {
            if 12 + len > c.len() {
                Some(Seq::empty())
            } else {
                strip_chunks(c.skip(12 + len))
            }
        } else if 12 + len > c.len() {
            None
        } else {
            match strip_chunks(c.skip(12 + len)) {
                Some(r) => Some(c.take(12 + len) + r),
                None => None,
            }
        }
    }
}

/// A PNG with our chunk removed: non-PNG input and truncated input come
/// back unchanged.
pub open spec fn stripped(b: Seq<u8>) -> Seq<u8> {
    if !is_png(b) {
        b
    } else {
        match strip_chunks(b.skip(8)) {
            Some(r) => png_signature() + r,
            None => b,
        }
    }
}

/// What the walk looking for our chunk finds.
pub enum TextSearch {
    /// Our chunk, with the bytes of its text (after the NUL).
    Found(Seq<u8>),
    /// No chunk of ours.
    Absent,
    /// A chunk runs past the end of the input.
    Truncated,
    /// A `tEXt` chunk has no NUL separator.
    MissingNull,
    /// A `tEXt` keyword is not UTF-8; these are its bytes.
    BadKeyword(Seq<u8>),
    /// Our chunk's text is not UTF-8; these are its bytes.
    BadText(Seq<u8>),
}

/// Index of the first zero byte in `d`, or `d.len()` when there is none.
pub open spec fn first_zero(d: Seq<u8>) -> nat
    decreases d.len(),
{
    if d.len() == 0 || d[0] == 0 {
        0
    } else {
        1 + first_zero(d.drop_first())
    }
}

/// Walk the chunks of `c` (the bytes after the signature) as
/// `read_kindroid_text` does.
pub open spec fn search_chunks(c: Seq<u8>) -> TextSearch
    decreases c.len(),
{
    if c.len() < 12 {
        TextSearch::Absent
    } else {
        let len = be32(c, 0);
        if 8 + len > c.len() {
            TextSearch::Truncated
        } else {
            let data = c.subrange(8, 8 + len);
            let z = first_zero(data);
            let next = if 12 + len > c.len() {
                TextSearch::Absent
            } else {
                search_chunks(c.skip(12 + len))
            };
            if c.subrange(4, 8) != text_type() {
                next
            } else if z == data.len() {
                TextSearch::MissingNull
            } else if !valid_utf8(data.take(z as int)) {
                TextSearch::BadKeyword(data.take(z as int))
            } else if data.take(z as int) != keyword() {
                next
            } else if !valid_utf8(data.skip(z as int + 1)) {
                TextSearch::BadText(data.skip(z as int + 1))
            } else {
                TextSearch::Found(data.skip(z as int + 1))
            }
        }
    }
}

/// The outcome of `read_kindroid_text` on `b`.
pub open spec fn read_outcome(b: Seq<u8>) -> TextSearch {
    search_chunks(b.skip(8))
}

/// The message of a `Malformed` error for a walk that failed.
pub open spec fn walk_error_text(o: TextSearch) -> Seq<char> {
    match o {
        TextSearch::Truncated => "truncated chunk"@,
        TextSearch::MissingNull => "tEXt missing null"@,
        TextSearch::BadKeyword(k) => "tEXt keyword: "@ + crate::bytes::utf8_error_text(k),
        TextSearch::BadText(t) => "tEXt text: "@ + crate::bytes::utf8_error_text(t),
        _ => Seq::empty(),
    }
}

proof fn lemma_first_zero(d: Seq<u8>)
    ensures
        first_zero(d) <= d.len(),
        first_zero(d) < d.len() ==> d[first_zero(d) as int] == 0,
        forall|k: int| 0 <= k < first_zero(d) ==> d[k] != 0,
    decreases d.len(),
{
    if d.len() > 0 && d[0] != 0 {
        lemma_first_zero(d.drop_first());
        assert forall|k: int| 0 <= k < first_zero(d) implies d[k] != 0 by {
            if k > 0 {
                assert(d[k] == d.drop_first()[k - 1]);
            }
        }
    }
}

proof fn lemma_first_zero_exact(d: Seq<u8>, m: int)
    requires
        0 <= m <= d.len(),
        forall|k: int| 0 <= k < m ==> #[trigger] d[k] != 0,
        m == d.len() || d[m] == 0,
    ensures
        first_zero(d) == m,
    decreases m,
{
    if m > 0 {
        assert(d[0] != 0);
        lemma_first_zero_exact(d.drop_first(), m - 1);
    }
}

/// Read the big-endian length at `b[i..i+4]`.
fn read_be32(b: &[u8], i: usize) -> (res: usize)
    requires
        i + 4 <= b@.len(),
    ensures
        res as int == be32(b@, i as int),
{
    let v: u64 = (b[i] as u64) * 16777216 + (b[i + 1] as u64) * 65536 + (b[i + 2] as u64) * 256
        + (b[i + 3] as u64);
    proof {
        assert(v <= 4294967295);
    }
    v as usize
}

/// Do the first eight bytes of `b` form the PNG signature?
fn has_png_signature(b: &[u8]) -> (res: bool)
    ensures
        res == is_png(b@),
{
    if b.len() < 8 {
        return false;
    }
    let ok = b[0] == 0x89 && b[1] == 0x50 && b[2] == 0x4E && b[3] == 0x47 && b[4] == 0x0D && b[5]
        == 0x0A && b[6] == 0x1A && b[7] == 0x0A;
    proof {
        if ok {
            assert(b@.take(8) =~= png_signature());
        } else {
            assert(b@.take(8)[0] == b@[0]);
            assert(b@.take(8)[1] == b@[1]);
            assert(b@.take(8)[2] == b@[2]);
            assert(b@.take(8)[3] == b@[3]);
            assert(b@.take(8)[4] == b@[4]);
            assert(b@.take(8)[5] == b@[5]);
            assert(b@.take(8)[6] == b@[6]);
            assert(b@.take(8)[7] == b@[7]);
        }
    }
    ok
}

/// Is the chunk starting at `b[p]` (length field) with data length `len`
/// a `tEXt` chunk?
fn chunk_is_text(b: &[u8], p: usize) -> (res: bool)
    requires
        p + 8 <= b.len(),
    ensures
        res == (b@.skip(p as int).subrange(4, 8) == text_type()),
{
    let ok = b[p + 4] == 0x74 && b[p + 5] == 0x45 && b[p + 6] == 0x58 && b[p + 7] == 0x74;
    proof {
        let t = b@.skip(p as int).subrange(4, 8);
        assert(t[0] == b@[p + 4]);
        assert(t[1] == b@[p + 5]);
        assert(t[2] == b@[p + 6]);
        assert(t[3] == b@[p + 7]);
        if ok {
            assert(t =~= text_type());
        }
    }
    ok
}

/// Is the chunk at `b[p]` with data length `len` our chunk?
fn chunk_is_ours(b: &[u8], p: usize, len: usize) -> (res: bool)
    requires
        p + 8 + len <= b.len(),
    ensures
        res == is_our_chunk(b@.skip(p as int), len as int),
{
    if !chunk_is_text(b, p) || len < 9 {
        return false;
    }
    let d = p + 8;
    let ok = b[d] == 0x6B && b[d + 1] == 0x69 && b[d + 2] == 0x6E && b[d + 3] == 0x64 && b[d + 4]
        == 0x72 && b[d + 5] == 0x6F && b[d + 6] == 0x69 && b[d + 7] == 0x64 && b[d + 8] == 0;
    proof {
        let c = b@.skip(p as int);
        let k = c.subrange(8, 16);
        assert(c[16] == b@[d + 8]);
        assert forall|j: int| 0 <= j < 8 implies k[j] == b@[d + j] by {}
        if ok {
            assert(k =~= keyword());
        } else if c[16] == 0 {
            assert(k[0] == b@[d + 0]);
            assert(k[1] == b@[d + 1]);
            assert(k[2] == b@[d + 2]);
            assert(k[3] == b@[d + 3]);
            assert(k[4] == b@[d + 4]);
            assert(k[5] == b@[d + 5]);
            assert(k[6] == b@[d + 6]);
            assert(k[7] == b@[d + 7]);
            assert(k != keyword());
        }
    }
    ok
}

/// Remove our `kindroid` `tEXt` chunk from a PNG. Every other chunk,
/// including other `tEXt` keys, is kept byte for byte and in order.
/// Input that is not a PNG, or whose chunks run past the end, is returned
/// unchanged.
pub fn strip_kindroid_metadata(image_bytes: &[u8]) -> (res: Vec<u8>)
    ensures
        res@ == stripped(image_bytes@),
{
    let b = image_bytes;
    let ghost gb = b@;
    if !has_png_signature(b) {
        return crate::bytes::copy_bytes(b);
    }
    let n = b.len();
    let mut out: Vec<u8> = Vec::new();
    let mut k: usize = 0;
    while k < 8
        invariant
            k <= 8 <= n == b@.len(),
            out@ == b@.take(k as int),
        decreases 8 - k,
    {
        out.push(b[k]);
        k = k + 1;
        proof {
            assert(out@ == b@.take(k as int));
        }
    }
    let mut pos: usize = 8;
    let ghost mut acc: Seq<u8> = Seq::empty();
    proof {
        assert(b@.take(8) == png_signature());
    }
    let mut done = false;
    while !done && n - pos >= 12
        invariant
            n == b@.len(),
            gb == b@,
            gb == image_bytes@,
            is_png(gb),
            8 <= pos <= n,
            out@ == png_signature() + acc,
            !done ==> match strip_chunks(gb.skip(pos as int)) {
                Some(r) => strip_chunks(gb.skip(8)) == Some(acc + r),
                None => strip_chunks(gb.skip(8)) is None,
            },
            done ==> strip_chunks(gb.skip(8)) == Some(acc),
        decreases n - pos + (if done { 0int } else { 1int }),
    {
        let c = Ghost(gb.skip(pos as int));
        let len = read_be32(b, pos);
        proof {
            assert(be32(c@, 0) == be32(gb, pos as int));
        }
        if len > n - pos - 8 {
            proof {
                assert(c@.len() == n - pos);
                assert(strip_chunks(c@) is None);
                assert(strip_chunks(gb.skip(8)) is None);
                assert(stripped(gb) == gb);
            }
            return crate::bytes::copy_bytes(b);
        }
        let ours = chunk_is_ours(b, pos, len);
        if !ours && len + 4 > n - pos - 8 {
            proof {
                assert(c@.len() == n - pos);
                assert(strip_chunks(c@) is None);
                assert(strip_chunks(gb.skip(8)) is None);
                assert(stripped(gb) == gb);
            }
            return crate::bytes::copy_bytes(b);
        }
        if len + 4 > n - pos - 8 {
            proof {
                assert(c@.len() == n - pos);
                assert(strip_chunks(c@) == Some(Seq::<u8>::empty()));
                assert(acc + Seq::<u8>::empty() == acc);
            }
            done = true;
            continue;
        }
        let end = pos + 12 + len;
        proof {
            assert(c@.skip(12 + len as int) == gb.skip(end as int));
        }
        if !ours {
            let mut q = pos;
            while q < end
                invariant
                    pos <= q <= end <= n == b@.len(),
                    out@ == png_signature() + acc + b@.subrange(pos as int, q as int),
                decreases end - q,
            {
                out.push(b[q]);
                q = q + 1;
                proof {
                    assert(out@ == png_signature() + acc + b@.subrange(pos as int, q as int));
                }
            }
            proof {
                assert(c@.take(12 + len as int) == gb.subrange(pos as int, end as int));
                let old_acc = acc;
                acc = acc + gb.subrange(pos as int, end as int);
                assert(out@ == png_signature() + acc);
                match strip_chunks(gb.skip(end as int)) {
                    Some(r) => {
                        assert(acc + r == old_acc + (c@.take(12 + len as int) + r));
                    },
                    None => {},
                }
            }
        }
        pos = end;
    }
    proof {
        if !done {
            assert(gb.skip(pos as int).len() < 12);
            assert(acc + Seq::<u8>::empty() == acc);
        }
    }
    out
}

proof fn lemma_strip_chunks_fixed(c: Seq<u8>)
    requires
        strip_chunks(c) is Some,
    ensures
        strip_chunks(strip_chunks(c)->0) == strip_chunks(c),
    decreases c.len(),
{
    if c.len() >= 12 {
        let len = be32(c, 0);
        if is_our_chunk(c, len) {
            if 12 + len <= c.len() {
                lemma_strip_chunks_fixed(c.skip(12 + len));
            }
        } else {
            let r = strip_chunks(c.skip(12 + len))->0;
            lemma_strip_chunks_fixed(c.skip(12 + len));
            let out = c.take(12 + len) + r;
            assert(out[0] == c[0] && out[1] == c[1] && out[2] == c[2] && out[3] == c[3]);
            assert(be32(out, 0) == len);
            assert(out.subrange(4, 8) == c.subrange(4, 8));
            if len >= 9 {
                assert(out.subrange(8, 16) == c.subrange(8, 16));
                assert(out[16] == c[16]);
            }
            assert(!is_our_chunk(out, len));
            assert(out.skip(12 + len) == r);
            assert(out.take(12 + len) == c.take(12 + len));
        }
    }
}

/// Removing our chunk twice removes nothing more: stripping is idempotent.
pub proof fn strip_is_idempotent(b: Seq<u8>)
    ensures
        stripped(stripped(b)) == stripped(b),
{
    if is_png(b) {
        match strip_chunks(b.skip(8)) {
            Some(r) => {
                let s = png_signature() + r;
                assert(s.take(8) == png_signature());
                assert(s.skip(8) == r);
                lemma_strip_chunks_fixed(b.skip(8));
            },
            None => {},
        }
    }
}

proof fn lemma_nothing_found_after_strip(c: Seq<u8>)
    requires
        strip_chunks(c) is Some,
    ensures
        !(search_chunks(strip_chunks(c)->0) is Found),
    decreases c.len(),
{
    if c.len() >= 12 {
        let len = be32(c, 0);
        if is_our_chunk(c, len) {
            if 12 + len <= c.len() {
                lemma_nothing_found_after_strip(c.skip(12 + len));
            }
        } else {
            let r = strip_chunks(c.skip(12 + len))->0;
            lemma_nothing_found_after_strip(c.skip(12 + len));
            let out = c.take(12 + len) + r;
            assert(out[0] == c[0] && out[1] == c[1] && out[2] == c[2] && out[3] == c[3]);
            assert(be32(out, 0) == len);
            assert(out.subrange(4, 8) == c.subrange(4, 8));
            assert(out.skip(12 + len) == r);
            let data = out.subrange(8, 8 + len);
            assert(data == c.subrange(8, 8 + len));
            let z = first_zero(data);
            lemma_first_zero(data);
            if out.subrange(4, 8) == text_type() && z < data.len() && data.take(z as int)
                == keyword() {
                assert(z == 8);
                assert(data[8] == 0);
                assert(c.subrange(8, 16) =~= data.take(8));
                assert(c[16] == data[8]);
                assert(is_our_chunk(c, len));
            }
        }
    }
}

/// Stripping removes our chunk: whenever the chunks of a PNG can be
/// walked, the chunk walk of the stripped image finds no payload.
pub proof fn stripped_image_has_no_payload(b: Seq<u8>)
    requires
        is_png(b),
        strip_chunks(b.skip(8)) is Some,
    ensures
        !(read_outcome(stripped(b)) is Found),
{
    let r = strip_chunks(b.skip(8))->0;
    let s = png_signature() + r;
    assert(s.skip(8) == r);
    lemma_nothing_found_after_strip(b.skip(8));
}

/// Do the first `end` bytes of `c` (bytes after the signature) consist of
/// complete chunks, none of them ours?
pub open spec fn chunks_without_ours(c: Seq<u8>, end: int) -> bool
    decreases end,
{
    if end <= 0 {
        end == 0
    } else if c.len() < 12 || 12 + be32(c, 0) > end {
        false
    } else if is_our_chunk(c, be32(c, 0)) {
        false
    } else {
        chunks_without_ours(c.skip(12 + be32(c, 0)), end - 12 - be32(c, 0))
    }
}

proof fn lemma_strip_keeps_foreign_chunks(c: Seq<u8>)
    requires
        chunks_without_ours(c, c.len() as int),
    ensures
        strip_chunks(c) == Some(c),
    decreases c.len(),
{
    if c.len() > 0 {
        let len = be32(c, 0);
        lemma_strip_keeps_foreign_chunks(c.skip(12 + len));
        assert(c.take(12 + len) + c.skip(12 + len) =~= c);
    } else {
        assert(c =~= Seq::<u8>::empty());
    }
}

/// A PNG made of complete chunks, none of them ours, is passed through
/// unchanged by stripping.
pub proof fn strip_keeps_image_without_payload(b: Seq<u8>)
    requires
        is_png(b),
        chunks_without_ours(b.skip(8), b.len() - 8),
    ensures
        stripped(b) == b,
{
    lemma_strip_keeps_foreign_chunks(b.skip(8));
    assert(png_signature() + b.skip(8) =~= b);
}

/// A complete chunk: length field, type, `length` bytes of data and the
/// checksum, nothing more.
pub open spec fn is_complete_chunk(c: Seq<u8>) -> bool {
    c.len() >= 12 && c.len() == 12 + be32(c, 0)
}

/// Chunks written one after the other.
pub open spec fn concat_chunks(cs: Seq<Seq<u8>>) -> Seq<u8>
    decreases cs.len(),
{
    if cs.len() == 0 {
        Seq::empty()
    } else {
        cs[0] + concat_chunks(cs.drop_first())
    }
}

/// The chunks of `cs` that are not ours, written one after the other in
/// their order.
pub open spec fn foreign_chunks(cs: Seq<Seq<u8>>) -> Seq<u8>
    decreases cs.len(),
{
    if cs.len() == 0 {
        Seq::empty()
    } else if is_our_chunk(cs[0], be32(cs[0], 0)) {
        foreign_chunks(cs.drop_first())
    } else {
        cs[0] + foreign_chunks(cs.drop_first())
    }
}

proof fn lemma_strip_concat_chunks(cs: Seq<Seq<u8>>)
    requires
        forall|i: int| 0 <= i < cs.len() ==> is_complete_chunk(#[trigger] cs[i]),
    ensures
        strip_chunks(concat_chunks(cs)) == Some(foreign_chunks(cs)),
    decreases cs.len(),
{
    let c = concat_chunks(cs);
    if cs.len() > 0 {
        let c0 = cs[0];
        let rest = cs.drop_first();
        assert(is_complete_chunk(c0));
        assert forall|i: int| 0 <= i < rest.len() implies is_complete_chunk(#[trigger] rest[i]) by {
            assert(rest[i] == cs[i + 1]);
        }
        lemma_strip_concat_chunks(rest);
        assert(c == c0 + concat_chunks(rest));
        let len = be32(c0, 0);
        assert(c.take(12 + len) =~= c0);
        assert(c.skip(12 + len) =~= concat_chunks(rest));
        assert(be32(c, 0) == len);
        if len >= 9 {
            assert(c.subrange(4, 8) =~= c0.subrange(4, 8));
            assert(c.subrange(8, 16) =~= c0.subrange(8, 16));
            assert(c[16] == c0[16]);
        }
        assert(is_our_chunk(c, len) == is_our_chunk(c0, len));
    } else {
        assert(c.len() == 0);
    }
}

/// Stripping a PNG made of complete chunks gives the signature followed by
/// exactly the chunks that are not ours, byte for byte and in their order:
/// the header and other text chunks stay, ours go.
pub proof fn strip_keeps_foreign_chunks_in_order(b: Seq<u8>, cs: Seq<Seq<u8>>)
    requires
        b == png_signature() + concat_chunks(cs),
        forall|i: int| 0 <= i < cs.len() ==> is_complete_chunk(#[trigger] cs[i]),
    ensures
        stripped(b) == png_signature() + foreign_chunks(cs),
{
    assert(b.take(8) =~= png_signature());
    assert(b.skip(8) =~= concat_chunks(cs));
    lemma_strip_concat_chunks(cs);
}

/// What the data `data` of a `tEXt` chunk holds, as the chunk walk judges
/// it: `Ok(None)` for someone else's text, `Ok(Some(t))` for our text `t`.
pub open spec fn text_data_verdict(data: Seq<u8>) -> TextSearch {
    let z = first_zero(data);
    if z == data.len() {
        TextSearch::MissingNull
    } else if !valid_utf8(data.take(z as int)) {
        TextSearch::BadKeyword(data.take(z as int))
    } else if data.take(z as int) != keyword() {
        TextSearch::Absent
    } else if !valid_utf8(data.skip(z as int + 1)) {
        TextSearch::BadText(data.skip(z as int + 1))
    } else {
        TextSearch::Found(data.skip(z as int + 1))
    }
}

/// Judge the data `b[d..d+len]` of a `tEXt` chunk.
fn inspect_text_data(b: &[u8], d: usize, len: usize) -> (res: Result<
    Option<String>,
    ImageShareError,
>)
    requires
        d + len <= b.len(),
    ensures
        match text_data_verdict(b@.subrange(d as int, d + len)) {
            TextSearch::Found(t) => res is Ok && res->Ok_0 is Some && res->Ok_0->0@ == decode_utf8(
                t,
            ),
            TextSearch::Absent => res == Ok::<Option<String>, ImageShareError>(None),
            o => res matches Err(ImageShareError::Malformed(m)) && m@ == walk_error_text(o),
        },
{
    let ghost data = b@.subrange(d as int, d + len);
    let mut z = d;
    while z < d + len && b[z] != 0
        invariant
            d <= z <= d + len <= b.len(),
            forall|k: int| d <= k < z ==> b@[k] != 0,
        decreases d + len - z,
    {
        z = z + 1;
    }
    proof {
        assert forall|k: int| 0 <= k < z - d implies #[trigger] data[k] != 0 by {
            assert(data[k] == b@[d + k]);
        }
        if z < d + len {
            assert(data[z - d] == b@[z as int]);
        }
        lemma_first_zero_exact(data, z - d);
    }
    if z == d + len {
        return Err(ImageShareError::Malformed(crate::text::to_owned_string("tEXt missing null")));
    }
    let key = crate::bytes::sub_bytes(b, d, z);
    proof {
        assert(key@ == data.take(z - d));
    }
    let key_text = crate::bytes::utf8_string(key.as_slice());
    match key_text {
        Err(e) => {
            return Err(ImageShareError::Malformed(concat2("tEXt keyword: ", e.as_str())));
        },
        Ok(_) => {},
    }
    let is_ours = z - d == 8 && b[d] == 0x6B && b[d + 1] == 0x69 && b[d + 2] == 0x6E && b[d + 3]
        == 0x64 && b[d + 4] == 0x72 && b[d + 5] == 0x6F && b[d + 6] == 0x69 && b[d + 7] == 0x64;
    proof {
        if is_ours {
            assert(key@ =~= keyword());
        } else if key@.len() == 8 {
            assert(key@[0] == b@[d + 0]);
            assert(key@[1] == b@[d + 1]);
            assert(key@[2] == b@[d + 2]);
            assert(key@[3] == b@[d + 3]);
            assert(key@[4] == b@[d + 4]);
            assert(key@[5] == b@[d + 5]);
            assert(key@[6] == b@[d + 6]);
            assert(key@[7] == b@[d + 7]);
            assert(key@ != keyword());
        }
    }
    if !is_ours {
        return Ok(None);
    }
    let text = crate::bytes::sub_bytes(b, z + 1, d + len);
    proof {
        assert(text@ == data.skip(z - d + 1));
    }
    match crate::bytes::utf8_string(text.as_slice()) {
        Ok(t) => Ok(Some(t)),
        Err(e) => Err(ImageShareError::Malformed(concat2("tEXt text: ", e.as_str()))),
    }
}

/// Walk the PNG chunks looking for our `tEXt` chunk and return its text.
pub fn read_kindroid_text(png: &[u8]) -> (res: Result<Option<String>, ImageShareError>)
    ensures
        !is_png(png@) ==> res == Err::<Option<String>, ImageShareError>(ImageShareError::NotPng),
        is_png(png@) ==> match read_outcome(png@) {
            TextSearch::Found(t) => res is Ok && res->Ok_0 is Some && res->Ok_0->0@ == decode_utf8(
                t,
            ),
            TextSearch::Absent => res is Ok && res->Ok_0 is None,
            o => res matches Err(ImageShareError::Malformed(m)) && m@ == walk_error_text(o),
        },
{
    if !has_png_signature(png) {
        return Err(ImageShareError::NotPng);
    }
    let ghost gb = png@;
    let n = png.len();
    let mut pos: usize = 8;
    let mut done = false;
    while !done && n - pos >= 12
        invariant
            n == png@.len(),
            gb == png@,
            is_png(gb),
            8 <= pos <= n,
            !done ==> read_outcome(gb) == search_chunks(gb.skip(pos as int)),
            done ==> read_outcome(gb) == TextSearch::Absent,
        decreases n - pos + (if done { 0int } else { 1int }),
    {
        let ghost c = gb.skip(pos as int);
        let len = read_be32(png, pos);
        proof {
            assert(be32(c, 0) == be32(gb, pos as int));
            assert(c.len() == n - pos);
        }
        if len > n - pos - 8 {
            proof {
                assert(search_chunks(c) == TextSearch::Truncated);
            }
            return Err(ImageShareError::Malformed(crate::text::to_owned_string("truncated chunk")));
        }
        let d = pos + 8;
        proof {
            assert(c.subrange(8, 8 + len as int) == gb.subrange(d as int, d + len));
        }
        let past_end = len + 4 > n - pos - 8;
        if !past_end {
            proof {
                assert(c.skip(12 + len as int) == gb.skip(pos + 12 + len));
            }
        }
        if chunk_is_text(png, pos) {
            let verdict = inspect_text_data(png, d, len);
            match verdict {
                Ok(None) => {},
                other => {
                    return other;
                },
            }
        }
        if past_end {
            done = true;
        } else {
            pos = pos + 12 + len;
        }
    }
    Ok(None)
}

/// The JSON payload text carried by a share image: the PNG's `kindroid`
/// `tEXt` chunk. Non-PNG input and a PNG without our chunk give
/// `NoPayload`; a damaged chunk walk gives `Malformed`.
pub fn payload_text(image_bytes: &[u8]) -> (res: Result<String, ImageShareError>)
    ensures
        !is_png(image_bytes@) ==> res == Err::<String, ImageShareError>(ImageShareError::NoPayload),
        is_png(image_bytes@) ==> match read_outcome(image_bytes@) {
            TextSearch::Found(t) => res is Ok && res->Ok_0@ == decode_utf8(t),
            TextSearch::Absent => res == Err::<String, ImageShareError>(ImageShareError::NoPayload),
            o => res matches Err(ImageShareError::Malformed(m)) && m@ == walk_error_text(o),
        },
{
    if !has_png_signature(image_bytes) {
        return Err(ImageShareError::NoPayload);
    }
    match read_kindroid_text(image_bytes) {
        Ok(Some(t)) => Ok(t),
        Ok(None) => Err(ImageShareError::NoPayload),
        Err(e) => Err(e),
    }
}

/// Accept a decoded payload whose format version lies between
/// `MIN_SUPPORTED_VERSION` and `CURRENT_VERSION`: older persona-only
/// payloads still decode, later ones are refused.
pub fn check_payload_version(v: u32, p: PartialCharacter) -> (res: Result<
    PartialCharacter,
    ImageShareError,
>)
    ensures
        MIN_SUPPORTED_VERSION <= v <= CURRENT_VERSION ==> res == Ok::<
            PartialCharacter,
            ImageShareError,
        >(p),
        !(MIN_SUPPORTED_VERSION <= v <= CURRENT_VERSION) ==> res == Err::<
            PartialCharacter,
            ImageShareError,
        >(ImageShareError::UnsupportedVersion(v)),
{
    if v < MIN_SUPPORTED_VERSION || v > CURRENT_VERSION {
        Err(ImageShareError::UnsupportedVersion(v))
    } else {
        Ok(p)
    }
}

/// The data of our `tEXt` chunk: the keyword, a NUL, then the payload.
pub open spec fn text_chunk(payload: Seq<char>) -> Seq<u8> {
    keyword() + seq![0u8] + encode_utf8(payload)
}

/// Frame `payload` as the data of our `tEXt` chunk.
pub fn text_chunk_data(payload: &str) -> (res: Vec<u8>)
    ensures
        res@ == text_chunk(payload@),
{
    let mut out: Vec<u8> = Vec::new();
    out.push(0x6B);
    out.push(0x69);
    out.push(0x6E);
    out.push(0x64);
    out.push(0x72);
    out.push(0x6F);
    out.push(0x69);
    out.push(0x64);
    out.push(0);
    proof {
        assert(out@ =~= keyword() + seq![0u8]);
    }
    let bytes = payload.as_bytes();
    crate::bytes::push_bytes(&mut out, bytes);
    out
}

/// Do the first `end` bytes of `c` (bytes after the signature) consist of
/// complete chunks, none of which is a text chunk?
pub open spec fn plain_chunks_before(c: Seq<u8>, end: int) -> bool
    decreases end,
{
    if end <= 0 {
        end == 0
    } else if c.len() < 12 || 12 + be32(c, 0) > end {
        false
    } else if c.subrange(4, 8) == text_type() {
        false
    } else {
        plain_chunks_before(c.skip(12 + be32(c, 0)), end - 12 - be32(c, 0))
    }
}

/// Does `c` start with a text chunk holding `data`, whatever its four
/// checksum bytes?
pub open spec fn starts_with_text_chunk(c: Seq<u8>, data: Seq<u8>) -> bool {
    &&& c.len() >= 12 + data.len()
    &&& be32(c, 0) == data.len()
    &&& c.subrange(4, 8) == text_type()
    &&& c.subrange(8, 8 + data.len() as int) == data
}

/// Does `c` start with our text chunk carrying `payload`?
pub open spec fn starts_with_our_chunk(c: Seq<u8>, payload: Seq<char>) -> bool {
    starts_with_text_chunk(c, text_chunk(payload))
}

proof fn lemma_our_chunk_found(c: Seq<u8>, payload: Seq<char>)
    requires
        starts_with_our_chunk(c, payload),
    ensures
        search_chunks(c) == TextSearch::Found(encode_utf8(payload)),
{
    let data = text_chunk(payload);
    let bytes = encode_utf8(payload);
    assert(data.subrange(0, 8) =~= keyword());
    assert(data[8] == 0u8);
    assert forall|k: int| 0 <= k < 8 implies #[trigger] data[k] != 0 by {
        assert(data[k] == keyword()[k]);
    }
    lemma_first_zero_exact(data, 8);
    assert(data.take(8) =~= keyword());
    assert(data.skip(9) =~= bytes);
    let kw = keyword();
    assert(kw.subrange(0, 0) =~= Seq::<u8>::empty());
    assert(valid_utf8(Seq::<u8>::empty()));
    assert forall|i: int| 0 <= 0 <= i < 8 <= kw.len() implies #[trigger] is_leading_byte_width_1(
        kw[i],
    ) by {}
    partial_valid_utf8_extend_ascii_block(kw, 0, 8);
    assert(kw.subrange(0, 8) =~= kw);
    encode_utf8_valid_utf8(payload);
}

proof fn lemma_found_behind_plain_chunks(c: Seq<u8>, end: int, payload: Seq<char>)
    requires
        plain_chunks_before(c, end),
        0 <= end <= c.len(),
        starts_with_our_chunk(c.skip(end), payload),
    ensures
        search_chunks(c) == TextSearch::Found(encode_utf8(payload)),
    decreases end,
{
    if end == 0 {
        assert(c.skip(0) =~= c);
        lemma_our_chunk_found(c, payload);
    } else {
        let len = be32(c, 0);
        let rest = c.skip(12 + len);
        assert(rest.skip(end - 12 - len) =~= c.skip(end));
        lemma_found_behind_plain_chunks(rest, end - 12 - len, payload);
    }
}

/// A share image reads back the payload it was framed with: in a PNG
/// whose chunks before ours are not text chunks, the walk finds our chunk
/// and its text decodes to exactly the payload, so `payload_text` returns
/// it.
pub proof fn framed_payload_reads_back(b: Seq<u8>, end: int, payload: Seq<char>)
    requires
        is_png(b),
        0 <= end <= b.len() - 8,
        plain_chunks_before(b.skip(8), end),
        starts_with_our_chunk(b.skip(8).skip(end), payload),
    ensures
        read_outcome(b) == TextSearch::Found(encode_utf8(payload)),
        decode_utf8(encode_utf8(payload)) == payload,
{
    lemma_found_behind_plain_chunks(b.skip(8), end, payload);
    encode_utf8_decode_utf8(payload);
}

/// A complete chunk that is not ours and that the walk passes over: any
/// chunk that is not a text chunk, or a text chunk whose keyword (the
/// bytes before its first NUL) is UTF-8 and is not `kindroid`.
pub open spec fn is_foreign_chunk(c: Seq<u8>) -> bool {
    &&& is_complete_chunk(c)
    &&& (c.subrange(4, 8) != text_type() || foreign_keyword(chunk_data(c)))
}

/// The data of a complete chunk: what lies between its type and its
/// checksum.
pub open spec fn chunk_data(c: Seq<u8>) -> Seq<u8> {
    c.subrange(8, c.len() - 4)
}

/// Does text-chunk data hold a NUL, with the bytes before the first one a
/// UTF-8 keyword other than ours?
pub open spec fn foreign_keyword(d: Seq<u8>) -> bool {
    exists|z: int|
        0 <= z < d.len() && d[z] == 0 && (forall|k: int| 0 <= k < z ==> #[trigger] d[k] != 0)
            && valid_utf8(#[trigger] d.take(z)) && d.take(z) != keyword()
}

proof fn lemma_walk_passes_foreign_chunks(cs: Seq<Seq<u8>>, rest: Seq<u8>)
    requires
        forall|i: int| 0 <= i < cs.len() ==> is_foreign_chunk(#[trigger] cs[i]),
    ensures
        search_chunks(concat_chunks(cs) + rest) == search_chunks(rest),
    decreases cs.len(),
{
    if cs.len() == 0 {
        assert(concat_chunks(cs) + rest =~= rest);
    } else {
        let c0 = cs[0];
        let more = cs.drop_first();
        assert(is_foreign_chunk(c0));
        assert forall|i: int| 0 <= i < more.len() implies is_foreign_chunk(#[trigger] more[i]) by {
            assert(more[i] == cs[i + 1]);
        }
        lemma_walk_passes_foreign_chunks(more, rest);
        let c = concat_chunks(cs) + rest;
        let len = be32(c0, 0);
        assert(c =~= c0 + (concat_chunks(more) + rest));
        assert(c.subrange(0, 12 + len) =~= c0);
        assert(be32(c, 0) == len);
        assert(c.skip(12 + len) =~= concat_chunks(more) + rest);
        assert(c.subrange(4, 8) =~= c0.subrange(4, 8));
        let data = c.subrange(8, 8 + len);
        assert(data =~= c0.subrange(8, 8 + len));
        if c0.subrange(4, 8) == text_type() {
            let d = chunk_data(c0);
            assert(d =~= data);
            let z = choose|z: int|
                0 <= z < d.len() && d[z] == 0 && (forall|k: int| 0 <= k < z ==> #[trigger] d[k] != 0)
                    && valid_utf8(#[trigger] d.take(z)) && d.take(z) != keyword();
            lemma_first_zero_exact(data, z);
        }
    }
}

/// A share image whose chunks before ours are any complete chunks that
/// are not ours (other text chunks with a UTF-8 keyword among them, as an
/// image editor adds) reads back the payload it was framed with: the walk
/// passes them and finds our chunk, whose text decodes to the payload.
pub proof fn payload_found_behind_foreign_chunks(b: Seq<u8>, cs: Seq<Seq<u8>>, rest: Seq<u8>, payload: Seq<char>)
    requires
        b == png_signature() + concat_chunks(cs) + rest,
        forall|i: int| 0 <= i < cs.len() ==> is_foreign_chunk(#[trigger] cs[i]),
        starts_with_our_chunk(rest, payload),
    ensures
        is_png(b),
        read_outcome(b) == TextSearch::Found(encode_utf8(payload)),
        decode_utf8(encode_utf8(payload)) == payload,
{
    assert(b.take(8) =~= png_signature());
    assert(b.skip(8) =~= concat_chunks(cs) + rest);
    lemma_walk_passes_foreign_chunks(cs, rest);
    lemma_our_chunk_found(rest, payload);
    encode_utf8_decode_utf8(payload);
}

/// The PNG the `png` crate writes for RGBA8 pixels followed by one
/// `tEXt` chunk.
pub uninterp spec fn png_with_text(width: u32, height: u32, rgba: Seq<u8>, chunk: Seq<u8>) -> Option<
    Seq<u8>,
>;

/// `image::load_from_memory(bytes)?.to_rgba8()`: the image's width,
/// height and RGBA8 pixels, or the codec's error text. The contract states
/// that the pixel buffer holds exactly four bytes per pixel (the crate's
/// decoders fill a buffer of `width * height` pixels, and its colour
/// conversion allocates one of that size). Which pixels come out, and
/// which inputs fail, is not stated: the JPEG decoder chooses its
/// colour-conversion routine by the processor's features.
#[verifier::external_body]
fn decode_to_rgba(bytes: &[u8]) -> (res: Result<(u32, u32, Vec<u8>), String>)
    ensures
        res matches Ok((w, h, px)) ==> px@.len() == w * h * 4,
{
    let rgba = image::load_from_memory(bytes).map_err(|e| e.to_string())?.to_rgba8();
    let (w, h) = rgba.dimensions();
    Ok((w, h, rgba.into_raw()))
}

/// `png::Encoder` (RGBA, 8-bit) writing the header, the pixels and then a
/// `tEXt` chunk with data `chunk`. The contract names the bytes written
/// and states their layout as the crate writes it: the signature, then the
/// `IHDR` and `IDAT` chunks (no text chunk among them), then the `tEXt`
/// chunk with its length, type and data (its checksum is not stated), then
/// `IEND`. The error text is not stated. The pixel buffer must hold
/// exactly four bytes per pixel: the crate multiplies the row length by
/// the height before it compares that size with the buffer, and that
/// product overflows for dimensions that no buffer of this length has.
#[verifier::external_body]
fn encode_png_with_text(width: u32, height: u32, rgba: &[u8], chunk: &[u8]) -> (res: Result<
    Vec<u8>,
    String,
>)
    requires
        rgba@.len() == width * height * 4,
    ensures
        match res {
            Ok(v) => {
                &&& png_with_text(width, height, rgba@, chunk@) == Some(v@)
                &&& is_png(v@)
                &&& exists|end: int|
                    0 <= end <= v@.len() - 8 && plain_chunks_before(v@.skip(8), end)
                        && starts_with_text_chunk(v@.skip(8).skip(end), chunk@)
            },
            Err(_) => png_with_text(width, height, rgba@, chunk@) is None,
        },
{
    let mut out = Vec::new();
    let mut encoder = png::Encoder::new(&mut out, width, height);
    encoder.set_color(png::ColorType::Rgba);
    encoder.set_depth(png::BitDepth::Eight);
    let mut writer = encoder.write_header().map_err(|e| e.to_string())?;
    writer.write_image_data(rgba).map_err(|e| e.to_string())?;
    writer.write_chunk(png::chunk::ChunkType(*b"tEXt"), chunk).map_err(|e| e.to_string())?;
    writer.finish().map_err(|e| e.to_string())?;
    Ok(out)
}

/// Write RGBA8 pixels `px` of a `width` by `height` image as a PNG with
/// `payload_json` embedded as our `tEXt` chunk: the bytes the `png` crate
/// writes, or a codec error when it refuses. The chunk walk of
/// `payload_text` finds that chunk in the result and reads back exactly
/// `payload_json`.
pub fn encode_rgba_with_payload(width: u32, height: u32, px: &[u8], payload_json: &str) -> (res:
    Result<Vec<u8>, ImageShareError>)
    requires
        px@.len() == width * height * 4,
    ensures
        match png_with_text(width, height, px@, text_chunk(payload_json@)) {
            Some(v) => res is Ok && res->Ok_0@ == v,
            None => res is Err && res->Err_0 is Codec,
        },
        res matches Ok(v) ==> read_outcome(v@) == TextSearch::Found(encode_utf8(payload_json@)),
{
    let chunk = text_chunk_data(payload_json);
    match encode_png_with_text(width, height, px, chunk.as_slice()) {
        Ok(v) => {
            proof {
                let end = choose|end: int|
                    0 <= end <= v@.len() - 8 && plain_chunks_before(v@.skip(8), end)
                        && starts_with_text_chunk(v@.skip(8).skip(end), chunk@);
                lemma_found_behind_plain_chunks(v@.skip(8), end, payload_json@);
            }
            Ok(v)
        },
        Err(e) => Err(ImageShareError::Codec(e)),
    }
}

/// Re-encode `image_bytes` (any format the `image` crate reads) as a PNG
/// with `payload_json` embedded as our `tEXt` chunk: the image is decoded
/// to RGBA8 pixels and written by `encode_rgba_with_payload`. A decoding
/// failure is a codec error. The chunk walk of `payload_text` finds our
/// chunk in the result and reads back exactly `payload_json`.
pub fn encode_image(image_bytes: &[u8], payload_json: &str) -> (res: Result<
    Vec<u8>,
    ImageShareError,
>)
    ensures
        res matches Err(e) ==> e is Codec,
        res matches Ok(v) ==> exists|w: u32, h: u32, px: Seq<u8>|
            px.len() == w * h * 4 && #[trigger] png_with_text(w, h, px, text_chunk(payload_json@))
                == Some(v@),
        res matches Ok(v) ==> read_outcome(v@) == TextSearch::Found(encode_utf8(payload_json@)),
{
    match decode_to_rgba(image_bytes) {
        Err(e) => Err(ImageShareError::Codec(e)),
        Ok((w, h, px)) => encode_rgba_with_payload(w, h, px.as_slice(), payload_json),
    }
}

} // verus!
