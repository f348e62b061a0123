//! Byte-sequence helpers.
use vstd::prelude::*;
use vstd::utf8::*;

verus! {

/// A copy of `b`.
pub fn copy_bytes(b: &[u8]) -> (res: Vec<u8>)
    ensures
        res@ == b@,
{
    let mut out: Vec<u8> = Vec::new();
    push_bytes(&mut out, b);
    proof {
        assert(out@ == Seq::<u8>::empty() + b@);
    }
    out
}

/// Append the bytes of `b` to `out`.
pub fn push_bytes(out: &mut Vec<u8>, b: &[u8])
    ensures
        final(out)@ == old(out)@ + b@,
{
    let mut i: usize = 0;
    while i < b.len()
        invariant
            i <= b.len(),
            out@ == old(out)@ + b@.take(i as int),
        decreases b.len() - i,
    {
        out.push(b[i]);
        i = i + 1;
        proof {
            assert(b@.take(i as int) == b@.take(i - 1).push(b@[i - 1]));
        }
    }
    proof {
        assert(b@.take(b@.len() as int) == b@);
    }
}

/// The bytes `b[from..to]`.
pub fn sub_bytes(b: &[u8], from: usize, to: usize) -> (res: Vec<u8>)
    requires
        from <= to <= b@.len(),
    ensures
        res@ == b@.subrange(from as int, to as int),
{
    let mut out: Vec<u8> = Vec::new();
    let mut k = from;
    while k < to
        invariant
            from <= k <= to <= b@.len(),
            out@ == b@.subrange(from as int, k as int),
        decreases to - k,
    {
        out.push(b[k]);
        k = k + 1;
        proof {
            assert(out@ == b@.subrange(from as int, k as int));
        }
    }
    out
}

/// The text `std::str::from_utf8` reports for bytes that are not UTF-8.
pub uninterp spec fn utf8_error_text(b: Seq<u8>) -> Seq<char>;

/// `std::str::from_utf8`: the text the bytes encode when they are UTF-8,
/// otherwise the decoder's error text.
#[verifier::external_body]
fn str_from_utf8(b: &[u8]) -> (res: Result<&str, String>)
    ensures
        res is Ok <==> valid_utf8(b@),
        res matches Ok(s) ==> s@ == decode_utf8(b@),
        res matches Err(m) ==> m@ == utf8_error_text(b@),
{
    std::str::from_utf8(b).map_err(|e| e.to_string())
}

/// The text the bytes encode when they are UTF-8, otherwise the decoder's
/// error text.
pub fn utf8_string(b: &[u8]) -> (res: Result<String, String>)
    ensures
        res is Ok <==> valid_utf8(b@),
        res matches Ok(s) ==> s@ == decode_utf8(b@),
        res matches Err(m) ==> m@ == utf8_error_text(b@),
{
    match str_from_utf8(b) {
        Ok(s) => Ok(crate::text::to_owned_string(s)),
        Err(e) => Err(e),
    }
}

} // verus!
