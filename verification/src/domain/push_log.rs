//! The push log: bodies stored with each push are capped in size.
use vstd::prelude::*;
use vstd::string::*;
use vstd::utf8::*;

verus! {

/// One push, as recorded in the history. `at` is unix milliseconds.
#[derive(Debug, Clone)]
pub struct PushLogEntry {
    pub id: uuid::Uuid,
    pub at: i64,
    pub character_id: uuid::Uuid,
    pub character_name: String,
    pub target_id: uuid::Uuid,
    pub target_ai_id: String,
    pub fields_sent: Vec<String>,
    pub did_chat_break: bool,
    pub greeting: Option<String>,
    pub wipe_cascaded: Option<bool>,
    pub update_info_status: u16,
    pub update_info_body: String,
    pub create_new_ai_status: Option<u16>,
    pub create_new_ai_body: Option<String>,
    pub chat_break_status: Option<u16>,
    pub chat_break_body: Option<String>,
    pub journal_entry_ids: Option<Vec<String>>,
}

/// Largest response body, in bytes, kept in a log entry.
pub const MAX_LOG_BODY_BYTES: usize = 4096;

/// The marker appended to a body that was cut.
pub open spec fn truncation_marker() -> Seq<char> {
    seq!['…', '[', 't', 'r', 'u', 'n', 'c', 'a', 't', 'e', 'd', ']']
}

/// The largest character boundary of `bytes` at or below `e`.
pub open spec fn boundary_at_or_below(bytes: Seq<u8>, e: int) -> int
    decreases e,
{
    if e <= 0 || is_char_boundary(bytes, e) {
        if e <= 0 {
            0
        } else {
            e
        }
    } else {
        boundary_at_or_below(bytes, e - 1)
    }
}

/// The body as stored in the log: unchanged when it fits in
/// `MAX_LOG_BODY_BYTES` bytes of UTF-8, otherwise its longest prefix that
/// fits, cut at a character boundary, followed by `…[truncated]`.
pub open spec fn truncated_body(s: Seq<char>) -> Seq<char> {
    let bytes = encode_utf8(s);
    if bytes.len() <= MAX_LOG_BODY_BYTES {
        s
    } else {
        decode_utf8(bytes.take(boundary_at_or_below(bytes, MAX_LOG_BODY_BYTES as int)))
            + truncation_marker()
    }
}

proof fn lemma_boundary_props(bytes: Seq<u8>, e: int)
    requires
        valid_utf8(bytes),
        0 <= e <= bytes.len(),
    ensures
        0 <= boundary_at_or_below(bytes, e) <= e,
        is_char_boundary(bytes, boundary_at_or_below(bytes, e)),
    decreases e,
{
    broadcast use is_char_boundary_start_end_of_seq;

    if e > 0 && !is_char_boundary(bytes, e) {
        lemma_boundary_props(bytes, e - 1);
    }
}

/// Cap a response body at `MAX_LOG_BODY_BYTES` bytes without splitting a
/// character.
pub fn truncate_body(s: &str) -> (res: String)
    ensures
        res@ == truncated_body(s@),
{
    broadcast use encode_utf8_valid_utf8, decode_utf8_encode_utf8, encode_utf8_decode_utf8;

    let ghost bytes = s.spec_bytes();
    proof {
        assert(bytes == encode_utf8(s@));
    }
    let byte_len = s.as_bytes().len();
    if byte_len <= MAX_LOG_BODY_BYTES {
        proof {
            assert(bytes.len() <= MAX_LOG_BODY_BYTES);
        }
        return s.to_owned();
    }
    let mut end: usize = MAX_LOG_BODY_BYTES;
    proof {
        assert(valid_utf8(bytes));
    }
    while !s.is_char_boundary(end)
        invariant
            0 <= end <= MAX_LOG_BODY_BYTES < bytes.len(),
            bytes == s.spec_bytes(),
            valid_utf8(bytes),
            boundary_at_or_below(bytes, end as int) == boundary_at_or_below(
                bytes,
                MAX_LOG_BODY_BYTES as int,
            ),
        decreases end,
    {
        proof {
            is_char_boundary_start_end_of_seq(bytes);
        }
        end = end - 1;
    }
    proof {
        lemma_boundary_props(bytes, MAX_LOG_BODY_BYTES as int);
        assert(boundary_at_or_below(bytes, end as int) == end);
    }
    let (head, _tail) = s.split_at(end);
    proof {
        assert(head.spec_bytes() == bytes.take(end as int));
        assert(head@ == decode_utf8(head.spec_bytes()));
    }
    let mut out = head.to_owned();
    out.append("…[truncated]");
    proof {
        reveal_strlit("…[truncated]");
    }
    out
}

/// A cut body is a prefix of the given text followed by the marker,
/// and an uncut body is the given text.
pub proof fn truncated_body_keeps_a_prefix(s: Seq<char>)
    ensures
        encode_utf8(s).len() <= MAX_LOG_BODY_BYTES ==> truncated_body(s) == s,
        encode_utf8(s).len() > MAX_LOG_BODY_BYTES ==> exists|k: int|
            0 <= k <= s.len() && truncated_body(s) == s.take(k) + truncation_marker(),
{
    broadcast use encode_utf8_valid_utf8, decode_utf8_encode_utf8, encode_utf8_decode_utf8;

    let bytes = encode_utf8(s);
    if bytes.len() > MAX_LOG_BODY_BYTES {
        let e = boundary_at_or_below(bytes, MAX_LOG_BODY_BYTES as int);
        lemma_boundary_props(bytes, MAX_LOG_BODY_BYTES as int);
        decode_utf8_split(bytes, e);
        let head = decode_utf8(bytes.subrange(0, e));
        assert(s == head + decode_utf8(bytes.subrange(e, bytes.len() as int)));
        assert(s.take(head.len() as int) == head);
        assert(bytes.take(e) == bytes.subrange(0, e));
    }
}

/// The UTF-8 encoding of two texts one after the other is their encodings
/// one after the other.
proof fn lemma_encode_utf8_concat(a: Seq<char>, b: Seq<char>)
    ensures
        encode_utf8(a + b) == encode_utf8(a) + encode_utf8(b),
    decreases a.len(),
{
    if a.len() == 0 {
        assert(a + b =~= b);
        assert(encode_utf8(a) + encode_utf8(b) =~= encode_utf8(b));
    } else {
        assert((a + b).drop_first() =~= a.drop_first() + b);
        assert((a + b)[0] == a[0]);
        lemma_encode_utf8_concat(a.drop_first(), b);
        assert(encode_scalar(a[0] as u32) + (encode_utf8(a.drop_first()) + encode_utf8(b))
            =~= (encode_scalar(a[0] as u32) + encode_utf8(a.drop_first())) + encode_utf8(b));
    }
}

/// The marker takes 14 bytes of UTF-8: three for `…`, one for each other
/// character.
pub proof fn truncation_marker_bytes()
    ensures
        encode_utf8(truncation_marker()).len() == 14,
{
    let m = truncation_marker();
    reveal_with_fuel(encode_utf8, 13);
    assert(encode_scalar('…' as u32).len() == 3);
    assert(encode_utf8(m.drop_first()).len() == 11) by {
        reveal_with_fuel(encode_utf8, 12);
        let t = m.drop_first();
        assert(t =~= seq!['[', 't', 'r', 'u', 'n', 'c', 'a', 't', 'e', 'd', ']']);
    }
}

/// A stored body takes at most `MAX_LOG_BODY_BYTES` bytes of UTF-8 plus
/// the 14 bytes of the marker: the kept text never exceeds the cap.
pub proof fn truncated_body_fits(s: Seq<char>)
    ensures
        encode_utf8(truncated_body(s)).len() <= MAX_LOG_BODY_BYTES + 14,
{
    broadcast use encode_utf8_valid_utf8, decode_utf8_encode_utf8;

    let bytes = encode_utf8(s);
    truncation_marker_bytes();
    if bytes.len() > MAX_LOG_BODY_BYTES {
        let e = boundary_at_or_below(bytes, MAX_LOG_BODY_BYTES as int);
        lemma_boundary_props(bytes, MAX_LOG_BODY_BYTES as int);
        valid_utf8_split(bytes, e);
        assert(bytes.take(e) == bytes.subrange(0, e));
        let head = decode_utf8(bytes.take(e));
        assert(encode_utf8(head) == bytes.take(e));
        lemma_encode_utf8_concat(head, truncation_marker());
    }
}

/// Within any four consecutive positions of valid UTF-8 there is a
/// character boundary: no character takes more than four bytes.
proof fn lemma_boundary_near(bytes: Seq<u8>, e: int)
    requires
        valid_utf8(bytes),
        0 <= e <= bytes.len(),
    ensures
        exists|b: int| e - 3 <= b <= e && 0 <= b && is_char_boundary(bytes, b),
    decreases bytes.len(),
{
    if e == 0 {
        assert(is_char_boundary(bytes, 0));
    } else {
        let l = length_of_first_scalar(bytes);
        assert(1 <= l <= 4 && l <= bytes.len());
        if e < l {
            assert(is_char_boundary(bytes, 0));
        } else {
            let tail = pop_first_scalar(bytes);
            lemma_boundary_near(tail, e - l);
            let b = choose|b: int| e - l - 3 <= b <= e - l && 0 <= b && is_char_boundary(tail, b);
            assert(is_char_boundary(bytes, b + l));
        }
    }
}

/// The boundary found at or below `e` is the last one: every boundary up
/// to `e` lies at or below it.
proof fn lemma_boundary_is_last(bytes: Seq<u8>, e: int, b: int)
    requires
        valid_utf8(bytes),
        0 <= b <= e,
        is_char_boundary(bytes, b),
    ensures
        b <= boundary_at_or_below(bytes, e),
    decreases e,
{
    if e > 0 && !is_char_boundary(bytes, e) {
        lemma_boundary_is_last(bytes, e - 1, b);
    }
}

/// A cut body keeps at least `MAX_LOG_BODY_BYTES - 3` bytes of the given
/// text: the cut moves back by less than one character.
pub proof fn truncated_body_keeps_most(s: Seq<char>)
    ensures
        encode_utf8(s).len() > MAX_LOG_BODY_BYTES ==> encode_utf8(truncated_body(s)).len()
            >= MAX_LOG_BODY_BYTES - 3 + 14,
{
    broadcast use encode_utf8_valid_utf8, decode_utf8_encode_utf8;

    let bytes = encode_utf8(s);
    truncation_marker_bytes();
    if bytes.len() > MAX_LOG_BODY_BYTES {
        let e = boundary_at_or_below(bytes, MAX_LOG_BODY_BYTES as int);
        lemma_boundary_props(bytes, MAX_LOG_BODY_BYTES as int);
        lemma_boundary_near(bytes, MAX_LOG_BODY_BYTES as int);
        let b = choose|b: int|
            MAX_LOG_BODY_BYTES - 3 <= b <= MAX_LOG_BODY_BYTES && 0 <= b && is_char_boundary(bytes, b);
        lemma_boundary_is_last(bytes, MAX_LOG_BODY_BYTES as int, b);
        valid_utf8_split(bytes, e);
        assert(bytes.take(e) == bytes.subrange(0, e));
        let head = decode_utf8(bytes.take(e));
        assert(encode_utf8(head) == bytes.take(e));
        lemma_encode_utf8_concat(head, truncation_marker());
    }
}

} // verus!
