//! Character-level building blocks shared by the rest of the crate: the
//! mathematical meaning of whitespace, trimming, decimal rendering and
//! joining, plus the one standard-library string call the crate makes.
use vstd::prelude::*;
use vstd::string::StrSliceExecFns;

verus! {

/// ASCII whitespace as `u8::is_ascii_whitespace` / `char::is_ascii_whitespace`
/// define it: space, tab, line feed, form feed, carriage return.
pub open spec fn is_ascii_ws(c: char) -> bool {
    c == ' ' || c == '\t' || c == '\n' || c == '\x0C' || c == '\r'
}

/// Unicode `White_Space`, the set `char::is_whitespace` (and so `str::trim`)
/// uses.
pub open spec fn is_unicode_ws(c: char) -> bool {
    ||| ('\t' <= c && c <= '\r')
    ||| c == ' '
    ||| c == '\u{85}'
    ||| c == '\u{A0}'
    ||| c == '\u{1680}'
    ||| ('\u{2000}' <= c && c <= '\u{200A}')
    ||| c == '\u{2028}'
    ||| c == '\u{2029}'
    ||| c == '\u{202F}'
    ||| c == '\u{205F}'
    ||| c == '\u{3000}'
}

/// `s` without its leading Unicode whitespace.
pub open spec fn trim_start(s: Seq<char>) -> Seq<char>
    decreases s.len(),
{
    if s.len() > 0 && is_unicode_ws(s[0]) {
        trim_start(s.drop_first())
    } else {
        s
    }
}

/// `s` without its trailing Unicode whitespace.
pub open spec fn trim_end(s: Seq<char>) -> Seq<char>
    decreases s.len(),
{
    if s.len() > 0 && is_unicode_ws(s.last()) {
        trim_end(s.drop_last())
    } else {
        s
    }
}

/// `s` without leading and trailing Unicode whitespace, as `str::trim`.
pub open spec fn trim(s: Seq<char>) -> Seq<char> {
    trim_end(trim_start(s))
}

/// Decimal rendering of a natural number, most significant digit first,
/// with no leading zeros (`0` renders as `"0"`).
pub open spec fn decimal(n: nat) -> Seq<char>
    decreases n,
{
    if n < 10 {
        seq![digit_char(n)]
    } else {
        decimal(n / 10).push(digit_char(n % 10))
    }
}

/// The ASCII digit for `d < 10`.
pub open spec fn digit_char(d: nat) -> char {
    if d == 0 {
        '0'
    } else if d == 1 {
        '1'
    } else if d == 2 {
        '2'
    } else if d == 3 {
        '3'
    } else if d == 4 {
        '4'
    } else if d == 5 {
        '5'
    } else if d == 6 {
        '6'
    } else if d == 7 {
        '7'
    } else if d == 8 {
        '8'
    } else {
        '9'
    }
}

/// Decimal rendering of an integer with a leading `-` for negatives.
pub open spec fn signed_decimal(n: int) -> Seq<char> {
    if n < 0 {
        seq!['-'] + decimal((-n) as nat)
    } else {
        decimal(n as nat)
    }
}

/// Join `parts` with `sep` between neighbours.
pub open spec fn join(parts: Seq<Seq<char>>, sep: Seq<char>) -> Seq<char>
    decreases parts.len(),
{
    if parts.len() == 0 {
        Seq::empty()
    } else if parts.len() == 1 {
        parts[0]
    } else {
        join(parts.drop_last(), sep) + sep + parts.last()
    }
}

/// The characters of `s` as a vector.
pub fn chars_of(s: &str) -> (res: Vec<char>)
    ensures
        res@ == s@,
{
    broadcast use vstd::string::axiom_spec_iter;

    let mut out: Vec<char> = Vec::new();
    for c in it: s.chars()
        invariant
            it.seq() == s@,
            out@ == it.seq().take(it.index()),
    {
        out.push(c);
        proof {
            assert(it.seq().take(it.index() + 1) == it.seq().take(it.index()).push(c));
        }
    }
    assert(out@ == s@);
    out
}

/// `String::push`: append one character.
#[verifier::external_body]
fn string_push(s: &mut String, c: char)
    ensures
        final(s)@ == old(s)@.push(c),
{
    s.push(c)
}

/// A string made of the characters `cs`.
pub fn string_of(cs: &[char]) -> (res: String)
    ensures
        res@ == cs@,
{
    let mut out = String::new();
    let mut i: usize = 0;
    while i < cs.len()
        invariant
            i <= cs.len(),
            out@ == cs@.take(i as int),
        decreases cs.len() - i,
    {
        string_push(&mut out, cs[i]);
        proof {
            assert(cs@.take(i + 1) == cs@.take(i as int).push(cs@[i as int]));
        }
        i = i + 1;
    }
    proof {
        assert(cs@.take(cs@.len() as int) == cs@);
    }
    out
}

/// A string holding the same characters as `s`.
pub fn to_owned_string(s: &str) -> (res: String)
    ensures
        res@ == s@,
{
    s.to_owned()
}

/// Is `c` Unicode whitespace?
pub fn is_whitespace_char(c: char) -> (res: bool)
    ensures
        res == is_unicode_ws(c),
{
    ('\t' <= c && c <= '\r') || c == ' ' || c == '\u{85}' || c == '\u{A0}' || c == '\u{1680}'
        || ('\u{2000}' <= c && c <= '\u{200A}') || c == '\u{2028}' || c == '\u{2029}' || c
        == '\u{202F}' || c == '\u{205F}' || c == '\u{3000}'
}

/// The position of the first character of `cs` that is not whitespace
/// (the length when there is none): `trim_start` drops what lies before.
fn leading_whitespace(cs: &[char]) -> (res: usize)
    ensures
        res <= cs@.len(),
        trim_start(cs@) == cs@.skip(res as int),
{
    let mut a: usize = 0;
    proof {
        assert(cs@.skip(0) =~= cs@);
    }
    while a < cs.len() && is_whitespace_char(cs[a])
        invariant
            a <= cs@.len(),
            trim_start(cs@) == trim_start(cs@.skip(a as int)),
        decreases cs.len() - a,
    {
        proof {
            let t = cs@.skip(a as int);
            assert(t[0] == cs@[a as int]);
            assert(t.drop_first() =~= cs@.skip(a + 1));
        }
        a = a + 1;
    }
    proof {
        let t = cs@.skip(a as int);
        if a < cs.len() {
            assert(t[0] == cs@[a as int]);
        } else {
            assert(t.len() == 0);
        }
    }
    a
}

/// The end of `cs[a..]` without its trailing whitespace.
fn trailing_whitespace_start(cs: &[char], a: usize) -> (res: usize)
    requires
        a <= cs@.len(),
    ensures
        a <= res <= cs@.len(),
        trim_end(cs@.skip(a as int)) == cs@.subrange(a as int, res as int),
{
    let mut b: usize = cs.len();
    proof {
        assert(cs@.skip(a as int) =~= cs@.subrange(a as int, b as int));
    }
    while b > a && is_whitespace_char(cs[b - 1])
        invariant
            a <= b <= cs@.len(),
            trim_end(cs@.skip(a as int)) == trim_end(cs@.subrange(a as int, b as int)),
        decreases b - a,
    {
        proof {
            let t = cs@.subrange(a as int, b as int);
            assert(t.last() == cs@[b - 1]);
            assert(t.drop_last() =~= cs@.subrange(a as int, b - 1));
        }
        b = b - 1;
    }
    proof {
        let t = cs@.subrange(a as int, b as int);
        if b > a {
            assert(t.last() == cs@[b - 1]);
        } else {
            assert(t.len() == 0);
        }
    }
    b
}

/// `s` without leading and trailing Unicode whitespace, as `str::trim`
/// gives it: a sub-slice of `s`.
pub(crate) fn str_trim(s: &str) -> (res: &str)
    ensures
        res@ == trim(s@),
{
    let cs = chars_of(s);
    let a = leading_whitespace(cs.as_slice());
    let b = trailing_whitespace_start(cs.as_slice(), a);
    s.substring_char(a, b)
}

/// `s` without leading Unicode whitespace, as `str::trim_start` gives it:
/// a sub-slice of `s`.
pub(crate) fn str_trim_start(s: &str) -> (res: &str)
    ensures
        res@ == trim_start(s@),
{
    let cs = chars_of(s);
    let a = leading_whitespace(cs.as_slice());
    s.substring_char(a, cs.len())
}

/// Number of characters in `s`.
pub fn char_len(s: &str) -> (res: usize)
    ensures
        res == s@.len(),
{
    let cs = chars_of(s);
    cs.len()
}

/// Append the characters of `cs` to `out`.
pub fn push_all(out: &mut Vec<char>, cs: &[char])
    ensures
        final(out)@ == old(out)@ + cs@,
{
    let mut i: usize = 0;
    while i < cs.len()
        invariant
            i <= cs.len(),
            out@ == old(out)@ + cs@.take(i as int),
        decreases cs.len() - i,
    {
        out.push(cs[i]);
        i = i + 1;
        proof {
            assert(cs@.take(i as int) == cs@.take(i - 1).push(cs@[i - 1]));
        }
    }
    proof {
        assert(cs@.take(cs@.len() as int) == cs@);
    }
}

/// Append the characters of the string slice `s` to `out`.
pub fn push_str(out: &mut Vec<char>, s: &str)
    ensures
        final(out)@ == old(out)@ + s@,
{
    let cs = chars_of(s);
    push_all(out, cs.as_slice());
}

/// The digit character for `d < 10`.
pub fn digit(d: u64) -> (c: char)
    requires
        d < 10,
    ensures
        c == digit_char(d as nat),
{
    if d == 0 {
        '0'
    } else if d == 1 {
        '1'
    } else if d == 2 {
        '2'
    } else if d == 3 {
        '3'
    } else if d == 4 {
        '4'
    } else if d == 5 {
        '5'
    } else if d == 6 {
        '6'
    } else if d == 7 {
        '7'
    } else if d == 8 {
        '8'
    } else {
        '9'
    }
}

/// Decimal digits of `n`.
pub fn decimal_chars(n: u64) -> (res: Vec<char>)
    ensures
        res@ == decimal(n as nat),
    decreases n,
{
    if n < 10 {
        let mut v: Vec<char> = Vec::new();
        v.push(digit(n));
        v
    } else {
        let mut v = decimal_chars(n / 10);
        v.push(digit(n % 10));
        v
    }
}

/// Decimal rendering of `n` as a `String`.
pub fn u64_to_string(n: u64) -> (res: String)
    ensures
        res@ == decimal(n as nat),
{
    let v = decimal_chars(n);
    string_of(v.as_slice())
}

/// Decimal rendering of a signed `n`.
pub fn i64_chars(n: i64) -> (res: Vec<char>)
    ensures
        res@ == signed_decimal(n as int),
{
    if n < 0 {
        let mag: u64 = if n == i64::MIN {
            9223372036854775808u64
        } else {
            (-n) as u64
        };
        let mut v: Vec<char> = Vec::new();
        v.push('-');
        let d = decimal_chars(mag);
        push_all(&mut v, d.as_slice());
        v
    } else {
        decimal_chars(n as u64)
    }
}

/// `a` followed by `b`, as a new `String`.
pub fn concat2(a: &str, b: &str) -> (res: String)
    ensures
        res@ == a@ + b@,
{
    let mut v = chars_of(a);
    push_str(&mut v, b);
    string_of(v.as_slice())
}

/// Does `s` begin with `prefix`?
pub open spec fn starts_with(s: Seq<char>, prefix: Seq<char>) -> bool {
    prefix.len() <= s.len() && s.take(prefix.len() as int) == prefix
}

/// `str::starts_with` for a string prefix.
pub fn has_prefix(s: &str, prefix: &str) -> (res: bool)
    ensures
        res == starts_with(s@, prefix@),
{
    let a = chars_of(s);
    let p = chars_of(prefix);
    if p.len() > a.len() {
        return false;
    }
    let mut i: usize = 0;
    while i < p.len()
        invariant
            p.len() <= a.len(),
            i <= p.len(),
            a@ == s@,
            p@ == prefix@,
            forall|k: int| 0 <= k < i ==> a@[k] == p@[k],
        decreases p.len() - i,
    {
        if a[i] != p[i] {
            proof {
                assert(s@.take(prefix@.len() as int)[i as int] != prefix@[i as int]);
            }
            return false;
        }
        i = i + 1;
    }
    proof {
        assert(s@.take(prefix@.len() as int) =~= prefix@);
    }
    true
}

/// Do `a` and `b` hold the same characters?
pub fn text_eq(a: &str, b: &str) -> (res: bool)
    ensures
        res == (a@ == b@),
{
    let x = chars_of(a);
    let y = chars_of(b);
    if x.len() != y.len() {
        return false;
    }
    let mut i: usize = 0;
    while i < x.len()
        invariant
            x.len() == y.len(),
            i <= x.len(),
            x@ == a@,
            y@ == b@,
            forall|k: int| 0 <= k < i ==> x@[k] == y@[k],
        decreases x.len() - i,
    {
        if x[i] != y[i] {
            return false;
        }
        i = i + 1;
    }
    proof {
        assert(x@ =~= y@);
    }
    true
}

/// `trim_start` removes a prefix, and what is left starts with a
/// non-whitespace character (or is empty).
pub proof fn lemma_trim_start_shape(s: Seq<char>)
    ensures
        trim_start(s).len() <= s.len(),
        trim_start(s) == s.skip(s.len() - trim_start(s).len()),
        trim_start(s).len() == 0 || !is_unicode_ws(trim_start(s)[0]),
    decreases s.len(),
{
    if s.len() > 0 && is_unicode_ws(s[0]) {
        lemma_trim_start_shape(s.drop_first());
        assert(s.drop_first().skip(s.drop_first().len() - trim_start(s).len()) == s.skip(
            s.len() - trim_start(s).len(),
        ));
    } else {
        assert(s.skip(0) == s);
    }
}

/// `trim_end` removes a suffix, and what is left ends with a
/// non-whitespace character (or is empty).
pub proof fn lemma_trim_end_shape(s: Seq<char>)
    ensures
        trim_end(s).len() <= s.len(),
        trim_end(s) == s.take(trim_end(s).len() as int),
        trim_end(s).len() == 0 || !is_unicode_ws(trim_end(s).last()),
    decreases s.len(),
{
    if s.len() > 0 && is_unicode_ws(s.last()) {
        lemma_trim_end_shape(s.drop_last());
        assert(s.drop_last().take(trim_end(s).len() as int) == s.take(trim_end(s).len() as int));
    } else {
        assert(s.take(s.len() as int) == s);
    }
}

/// Trimming trimmed text changes nothing.
pub proof fn lemma_trim_idempotent(s: Seq<char>)
    ensures
        trim(trim(s)) == trim(s),
{
    let u = trim_start(s);
    lemma_trim_start_shape(s);
    let v = trim_end(u);
    lemma_trim_end_shape(u);
    if v.len() > 0 {
        assert(v[0] == u[0]);
    }
    assert(trim_start(v) == v);
    assert(trim_end(v) == v);
}

/// Does `pat` occur in `s` at position `i`?
pub open spec fn occurs_at(s: Seq<char>, pat: Seq<char>, i: int) -> bool {
    0 <= i && i + pat.len() <= s.len() && s.subrange(i, i + pat.len() as int) == pat
}

/// `s` with every occurrence of the non-empty `pat` replaced by `rep`,
/// matches found left to right without overlap, as `str::replace`.
pub open spec fn replaced(s: Seq<char>, pat: Seq<char>, rep: Seq<char>) -> Seq<char>
    decreases s.len(),
{
    if pat.len() == 0 || s.len() < pat.len() {
        s
    } else if s.take(pat.len() as int) == pat {
        rep + replaced(s.skip(pat.len() as int), pat, rep)
    } else {
        seq![s[0]] + replaced(s.drop_first(), pat, rep)
    }
}

fn matches_at(cs: &Vec<char>, i: usize, pat: &Vec<char>) -> (res: bool)
    requires
        i <= cs@.len(),
    ensures
        res == occurs_at(cs@, pat@, i as int),
{
    if pat.len() > cs.len() - i {
        return false;
    }
    let mut k: usize = 0;
    while k < pat.len()
        invariant
            i + pat@.len() <= cs@.len(),
            i + pat.len() <= cs.len(),
            k <= pat.len(),
            forall|j: int| 0 <= j < k ==> cs@[i + j] == pat@[j],
        decreases pat.len() - k,
    {
        if cs[i + k] != pat[k] {
            proof {
                assert(cs@.subrange(i as int, i + pat@.len())[k as int] != pat@[k as int]);
            }
            return false;
        }
        k = k + 1;
    }
    proof {
        assert(cs@.subrange(i as int, i + pat@.len()) =~= pat@);
    }
    true
}

/// `str::replace` for a non-empty pattern.
pub fn replace_all(s: &str, pat: &str, rep: &str) -> (res: String)
    requires
        pat@.len() > 0,
    ensures
        res@ == replaced(s@, pat@, rep@),
{
    let cs = chars_of(s);
    let p = chars_of(pat);
    let r = chars_of(rep);
    let mut out: Vec<char> = Vec::new();
    let mut i: usize = 0;
    proof {
        assert(cs@.skip(0) == cs@);
    }
    while i < cs.len()
        invariant
            i <= cs.len(),
            cs@ == s@,
            p@ == pat@,
            r@ == rep@,
            p@.len() > 0,
            out@ + replaced(cs@.skip(i as int), p@, r@) == replaced(s@, pat@, rep@),
        decreases cs.len() - i,
    {
        let ghost rest = cs@.skip(i as int);
        let m = matches_at(&cs, i, &p);
        if m {
            proof {
                assert(rest.take(p@.len() as int) == cs@.subrange(i as int, i + p@.len()));
                assert(rest.skip(p@.len() as int) == cs@.skip(i + p@.len()));
                assert(out@ + (r@ + replaced(cs@.skip(i + p@.len()), p@, r@)) == (out@ + r@)
                    + replaced(cs@.skip(i + p@.len()), p@, r@));
            }
            push_all(&mut out, r.as_slice());
            i = i + p.len();
        } else {
            proof {
                if rest.len() >= p@.len() {
                    assert(rest.take(p@.len() as int) == cs@.subrange(i as int, i + p@.len()));
                    assert(rest[0] == cs@[i as int]);
                    assert(rest.drop_first() == cs@.skip(i + 1));
                    assert(out@ + (seq![cs@[i as int]] + replaced(cs@.skip(i + 1), p@, r@))
                        == out@.push(cs@[i as int]) + replaced(cs@.skip(i + 1), p@, r@));
                } else {
                    assert(replaced(rest, p@, r@) == rest);
                    assert(cs@.skip(i + 1).len() < p@.len());
                    assert(replaced(cs@.skip(i + 1), p@, r@) == cs@.skip(i + 1));
                    assert(rest == seq![cs@[i as int]] + cs@.skip(i + 1));
                    assert(out@ + rest == out@.push(cs@[i as int]) + cs@.skip(i + 1));
                }
            }
            out.push(cs[i]);
            i = i + 1;
        }
    }
    proof {
        assert(cs@.skip(i as int) == Seq::<char>::empty());
        assert(out@ + Seq::<char>::empty() == out@);
    }
    string_of(out.as_slice())
}

/// The first position, from `i` on, where `pat` occurs in `s`.
pub open spec fn first_from(s: Seq<char>, pat: Seq<char>, i: nat) -> Option<int>
    decreases s.len() + 1 - i,
{
    if i > s.len() {
        None
    } else if occurs_at(s, pat, i as int) {
        Some(i as int)
    } else {
        first_from(s, pat, i + 1)
    }
}

/// A position found by `first_from` is an occurrence at or after `i`,
/// and no earlier position from `i` on is one.
pub proof fn lemma_first_from_occurs(s: Seq<char>, pat: Seq<char>, i: nat)
    ensures
        first_from(s, pat, i) matches Some(k) ==> (occurs_at(s, pat, k) && i <= k && forall|j: int|
            i <= j < k ==> !occurs_at(s, pat, j)),
    decreases s.len() + 1 - i,
{
    if i <= s.len() && !occurs_at(s, pat, i as int) {
        lemma_first_from_occurs(s, pat, i + 1);
    }
}

/// The first position of `pat` in `cs`, as `str::find` (in characters).
pub fn find_chars(cs: &Vec<char>, pat: &Vec<char>) -> (res: Option<usize>)
    ensures
        match res {
            Some(i) => first_from(cs@, pat@, 0) == Some(i as int),
            None => first_from(cs@, pat@, 0) is None,
        },
{
    let mut i: usize = 0;
    while i < cs.len()
        invariant
            i <= cs.len(),
            first_from(cs@, pat@, 0) == first_from(cs@, pat@, i as nat),
        decreases cs.len() - i,
    {
        if matches_at(cs, i, pat) {
            return Some(i);
        }
        i = i + 1;
    }
    if matches_at(cs, i, pat) {
        return Some(i);
    }
    proof {
        assert(first_from(cs@, pat@, (i + 1) as nat) is None);
    }
    None
}

} // verus!
