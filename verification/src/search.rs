//! Escaping a free-form search box into a safe FTS5 match expression.
use vstd::prelude::*;

use crate::text::{chars_of, is_ascii_ws, join, push_all, string_of};

verus! {

/// The FTS5 metacharacters removed from every token and phrase.
pub open spec fn is_fts_meta(c: char) -> bool {
    c == '*' || c == '(' || c == ')' || c == ':' || c == '^'
}

/// `s` with every FTS5 metacharacter removed.
pub open spec fn strip_meta(s: Seq<char>) -> Seq<char>
    decreases s.len(),
{
    if s.len() == 0 {
        s
    } else if is_fts_meta(s.last()) {
        strip_meta(s.drop_last())
    } else {
        strip_meta(s.drop_last()).push(s.last())
    }
}

/// `s` with every `"` doubled, as FTS5 phrase syntax requires.
pub open spec fn double_quotes(s: Seq<char>) -> Seq<char>
    decreases s.len(),
{
    if s.len() == 0 {
        s
    } else if s.last() == '"' {
        double_quotes(s.drop_last()) + seq!['"', '"']
    } else {
        double_quotes(s.drop_last()).push(s.last())
    }
}

/// A plain token becomes a quoted prefix match `"text"*`; nothing when no
/// character survives cleaning.
pub open spec fn fts_token(raw: Seq<char>) -> Option<Seq<char>> {
    let c = strip_meta(raw);
    if c.len() == 0 {
        None
    } else {
        Some(seq!['"'] + double_quotes(c) + seq!['"', '*'])
    }
}

/// A quoted phrase becomes an exact phrase match `"text"`; nothing when no
/// character survives cleaning.
pub open spec fn fts_phrase(raw: Seq<char>) -> Option<Seq<char>> {
    let c = strip_meta(raw);
    if c.len() == 0 {
        None
    } else {
        Some(seq!['"'] + double_quotes(c) + seq!['"'])
    }
}

/// Length of the plain token at the start of `s`: it runs up to the first
/// ASCII whitespace or `"`.
pub open spec fn plain_len(s: Seq<char>) -> nat
    decreases s.len(),
{
    if s.len() == 0 || is_ascii_ws(s[0]) || s[0] == '"' {
        0
    } else {
        1 + plain_len(s.drop_first())
    }
}

/// Length of the text before the first `"` in `s` (all of `s` if none).
pub open spec fn quoted_len(s: Seq<char>) -> nat
    decreases s.len(),
{
    if s.len() == 0 || s[0] == '"' {
        0
    } else {
        1 + quoted_len(s.drop_first())
    }
}

/// A bare token never reaches past the end of the text.
pub proof fn lemma_plain_len_bound(s: Seq<char>)
    ensures
        plain_len(s) <= s.len(),
    decreases s.len(),
{
    if s.len() > 0 && !is_ascii_ws(s[0]) && s[0] != '"' {
        lemma_plain_len_bound(s.drop_first());
    }
}

/// A quoted phrase ends at the first `"` (or at the end of the text).
pub proof fn lemma_quoted_len_bound(s: Seq<char>)
    ensures
        quoted_len(s) <= s.len(),
        quoted_len(s) < s.len() ==> s[quoted_len(s) as int] == '"',
        forall|k: int| 0 <= k < quoted_len(s) ==> s[k] != '"',
    decreases s.len(),
{
    if s.len() > 0 && s[0] != '"' {
        lemma_quoted_len_bound(s.drop_first());
        assert forall|k: int| 0 <= k < quoted_len(s) implies s[k] != '"' by {
            if k > 0 {
                assert(s[k] == s.drop_first()[k - 1]);
            }
        }
    }
}

/// Prepend the part `o`, if there is one, to `rest`.
pub open spec fn opt_cons(o: Option<Seq<char>>, rest: Seq<Seq<char>>) -> Seq<Seq<char>> {
    match o {
        Some(p) => seq![p] + rest,
        None => rest,
    }
}

/// The FTS5 parts a query produces, left to right: whitespace separates
/// tokens, a `"` opens a phrase that runs to the next `"`, and an opening
/// `"` with no partner makes the rest of the input a plain token.
pub open spec fn fts_parts(s: Seq<char>) -> Seq<Seq<char>>
    decreases s.len(),
{
    if s.len() == 0 {
        Seq::empty()
    } else if is_ascii_ws(s[0]) {
        fts_parts(s.drop_first())
    } else if s[0] == '"' {
        let rest = s.drop_first();
        let n = quoted_len(rest);
        proof {
            lemma_quoted_len_bound(rest);
        }
        if n < rest.len() {
            opt_cons(fts_phrase(rest.take(n as int)), fts_parts(rest.skip(n as int + 1)))
        } else {
            opt_cons(fts_token(rest), Seq::empty())
        }
    } else {
        let n = plain_len(s);
        proof {
            lemma_plain_len_bound(s);
        }
        opt_cons(fts_token(s.take(n as int)), fts_parts(s.skip(n as int)))
    }
}

/// The separator placed between parts.
pub open spec fn and_sep() -> Seq<char> {
    seq![' ', 'A', 'N', 'D', ' ']
}

/// The FTS5 expression for a query: its parts joined with ` AND `.
pub open spec fn fts_expression(q: Seq<char>) -> Seq<char> {
    join(fts_parts(q), and_sep())
}

/// The characters held by an optional vector.
pub open spec fn opt_view(o: Option<Vec<char>>) -> Option<Seq<char>> {
    match o {
        Some(v) => Some(v@),
        None => None,
    }
}

/// Characters that would change the meaning of an FTS5 expression if
/// they survived outside a quoted string.
pub open spec fn is_fts_operator(c: char) -> bool {
    c == '(' || c == ')' || c == ':' || c == '^'
}

pub open spec fn free_of_operators(s: Seq<char>) -> bool {
    forall|i: int| 0 <= i < s.len() ==> !is_fts_operator(#[trigger] s[i])
}

fn strip_meta_exec(raw: &[char]) -> (res: Vec<char>)
    ensures
        res@ == strip_meta(raw@),
{
    let mut out: Vec<char> = Vec::new();
    let mut i: usize = 0;
    while i < raw.len()
        invariant
            i <= raw.len(),
            out@ == strip_meta(raw@.take(i as int)),
        decreases raw.len() - i,
    {
        let c = raw[i];
        proof {
            let t = raw@.take(i + 1);
            assert(t.drop_last() == raw@.take(i as int));
            assert(t.last() == c);
        }
        if !(c == '*' || c == '(' || c == ')' || c == ':' || c == '^') {
            out.push(c);
        }
        i = i + 1;
    }
    proof {
        assert(raw@.take(raw@.len() as int) == raw@);
    }
    out
}

fn double_quotes_exec(cleaned: &[char]) -> (res: Vec<char>)
    ensures
        res@ == double_quotes(cleaned@),
{
    let mut out: Vec<char> = Vec::new();
    let mut i: usize = 0;
    while i < cleaned.len()
        invariant
            i <= cleaned.len(),
            out@ == double_quotes(cleaned@.take(i as int)),
        decreases cleaned.len() - i,
    {
        let c = cleaned[i];
        proof {
            let t = cleaned@.take(i + 1);
            assert(t.drop_last() == cleaned@.take(i as int));
            assert(t.last() == c);
        }
        if c == '"' {
            out.push('"');
            out.push('"');
            proof {
                assert(out@ == double_quotes(cleaned@.take(i as int)) + seq!['"', '"']);
            }
        } else {
            out.push(c);
        }
        i = i + 1;
    }
    proof {
        assert(cleaned@.take(cleaned@.len() as int) == cleaned@);
    }
    out
}

/// The quoted form of `raw` after cleaning, with a trailing `*` when
/// `prefix` is set; `None` when nothing survives cleaning.
fn build_part(raw: &[char], prefix: bool) -> (res: Option<Vec<char>>)
    ensures
        prefix ==> opt_view(res) == fts_token(raw@),
        !prefix ==> opt_view(res) == fts_phrase(raw@),
{
    let cleaned = strip_meta_exec(raw);
    if cleaned.len() == 0 {
        return None;
    }
    let escaped = double_quotes_exec(cleaned.as_slice());
    let mut out: Vec<char> = Vec::new();
    out.push('"');
    push_all(&mut out, escaped.as_slice());
    out.push('"');
    if prefix {
        out.push('*');
        proof {
            assert(out@ == seq!['"'] + double_quotes(strip_meta(raw@)) + seq!['"', '*']);
        }
    } else {
        proof {
            assert(out@ == seq!['"'] + double_quotes(strip_meta(raw@)) + seq!['"']);
        }
    }
    Some(out)
}

/// A plain token: `"text"*`, or nothing when only metacharacters remain.
fn build_token(raw: &[char]) -> (res: Option<Vec<char>>)
    ensures
        opt_view(res) == fts_token(raw@),
{
    build_part(raw, true)
}

/// A quoted phrase: `"text"`, or nothing when only metacharacters remain.
fn build_phrase(raw: &[char]) -> (res: Option<Vec<char>>)
    ensures
        opt_view(res) == fts_phrase(raw@),
{
    build_part(raw, false)
}

proof fn lemma_ws_step(s: Seq<char>, i: int)
    requires
        0 <= i < s.len(),
        is_ascii_ws(s[i]),
    ensures
        fts_parts(s.skip(i)) == fts_parts(s.skip(i + 1)),
{
    assert(s.skip(i).drop_first() == s.skip(i + 1));
}

proof fn lemma_plain_len_exact(s: Seq<char>, m: int)
    requires
        0 <= m <= s.len(),
        forall|k: int| 0 <= k < m ==> !is_ascii_ws(#[trigger] s[k]) && s[k] != '"',
        m == s.len() || is_ascii_ws(s[m]) || s[m] == '"',
    ensures
        plain_len(s) == m,
    decreases m,
{
    if m > 0 {
        assert(!is_ascii_ws(s[0]) && s[0] != '"');
        lemma_plain_len_exact(s.drop_first(), m - 1);
    }
}

proof fn lemma_quoted_len_exact(s: Seq<char>, m: int)
    requires
        0 <= m <= s.len(),
        forall|k: int| 0 <= k < m ==> #[trigger] s[k] != '"',
        m == s.len() || s[m] == '"',
    ensures
        quoted_len(s) == m,
    decreases m,
{
    if m > 0 {
        assert(s[0] != '"');
        lemma_quoted_len_exact(s.drop_first(), m - 1);
    }
}

/// Escape an arbitrary user query into a safe FTS5 expression.
///
/// Whitespace-separated tokens become prefix matches (`"tok"*`), text in
/// `"..."` becomes an exact phrase (`"text"`), FTS5 metacharacters are
/// removed and inner quotes doubled, empty parts are dropped, and the
/// parts are joined with ` AND `. An opening quote with no partner makes
/// the rest of the input a plain token.
pub fn escape_fts_query(query: &str) -> (res: String)
    ensures
        res@ == fts_expression(query@),
{
    let s = chars_of(query);
    let ghost gs = s@;
    let n = s.len();
    let mut parts: Vec<Vec<char>> = Vec::new();
    let ghost mut gparts: Seq<Seq<char>> = Seq::empty();
    let mut i: usize = 0;
    proof {
        assert(gs.skip(0) == gs);
    }
    while i < n
        invariant
            n == s.len(),
            gs == s@,
            i <= n,
            parts.len() == gparts.len(),
            forall|k: int| 0 <= k < parts.len() ==> (#[trigger] parts[k])@ == gparts[k],
            gparts + fts_parts(gs.skip(i as int)) == fts_parts(gs),
        decreases n - i,
    {
        let c = s[i];
        if c == ' ' || c == '\t' || c == '\n' || c == '\x0C' || c == '\r' {
            proof {
                lemma_ws_step(gs, i as int);
            }
            i = i + 1;
        } else if c == '"' {
            let start = i + 1;
            let mut j = start;
            while j < n && s[j] != '"'
                invariant
                    n == s.len(),
                    start <= j <= n,
                    forall|k: int| start <= k < j ==> s@[k] != '"',
                decreases n - j,
            {
                j = j + 1;
            }
            let closed = j < n;
            let raw = slice_chars(&s, start, j);
            let part = if closed {
                build_phrase(raw.as_slice())
            } else {
                build_token(raw.as_slice())
            };
            proof {
                let t = gs.skip(i as int);
                let rest = t.drop_first();
                assert(rest == gs.skip(start as int));
                assert forall|k: int| 0 <= k < j - start implies #[trigger] rest[k] != '"' by {
                    assert(rest[k] == gs[start + k]);
                }
                lemma_quoted_len_exact(rest, j - start);
                assert(rest.take(j - start) == raw@);
                if closed {
                    assert(rest.skip(j - start + 1) == gs.skip(j + 1));
                } else {
                    assert(rest == raw@);
                    assert(gs.skip(n as int) == Seq::<char>::empty());
                }
            }
            match part {
                Some(p) => {
                    proof {
                        gparts = gparts.push(p@);
                    }
                    parts.push(p);
                },
                None => {},
            }
            i = if closed {
                j + 1
            } else {
                j
            };
            proof {
                assert(fts_parts(Seq::<char>::empty()) == Seq::<Seq<char>>::empty());
                assert(gs.skip(n as int) == Seq::<char>::empty());
            }
        } else {
            let start = i;
            let mut j = i;
            while j < n && !(s[j] == ' ' || s[j] == '\t' || s[j] == '\n' || s[j] == '\x0C'
                || s[j] == '\r') && s[j] != '"'
                invariant
                    n == s.len(),
                    start <= j <= n,
                    forall|k: int| start <= k < j ==> !is_ascii_ws(s@[k]) && s@[k] != '"',
                decreases n - j,
            {
                j = j + 1;
            }
            let raw = slice_chars(&s, start, j);
            let part = build_token(raw.as_slice());
            proof {
                let t = gs.skip(i as int);
                assert forall|k: int| 0 <= k < j - start implies !is_ascii_ws(#[trigger] t[k])
                    && t[k] != '"' by {
                    assert(t[k] == gs[start + k]);
                }
                if j < n {
                    assert(t[j - start] == gs[j as int]);
                }
                lemma_plain_len_exact(t, j - start);
                assert(t.take(j - start) == raw@);
                assert(t.skip(j - start) == gs.skip(j as int));
            }
            match part {
                Some(p) => {
                    proof {
                        gparts = gparts.push(p@);
                    }
                    parts.push(p);
                },
                None => {},
            }
            i = j;
        }
    }
    proof {
        assert(gs.skip(n as int) == Seq::<char>::empty());
        assert(gparts == fts_parts(gs));
    }
    let out = join_parts(&parts, Ghost(gparts));
    string_of(out.as_slice())
}

/// The characters `s[from..to]`.
fn slice_chars(s: &Vec<char>, from: usize, to: usize) -> (res: Vec<char>)
    requires
        from <= to <= s.len(),
    ensures
        res@ == s@.subrange(from as int, to as int),
{
    let mut out: Vec<char> = Vec::new();
    let mut k = from;
    while k < to
        invariant
            from <= k <= to <= s.len(),
            out@ == s@.subrange(from as int, k as int),
        decreases to - k,
    {
        out.push(s[k]);
        k = k + 1;
        proof {
            assert(out@ == s@.subrange(from as int, k as int));
        }
    }
    out
}

/// Join the parts with ` AND `.
fn join_parts(parts: &Vec<Vec<char>>, Ghost(gparts): Ghost<Seq<Seq<char>>>) -> (res: Vec<char>)
    requires
        parts.len() == gparts.len(),
        forall|k: int| 0 <= k < parts.len() ==> (#[trigger] parts[k])@ == gparts[k],
    ensures
        res@ == join(gparts, and_sep()),
{
    let mut out: Vec<char> = Vec::new();
    let mut k: usize = 0;
    while k < parts.len()
        invariant
            k <= parts.len(),
            parts.len() == gparts.len(),
            forall|m: int| 0 <= m < parts.len() ==> (#[trigger] parts[m])@ == gparts[m],
            out@ == join(gparts.take(k as int), and_sep()),
        decreases parts.len() - k,
    {
        let ghost before = out@;
        if k > 0 {
            out.push(' ');
            out.push('A');
            out.push('N');
            out.push('D');
            out.push(' ');
        }
        push_all(&mut out, parts[k].as_slice());
        proof {
            let t = gparts.take(k + 1);
            assert(t.drop_last() == gparts.take(k as int));
            assert(t.last() == gparts[k as int]);
            if k == 0 {
                assert(t.len() == 1);
                assert(out@ == t[0]);
            } else {
                assert(out@ == before + and_sep() + gparts[k as int]);
            }
        }
        k = k + 1;
    }
    proof {
        assert(gparts.take(gparts.len() as int) == gparts);
    }
    out
}

proof fn lemma_strip_meta_clean(s: Seq<char>)
    ensures
        forall|i: int| 0 <= i < strip_meta(s).len() ==> !is_fts_meta(#[trigger] strip_meta(s)[i]),
    decreases s.len(),
{
    if s.len() > 0 {
        lemma_strip_meta_clean(s.drop_last());
        let r = strip_meta(s.drop_last());
        if !is_fts_meta(s.last()) {
            assert forall|i: int| 0 <= i < r.push(s.last()).len() implies !is_fts_meta(
                #[trigger] r.push(s.last())[i],
            ) by {
                if i < r.len() {
                    assert(r.push(s.last())[i] == r[i]);
                }
            }
        }
    }
}

proof fn lemma_double_quotes_clean(s: Seq<char>)
    requires
        forall|i: int| 0 <= i < s.len() ==> !is_fts_meta(#[trigger] s[i]),
    ensures
        free_of_operators(double_quotes(s)),
    decreases s.len(),
{
    if s.len() > 0 {
        let d = double_quotes(s.drop_last());
        assert forall|i: int| 0 <= i < s.drop_last().len() implies !is_fts_meta(
            #[trigger] s.drop_last()[i],
        ) by {
            assert(s.drop_last()[i] == s[i]);
        }
        lemma_double_quotes_clean(s.drop_last());
        assert(!is_fts_meta(s[s.len() - 1]));
        let tail: Seq<char> = if s.last() == '"' {
            seq!['"', '"']
        } else {
            seq![s.last()]
        };
        assert(free_of_operators(tail));
        lemma_concat_free(d, tail);
        if s.last() != '"' {
            assert(d.push(s.last()) == d + tail);
        }
    }
}

proof fn lemma_concat_free(a: Seq<char>, b: Seq<char>)
    requires
        free_of_operators(a),
        free_of_operators(b),
    ensures
        free_of_operators(a + b),
{
    assert forall|i: int| 0 <= i < (a + b).len() implies !is_fts_operator(#[trigger] (a + b)[i]) by {
        if i < a.len() {
            assert((a + b)[i] == a[i]);
        } else {
            assert((a + b)[i] == b[i - a.len()]);
        }
    }
}

proof fn lemma_part_free(raw: Seq<char>, prefix: bool)
    ensures
        prefix && fts_token(raw) is Some ==> free_of_operators(fts_token(raw)->0),
        !prefix && fts_phrase(raw) is Some ==> free_of_operators(fts_phrase(raw)->0),
{
    lemma_strip_meta_clean(raw);
    lemma_double_quotes_clean(strip_meta(raw));
    let d = double_quotes(strip_meta(raw));
    lemma_concat_free(seq!['"'], d);
    lemma_concat_free(seq!['"'] + d, seq!['"', '*']);
    lemma_concat_free(seq!['"'] + d, seq!['"']);
}

proof fn lemma_parts_free(s: Seq<char>)
    ensures
        forall|k: int| 0 <= k < fts_parts(s).len() ==> free_of_operators(#[trigger] fts_parts(s)[k]),
    decreases s.len(),
{
    if s.len() == 0 {
    } else if is_ascii_ws(s[0]) {
        lemma_parts_free(s.drop_first());
        assert(fts_parts(s) == fts_parts(s.drop_first()));
    } else if s[0] == '"' {
        let rest = s.drop_first();
        let n = quoted_len(rest);
        lemma_quoted_len_bound(rest);
        if n < rest.len() {
            lemma_part_free(rest.take(n as int), false);
            lemma_parts_free(rest.skip(n as int + 1));
            let tail = fts_parts(rest.skip(n as int + 1));
            assert forall|k: int| 0 <= k < fts_parts(s).len() implies free_of_operators(
                #[trigger] fts_parts(s)[k],
            ) by {
                match fts_phrase(rest.take(n as int)) {
                    Some(p) => {
                        if k > 0 {
                            assert(fts_parts(s)[k] == tail[k - 1]);
                        }
                    },
                    None => {},
                }
            }
        } else {
            lemma_part_free(rest, true);
            match fts_token(rest) {
                Some(p) => {
                    assert(fts_parts(s) == seq![p]);
                },
                None => {},
            }
        }
    } else {
        let n = plain_len(s);
        lemma_plain_len_bound(s);
        lemma_part_free(s.take(n as int), true);
        lemma_parts_free(s.skip(n as int));
        let tail = fts_parts(s.skip(n as int));
        assert forall|k: int| 0 <= k < fts_parts(s).len() implies free_of_operators(
            #[trigger] fts_parts(s)[k],
        ) by {
            match fts_token(s.take(n as int)) {
                Some(p) => {
                    if k > 0 {
                        assert(fts_parts(s)[k] == tail[k - 1]);
                    }
                },
                None => {},
            }
        }
    }
}

proof fn lemma_join_free(parts: Seq<Seq<char>>)
    requires
        forall|k: int| 0 <= k < parts.len() ==> free_of_operators(#[trigger] parts[k]),
    ensures
        free_of_operators(join(parts, and_sep())),
    decreases parts.len(),
{
    if parts.len() > 1 {
        lemma_join_free(parts.drop_last());
        lemma_concat_free(join(parts.drop_last(), and_sep()), and_sep());
        lemma_concat_free(join(parts.drop_last(), and_sep()) + and_sep(), parts.last());
    } else if parts.len() == 1 {
        assert(free_of_operators(parts[0]));
    }
}

/// No escaped query ever carries an FTS5 grouping, column-filter or
/// boost operator (`(`, `)`, `:`, `^`), whatever the user typed.
pub proof fn escaped_query_has_no_operators(q: Seq<char>)
    ensures
        free_of_operators(fts_expression(q)),
{
    lemma_parts_free(q);
    lemma_join_free(fts_parts(q));
}

/// A query made only of ASCII whitespace escapes to the empty string.
pub proof fn blank_query_escapes_to_empty(q: Seq<char>)
    requires
        forall|i: int| 0 <= i < q.len() ==> is_ascii_ws(#[trigger] q[i]),
    ensures
        fts_expression(q) == Seq::<char>::empty(),
    decreases q.len(),
{
    if q.len() > 0 {
        assert(is_ascii_ws(q[0]));
        assert forall|i: int| 0 <= i < q.drop_first().len() implies is_ascii_ws(
            #[trigger] q.drop_first()[i],
        ) by {
            assert(q.drop_first()[i] == q[i + 1]);
        }
        blank_query_escapes_to_empty(q.drop_first());
    }
}

/// Does `s` hold no `"`?
pub open spec fn quote_free(s: Seq<char>) -> bool {
    forall|i: int| 0 <= i < s.len() ==> #[trigger] s[i] != '"'
}

/// Length of the run of non-whitespace characters at the start of `s`.
pub open spec fn word_len(s: Seq<char>) -> nat
    decreases s.len(),
{
    if s.len() == 0 || is_ascii_ws(s[0]) {
        0
    } else {
        1 + word_len(s.drop_first())
    }
}

/// The words of `s`, as `str::split_ascii_whitespace` yields them: the
/// maximal runs of characters that are not ASCII whitespace, in order.
pub open spec fn ascii_words(s: Seq<char>) -> Seq<Seq<char>>
    decreases s.len(),
{
    if s.len() == 0 {
        Seq::empty()
    } else if is_ascii_ws(s[0]) {
        ascii_words(s.drop_first())
    } else {
        let n = word_len(s);
        proof {
            lemma_word_len_bound(s);
        }
        seq![s.take(n as int)] + ascii_words(s.skip(n as int))
    }
}

/// Each word stripped of the metacharacters, as a quoted prefix match
/// `"word"*`; words left empty are dropped.
pub open spec fn prefix_matches(words: Seq<Seq<char>>) -> Seq<Seq<char>>
    decreases words.len(),
{
    if words.len() == 0 {
        Seq::empty()
    } else {
        let c = strip_meta(words[0]);
        if c.len() == 0 {
            prefix_matches(words.drop_first())
        } else {
            seq![seq!['"'] + c + seq!['"', '*']] + prefix_matches(words.drop_first())
        }
    }
}

/// A word never reaches past the end of the text.
pub proof fn lemma_word_len_bound(s: Seq<char>)
    ensures
        word_len(s) <= s.len(),
    decreases s.len(),
{
    if s.len() > 0 && !is_ascii_ws(s[0]) {
        lemma_word_len_bound(s.drop_first());
    }
}

proof fn lemma_quote_free_plain_len(s: Seq<char>)
    requires
        quote_free(s),
    ensures
        plain_len(s) == word_len(s),
    decreases s.len(),
{
    if s.len() > 0 && !is_ascii_ws(s[0]) {
        assert(s[0] != '"');
        assert(quote_free(s.drop_first())) by {
            assert forall|i: int| 0 <= i < s.drop_first().len() implies #[trigger] s.drop_first()[i]
                != '"' by {
                assert(s.drop_first()[i] == s[i + 1]);
            }
        }
        lemma_quote_free_plain_len(s.drop_first());
    }
}

proof fn lemma_strip_meta_quote_free(s: Seq<char>)
    requires
        quote_free(s),
    ensures
        quote_free(strip_meta(s)),
        double_quotes(strip_meta(s)) == strip_meta(s),
    decreases s.len(),
{
    if s.len() > 0 {
        let init = s.drop_last();
        assert(quote_free(init)) by {
            assert forall|i: int| 0 <= i < init.len() implies #[trigger] init[i] != '"' by {
                assert(init[i] == s[i]);
            }
        }
        lemma_strip_meta_quote_free(init);
        let r = strip_meta(init);
        if !is_fts_meta(s.last()) {
            assert(s.last() == s[s.len() - 1]);
            let t = r.push(s.last());
            assert(quote_free(t)) by {
                assert forall|i: int| 0 <= i < t.len() implies #[trigger] t[i] != '"' by {
                    if i < r.len() {
                        assert(t[i] == r[i]);
                    }
                }
            }
            assert(t.drop_last() == r);
            assert(t.last() == s.last());
        }
    }
}

/// For a query without `"`, the parts are exactly its words as
/// `split_ascii_whitespace` yields them, each stripped of the
/// metacharacters and written as a quoted prefix match `"word"*`, in
/// order, with words left empty dropped; the expression joins them with
/// ` AND `.
pub proof fn quote_free_query_is_prefix_matches(q: Seq<char>)
    requires
        quote_free(q),
    ensures
        fts_parts(q) == prefix_matches(ascii_words(q)),
        fts_expression(q) == join(prefix_matches(ascii_words(q)), and_sep()),
    decreases q.len(),
{
    if q.len() > 0 {
        if is_ascii_ws(q[0]) {
            assert(quote_free(q.drop_first())) by {
                assert forall|i: int| 0 <= i < q.drop_first().len() implies #[trigger] q.drop_first()[i]
                    != '"' by {
                    assert(q.drop_first()[i] == q[i + 1]);
                }
            }
            quote_free_query_is_prefix_matches(q.drop_first());
        } else {
            assert(q[0] != '"');
            lemma_quote_free_plain_len(q);
            lemma_word_len_bound(q);
            lemma_plain_len_bound(q);
            let n = word_len(q);
            let w = q.take(n as int);
            let rest = q.skip(n as int);
            assert(quote_free(w)) by {
                assert forall|i: int| 0 <= i < w.len() implies #[trigger] w[i] != '"' by {
                    assert(w[i] == q[i]);
                }
            }
            assert(quote_free(rest)) by {
                assert forall|i: int| 0 <= i < rest.len() implies #[trigger] rest[i] != '"' by {
                    assert(rest[i] == q[i + n]);
                }
            }
            lemma_strip_meta_quote_free(w);
            quote_free_query_is_prefix_matches(rest);
            let words = ascii_words(q);
            assert(words == seq![w] + ascii_words(rest));
            assert(words[0] == w);
            assert(words.drop_first() =~= ascii_words(rest));
        }
    }
}

} // verus!
