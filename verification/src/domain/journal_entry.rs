//! Journal entries: the limits Kindroid enforces on an entry and its
//! keyphrases, and how user-typed keyphrases are normalised.
use vstd::prelude::*;

use crate::text::{
    char_len, chars_of, concat2, decimal, lemma_trim_idempotent, push_str, str_trim, string_of,
    text_eq, to_owned_string, trim, u64_to_string, is_unicode_ws,
};

verus! {

/// The longest entry body, in characters.
pub const MAX_ENTRY_CHARS: usize = 500;

/// The most keyphrases an entry may carry.
pub const MAX_KEYPHRASES: usize = 8;

/// The longest keyphrase, in characters; Kindroid refuses longer ones.
pub const MAX_KEYPHRASE_CHARS: usize = 50;

/// A journal entry as typed by the user; `id` is set when editing.
#[derive(Debug, Clone)]
pub struct JournalEntryInput {
    pub id: Option<String>,
    pub entry: String,
    pub keyphrases: Vec<String>,
}

/// The views of a list of strings.
pub open spec fn views(v: Seq<String>) -> Seq<Seq<char>> {
    v.map_values(|s: String| s@)
}

/// A character that separates list items (`,` or `;`); a keyphrase is one
/// item and may not hold one.
pub open spec fn is_separator(c: char) -> bool {
    c == ',' || c == ';'
}

/// Does `s` hold a separator character?
pub open spec fn has_separator(s: Seq<char>) -> bool {
    exists|i: int| 0 <= i < s.len() && is_separator(#[trigger] s[i])
}

/// The number of words of `s`: maximal runs of characters that are not
/// Unicode whitespace.
pub open spec fn word_count(s: Seq<char>) -> nat
    decreases s.len(),
{
    if s.len() == 0 {
        0
    } else {
        let prev = s.drop_last();
        let starts_word = !is_unicode_ws(s.last()) && (prev.len() == 0 || is_unicode_ws(
            prev.last(),
        ));
        word_count(prev) + if starts_word {
            1nat
        } else {
            0nat
        }
    }
}

/// The most words a keyphrase may have.
pub const MAX_KEYPHRASE_WORDS: usize = 3;

/// The first problem with the keyphrases from position `i` on: a blank
/// keyphrase, one longer than the limit (its trimmed length is reported),
/// one holding a separator, or one of more than three words.
pub open spec fn keyphrase_problem(kps: Seq<Seq<char>>, i: nat) -> Option<Seq<char>>
    decreases kps.len() - i,
{
    if i >= kps.len() {
        None
    } else {
        let t = trim(kps[i as int]);
        if t.len() == 0 {
            Some("keyphrase #"@ + decimal(i) + " must not be empty"@)
        } else if t.len() > MAX_KEYPHRASE_CHARS {
            Some(
                "keyphrase #"@ + decimal(i) + " must be 50 characters or fewer (got "@ + decimal(
                    t.len(),
                ) + ")"@,
            )
        } else if has_separator(t) {
            Some("keyphrase must not contain separators"@)
        } else if word_count(t) > MAX_KEYPHRASE_WORDS {
            Some("keyphrase must be 3 words or fewer"@)
        } else {
            keyphrase_problem(kps, i + 1)
        }
    }
}

/// Does one of `cs` separate list items?
fn holds_separator(cs: &[char]) -> (res: bool)
    ensures
        res == has_separator(cs@),
{
    let mut i: usize = 0;
    while i < cs.len()
        invariant
            i <= cs.len(),
            forall|j: int| 0 <= j < i ==> !is_separator(#[trigger] cs@[j]),
        decreases cs.len() - i,
    {
        if cs[i] == ',' || cs[i] == ';' {
            return true;
        }
        i = i + 1;
    }
    false
}

/// The number of words of `cs`.
fn count_words(cs: &[char]) -> (res: usize)
    ensures
        res == word_count(cs@),
{
    let mut n: usize = 0;
    let mut in_word = false;
    let mut i: usize = 0;
    while i < cs.len()
        invariant
            i <= cs.len(),
            n == word_count(cs@.take(i as int)),
            n <= i,
            in_word == (i > 0 && !is_unicode_ws(cs@[i - 1])),
        decreases cs.len() - i,
    {
        let ws = crate::text::is_whitespace_char(cs[i]);
        proof {
            let s = cs@.take(i + 1);
            assert(s.drop_last() == cs@.take(i as int));
            assert(s.last() == cs@[i as int]);
        }
        if !ws && !in_word {
            n = n + 1;
        }
        in_word = !ws;
        i = i + 1;
    }
    proof {
        assert(cs@.take(cs@.len() as int) == cs@);
    }
    n
}

/// The first problem with an entry, checked in this order: a blank body,
/// a body over the limit (its trimmed length is reported), too many
/// keyphrases, then each keyphrase in turn.
pub open spec fn entry_problem(entry: Seq<char>, kps: Seq<Seq<char>>) -> Option<Seq<char>> {
    let t = trim(entry);
    if t.len() == 0 {
        Some("entry must not be empty"@)
    } else if t.len() > MAX_ENTRY_CHARS {
        Some("entry must be 500 characters or fewer (got "@ + decimal(t.len()) + ")"@)
    } else if kps.len() > MAX_KEYPHRASES {
        Some("at most 8 keyphrases"@)
    } else {
        keyphrase_problem(kps, 0)
    }
}

/// The error text of a check, if it failed.
pub open spec fn problem_of(r: Result<(), String>) -> Option<Seq<char>> {
    match r {
        Ok(()) => None,
        Err(m) => Some(m@),
    }
}

fn numbered(head: &str, n: usize, tail: &str) -> (res: String)
    ensures
        res@ == head@ + decimal(n as nat) + tail@,
{
    let mut out = chars_of(head);
    let d = u64_to_string(n as u64);
    push_str(&mut out, d.as_str());
    push_str(&mut out, tail);
    string_of(out.as_slice())
}

fn over_limit(head: &str, n: usize) -> (res: String)
    ensures
        res@ == head@ + decimal(n as nat) + ")"@,
{
    numbered(head, n, ")")
}

/// A journal entry of a character. Times are unix milliseconds.
#[derive(Debug, Clone)]
pub struct JournalEntry {
    pub id: String,
    pub character_id: uuid::Uuid,
    pub entry: String,
    pub keyphrases: Vec<String>,
    pub created_at: i64,
    pub updated_at: i64,
}

impl JournalEntry {

/// Validate an entry body and its keyphrases against Kindroid's limits.
pub fn validate(entry: &str, keyphrases: &[String]) -> (res: Result<(), String>)
    ensures
        problem_of(res) == entry_problem(entry@, views(keyphrases@)),
{
    let ghost kps = views(keyphrases@);
    let trimmed = str_trim(entry);
    let n = char_len(trimmed);
    if n == 0 {
        return Err(to_owned_string("entry must not be empty"));
    }
    if n > MAX_ENTRY_CHARS {
        return Err(over_limit("entry must be 500 characters or fewer (got ", n));
    }
    if keyphrases.len() > MAX_KEYPHRASES {
        return Err(to_owned_string("at most 8 keyphrases"));
    }
    let mut i: usize = 0;
    assert(entry_problem(entry@, kps) == keyphrase_problem(kps, 0));
    while i < keyphrases.len()
        invariant
            i <= keyphrases.len(),
            kps == views(keyphrases@),
            entry_problem(entry@, kps) == keyphrase_problem(kps, 0),
            keyphrase_problem(kps, 0) == keyphrase_problem(kps, i as nat),
        decreases keyphrases.len() - i,
    {
        let t = str_trim(keyphrases[i].as_str());
        let m = char_len(t);
        proof {
            assert(kps[i as int] == keyphrases@[i as int]@);
        }
        if m == 0 {
            let out = numbered("keyphrase #", i, " must not be empty");
            return Err(out);
        }
        if m > MAX_KEYPHRASE_CHARS {
            let mut out = chars_of("keyphrase #");
            let d = u64_to_string(i as u64);
            push_str(&mut out, d.as_str());
            push_str(&mut out, " must be 50 characters or fewer (got ");
            let c = u64_to_string(m as u64);
            push_str(&mut out, c.as_str());
            push_str(&mut out, ")");
            return Err(string_of(out.as_slice()));
        }
        let cs = chars_of(t);
        if holds_separator(cs.as_slice()) {
            return Err(to_owned_string("keyphrase must not contain separators"));
        }
        if count_words(cs.as_slice()) > MAX_KEYPHRASE_WORDS {
            return Err(to_owned_string("keyphrase must be 3 words or fewer"));
        }
        i = i + 1;
    }
    Ok(())
}

}

/// The same check as `validate`, with the entry's position in front of
/// the message.
pub open spec fn indexed_problem(index: nat, entry: Seq<char>, kps: Seq<Seq<char>>) -> Option<
    Seq<char>,
> {
    match entry_problem(entry, kps) {
        Some(m) => Some("entry #"@ + decimal(index) + ": "@ + m),
        None => None,
    }
}

impl JournalEntry {

/// Validate one entry of a list, naming its position on failure.
pub fn validate_indexed(index: usize, entry: &str, keyphrases: &[String]) -> (res: Result<(), String>)
    ensures
        problem_of(res) == indexed_problem(index as nat, entry@, views(keyphrases@)),
{
    match Self::validate(entry, keyphrases) {
        Ok(()) => Ok(()),
        Err(message) => {
            let head = numbered("entry #", index, ": ");
            Err(concat2(head.as_str(), message.as_str()))
        },
    }
}

}

/// The lower-case form of a text, as `str::to_lowercase` computes it.
pub uninterp spec fn lowercase_of(s: Seq<char>) -> Seq<char>;

/// `str::to_lowercase`.
#[verifier::external_body]
fn to_lowercase(s: &str) -> (res: String)
    ensures
        res@ == lowercase_of(s@),
{
    s.to_lowercase()
}

/// Does a kept keyphrase already have the lower-case form `key`?
pub open spec fn seen_lower(out: Seq<Seq<char>>, key: Seq<char>) -> bool {
    exists|j: int| 0 <= j < out.len() && #[trigger] lowercase_of(out[j]) == key
}

/// Keyphrase normalisation, going through `rest` with `out` kept so far:
/// each keyphrase is trimmed, blank ones are dropped, one whose lower-case
/// form was already kept is dropped, and at most `MAX_KEYPHRASES` are
/// kept.
pub open spec fn normalize_from(rest: Seq<Seq<char>>, out: Seq<Seq<char>>) -> Seq<Seq<char>>
    decreases rest.len(),
{
    if rest.len() == 0 || out.len() >= MAX_KEYPHRASES {
        out
    } else {
        let t = trim(rest[0]);
        if t.len() == 0 || seen_lower(out, lowercase_of(t)) {
            normalize_from(rest.drop_first(), out)
        } else {
            normalize_from(rest.drop_first(), out.push(t))
        }
    }
}

/// The normalised form of a list of keyphrases.
pub open spec fn normalized_keyphrases(input: Seq<Seq<char>>) -> Seq<Seq<char>> {
    normalize_from(input, Seq::empty())
}

/// What normalised keyphrases look like: at most `MAX_KEYPHRASES`, each
/// trimmed and not blank, no two with the same lower-case form.
pub open spec fn well_formed_keyphrases(o: Seq<Seq<char>>) -> bool {
    &&& o.len() <= MAX_KEYPHRASES
    &&& forall|k: int| 0 <= k < o.len() ==> trim(#[trigger] o[k]) == o[k] && o[k].len() > 0
    &&& forall|j: int, k: int|
        0 <= j < k < o.len() ==> lowercase_of(#[trigger] o[j]) != lowercase_of(#[trigger] o[k])
}

fn contains_text(v: &Vec<String>, key: &str) -> (res: bool)
    ensures
        res == exists|j: int| 0 <= j < v@.len() && #[trigger] v@[j]@ == key@,
{
    let mut i: usize = 0;
    while i < v.len()
        invariant
            i <= v.len(),
            forall|j: int| 0 <= j < i ==> #[trigger] v@[j]@ != key@,
        decreases v.len() - i,
    {
        if text_eq(v[i].as_str(), key) {
            return true;
        }
        i = i + 1;
    }
    false
}

impl JournalEntry {

/// Trim each keyphrase, drop blank ones, drop case-insensitive duplicates
/// (the first spelling wins) and keep at most `MAX_KEYPHRASES`.
pub fn normalize_keyphrases(input: &[String]) -> (res: Vec<String>)
    ensures
        views(res@) == normalized_keyphrases(views(input@)),
{
    let ghost inp = views(input@);
    let mut seen: Vec<String> = Vec::new();
    let mut out: Vec<String> = Vec::new();
    let mut i: usize = 0;
    proof {
        assert(inp.skip(0) == inp);
        assert(views(out@) =~= Seq::<Seq<char>>::empty());
    }
    while i < input.len() && out.len() < MAX_KEYPHRASES
        invariant
            i <= input.len(),
            inp == views(input@),
            out.len() <= MAX_KEYPHRASES,
            seen.len() == out.len(),
            forall|j: int| 0 <= j < seen.len() ==> #[trigger] seen@[j]@ == lowercase_of(out@[j]@),
            normalize_from(inp.skip(i as int), views(out@)) == normalized_keyphrases(inp),
        decreases input.len() - i,
    {
        let t = str_trim(input[i].as_str());
        proof {
            assert(inp.skip(i as int)[0] == input@[i as int]@);
            assert(inp.skip(i as int).drop_first() == inp.skip(i + 1));
        }
        if !t.is_empty() {
            let key = to_lowercase(t);
            let dup = contains_text(&seen, key.as_str());
            proof {
                let ov = views(out@);
                if dup {
                    let j = choose|j: int| 0 <= j < seen@.len() && #[trigger] seen@[j]@ == key@;
                    assert(lowercase_of(ov[j]) == key@);
                } else {
                    assert forall|j: int| 0 <= j < ov.len() implies #[trigger] lowercase_of(ov[j])
                        != key@ by {
                        assert(seen@[j]@ == lowercase_of(ov[j]));
                    }
                }
                assert(dup == seen_lower(ov, lowercase_of(t@)));
            }
            if !dup {
                let ghost before = views(out@);
                seen.push(key);
                out.push(to_owned_string(t));
                proof {
                    assert(views(out@) =~= before.push(t@));
                }
            }
        }
        i = i + 1;
    }
    proof {
        if i == input.len() {
            assert(inp.skip(i as int).len() == 0);
        }
    }
    out
}

}

/// Normalised keyphrases are well formed: at most `MAX_KEYPHRASES`, each
/// trimmed and not blank, no two equal ignoring case.
pub proof fn normalized_keyphrases_are_well_formed(input: Seq<Seq<char>>)
    ensures
        well_formed_keyphrases(normalized_keyphrases(input)),
{
    lemma_normalize_keeps_well_formed(input, Seq::empty());
}

proof fn lemma_normalize_keeps_well_formed(rest: Seq<Seq<char>>, out: Seq<Seq<char>>)
    requires
        well_formed_keyphrases(out),
    ensures
        well_formed_keyphrases(normalize_from(rest, out)),
    decreases rest.len(),
{
    if rest.len() == 0 || out.len() >= MAX_KEYPHRASES {
    } else {
        let t = trim(rest[0]);
        if t.len() == 0 || seen_lower(out, lowercase_of(t)) {
            lemma_normalize_keeps_well_formed(rest.drop_first(), out);
        } else {
            lemma_trim_idempotent(rest[0]);
            let o2 = out.push(t);
            assert forall|j: int, k: int| 0 <= j < k < o2.len() implies lowercase_of(
                #[trigger] o2[j],
            ) != lowercase_of(#[trigger] o2[k]) by {
                if k == out.len() {
                    assert(o2[j] == out[j]);
                }
            }
            assert(well_formed_keyphrases(o2));
            lemma_normalize_keeps_well_formed(rest.drop_first(), o2);
        }
    }
}

proof fn lemma_normalize_fixed(o: Seq<Seq<char>>, k: int)
    requires
        well_formed_keyphrases(o),
        0 <= k <= o.len(),
    ensures
        normalize_from(o.skip(k), o.take(k)) == o,
    decreases o.len() - k,
{
    if k == o.len() {
        assert(o.take(k) == o);
    } else {
        let rest = o.skip(k);
        let out = o.take(k);
        assert(rest[0] == o[k]);
        assert(trim(o[k]) == o[k]);
        if seen_lower(out, lowercase_of(o[k])) {
            let j = choose|j: int| 0 <= j < out.len() && #[trigger] lowercase_of(out[j])
                == lowercase_of(o[k]);
            assert(out[j] == o[j]);
            assert(false);
        }
        assert(rest.drop_first() == o.skip(k + 1));
        assert(out.push(o[k]) == o.take(k + 1));
        lemma_normalize_fixed(o, k + 1);
    }
}

/// Normalising keyphrases a second time changes nothing.
pub proof fn normalize_keyphrases_is_idempotent(input: Seq<Seq<char>>)
    ensures
        normalized_keyphrases(normalized_keyphrases(input)) == normalized_keyphrases(input),
{
    let o = normalized_keyphrases(input);
    normalized_keyphrases_are_well_formed(input);
    lemma_normalize_fixed(o, 0);
    assert(o.skip(0) == o);
    assert(o.take(0) == Seq::<Seq<char>>::empty());
}

} // verus!
