//! The share-code wire format: what a share carries and which versions are
//! accepted.
use base64::Engine;
use vstd::prelude::*;
use vstd::utf8::{decode_utf8, encode_utf8, valid_utf8};

use crate::domain::character::{clone_opt, opt_view, Character};
use crate::domain::journal_entry::{views, JournalEntry};
use crate::text::{concat2, to_owned_string};

verus! {

/// The format version written by this build. Version 2 added journal
/// entries to the persona payload.
pub const CURRENT_VERSION: u32 = 2;

/// The lowest version still read. Version 1 codes carry no journal
/// entries.
pub const MIN_SUPPORTED_VERSION: u32 = 1;

/// A journal entry as it travels inside a share: only the author's text
/// and keyphrases; ids and timestamps are local and made fresh on import.
#[derive(Debug, Clone, Default, PartialEq, Eq)]
pub struct SharedJournalEntry {
    pub entry: String,
    pub keyphrases: Vec<String>,
}

/// The persona fields, greeting and journal entries a share carries.
#[derive(Debug, Clone, Default, PartialEq, Eq)]
pub struct PartialCharacter {
    pub ai_name: Option<String>,
    pub ai_gender: Option<String>,
    pub ai_backstory: Option<String>,
    pub ai_memory: Option<String>,
    pub ai_directive: Option<String>,
    pub ai_example_message: Option<String>,
    pub ai_additional_context: Option<String>,
    pub current_scene: Option<String>,
    pub greeting: Option<String>,
    pub ai_avatar_description: Option<String>,
    pub journal_entries: Vec<SharedJournalEntry>,
}

/// Errors of the text share code.
#[derive(Debug, Clone, PartialEq, Eq)]
pub enum ShareCodeError {
    Malformed(String),
    UnsupportedVersion(u32),
}

/// Accept a decoded share code only when its version lies between
/// `MIN_SUPPORTED_VERSION` and `CURRENT_VERSION`.
pub fn check_version(v: u32, p: PartialCharacter) -> (res: Result<PartialCharacter, ShareCodeError>)
    ensures
        MIN_SUPPORTED_VERSION <= v <= CURRENT_VERSION ==> res == Ok::<
            PartialCharacter,
            ShareCodeError,
        >(p),
        !(MIN_SUPPORTED_VERSION <= v <= CURRENT_VERSION) ==> res == Err::<
            PartialCharacter,
            ShareCodeError,
        >(ShareCodeError::UnsupportedVersion(v)),
{
    if v < MIN_SUPPORTED_VERSION || v > CURRENT_VERSION {
        Err(ShareCodeError::UnsupportedVersion(v))
    } else {
        Ok(p)
    }
}

/// What the URL-safe, unpadded base64 engine of `base64` decodes `s` to,
/// or the text of its error.
pub uninterp spec fn base64_url_decoded(s: Seq<u8>) -> Result<Seq<u8>, Seq<char>>;

/// The character of the URL-safe base64 alphabet for a six-bit value:
/// `A`-`Z`, `a`-`z`, `0`-`9`, then `-` and `_`.
pub open spec fn base64_digit(v: int) -> char {
    if v < 26 {
        (65 + v) as char
    } else if v < 52 {
        (97 + v - 26) as char
    } else if v < 62 {
        (48 + v - 52) as char
    } else if v == 62 {
        '-'
    } else {
        '_'
    }
}

/// URL-safe base64 without padding: each three bytes become four
/// characters of six bits each, most significant first; a final one or
/// two bytes become two or three characters, the unused low bits zero.
pub open spec fn base64_url(b: Seq<u8>) -> Seq<char>
    decreases b.len(),
{
    if b.len() == 0 {
        Seq::empty()
    } else if b.len() == 1 {
        seq![base64_digit((b[0] / 4) as int), base64_digit((b[0] % 4) * 16)]
    } else if b.len() == 2 {
        seq![
            base64_digit((b[0] / 4) as int),
            base64_digit((b[0] % 4) * 16 + b[1] / 16),
            base64_digit((b[1] % 16) * 4),
        ]
    } else {
        seq![
            base64_digit((b[0] / 4) as int),
            base64_digit((b[0] % 4) * 16 + b[1] / 16),
            base64_digit((b[1] % 16) * 4 + b[2] / 64),
            base64_digit((b[2] % 64) as int),
        ] + base64_url(b.skip(3))
    }
}

/// `base64::engine::general_purpose::URL_SAFE_NO_PAD.decode`. The contract
/// names the result (the error texts are not stated) and states what the
/// engine accepts: with no padding allowed and no trailing bits allowed,
/// it decodes exactly the texts it writes, so what it decodes to is the
/// bytes whose encoding `s` is.
#[verifier::external_body]
fn base64_decode(s: &[u8]) -> (res: Result<Vec<u8>, String>)
    ensures
        match base64_url_decoded(s@) {
            Ok(b) => res matches Ok(v) && v@ == b,
            Err(m) => res matches Err(e) && e@ == m,
        },
        res matches Ok(v) ==> s@ == encode_utf8(base64_url(v@)),
{
    base64::engine::general_purpose::URL_SAFE_NO_PAD.decode(s).map_err(|e| e.to_string())
}

/// `base64::engine::general_purpose::URL_SAFE_NO_PAD.encode`: the bytes
/// `b` in URL-safe base64 without padding. The engine decodes what it
/// encoded: decoding the result gives back `b`.
#[verifier::external_body]
fn base64_encode(b: &[u8]) -> (res: String)
    ensures
        res@ == base64_url(b@),
        base64_url_decoded(encode_utf8(res@)) is Ok,
        base64_url_decoded(encode_utf8(res@))->Ok_0 == b@,
{
    base64::engine::general_purpose::URL_SAFE_NO_PAD.encode(b)
}

/// The JSON text a share code carries: its base64 decoded, then read as
/// UTF-8; either failing is a malformed code naming the failing step.
pub open spec fn share_code_text(code: Seq<char>) -> Result<Seq<char>, Seq<char>> {
    match base64_url_decoded(encode_utf8(code)) {
        Err(m) => Err("base64: "@ + m),
        Ok(b) => if valid_utf8(b) {
            Ok(decode_utf8(b))
        } else {
            Err("utf8: "@ + crate::bytes::utf8_error_text(b))
        },
    }
}

/// Unwrap a share code to its JSON text. Reading the JSON and checking
/// its version (`check_version`) follow.
pub fn share_code_json(code: &str) -> (res: Result<String, ShareCodeError>)
    ensures
        match share_code_text(code@) {
            Ok(t) => res matches Ok(s) && s@ == t,
            Err(m) => res matches Err(ShareCodeError::Malformed(e)) && e@ == m,
        },
{
    let bytes = match base64_decode(code.as_bytes()) {
        Ok(b) => b,
        Err(e) => {
            return Err(ShareCodeError::Malformed(concat2("base64: ", e.as_str())));
        },
    };
    match crate::bytes::utf8_string(bytes.as_slice()) {
        Ok(s) => Ok(s),
        Err(e) => Err(ShareCodeError::Malformed(concat2("utf8: ", e.as_str()))),
    }
}

/// Wrap the JSON text of a share payload as a share code. Unwrapping the
/// code gives the same text back.
pub fn share_code_from_json(json: &str) -> (res: String)
    ensures
        res@ == base64_url(encode_utf8(json@)),
        (share_code_text(res@) matches Ok(t) && t == json@),
{
    let code = base64_encode(json.as_bytes());
    proof {
        vstd::utf8::encode_utf8_valid_utf8(json@);
        vstd::utf8::encode_utf8_decode_utf8(json@);
    }
    code
}

/// Is `p` the share payload of `c` with journal entries `js`: the persona
/// fields and greeting of `c`, and each entry's text and keyphrases in
/// order (ids and times stay local)?
pub open spec fn is_partial_of(p: PartialCharacter, c: Character, js: Seq<JournalEntry>) -> bool {
    &&& opt_view(p.ai_name) == opt_view(c.ai_name)
    &&& opt_view(p.ai_gender) == opt_view(c.ai_gender)
    &&& opt_view(p.ai_backstory) == opt_view(c.ai_backstory)
    &&& opt_view(p.ai_memory) == opt_view(c.ai_memory)
    &&& opt_view(p.ai_directive) == opt_view(c.ai_directive)
    &&& opt_view(p.ai_example_message) == opt_view(c.ai_example_message)
    &&& opt_view(p.ai_additional_context) == opt_view(c.ai_additional_context)
    &&& opt_view(p.current_scene) == opt_view(c.current_scene)
    &&& opt_view(p.greeting) == opt_view(c.greeting)
    &&& opt_view(p.ai_avatar_description) == opt_view(c.ai_avatar_description)
    &&& p.journal_entries@.len() == js.len()
    &&& forall|k: int|
        0 <= k < js.len() ==> (#[trigger] p.journal_entries@[k]).entry@ == js[k].entry@ && views(
            p.journal_entries@[k].keyphrases@,
        ) == views(js[k].keyphrases@)
}

fn clone_strings(v: &Vec<String>) -> (res: Vec<String>)
    ensures
        views(res@) == views(v@),
{
    let mut out: Vec<String> = Vec::new();
    let mut i: usize = 0;
    while i < v.len()
        invariant
            i <= v.len(),
            views(out@) == views(v@.take(i as int)),
        decreases v.len() - i,
    {
        out.push(v[i].clone());
        proof {
            assert(views(v@.take(i + 1)) == views(v@.take(i as int)).push(v@[i as int]@));
        }
        i = i + 1;
    }
    proof {
        assert(v@.take(v@.len() as int) == v@);
    }
    out
}

/// The share payload of a character and its journal entries.
pub fn build_partial(character: &Character, journals: &[JournalEntry]) -> (res: PartialCharacter)
    ensures
        is_partial_of(res, *character, journals@),
{
    let mut entries: Vec<SharedJournalEntry> = Vec::new();
    let mut i: usize = 0;
    while i < journals.len()
        invariant
            i <= journals.len(),
            entries@.len() == i,
            forall|k: int|
                0 <= k < i ==> (#[trigger] entries@[k]).entry@ == journals@[k].entry@ && views(
                    entries@[k].keyphrases@,
                ) == views(journals@[k].keyphrases@),
        decreases journals.len() - i,
    {
        entries.push(
            SharedJournalEntry {
                entry: journals[i].entry.clone(),
                keyphrases: clone_strings(&journals[i].keyphrases),
            },
        );
        i = i + 1;
    }
    PartialCharacter {
        ai_name: clone_opt(&character.ai_name),
        ai_gender: clone_opt(&character.ai_gender),
        ai_backstory: clone_opt(&character.ai_backstory),
        ai_memory: clone_opt(&character.ai_memory),
        ai_directive: clone_opt(&character.ai_directive),
        ai_example_message: clone_opt(&character.ai_example_message),
        ai_additional_context: clone_opt(&character.ai_additional_context),
        current_scene: clone_opt(&character.current_scene),
        greeting: clone_opt(&character.greeting),
        ai_avatar_description: clone_opt(&character.ai_avatar_description),
        journal_entries: entries,
    }
}

} // verus!
