//! A persona character as authored locally, and its persona fields.
use vstd::prelude::*;

use crate::text::{concat2, str_trim, text_eq, to_owned_string, trim};

verus! {

/// A character. Times are unix milliseconds; `cover_image` is the image's
/// path relative to the data directory.
#[derive(Debug, Clone)]
pub struct Character {
    pub id: uuid::Uuid,
    pub name: String,
    pub ai_name: Option<String>,
    pub ai_gender: Option<String>,
    pub ai_backstory: Option<String>,
    pub ai_memory: Option<String>,
    pub ai_directive: Option<String>,
    pub ai_example_message: Option<String>,
    pub ai_additional_context: Option<String>,
    pub current_scene: Option<String>,
    pub user_name: Option<String>,
    pub user_gender: Option<String>,
    pub greeting: Option<String>,
    pub notes: Option<String>,
    pub ai_avatar_description: Option<String>,
    pub cover_image: Option<String>,
    pub created_at: i64,
    pub updated_at: i64,
}

/// The view of an optional string.
pub open spec fn opt_view(o: Option<String>) -> Option<Seq<char>> {
    match o {
        Some(s) => Some(s@),
        None => None,
    }
}

/// The persona fields that can be pushed to Kindroid, by name.
pub open spec fn is_persona_field(f: Seq<char>) -> bool {
    ||| f == "ai_name"@
    ||| f == "ai_gender"@
    ||| f == "ai_backstory"@
    ||| f == "ai_memory"@
    ||| f == "ai_directive"@
    ||| f == "ai_example_message"@
    ||| f == "ai_additional_context"@
    ||| f == "current_scene"@
}

/// The value of a persona field of `c`.
pub open spec fn persona_value(c: Character, f: Seq<char>) -> Option<Seq<char>> {
    if f == "ai_name"@ {
        opt_view(c.ai_name)
    } else if f == "ai_gender"@ {
        opt_view(c.ai_gender)
    } else if f == "ai_backstory"@ {
        opt_view(c.ai_backstory)
    } else if f == "ai_memory"@ {
        opt_view(c.ai_memory)
    } else if f == "ai_directive"@ {
        opt_view(c.ai_directive)
    } else if f == "ai_example_message"@ {
        opt_view(c.ai_example_message)
    } else if f == "ai_additional_context"@ {
        opt_view(c.ai_additional_context)
    } else {
        opt_view(c.current_scene)
    }
}

/// Each persona field name reads the character's field of that name.
pub proof fn persona_values_are_the_named_fields(c: Character)
    ensures
        persona_value(c, "ai_name"@) == opt_view(c.ai_name),
        persona_value(c, "ai_gender"@) == opt_view(c.ai_gender),
        persona_value(c, "ai_backstory"@) == opt_view(c.ai_backstory),
        persona_value(c, "ai_memory"@) == opt_view(c.ai_memory),
        persona_value(c, "ai_directive"@) == opt_view(c.ai_directive),
        persona_value(c, "ai_example_message"@) == opt_view(c.ai_example_message),
        persona_value(c, "ai_additional_context"@) == opt_view(c.ai_additional_context),
        persona_value(c, "current_scene"@) == opt_view(c.current_scene),
{
    reveal_strlit("ai_name");
    reveal_strlit("ai_gender");
    reveal_strlit("ai_backstory");
    reveal_strlit("ai_memory");
    reveal_strlit("ai_directive");
    reveal_strlit("ai_example_message");
    reveal_strlit("ai_additional_context");
    reveal_strlit("current_scene");
    assert("ai_name"@.len() == 7);
    assert("ai_gender"@.len() == 9);
    assert("ai_backstory"@.len() == 12);
    assert("ai_memory"@.len() == 9);
    assert("ai_directive"@.len() == 12);
    assert("ai_example_message"@.len() == 18);
    assert("ai_additional_context"@.len() == 21);
    assert("current_scene"@.len() == 13);
    assert("ai_gender"@[3] != "ai_memory"@[3]);
    assert("ai_backstory"@[3] != "ai_directive"@[3]);
}

/// A copy of an optional string.
pub fn clone_opt(o: &Option<String>) -> (res: Option<String>)
    ensures
        opt_view(res) == opt_view(*o),
{
    match o {
        Some(s) => Some(s.clone()),
        None => None,
    }
}

/// Is `f` the name of a persona field?
pub fn persona_field_name(f: &str) -> (res: bool)
    ensures
        res == is_persona_field(f@),
{
    text_eq(f, "ai_name") || text_eq(f, "ai_gender") || text_eq(f, "ai_backstory") || text_eq(
        f,
        "ai_memory",
    ) || text_eq(f, "ai_directive") || text_eq(f, "ai_example_message") || text_eq(
        f,
        "ai_additional_context",
    ) || text_eq(f, "current_scene")
}

impl Character {
    /// The value of the persona field named `field`.
    pub fn persona_field(&self, field: &str) -> (res: Option<String>)
        requires
            is_persona_field(field@),
        ensures
            opt_view(res) == persona_value(*self, field@),
            field@ == "ai_name"@ ==> opt_view(res) == opt_view(self.ai_name),
            field@ == "ai_gender"@ ==> opt_view(res) == opt_view(self.ai_gender),
            field@ == "ai_backstory"@ ==> opt_view(res) == opt_view(self.ai_backstory),
            field@ == "ai_memory"@ ==> opt_view(res) == opt_view(self.ai_memory),
            field@ == "ai_directive"@ ==> opt_view(res) == opt_view(self.ai_directive),
            field@ == "ai_example_message"@ ==> opt_view(res) == opt_view(self.ai_example_message),
            field@ == "ai_additional_context"@ ==> opt_view(res) == opt_view(
                self.ai_additional_context,
            ),
            field@ == "current_scene"@ ==> opt_view(res) == opt_view(self.current_scene),
    {
        proof {
            persona_values_are_the_named_fields(*self);
        }
        if text_eq(field, "ai_name") {
            clone_opt(&self.ai_name)
        } else if text_eq(field, "ai_gender") {
            clone_opt(&self.ai_gender)
        } else if text_eq(field, "ai_backstory") {
            clone_opt(&self.ai_backstory)
        } else if text_eq(field, "ai_memory") {
            clone_opt(&self.ai_memory)
        } else if text_eq(field, "ai_directive") {
            clone_opt(&self.ai_directive)
        } else if text_eq(field, "ai_example_message") {
            clone_opt(&self.ai_example_message)
        } else if text_eq(field, "ai_additional_context") {
            clone_opt(&self.ai_additional_context)
        } else {
            clone_opt(&self.current_scene)
        }
    }
}

/// The editable fields of a character form.
#[derive(Debug, Clone)]
pub struct CharacterFields {
    pub ai_name: Option<String>,
    pub ai_gender: Option<String>,
    pub ai_backstory: Option<String>,
    pub ai_memory: Option<String>,
    pub ai_directive: Option<String>,
    pub ai_example_message: Option<String>,
    pub ai_additional_context: Option<String>,
    pub current_scene: Option<String>,
    pub greeting: Option<String>,
    pub notes: Option<String>,
    pub ai_avatar_description: Option<String>,
}

/// A form value as stored: trimmed, and absent when blank.
pub open spec fn blank_to_none(o: Option<Seq<char>>) -> Option<Seq<char>> {
    match o {
        Some(s) => if trim(s).len() == 0 {
            None
        } else {
            Some(trim(s))
        },
        None => None,
    }
}

/// Trim a form value; a blank value becomes absent.
pub fn empty_to_none(s: Option<String>) -> (res: Option<String>)
    ensures
        opt_view(res) == blank_to_none(opt_view(s)),
{
    match s {
        Some(v) => {
            let t = str_trim(v.as_str());
            if t.is_empty() {
                None
            } else {
                Some(to_owned_string(t))
            }
        },
        None => None,
    }
}

/// The fields of a form as stored: every field is trimmed and a blank
/// one becomes absent, except the free-form notes, kept as typed.
pub open spec fn normalized_fields(f: CharacterFields, g: CharacterFields) -> bool {
    &&& opt_view(g.ai_name) == blank_to_none(opt_view(f.ai_name))
    &&& opt_view(g.ai_gender) == blank_to_none(opt_view(f.ai_gender))
    &&& opt_view(g.ai_backstory) == blank_to_none(opt_view(f.ai_backstory))
    &&& opt_view(g.ai_memory) == blank_to_none(opt_view(f.ai_memory))
    &&& opt_view(g.ai_directive) == blank_to_none(opt_view(f.ai_directive))
    &&& opt_view(g.ai_example_message) == blank_to_none(opt_view(f.ai_example_message))
    &&& opt_view(g.ai_additional_context) == blank_to_none(opt_view(f.ai_additional_context))
    &&& opt_view(g.current_scene) == blank_to_none(opt_view(f.current_scene))
    &&& opt_view(g.greeting) == blank_to_none(opt_view(f.greeting))
    &&& opt_view(g.notes) == opt_view(f.notes)
    &&& opt_view(g.ai_avatar_description) == blank_to_none(opt_view(f.ai_avatar_description))
}

impl CharacterFields {
    /// Normalise a submitted form before it is saved.
    pub fn normalize(self) -> (res: CharacterFields)
        ensures
            normalized_fields(self, res),
    {
        CharacterFields {
            ai_name: empty_to_none(self.ai_name),
            ai_gender: empty_to_none(self.ai_gender),
            ai_backstory: empty_to_none(self.ai_backstory),
            ai_memory: empty_to_none(self.ai_memory),
            ai_directive: empty_to_none(self.ai_directive),
            ai_example_message: empty_to_none(self.ai_example_message),
            ai_additional_context: empty_to_none(self.ai_additional_context),
            current_scene: empty_to_none(self.current_scene),
            greeting: empty_to_none(self.greeting),
            notes: self.notes,
            ai_avatar_description: empty_to_none(self.ai_avatar_description),
        }
    }
}

/// Normalising a form value twice is the same as once.
pub proof fn blank_to_none_is_idempotent(o: Option<Seq<char>>)
    ensures
        blank_to_none(blank_to_none(o)) == blank_to_none(o),
{
    if let Some(s) = o {
        crate::text::lemma_trim_idempotent(s);
    }
}

/// Normalising a normalised form changes nothing.
pub proof fn normalize_fields_is_idempotent(f: CharacterFields, g: CharacterFields, h: CharacterFields)
    requires
        normalized_fields(f, g),
        normalized_fields(g, h),
    ensures
        normalized_fields(f, h),
{
    blank_to_none_is_idempotent(opt_view(f.ai_name));
    blank_to_none_is_idempotent(opt_view(f.ai_gender));
    blank_to_none_is_idempotent(opt_view(f.ai_backstory));
    blank_to_none_is_idempotent(opt_view(f.ai_memory));
    blank_to_none_is_idempotent(opt_view(f.ai_directive));
    blank_to_none_is_idempotent(opt_view(f.ai_example_message));
    blank_to_none_is_idempotent(opt_view(f.ai_additional_context));
    blank_to_none_is_idempotent(opt_view(f.current_scene));
    blank_to_none_is_idempotent(opt_view(f.greeting));
    blank_to_none_is_idempotent(opt_view(f.ai_avatar_description));
}

/// The name a character is saved under: trimmed; a blank name is refused.
pub fn character_name(name: &str) -> (res: Result<String, crate::error::AppError>)
    ensures
        trim(name@).len() == 0 ==> (res matches Err(e) && crate::error::is_invalid_with(
            e,
            "name is required"@,
        )),
        trim(name@).len() > 0 ==> (res matches Ok(n) && n@ == trim(name@)),
{
    let t = str_trim(name);
    if t.is_empty() {
        Err(crate::error::AppError::invalid("name is required"))
    } else {
        Ok(to_owned_string(t))
    }
}

/// The name of a duplicated character: the copied character's name and ` (copy)`.
pub fn copy_name(name: &str) -> (res: String)
    ensures
        res@ == name@ + " (copy)"@,
{
    concat2(name, " (copy)")
}

} // verus!
