//! Snapshots of a character's persona and notes, taken before each save
//! so that an earlier version can be restored.
use vstd::prelude::*;

use crate::domain::character::{clone_opt, opt_view, Character};
use crate::domain::journal_entry::JournalEntry;

verus! {

/// The persona and notes of a character at one moment. The cover image is
/// not part of a snapshot.
#[derive(Debug, Clone)]
pub struct CharacterSnapshotFields {
    pub name: String,
    pub ai_name: Option<String>,
    pub ai_gender: Option<String>,
    pub ai_backstory: Option<String>,
    pub ai_memory: Option<String>,
    pub ai_directive: Option<String>,
    pub ai_example_message: Option<String>,
    pub ai_additional_context: Option<String>,
    pub current_scene: Option<String>,
    pub user_name: Option<String>,
    pub user_gender: Option<String>,
    pub greeting: Option<String>,
    pub notes: Option<String>,
    pub ai_avatar_description: Option<String>,
}

/// One row of a character's history list. `saved_at` is unix
/// milliseconds.
#[derive(Debug, Clone)]
pub struct CharacterRevisionSummary {
    pub id: uuid::Uuid,
    pub saved_at: i64,
    pub journal_entry_count: usize,
}

/// A stored snapshot: the character's fields and its journal entries as
/// they were. `saved_at` is unix milliseconds.
#[derive(Debug, Clone)]
pub struct CharacterRevision {
    pub id: uuid::Uuid,
    pub character_id: uuid::Uuid,
    pub saved_at: i64,
    pub character_payload: CharacterSnapshotFields,
    pub journal_entries: Vec<JournalEntry>,
}

/// Does `s` hold the snapshot fields of `c`?
pub open spec fn is_snapshot_of(s: CharacterSnapshotFields, c: Character) -> bool {
    &&& s.name@ == c.name@
    &&& opt_view(s.ai_name) == opt_view(c.ai_name)
    &&& opt_view(s.ai_gender) == opt_view(c.ai_gender)
    &&& opt_view(s.ai_backstory) == opt_view(c.ai_backstory)
    &&& opt_view(s.ai_memory) == opt_view(c.ai_memory)
    &&& opt_view(s.ai_directive) == opt_view(c.ai_directive)
    &&& opt_view(s.ai_example_message) == opt_view(c.ai_example_message)
    &&& opt_view(s.ai_additional_context) == opt_view(c.ai_additional_context)
    &&& opt_view(s.current_scene) == opt_view(c.current_scene)
    &&& opt_view(s.user_name) == opt_view(c.user_name)
    &&& opt_view(s.user_gender) == opt_view(c.user_gender)
    &&& opt_view(s.greeting) == opt_view(c.greeting)
    &&& opt_view(s.notes) == opt_view(c.notes)
    &&& opt_view(s.ai_avatar_description) == opt_view(c.ai_avatar_description)
}

impl CharacterSnapshotFields {
    /// The snapshot of a character.
    pub fn of(c: &Character) -> (res: Self)
        ensures
            is_snapshot_of(res, *c),
    {
        CharacterSnapshotFields {
            name: c.name.clone(),
            ai_name: clone_opt(&c.ai_name),
            ai_gender: clone_opt(&c.ai_gender),
            ai_backstory: clone_opt(&c.ai_backstory),
            ai_memory: clone_opt(&c.ai_memory),
            ai_directive: clone_opt(&c.ai_directive),
            ai_example_message: clone_opt(&c.ai_example_message),
            ai_additional_context: clone_opt(&c.ai_additional_context),
            current_scene: clone_opt(&c.current_scene),
            user_name: clone_opt(&c.user_name),
            user_gender: clone_opt(&c.user_gender),
            greeting: clone_opt(&c.greeting),
            notes: clone_opt(&c.notes),
            ai_avatar_description: clone_opt(&c.ai_avatar_description),
        }
    }

    /// The character after restoring this snapshot over `live`: every
    /// snapshot field is taken back, while the id, cover image and
    /// creation time of the live character are kept; `now` is the new
    /// update time.
    pub fn restore_onto(self, live: Character, now: i64) -> (res: Character)
        ensures
            is_snapshot_of(self, res),
            res.id == live.id,
            opt_view(res.cover_image) == opt_view(live.cover_image),
            res.created_at == live.created_at,
            res.updated_at == now,
    {
        Character {
            id: live.id,
            name: self.name,
            ai_name: self.ai_name,
            ai_gender: self.ai_gender,
            ai_backstory: self.ai_backstory,
            ai_memory: self.ai_memory,
            ai_directive: self.ai_directive,
            ai_example_message: self.ai_example_message,
            ai_additional_context: self.ai_additional_context,
            current_scene: self.current_scene,
            user_name: self.user_name,
            user_gender: self.user_gender,
            greeting: self.greeting,
            notes: self.notes,
            ai_avatar_description: self.ai_avatar_description,
            cover_image: live.cover_image,
            created_at: live.created_at,
            updated_at: now,
        }
    }
}

} // verus!
