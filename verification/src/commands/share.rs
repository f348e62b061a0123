//! Sharing characters as images: the in-app slot that keeps the last
//! exported image, and how an imported share becomes a character and its
//! journal entries.
use vstd::prelude::*;

use crate::domain::character::{clone_opt, opt_view, Character};
use crate::domain::image_share::{image_share_error_text, ImageShareError};
use crate::domain::journal_entry::{entry_problem, normalized_keyphrases, views, JournalEntry};
use crate::domain::share_code::{PartialCharacter, SharedJournalEntry};
use crate::error::{is_invalid_with, AppError};
use crate::text::{concat2, str_trim, to_owned_string, trim};

verus! {

/// The last exported share image, kept in the app so that pasting it back
/// works even when the OS clipboard re-encodes the image and drops its
/// metadata. Taking the image empties the slot.
pub struct ShareImageStash {
    slot: Option<Vec<u8>>,
}

impl ShareImageStash {
    /// The bytes in the slot, if any.
    pub closed spec fn held(&self) -> Option<Seq<u8>> {
        match self.slot {
            Some(b) => Some(b@),
            None => None,
        }
    }

    /// An empty slot.
    pub fn new() -> (res: Self)
        ensures
            res.held() is None,
    {
        ShareImageStash { slot: None }
    }

    /// Keep `bytes`, replacing what was kept.
    pub fn put(&mut self, bytes: Vec<u8>)
        ensures
            final(self).held() == Some(bytes@),
    {
        self.slot = Some(bytes);
    }

    /// Take what is kept, leaving the slot empty.
    pub fn take(&mut self) -> (res: Option<Vec<u8>>)
        ensures
            match old(self).held() {
                Some(b) => res matches Some(v) && v@ == b,
                None => res is None,
            },
            final(self).held() is None,
    {
        let out = self.slot.take();
        out
    }
}

/// Read and clear the stash.
pub fn take_stashed_share_image(stash: &mut ShareImageStash) -> (res: Option<Vec<u8>>)
    ensures
        match old(stash).held() {
            Some(b) => res matches Some(v) && v@ == b,
            None => res is None,
        },
        final(stash).held() is None,
{
    stash.take()
}

/// A share-image failure as a command error.
pub fn image_share_err_to_app(e: ImageShareError) -> (res: AppError)
    ensures
        res matches AppError::ShareCode { message } && message@ == image_share_error_text(e),
{
    let m = e.message();
    AppError::share(m.as_str())
}

/// The name of an imported character: its AI name unless blank, else
/// `Imported character`.
pub open spec fn imported_name(ai_name: Option<Seq<char>>) -> Seq<char> {
    match ai_name {
        Some(n) => if trim(n).len() > 0 {
            n
        } else {
            "Imported character"@
        },
        None => "Imported character"@,
    }
}

/// The name of an imported character.
pub fn default_name_from_partial(p: &PartialCharacter) -> (res: String)
    ensures
        res@ == imported_name(opt_view(p.ai_name)),
{
    match &p.ai_name {
        Some(n) => if !str_trim(n.as_str()).is_empty() {
            return n.clone();
        },
        None => {},
    }
    to_owned_string("Imported character")
}

/// The character an imported share becomes, with a fresh `id` and `now`
/// as its times: the shared persona fields and greeting, no user fields,
/// notes or cover image yet.
pub fn partial_to_character(p: &PartialCharacter, id: uuid::Uuid, now: i64) -> (res: Character)
    ensures
        res.id == id,
        res.name@ == imported_name(opt_view(p.ai_name)),
        opt_view(res.ai_name) == opt_view(p.ai_name),
        opt_view(res.ai_gender) == opt_view(p.ai_gender),
        opt_view(res.ai_backstory) == opt_view(p.ai_backstory),
        opt_view(res.ai_memory) == opt_view(p.ai_memory),
        opt_view(res.ai_directive) == opt_view(p.ai_directive),
        opt_view(res.ai_example_message) == opt_view(p.ai_example_message),
        opt_view(res.ai_additional_context) == opt_view(p.ai_additional_context),
        opt_view(res.current_scene) == opt_view(p.current_scene),
        opt_view(res.greeting) == opt_view(p.greeting),
        opt_view(res.ai_avatar_description) == opt_view(p.ai_avatar_description),
        res.user_name is None,
        res.user_gender is None,
        res.notes is None,
        res.cover_image is None,
        res.created_at == now,
        res.updated_at == now,
{
    Character {
        id,
        name: default_name_from_partial(p),
        ai_name: clone_opt(&p.ai_name),
        ai_gender: clone_opt(&p.ai_gender),
        ai_backstory: clone_opt(&p.ai_backstory),
        ai_memory: clone_opt(&p.ai_memory),
        ai_directive: clone_opt(&p.ai_directive),
        ai_example_message: clone_opt(&p.ai_example_message),
        ai_additional_context: clone_opt(&p.ai_additional_context),
        current_scene: clone_opt(&p.current_scene),
        user_name: None,
        user_gender: None,
        greeting: clone_opt(&p.greeting),
        notes: None,
        ai_avatar_description: clone_opt(&p.ai_avatar_description),
        cover_image: None,
        created_at: now,
        updated_at: now,
    }
}

/// A shared journal entry as imported for `character_id`: its keyphrases
/// normalised, then validated; the body is stored trimmed. An entry that
/// fails is refused with the validation message.
pub fn imported_journal_entry(
    shared: &SharedJournalEntry,
    id: String,
    character_id: uuid::Uuid,
    now: i64,
) -> (res: Result<JournalEntry, AppError>)
    ensures
        match entry_problem(shared.entry@, normalized_keyphrases(views(shared.keyphrases@))) {
            Some(m) => res matches Err(e) && is_invalid_with(
                e,
                "share image contains an invalid journal entry: "@ + m,
            ),
            None => res matches Ok(j) && {
                &&& j.id@ == id@
                &&& j.character_id == character_id
                &&& j.entry@ == trim(shared.entry@)
                &&& views(j.keyphrases@) == normalized_keyphrases(views(shared.keyphrases@))
                &&& j.created_at == now
                &&& j.updated_at == now
            },
        },
{
    let kps = JournalEntry::normalize_keyphrases(shared.keyphrases.as_slice());
    match JournalEntry::validate(shared.entry.as_str(), kps.as_slice()) {
        Err(msg) => {
            let text = concat2("share image contains an invalid journal entry: ", msg.as_str());
            Err(AppError::invalid(text.as_str()))
        },
        Ok(()) => Ok(
            JournalEntry {
                id,
                character_id,
                entry: to_owned_string(str_trim(shared.entry.as_str())),
                keyphrases: kps,
                created_at: now,
                updated_at: now,
            },
        ),
    }
}

/// An exported share needs the character's cover image.
pub fn require_cover_image(bytes: Option<Vec<u8>>) -> (res: Result<Vec<u8>, AppError>)
    ensures
        match bytes {
            Some(b) => res matches Ok(v) && v@ == b@,
            None => res matches Err(e) && is_invalid_with(e, "character has no cover image"@),
        },
{
    match bytes {
        Some(b) => Ok(b),
        None => Err(AppError::invalid("character has no cover image")),
    }
}

} // verus!
