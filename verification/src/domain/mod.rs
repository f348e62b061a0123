//! The domain model: personas, targets, journal entries, chat history,
//! automation state, push logs and the share formats.
use vstd::prelude::*;

pub mod character;
pub mod character_revision;
pub mod chat_automation;
pub mod chat_message;
pub mod image_share;
pub mod journal_entry;
pub mod push_log;
pub mod share_code;
pub mod target;

verus! {

/// The identifiers of characters, targets and log entries (`uuid::Uuid`).
/// The library only carries them from one record to another.
#[verifier::external_type_specification]
#[verifier::external_body]
pub struct ExUuid(uuid::Uuid);

/// `Uuid::clone`: `Uuid` is `Copy`, so a clone is the same identifier.
pub assume_specification[ <uuid::Uuid as core::clone::Clone>::clone ](u: &uuid::Uuid) -> (res: uuid::Uuid)
    ensures
        res == *u,
;

} // verus!
