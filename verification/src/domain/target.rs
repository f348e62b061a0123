//! A push target: a Kindroid AI or group chat identified by its `ai_id`.
use vstd::prelude::*;

use crate::text::text_eq;

verus! {

/// Whether a target is a single Kindroid AI or a group chat.
#[derive(Debug, Clone, Copy, PartialEq, Eq, Structural)]
pub enum TargetKind {
    Ai,
    Group,
}

/// A push target. `created_at` is unix milliseconds.
#[derive(Debug, Clone)]
pub struct Target {
    pub id: uuid::Uuid,
    pub ai_id: String,
    pub kind: TargetKind,
    pub label: String,
    pub created_at: i64,
}

/// The stored text of a target kind.
pub open spec fn kind_text(k: TargetKind) -> Seq<char> {
    match k {
        TargetKind::Ai => "ai"@,
        TargetKind::Group => "group"@,
    }
}

/// The kind a stored text names: `group`, or `ai` for anything else.
pub open spec fn parse_kind(s: Seq<char>) -> TargetKind {
    if s == "group"@ {
        TargetKind::Group
    } else {
        TargetKind::Ai
    }
}

impl TargetKind {
    /// The text stored in the database for this kind.
    pub fn as_str(&self) -> (res: &'static str)
        ensures
            res@ == kind_text(*self),
    {
        match self {
            TargetKind::Ai => "ai",
            TargetKind::Group => "group",
        }
    }

    /// Read a stored kind; unknown text is an AI.
    pub fn parse(s: &str) -> (res: Self)
        ensures
            res == parse_kind(s@),
    {
        if text_eq(s, "group") {
            TargetKind::Group
        } else {
            TargetKind::Ai
        }
    }
}

/// Reading back the stored text of a kind gives the kind.
pub proof fn target_kind_round_trip(k: TargetKind)
    ensures
        parse_kind(kind_text(k)) == k,
{
    reveal_strlit("ai");
    reveal_strlit("group");
    assert("ai"@.len() != "group"@.len());
}

} // verus!
