//! Pushing a persona to Kindroid: which fields may be pushed, which
//! journal entries go along and in what order, what each request's
//! outcome looks like, and what is written to the push log. Creating a
//! new Kin collects its creation and update fields the same way.
use vstd::prelude::*;

use crate::domain::character::{is_persona_field, opt_view, persona_field_name, persona_value, Character};
use crate::domain::journal_entry::{entry_problem, problem_of, views, JournalEntry};
use crate::domain::push_log::{truncate_body, truncated_body, PushLogEntry};
use crate::error::{is_invalid_with, AppError, StepResult};
use crate::kindroid::{kindroid_error_status, kindroid_error_text, ChatBreakRequest, HttpResponse, KindroidError};
use crate::text::{concat2, str_trim, text_eq, to_owned_string, trim};

verus! {

/// Setting key of the Kindroid API base URL.
pub const SETTING_BASE_URL: &'static str = "base_url";

/// The Kindroid API base URL used until the user sets one.
pub const DEFAULT_BASE_URL: &'static str = "https://api.kindroid.ai/v1";

/// The chat break requested along with a push.
#[derive(Debug, Clone)]
pub struct ChatBreakInput {
    pub greeting: String,
    pub wipe_cascaded: bool,
}

/// A push of some persona fields, journal entries and/or a chat break.
#[derive(Debug)]
pub struct PushRequest {
    pub character_id: uuid::Uuid,
    pub target_id: uuid::Uuid,
    pub fields: Vec<String>,
    pub chat_break: Option<ChatBreakInput>,
    pub journal_entry_ids: Option<Vec<String>>,
}

/// The outcome of sending one journal entry.
#[derive(Debug, Clone)]
pub struct JournalEntryStep {
    pub id: String,
    pub status: u16,
    pub ok: bool,
    pub message: String,
}

/// The outcome of a push.
#[derive(Debug)]
pub struct PushResult {
    pub update_info: StepResult,
    pub journal_entries: Vec<JournalEntryStep>,
    pub chat_break: Option<StepResult>,
    pub log_id: uuid::Uuid,
}

/// The first requested field that is not a persona field, if any.
pub open spec fn first_unknown(fields: Seq<Seq<char>>, i: nat) -> Option<Seq<char>>
    decreases fields.len() - i,
{
    if i >= fields.len() {
        None
    } else if !is_persona_field(fields[i as int]) {
        Some(fields[i as int])
    } else {
        first_unknown(fields, i + 1)
    }
}

/// Only persona fields may be pushed; the first unknown one is reported.
pub fn validate_push_fields(fields: &[String]) -> (res: Result<(), AppError>)
    ensures
        first_unknown(views(fields@), 0) is None ==> res is Ok,
        first_unknown(views(fields@), 0) matches Some(f) ==> (res matches Err(e) && is_invalid_with(
            e,
            "unknown field: "@ + f,
        )),
{
    let ghost fs = views(fields@);
    let mut i: usize = 0;
    while i < fields.len()
        invariant
            i <= fields.len(),
            fs == views(fields@),
            first_unknown(fs, 0) == first_unknown(fs, i as nat),
        decreases fields.len() - i,
    {
        proof {
            assert(fs[i as int] == fields@[i as int]@);
        }
        if !persona_field_name(fields[i].as_str()) {
            let msg = concat2("unknown field: ", fields[i].as_str());
            return Err(AppError::invalid(msg.as_str()));
        }
        i = i + 1;
    }
    Ok(())
}

/// The greeting and wipe flag of a requested chat break: the greeting is
/// trimmed and must not be blank.
pub fn resolve_chat_break(cb: &Option<ChatBreakInput>) -> (res: Result<Option<(String, bool)>, AppError>)
    ensures
        cb is None ==> res matches Ok(None),
        cb matches Some(c) ==> (trim(c.greeting@).len() == 0 <==> res matches Err(
            AppError::MissingGreeting,
        )),
        cb matches Some(c) ==> (trim(c.greeting@).len() > 0 ==> (res matches Ok(Some((g, w))) && g@
            == trim(c.greeting@) && w == c.wipe_cascaded)),
{
    match cb {
        Some(c) => {
            let g = str_trim(c.greeting.as_str());
            if g.is_empty() {
                Err(AppError::MissingGreeting)
            } else {
                Ok(Some((to_owned_string(g), c.wipe_cascaded)))
            }
        },
        None => Ok(None),
    }
}

/// The positions in `all_ids`, from `i` on, that hold `id`, ascending.
pub open spec fn positions_from(all_ids: Seq<Seq<char>>, id: Seq<char>, i: nat) -> Seq<int>
    decreases all_ids.len() - i,
{
    if i >= all_ids.len() {
        Seq::empty()
    } else if all_ids[i as int] == id {
        seq![i as int] + positions_from(all_ids, id, i + 1)
    } else {
        positions_from(all_ids, id, i + 1)
    }
}

/// The stored entries that a push sends, as positions in the stored list:
/// for each requested id, at its first mention, the positions of the
/// stored entries with that id, ascending. This is the stored list
/// filtered to the requested ids and stably sorted by where each id is
/// first requested.
pub open spec fn selected_positions(ids: Seq<Seq<char>>, all_ids: Seq<Seq<char>>) -> Seq<int>
    decreases ids.len(),
{
    if ids.len() == 0 {
        Seq::empty()
    } else {
        let before = selected_positions(ids.drop_last(), all_ids);
        if ids.drop_last().contains(ids.last()) {
            before
        } else {
            before + positions_from(all_ids, ids.last(), 0)
        }
    }
}

/// The ids of some journal entries.
pub open spec fn entry_ids(es: Seq<JournalEntry>) -> Seq<Seq<char>> {
    es.map_values(|e: JournalEntry| e.id@)
}

/// Positions as integers.
pub open spec fn as_ints(v: Seq<usize>) -> Seq<int> {
    v.map_values(|i: usize| i as int)
}

fn contains_id(ids: &[String], upto: usize, id: &str) -> (res: bool)
    requires
        upto <= ids@.len(),
    ensures
        res == views(ids@).take(upto as int).contains(id@),
{
    let ghost pre = views(ids@).take(upto as int);
    let mut i: usize = 0;
    while i < upto
        invariant
            upto <= ids@.len(),
            i <= upto,
            pre == views(ids@).take(upto as int),
            forall|k: int| 0 <= k < i ==> pre[k] != id@,
        decreases upto - i,
    {
        if text_eq(ids[i].as_str(), id) {
            proof {
                assert(pre[i as int] == id@);
            }
            return true;
        }
        i = i + 1;
    }
    false
}

fn push_positions(out: &mut Vec<usize>, all: &[JournalEntry], id: &str)
    requires
        forall|k: int| 0 <= k < old(out)@.len() ==> #[trigger] old(out)@[k] < all@.len(),
    ensures
        as_ints(final(out)@) == as_ints(old(out)@) + positions_from(entry_ids(all@), id@, 0),
        forall|k: int| 0 <= k < final(out)@.len() ==> #[trigger] final(out)@[k] < all@.len(),
{
    let ghost all_ids = entry_ids(all@);
    let ghost start = as_ints(out@);
    let mut i: usize = 0;
    while i < all.len()
        invariant
            i <= all.len(),
            all_ids == entry_ids(all@),
            start + positions_from(all_ids, id@, 0) == as_ints(out@) + positions_from(
                all_ids,
                id@,
                i as nat,
            ),
            forall|k: int| 0 <= k < out@.len() ==> #[trigger] out@[k] < all@.len(),
        decreases all.len() - i,
    {
        proof {
            assert(all_ids[i as int] == all@[i as int].id@);
        }
        if text_eq(all[i].id.as_str(), id) {
            let ghost before = as_ints(out@);
            out.push(i);
            proof {
                assert(as_ints(out@) == before.push(i as int));
                assert(seq![i as int] + positions_from(all_ids, id@, (i + 1) as nat) == seq![
                    i as int,
                ] + positions_from(all_ids, id@, (i + 1) as nat));
                assert(before + (seq![i as int] + positions_from(all_ids, id@, (i + 1) as nat))
                    == before.push(i as int) + positions_from(all_ids, id@, (i + 1) as nat));
            }
        }
        i = i + 1;
    }
    proof {
        assert(positions_from(all_ids, id@, i as nat) == Seq::<int>::empty());
        assert(as_ints(out@) + Seq::<int>::empty() == as_ints(out@));
    }
}

/// Where the requested journal entries are in `all`, in push order.
pub fn select_journal_positions(ids: &[String], all: &[JournalEntry]) -> (res: Vec<usize>)
    ensures
        as_ints(res@) == selected_positions(views(ids@), entry_ids(all@)),
        forall|k: int| 0 <= k < res@.len() ==> #[trigger] res@[k] < all@.len(),
{
    let ghost vids = views(ids@);
    let mut out: Vec<usize> = Vec::new();
    let mut j: usize = 0;
    while j < ids.len()
        invariant
            j <= ids.len(),
            vids == views(ids@),
            as_ints(out@) == selected_positions(vids.take(j as int), entry_ids(all@)),
            forall|k: int| 0 <= k < out@.len() ==> #[trigger] out@[k] < all@.len(),
        decreases ids.len() - j,
    {
        let seen = contains_id(ids, j, ids[j].as_str());
        proof {
            let t = vids.take(j + 1);
            assert(t.drop_last() == vids.take(j as int));
            assert(t.last() == ids@[j as int]@);
        }
        if !seen {
            let ghost before = out@;
            push_positions(&mut out, all, ids[j].as_str());
        }
        j = j + 1;
    }
    proof {
        assert(vids.take(ids@.len() as int) == vids);
    }
    out
}

/// The first problem among the entries at `positions`, from `i` on.
pub open spec fn first_problem_at(all: Seq<JournalEntry>, positions: Seq<int>, i: nat) -> Option<
    Seq<char>,
>
    decreases positions.len() - i,
{
    if i >= positions.len() {
        None
    } else {
        let e = all[positions[i as int]];
        match entry_problem(e.entry@, views(e.keyphrases@)) {
            Some(m) => Some(m),
            None => first_problem_at(all, positions, i + 1),
        }
    }
}

/// The journal entries a push sends, as positions in `all`: nothing when
/// no id is requested; otherwise the requested ones in request order,
/// which must not be none and must each pass `JournalEntry::validate`.
pub fn journal_selection(ids: &[String], all: &[JournalEntry]) -> (res: Result<Vec<usize>, AppError>)
    ensures
        ({
            let sel = selected_positions(views(ids@), entry_ids(all@));
            if ids@.len() > 0 && sel.len() == 0 {
                res matches Err(e) && is_invalid_with(e, "no matching journal entries"@)
            } else {
                match first_problem_at(all@, sel, 0) {
                    Some(m) => res matches Err(e) && is_invalid_with(e, m),
                    None => res matches Ok(p) && as_ints(p@) == sel,
                }
            }
        }),
{
    let positions = select_journal_positions(ids, all);
    if ids.len() > 0 && positions.len() == 0 {
        return Err(AppError::invalid("no matching journal entries"));
    }
    let ghost sel = as_ints(positions@);
    let mut i: usize = 0;
    while i < positions.len()
        invariant
            i <= positions.len(),
            sel == as_ints(positions@),
            sel == selected_positions(views(ids@), entry_ids(all@)),
            !(ids@.len() > 0 && sel.len() == 0),
            forall|k: int| 0 <= k < positions@.len() ==> #[trigger] positions@[k] < all@.len(),
            first_problem_at(all@, sel, 0) == first_problem_at(all@, sel, i as nat),
        decreases positions.len() - i,
    {
        let p = positions[i];
        proof {
            assert(sel[i as int] == p as int);
        }
        match JournalEntry::validate(all[p].entry.as_str(), all[p].keyphrases.as_slice()) {
            Ok(()) => {},
            Err(m) => {
                return Err(AppError::invalid(m.as_str()));
            },
        }
        i = i + 1;
    }
    Ok(positions)
}

/// A push must carry at least one field, a chat break or a journal entry.
pub fn require_something_to_push(field_count: usize, has_chat_break: bool, journal_count: usize) -> (res: Result<(), AppError>)
    ensures
        (field_count == 0 && !has_chat_break && journal_count == 0) <==> res matches Err(
            AppError::NothingToPush,
        ),
        res is Err ==> res matches Err(AppError::NothingToPush),
{
    if field_count == 0 && !has_chat_break && journal_count == 0 {
        Err(AppError::NothingToPush)
    } else {
        Ok(())
    }
}

/// The persona values an update sends, as (field, value): each requested
/// field that has a value, in request order. The greeting is never sent.
pub open spec fn update_pairs(c: Character, fields: Seq<Seq<char>>) -> Seq<(Seq<char>, Seq<char>)>
    decreases fields.len(),
{
    if fields.len() == 0 {
        Seq::empty()
    } else {
        let before = update_pairs(c, fields.drop_last());
        match persona_value(c, fields.last()) {
            Some(v) => before.push((fields.last(), v)),
            None => before,
        }
    }
}

proof fn lemma_update_pairs_values(c: Character, fields: Seq<Seq<char>>)
    ensures
        forall|k: int|
            0 <= k < update_pairs(c, fields).len() ==> persona_value(
                c,
                (#[trigger] update_pairs(c, fields)[k]).0,
            ) == Some(update_pairs(c, fields)[k].1),
    decreases fields.len(),
{
    if fields.len() > 0 {
        lemma_update_pairs_values(c, fields.drop_last());
    }
}

/// A persona update sends under each field name the character's field of
/// that name: the value pushed as `ai_directive` is the directive, and so
/// on for every persona field.
pub proof fn update_sends_the_named_fields(c: Character, fields: Seq<Seq<char>>)
    ensures
        forall|k: int|
            0 <= k < update_pairs(c, fields).len() ==> {
                let p = #[trigger] update_pairs(c, fields)[k];
                &&& p.0 == "ai_name"@ ==> opt_view(c.ai_name) == Some(p.1)
                &&& p.0 == "ai_gender"@ ==> opt_view(c.ai_gender) == Some(p.1)
                &&& p.0 == "ai_backstory"@ ==> opt_view(c.ai_backstory) == Some(p.1)
                &&& p.0 == "ai_memory"@ ==> opt_view(c.ai_memory) == Some(p.1)
                &&& p.0 == "ai_directive"@ ==> opt_view(c.ai_directive) == Some(p.1)
                &&& p.0 == "ai_example_message"@ ==> opt_view(c.ai_example_message) == Some(p.1)
                &&& p.0 == "ai_additional_context"@ ==> opt_view(c.ai_additional_context) == Some(
                    p.1,
                )
                &&& p.0 == "current_scene"@ ==> opt_view(c.current_scene) == Some(p.1)
            },
{
    lemma_update_pairs_values(c, fields);
    crate::domain::character::persona_values_are_the_named_fields(c);
}

/// The views of (name, value) pairs.
pub open spec fn pair_views(v: Seq<(String, String)>) -> Seq<(Seq<char>, Seq<char>)> {
    v.map_values(|p: (String, String)| (p.0@, p.1@))
}

/// The (field, value) pairs of an update of `fields`, which must all be
/// persona fields.
pub fn update_info_fields(c: &Character, fields: &[String]) -> (res: Vec<(String, String)>)
    requires
        forall|k: int| 0 <= k < fields@.len() ==> is_persona_field(#[trigger] fields@[k]@),
    ensures
        pair_views(res@) == update_pairs(*c, views(fields@)),
{
    let ghost fs = views(fields@);
    let mut out: Vec<(String, String)> = Vec::new();
    let mut i: usize = 0;
    while i < fields.len()
        invariant
            i <= fields.len(),
            fs == views(fields@),
            forall|k: int| 0 <= k < fields@.len() ==> is_persona_field(#[trigger] fields@[k]@),
            pair_views(out@) == update_pairs(*c, fs.take(i as int)),
        decreases fields.len() - i,
    {
        proof {
            let t = fs.take(i + 1);
            assert(t.drop_last() == fs.take(i as int));
            assert(t.last() == fields@[i as int]@);
        }
        let ghost before = out@;
        match c.persona_field(fields[i].as_str()) {
            Some(v) => {
                out.push((fields[i].clone(), v));
                proof {
                    assert(pair_views(out@) == pair_views(before).push(
                        (fields@[i as int]@, out@[i as int - (i as int - before.len())].1@),
                    ));
                }
            },
            None => {},
        }
        i = i + 1;
    }
    proof {
        assert(fs.take(fields@.len() as int) == fs);
    }
    out
}

/// The step shown for a response that came back.
pub fn step_result(r: HttpResponse) -> (res: StepResult)
    ensures
        res.status == r.status,
        res.ok == r.ok,
        res.message@ == truncated_body(r.body@),
{
    StepResult { status: r.status, ok: r.ok, message: truncate_body(r.body.as_str()) }
}

/// The step shown for a request that failed: the error's status (`0` for
/// a network failure), not ok, and the error's text.
pub fn error_step_result(e: &KindroidError) -> (res: StepResult)
    ensures
        res.status == kindroid_error_status(*e),
        !res.ok,
        res.message@ == kindroid_error_text(*e),
{
    StepResult { status: e.status(), ok: false, message: e.message() }
}

/// The step shown for the outcome of a request.
pub open spec fn step_of(r: Result<HttpResponse, KindroidError>) -> (u16, bool, Seq<char>) {
    match r {
        Ok(h) => (h.status, h.ok, truncated_body(h.body@)),
        Err(e) => (kindroid_error_status(e), false, kindroid_error_text(e)),
    }
}

/// The step shown for the outcome of a request.
pub fn response_step(r: Result<HttpResponse, KindroidError>) -> (res: StepResult)
    ensures
        (res.status, res.ok, res.message@) == step_of(r),
{
    match r {
        Ok(h) => step_result(h),
        Err(e) => error_step_result(&e),
    }
}

/// The outcome of sending the journal entry `id`.
pub fn journal_step(id: &str, r: Result<HttpResponse, KindroidError>) -> (res: JournalEntryStep)
    ensures
        res.id@ == id@,
        (res.status, res.ok, res.message@) == step_of(r),
{
    let s = response_step(r);
    JournalEntryStep { id: to_owned_string(id), status: s.status, ok: s.ok, message: s.message }
}

/// Journal entries and a chat break are only sent after the persona
/// update went through.
pub fn follow_ups_allowed(update: &Result<HttpResponse, KindroidError>) -> (res: bool)
    ensures
        res == update is Ok,
{
    update.is_ok()
}

/// One outside call of a push, in the order they go out.
#[derive(Debug, Clone, Copy, PartialEq, Eq, Structural)]
pub enum PushCall {
    /// The persona update.
    UpdateInfo,
    /// The journal entry at this position of the selection.
    Journal(usize),
    /// The chat break.
    ChatBreak,
    /// Nothing more to send.
    Finish,
}

/// The call after `done`: the persona update first; when it went through
/// (`follow_ups`), every selected journal entry in selection order, then
/// the chat break if one was asked for. A failed journal entry does not
/// stop the later ones or the chat break.
pub open spec fn push_call_after(done: PushCall, journal_count: nat, chat_break: bool, follow_ups: bool) -> PushCall {
    let after_journals = if chat_break {
        PushCall::ChatBreak
    } else {
        PushCall::Finish
    };
    match done {
        PushCall::UpdateInfo => if !follow_ups {
            PushCall::Finish
        } else if journal_count > 0 {
            PushCall::Journal(0)
        } else {
            after_journals
        },
        PushCall::Journal(i) => if i + 1 < journal_count {
            PushCall::Journal((i + 1) as usize)
        } else {
            after_journals
        },
        _ => PushCall::Finish,
    }
}

/// Decide the next call of a push once `done` has been made; `follow_ups`
/// is whether the persona update went through.
pub fn next_push_call(done: PushCall, journal_count: usize, chat_break: bool, follow_ups: bool) -> (res: PushCall)
    ensures
        res == push_call_after(done, journal_count as nat, chat_break, follow_ups),
        res matches PushCall::Journal(i) ==> i < journal_count,
{
    let after_journals = if chat_break {
        PushCall::ChatBreak
    } else {
        PushCall::Finish
    };
    match done {
        PushCall::UpdateInfo => if !follow_ups {
            PushCall::Finish
        } else if journal_count > 0 {
            PushCall::Journal(0)
        } else {
            after_journals
        },
        PushCall::Journal(i) => if i < journal_count && i + 1 < journal_count {
            PushCall::Journal(i + 1)
        } else {
            after_journals
        },
        _ => PushCall::Finish,
    }
}

/// The calls a push makes, in order: the persona update, then, when it
/// went through, each selected journal entry by position and the chat
/// break if one was asked for.
pub open spec fn push_schedule(journal_count: nat, chat_break: bool, follow_ups: bool) -> Seq<PushCall> {
    if !follow_ups {
        seq![PushCall::UpdateInfo]
    } else {
        seq![PushCall::UpdateInfo] + Seq::new(journal_count, |i: int| PushCall::Journal(i as usize))
            + if chat_break {
            seq![PushCall::ChatBreak]
        } else {
            Seq::empty()
        }
    }
}

/// Following `push_call_after` from the persona update makes exactly the
/// calls of `push_schedule`, each once, in its order, and then stops:
/// journal entries go out after the update in selection order, whatever
/// each of them answers, and the chat break comes last.
pub proof fn push_follows_schedule(journal_count: nat, chat_break: bool, follow_ups: bool)
    requires
        journal_count <= usize::MAX,
    ensures
        push_schedule(journal_count, chat_break, follow_ups)[0] == PushCall::UpdateInfo,
        forall|k: int|
            0 <= k < push_schedule(journal_count, chat_break, follow_ups).len() - 1 ==> push_call_after(
                #[trigger] push_schedule(journal_count, chat_break, follow_ups)[k],
                journal_count,
                chat_break,
                follow_ups,
            ) == push_schedule(journal_count, chat_break, follow_ups)[k + 1],
        push_call_after(
            push_schedule(journal_count, chat_break, follow_ups).last(),
            journal_count,
            chat_break,
            follow_ups,
        ) == PushCall::Finish,
{
    let sch = push_schedule(journal_count, chat_break, follow_ups);
    if follow_ups {
        let js = Seq::new(journal_count, |i: int| PushCall::Journal(i as usize));
        let tail: Seq<PushCall> = if chat_break {
            seq![PushCall::ChatBreak]
        } else {
            Seq::empty()
        };
        assert(sch == seq![PushCall::UpdateInfo] + js + tail);
        assert forall|k: int| 0 <= k < sch.len() - 1 implies push_call_after(
            #[trigger] sch[k],
            journal_count,
            chat_break,
            follow_ups,
        ) == sch[k + 1] by {
            if k == 0 {
                if journal_count > 0 {
                    assert(sch[1] == js[0]);
                } else {
                    assert(sch[1] == tail[0]);
                }
            } else {
                assert(sch[k] == js[k - 1]);
                if k < journal_count {
                    assert(sch[k + 1] == js[k]);
                } else {
                    assert(sch[k + 1] == tail[0]);
                }
            }
        }
        if chat_break {
            assert(sch.last() == PushCall::ChatBreak);
        } else if journal_count > 0 {
            assert(sch.last() == js[journal_count - 1]);
        } else {
            assert(sch.last() == PushCall::UpdateInfo);
        }
    }
}

/// The chat break sent for a push to `ai_id`.
pub fn chat_break_request(ai_id: &str, greeting: String, wipe_cascaded: bool) -> (res: ChatBreakRequest)
    ensures
        res.ai_id@ == ai_id@,
        res.greeting@ == greeting@,
        res.wipe_cascaded == wipe_cascaded,
{
    ChatBreakRequest { ai_id: to_owned_string(ai_id), greeting, wipe_cascaded }
}

/// Did the push include the AI name?
pub open spec fn pushes_ai_name(fields: Seq<Seq<char>>) -> bool {
    fields.contains("ai_name"@)
}

/// The target's label after a push: when the AI name was pushed and is
/// not empty, the label follows it; otherwise it is kept.
pub open spec fn label_after_push(fields: Seq<Seq<char>>, ai_name: Option<Seq<char>>, label: Seq<char>) -> Seq<char> {
    if pushes_ai_name(fields) {
        match ai_name {
            Some(n) => if n.len() > 0 {
                n
            } else {
                label
            },
            None => label,
        }
    } else {
        label
    }
}

/// The target's label after a push of `fields`.
pub fn pushed_label(fields: &[String], ai_name: &Option<String>, label: String) -> (res: String)
    ensures
        res@ == label_after_push(views(fields@), opt_view(*ai_name), label@),
{
    let ghost fs = views(fields@);
    let mut found = false;
    let mut i: usize = 0;
    while i < fields.len()
        invariant
            i <= fields.len(),
            fs == views(fields@),
            found == exists|k: int| 0 <= k < i && fs[k] == "ai_name"@,
        decreases fields.len() - i,
    {
        proof {
            assert(fs[i as int] == fields@[i as int]@);
        }
        if text_eq(fields[i].as_str(), "ai_name") {
            found = true;
        }
        i = i + 1;
    }
    assert(found == fs.contains("ai_name"@));
    if found {
        match ai_name {
            Some(n) => if !n.as_str().is_empty() {
                return n.clone();
            },
            None => {},
        }
    }
    label
}

/// The ids of the journal entries that were sent, or none when there
/// were none.
pub fn journal_ids_sent(steps: &[JournalEntryStep]) -> (res: Option<Vec<String>>)
    ensures
        steps@.len() == 0 ==> res is None,
        steps@.len() > 0 ==> (res matches Some(v) && views(v@) == steps@.map_values(
            |s: JournalEntryStep| s.id@,
        )),
{
    if steps.len() == 0 {
        return None;
    }
    let mut out: Vec<String> = Vec::new();
    let mut i: usize = 0;
    while i < steps.len()
        invariant
            i <= steps.len(),
            views(out@) == steps@.take(i as int).map_values(|s: JournalEntryStep| s.id@),
        decreases steps.len() - i,
    {
        out.push(steps[i].id.clone());
        proof {
            assert(steps@.take(i + 1).map_values(|s: JournalEntryStep| s.id@) == steps@.take(
                i as int,
            ).map_values(|s: JournalEntryStep| s.id@).push(steps@[i as int].id@));
        }
        i = i + 1;
    }
    proof {
        assert(steps@.take(steps@.len() as int) == steps@);
    }
    Some(out)
}

/// The greeting recorded for a chat break: as typed, trimmed.
pub open spec fn logged_greeting(cb: Option<ChatBreakInput>) -> Option<Seq<char>> {
    match cb {
        Some(c) => Some(trim(c.greeting@)),
        None => None,
    }
}

/// The log entry of a push. The update's body is its step message; the
/// chat break's status and body are recorded when one was sent.
pub fn push_log_entry(
    id: uuid::Uuid,
    at: i64,
    character: &Character,
    target_id: uuid::Uuid,
    target_ai_id: &str,
    fields: &[String],
    chat_break: &Option<ChatBreakInput>,
    update: &StepResult,
    chat_break_step: &Option<StepResult>,
    journal_steps: &[JournalEntryStep],
) -> (res: PushLogEntry)
    ensures
        res.id == id,
        res.at == at,
        res.character_id == character.id,
        res.character_name@ == character.name@,
        res.target_id == target_id,
        res.target_ai_id@ == target_ai_id@,
        views(res.fields_sent@) == views(fields@),
        res.did_chat_break == chat_break is Some,
        opt_view(res.greeting) == logged_greeting(*chat_break),
        res.wipe_cascaded == (match chat_break {
            Some(c) => Some(c.wipe_cascaded),
            None => None,
        }),
        res.update_info_status == update.status,
        res.update_info_body@ == update.message@,
        res.create_new_ai_status is None,
        res.create_new_ai_body is None,
        res.chat_break_status == (match chat_break_step {
            Some(s) => Some(s.status),
            None => None,
        }),
        opt_view(res.chat_break_body) == (match chat_break_step {
            Some(s) => Some(s.message@),
            None => None,
        }),
        journal_steps@.len() == 0 ==> res.journal_entry_ids is None,
        journal_steps@.len() > 0 ==> (res.journal_entry_ids matches Some(v) && views(v@)
            == journal_steps@.map_values(|s: JournalEntryStep| s.id@)),
{
    let greeting = match chat_break {
        Some(c) => Some(to_owned_string(str_trim(c.greeting.as_str()))),
        None => None,
    };
    let wipe_cascaded = match chat_break {
        Some(c) => Some(c.wipe_cascaded),
        None => None,
    };
    let (chat_break_status, chat_break_body) = match chat_break_step {
        Some(s) => (Some(s.status), Some(s.message.clone())),
        None => (None, None),
    };
    let mut fields_sent: Vec<String> = Vec::new();
    let mut i: usize = 0;
    while i < fields.len()
        invariant
            i <= fields.len(),
            views(fields_sent@) == views(fields@.take(i as int)),
        decreases fields.len() - i,
    {
        fields_sent.push(fields[i].clone());
        proof {
            assert(views(fields@.take(i + 1)) == views(fields@.take(i as int)).push(
                fields@[i as int]@,
            ));
        }
        i = i + 1;
    }
    proof {
        assert(fields@.take(fields@.len() as int) == fields@);
    }
    PushLogEntry {
        id,
        at,
        character_id: character.id,
        character_name: character.name.clone(),
        target_id,
        target_ai_id: to_owned_string(target_ai_id),
        fields_sent,
        did_chat_break: chat_break.is_some(),
        greeting,
        wipe_cascaded,
        update_info_status: update.status,
        update_info_body: update.message.clone(),
        create_new_ai_status: None,
        create_new_ai_body: None,
        chat_break_status,
        chat_break_body,
        journal_entry_ids: journal_ids_sent(journal_steps),
    }
}

/// A new Kin needs an AI name that is not blank.
pub fn validate_new_kin(c: &Character) -> (res: Result<(), AppError>)
    ensures
        (match c.ai_name {
            Some(n) => trim(n@).len() > 0,
            None => false,
        }) <==> res is Ok,
        res matches Err(e) ==> is_invalid_with(e, "ai_name is required to create a new Kin"@),
{
    let named = match &c.ai_name {
        Some(n) => !str_trim(n.as_str()).is_empty(),
        None => false,
    };
    if named {
        Ok(())
    } else {
        Err(AppError::invalid("ai_name is required to create a new Kin"))
    }
}

/// The first stored journal entry, from `i` on, that fails validation,
/// reported with its id.
pub open spec fn first_kin_journal_problem(es: Seq<JournalEntry>, i: nat) -> Option<Seq<char>>
    decreases es.len() - i,
{
    if i >= es.len() {
        None
    } else {
        match entry_problem(es[i as int].entry@, views(es[i as int].keyphrases@)) {
            Some(m) => Some("invalid journal entry "@ + es[i as int].id@ + ": "@ + m),
            None => first_kin_journal_problem(es, i + 1),
        }
    }
}

/// Every journal entry of a new Kin must pass validation; the first one
/// that does not is reported with its id.
pub fn validate_kin_journals(entries: &[JournalEntry]) -> (res: Result<(), AppError>)
    ensures
        first_kin_journal_problem(entries@, 0) is None <==> res is Ok,
        first_kin_journal_problem(entries@, 0) matches Some(m) ==> (res matches Err(e)
            && is_invalid_with(e, m)),
{
    let mut i: usize = 0;
    while i < entries.len()
        invariant
            i <= entries.len(),
            first_kin_journal_problem(entries@, 0) == first_kin_journal_problem(entries@, i as nat),
        decreases entries.len() - i,
    {
        match JournalEntry::validate(entries[i].entry.as_str(), entries[i].keyphrases.as_slice()) {
            Ok(()) => {},
            Err(m) => {
                let mut out = crate::text::chars_of("invalid journal entry ");
                crate::text::push_str(&mut out, entries[i].id.as_str());
                crate::text::push_str(&mut out, ": ");
                crate::text::push_str(&mut out, m.as_str());
                let msg = crate::text::string_of(out.as_slice());
                return Err(AppError::invalid(msg.as_str()));
            },
        }
        i = i + 1;
    }
    Ok(())
}

/// One field of a new Kin, when its value is set and not blank; the value
/// is sent as stored.
pub open spec fn kin_field(name: Seq<char>, value: Option<Seq<char>>) -> Seq<(Seq<char>, Seq<char>)> {
    match value {
        Some(v) => if trim(v).len() > 0 {
            seq![(name, v)]
        } else {
            Seq::empty()
        },
        None => Seq::empty(),
    }
}

/// The fields of the create request of a new Kin, in this order: AI
/// name, gender, backstory, avatar description (as
/// `custom_avatar_description`) and greeting (as `custom_greeting`).
pub open spec fn kin_create_fields(c: Character) -> Seq<(Seq<char>, Seq<char>)> {
    kin_field("ai_name"@, opt_view(c.ai_name)) + kin_field("ai_gender"@, opt_view(c.ai_gender))
        + kin_field("ai_backstory"@, opt_view(c.ai_backstory)) + kin_field(
        "custom_avatar_description"@,
        opt_view(c.ai_avatar_description),
    ) + kin_field("custom_greeting"@, opt_view(c.greeting))
}

/// The fields of the update that follows the creation of a new Kin, in
/// this order: memory, directive, example message, additional context,
/// current scene.
pub open spec fn kin_update_fields(c: Character) -> Seq<(Seq<char>, Seq<char>)> {
    kin_field("ai_memory"@, opt_view(c.ai_memory)) + kin_field(
        "ai_directive"@,
        opt_view(c.ai_directive),
    ) + kin_field("ai_example_message"@, opt_view(c.ai_example_message)) + kin_field(
        "ai_additional_context"@,
        opt_view(c.ai_additional_context),
    ) + kin_field("current_scene"@, opt_view(c.current_scene))
}

/// The names of some (name, value) pairs.
pub open spec fn pair_names(ps: Seq<(Seq<char>, Seq<char>)>) -> Seq<Seq<char>> {
    ps.map_values(|p: (Seq<char>, Seq<char>)| p.0)
}

/// What a new Kin is created with.
#[derive(Debug)]
pub struct NewKinFields {
    /// The create request's body fields, then `ai_avatar` set to `-1`.
    pub create: Vec<(String, String)>,
    /// The fields of the update sent after the creation.
    pub update: Vec<(String, String)>,
    /// The names of the create and update fields, for the push log.
    pub fields_sent: Vec<String>,
}

fn add_kin_field(out: &mut Vec<(String, String)>, sent: &mut Vec<String>, name: &str, value: &Option<String>)
    ensures
        pair_views(final(out)@) == pair_views(old(out)@) + kin_field(name@, opt_view(*value)),
        views(final(sent)@) == views(old(sent)@) + pair_names(kin_field(name@, opt_view(*value))),
{
    let ghost o = pair_views(out@);
    let ghost s = views(sent@);
    match value {
        Some(v) => {
            if !str_trim(v.as_str()).is_empty() {
                out.push((to_owned_string(name), v.clone()));
                sent.push(to_owned_string(name));
                proof {
                    assert(pair_views(out@) =~= o + kin_field(name@, opt_view(*value)));
                    assert(views(sent@) =~= s + pair_names(kin_field(name@, opt_view(*value))));
                }
            } else {
                proof {
                    assert(o + kin_field(name@, opt_view(*value)) =~= o);
                    assert(s + pair_names(kin_field(name@, opt_view(*value))) =~= s);
                }
            }
        },
        None => {
            proof {
                assert(o + kin_field(name@, opt_view(*value)) =~= o);
                assert(s + pair_names(kin_field(name@, opt_view(*value))) =~= s);
            }
        },
    }
}

proof fn lemma_names_concat(a: Seq<(Seq<char>, Seq<char>)>, b: Seq<(Seq<char>, Seq<char>)>)
    ensures
        pair_names(a + b) == pair_names(a) + pair_names(b),
{
    assert(pair_names(a + b) =~= pair_names(a) + pair_names(b));
}

fn collect_create_fields(c: &Character, out: &mut Vec<(String, String)>, sent: &mut Vec<String>)
    ensures
        pair_views(final(out)@) == pair_views(old(out)@) + kin_create_fields(*c),
        views(final(sent)@) == views(old(sent)@) + pair_names(kin_create_fields(*c)),
{
    let ghost o0 = pair_views(out@);
    let ghost s0 = views(sent@);
    let ghost f1 = kin_field("ai_name"@, opt_view(c.ai_name));
    let ghost f2 = kin_field("ai_gender"@, opt_view(c.ai_gender));
    let ghost f3 = kin_field("ai_backstory"@, opt_view(c.ai_backstory));
    let ghost f4 = kin_field("custom_avatar_description"@, opt_view(c.ai_avatar_description));
    let ghost f5 = kin_field("custom_greeting"@, opt_view(c.greeting));
    add_kin_field(out, sent, "ai_name", &c.ai_name);
    add_kin_field(out, sent, "ai_gender", &c.ai_gender);
    add_kin_field(out, sent, "ai_backstory", &c.ai_backstory);
    add_kin_field(out, sent, "custom_avatar_description", &c.ai_avatar_description);
    add_kin_field(out, sent, "custom_greeting", &c.greeting);
    proof {
        assert(pair_views(out@) =~= o0 + (f1 + f2 + f3 + f4 + f5));
        lemma_names_concat(f1, f2);
        lemma_names_concat(f1 + f2, f3);
        lemma_names_concat(f1 + f2 + f3, f4);
        lemma_names_concat(f1 + f2 + f3 + f4, f5);
        assert(views(sent@) =~= s0 + pair_names(f1 + f2 + f3 + f4 + f5));
    }
}

fn collect_update_fields(c: &Character, out: &mut Vec<(String, String)>, sent: &mut Vec<String>)
    ensures
        pair_views(final(out)@) == pair_views(old(out)@) + kin_update_fields(*c),
        views(final(sent)@) == views(old(sent)@) + pair_names(kin_update_fields(*c)),
{
    let ghost o0 = pair_views(out@);
    let ghost s0 = views(sent@);
    let ghost f1 = kin_field("ai_memory"@, opt_view(c.ai_memory));
    let ghost f2 = kin_field("ai_directive"@, opt_view(c.ai_directive));
    let ghost f3 = kin_field("ai_example_message"@, opt_view(c.ai_example_message));
    let ghost f4 = kin_field("ai_additional_context"@, opt_view(c.ai_additional_context));
    let ghost f5 = kin_field("current_scene"@, opt_view(c.current_scene));
    add_kin_field(out, sent, "ai_memory", &c.ai_memory);
    add_kin_field(out, sent, "ai_directive", &c.ai_directive);
    add_kin_field(out, sent, "ai_example_message", &c.ai_example_message);
    add_kin_field(out, sent, "ai_additional_context", &c.ai_additional_context);
    add_kin_field(out, sent, "current_scene", &c.current_scene);
    proof {
        assert(pair_views(out@) =~= o0 + (f1 + f2 + f3 + f4 + f5));
        lemma_names_concat(f1, f2);
        lemma_names_concat(f1 + f2, f3);
        lemma_names_concat(f1 + f2 + f3, f4);
        lemma_names_concat(f1 + f2 + f3 + f4, f5);
        assert(views(sent@) =~= s0 + pair_names(f1 + f2 + f3 + f4 + f5));
    }
}

/// Collect the fields a new Kin is created and updated with.
pub fn new_kin_fields(c: &Character) -> (res: NewKinFields)
    ensures
        pair_views(res.create@) == kin_create_fields(*c).push(("ai_avatar"@, "-1"@)),
        pair_views(res.update@) == kin_update_fields(*c),
        views(res.fields_sent@) == pair_names(kin_create_fields(*c)) + pair_names(
            kin_update_fields(*c),
        ),
{
    let mut create: Vec<(String, String)> = Vec::new();
    let mut update: Vec<(String, String)> = Vec::new();
    let mut sent: Vec<String> = Vec::new();
    proof {
        assert(pair_views(create@) =~= Seq::<(Seq<char>, Seq<char>)>::empty());
        assert(pair_views(update@) =~= Seq::<(Seq<char>, Seq<char>)>::empty());
        assert(views(sent@) =~= Seq::<Seq<char>>::empty());
    }
    collect_create_fields(c, &mut create, &mut sent);
    collect_update_fields(c, &mut update, &mut sent);
    let ghost created = pair_views(create@);
    create.push((to_owned_string("ai_avatar"), to_owned_string("-1")));
    proof {
        assert(pair_views(create@) =~= created.push(("ai_avatar"@, "-1"@)));
        assert(created =~= kin_create_fields(*c));
        assert(pair_views(update@) =~= kin_update_fields(*c));
    }
    NewKinFields { create, update, fields_sent: sent }
}

/// The id of the Kin just created: the create response's body, trimmed;
/// an empty one is an error.
pub fn new_ai_id(body: &str) -> (res: Result<String, AppError>)
    ensures
        trim(body@).len() > 0 ==> (res matches Ok(id) && id@ == trim(body@)),
        trim(body@).len() == 0 ==> (res matches Err(e) && is_invalid_with(
            e,
            "create-new-ai returned an empty ai_id"@,
        )),
{
    let t = str_trim(body);
    if t.is_empty() {
        Err(AppError::invalid("create-new-ai returned an empty ai_id"))
    } else {
        Ok(to_owned_string(t))
    }
}

/// The outcome of creating a new Kin.
#[derive(Debug)]
pub struct CreateNewKinResult {
    pub create_new_ai: StepResult,
    pub update_info: Option<StepResult>,
    pub journal_entries: Vec<JournalEntryStep>,
    pub log_id: uuid::Uuid,
    pub target: crate::domain::target::Target,
}

/// What creating a new Kin reports when the create request failed:
/// that failure as the create step, no update or journal steps, and no
/// log entry or target (both carry the empty id `no_id`, and the target
/// no ai_id or label), at time `now`.
pub fn failed_kin_result(e: &KindroidError, no_id: uuid::Uuid, now: i64) -> (res: CreateNewKinResult)
    ensures
        res.create_new_ai.status == kindroid_error_status(*e),
        !res.create_new_ai.ok,
        res.create_new_ai.message@ == kindroid_error_text(*e),
        res.update_info is None,
        res.journal_entries@.len() == 0,
        res.log_id == no_id,
        res.target.id == no_id,
        res.target.ai_id@.len() == 0,
        res.target.kind == crate::domain::target::TargetKind::Ai,
        res.target.label@.len() == 0,
        res.target.created_at == now,
{
    CreateNewKinResult {
        create_new_ai: error_step_result(e),
        update_info: None,
        journal_entries: Vec::new(),
        log_id: no_id,
        target: crate::domain::target::Target {
            id: no_id,
            ai_id: String::new(),
            kind: crate::domain::target::TargetKind::Ai,
            label: String::new(),
            created_at: now,
        },
    }
}

/// The create response's body as logged: the response body, or the
/// error's body, cut to the log's size.
pub fn create_body_logged(r: &Result<HttpResponse, KindroidError>) -> (res: String)
    ensures
        res@ == truncated_body(
            match r {
                Ok(h) => h.body@,
                Err(e) => crate::kindroid::kindroid_error_body(*e),
            },
        ),
{
    match r {
        Ok(h) => truncate_body(h.body.as_str()),
        Err(e) => {
            let b = e.body();
            truncate_body(b.as_str())
        },
    }
}

/// The log entry of a new Kin: no chat break, the create step's status
/// and logged body, the update step, and the ids of the journal entries
/// that were sent along (none when there were none).
pub fn kin_log_entry(
    id: uuid::Uuid,
    at: i64,
    character: &Character,
    target: &crate::domain::target::Target,
    fields_sent: Vec<String>,
    create_step: &StepResult,
    create_body: String,
    update: &StepResult,
    journal_entries: &[JournalEntry],
) -> (res: PushLogEntry)
    ensures
        res.id == id,
        res.at == at,
        res.character_id == character.id,
        res.character_name@ == character.name@,
        res.target_id == target.id,
        res.target_ai_id@ == target.ai_id@,
        views(res.fields_sent@) == views(fields_sent@),
        !res.did_chat_break,
        res.greeting is None,
        res.wipe_cascaded is None,
        res.update_info_status == update.status,
        res.update_info_body@ == update.message@,
        res.create_new_ai_status == Some(create_step.status),
        opt_view(res.create_new_ai_body) == Some(create_body@),
        res.chat_break_status is None,
        res.chat_break_body is None,
        journal_entries@.len() == 0 ==> res.journal_entry_ids is None,
        journal_entries@.len() > 0 ==> (res.journal_entry_ids matches Some(v) && views(v@)
            == entry_ids(journal_entries@)),
{
    let journal_entry_ids = if journal_entries.len() == 0 {
        None
    } else {
        let mut ids: Vec<String> = Vec::new();
        let mut i: usize = 0;
        while i < journal_entries.len()
            invariant
                i <= journal_entries.len(),
                views(ids@) == entry_ids(journal_entries@.take(i as int)),
            decreases journal_entries.len() - i,
        {
            ids.push(journal_entries[i].id.clone());
            proof {
                assert(entry_ids(journal_entries@.take(i + 1)) == entry_ids(
                    journal_entries@.take(i as int),
                ).push(journal_entries@[i as int].id@));
            }
            i = i + 1;
        }
        proof {
            assert(journal_entries@.take(journal_entries@.len() as int) == journal_entries@);
        }
        Some(ids)
    };
    PushLogEntry {
        id,
        at,
        character_id: character.id,
        character_name: character.name.clone(),
        target_id: target.id,
        target_ai_id: target.ai_id.clone(),
        fields_sent,
        did_chat_break: false,
        greeting: None,
        wipe_cascaded: None,
        update_info_status: update.status,
        update_info_body: update.message.clone(),
        create_new_ai_status: Some(create_step.status),
        create_new_ai_body: Some(create_body),
        chat_break_status: None,
        chat_break_body: None,
        journal_entry_ids,
    }
}

/// A persona update sends only requested persona fields, so the greeting
/// is never part of it.
pub proof fn update_never_sends_greeting(c: Character, fields: Seq<Seq<char>>)
    requires
        forall|k: int| 0 <= k < fields.len() ==> is_persona_field(#[trigger] fields[k]),
    ensures
        forall|k: int|
            0 <= k < update_pairs(c, fields).len() ==> (#[trigger] update_pairs(c, fields)[k]).0
                != "greeting"@,
    decreases fields.len(),
{
    if fields.len() > 0 {
        let before = fields.drop_last();
        assert forall|k: int| 0 <= k < before.len() implies is_persona_field(#[trigger] before[k]) by {
            assert(before[k] == fields[k]);
        }
        update_never_sends_greeting(c, before);
        assert(is_persona_field(fields.last()));
        lemma_greeting_is_not_persona();
        assert(fields.last() != "greeting"@);
        let bp = update_pairs(c, before);
        let all = update_pairs(c, fields);
        assert forall|k: int| 0 <= k < all.len() implies (#[trigger] all[k]).0 != "greeting"@ by {
            if k < bp.len() {
                assert(all[k] == bp[k]);
            }
        }
    }
}

proof fn lemma_greeting_is_not_persona()
    ensures
        !is_persona_field("greeting"@),
{
    reveal_strlit("greeting");
    reveal_strlit("ai_name");
    reveal_strlit("ai_gender");
    reveal_strlit("ai_backstory");
    reveal_strlit("ai_memory");
    reveal_strlit("ai_directive");
    reveal_strlit("ai_example_message");
    reveal_strlit("ai_additional_context");
    reveal_strlit("current_scene");
    assert("greeting"@.len() == 8);
    assert("ai_name"@.len() == 7);
    assert("ai_gender"@.len() == 9);
    assert("ai_backstory"@.len() == 12);
    assert("ai_memory"@.len() == 9);
    assert("ai_directive"@.len() == 12);
    assert("ai_example_message"@.len() == 18);
    assert("ai_additional_context"@.len() == 21);
    assert("current_scene"@.len() == 13);
}

/// A push never blanks a target's label: a label that was set stays set.
pub proof fn push_keeps_a_label(fields: Seq<Seq<char>>, ai_name: Option<Seq<char>>, label: Seq<char>)
    requires
        label.len() > 0,
    ensures
        label_after_push(fields, ai_name, label).len() > 0,
{
}

/// A name the create request of a new Kin may carry.
pub open spec fn is_create_name(n: Seq<char>) -> bool {
    ||| n == "ai_name"@
    ||| n == "ai_gender"@
    ||| n == "ai_backstory"@
    ||| n == "custom_avatar_description"@
    ||| n == "custom_greeting"@
    ||| n == "ai_avatar"@
}

/// A name the update after the creation of a new Kin may carry.
pub open spec fn is_update_name(n: Seq<char>) -> bool {
    ||| n == "ai_memory"@
    ||| n == "ai_directive"@
    ||| n == "ai_example_message"@
    ||| n == "ai_additional_context"@
    ||| n == "current_scene"@
}

proof fn lemma_kin_field_names(name: Seq<char>, value: Option<Seq<char>>)
    ensures
        forall|k: int| 0 <= k < kin_field(name, value).len() ==> (#[trigger] kin_field(name, value)[k]).0 == name,
{
}

proof fn lemma_create_and_update_names_differ(n: Seq<char>)
    ensures
        !(is_create_name(n) && is_update_name(n)),
{
    reveal_strlit("ai_name");
    reveal_strlit("ai_gender");
    reveal_strlit("ai_backstory");
    reveal_strlit("custom_avatar_description");
    reveal_strlit("custom_greeting");
    reveal_strlit("ai_avatar");
    reveal_strlit("ai_memory");
    reveal_strlit("ai_directive");
    reveal_strlit("ai_example_message");
    reveal_strlit("ai_additional_context");
    reveal_strlit("current_scene");
    if is_create_name(n) && is_update_name(n) {
        assert(n.len() == 9 ==> n[3] == 'g' || n[3] == 'a');
        assert(n.len() == 12 ==> n[3] == 'b');
        assert(false);
    }
}

/// A new Kin gets each field once: no field of its create request is sent
/// again in the update that follows.
pub proof fn new_kin_sends_each_field_once(c: Character)
    ensures
        forall|i: int, j: int|
            0 <= i < kin_create_fields(c).push(("ai_avatar"@, "-1"@)).len() && 0 <= j
                < kin_update_fields(c).len() ==> (#[trigger] kin_create_fields(c).push(
                ("ai_avatar"@, "-1"@),
            )[i]).0 != (#[trigger] kin_update_fields(c)[j]).0,
{
    let f1 = kin_field("ai_name"@, opt_view(c.ai_name));
    let f2 = kin_field("ai_gender"@, opt_view(c.ai_gender));
    let f3 = kin_field("ai_backstory"@, opt_view(c.ai_backstory));
    let f4 = kin_field("custom_avatar_description"@, opt_view(c.ai_avatar_description));
    let f5 = kin_field("custom_greeting"@, opt_view(c.greeting));
    let g1 = kin_field("ai_memory"@, opt_view(c.ai_memory));
    let g2 = kin_field("ai_directive"@, opt_view(c.ai_directive));
    let g3 = kin_field("ai_example_message"@, opt_view(c.ai_example_message));
    let g4 = kin_field("ai_additional_context"@, opt_view(c.ai_additional_context));
    let g5 = kin_field("current_scene"@, opt_view(c.current_scene));
    lemma_kin_field_names("ai_name"@, opt_view(c.ai_name));
    lemma_kin_field_names("ai_gender"@, opt_view(c.ai_gender));
    lemma_kin_field_names("ai_backstory"@, opt_view(c.ai_backstory));
    lemma_kin_field_names("custom_avatar_description"@, opt_view(c.ai_avatar_description));
    lemma_kin_field_names("custom_greeting"@, opt_view(c.greeting));
    lemma_kin_field_names("ai_memory"@, opt_view(c.ai_memory));
    lemma_kin_field_names("ai_directive"@, opt_view(c.ai_directive));
    lemma_kin_field_names("ai_example_message"@, opt_view(c.ai_example_message));
    lemma_kin_field_names("ai_additional_context"@, opt_view(c.ai_additional_context));
    lemma_kin_field_names("current_scene"@, opt_view(c.current_scene));
    let create = kin_create_fields(c).push(("ai_avatar"@, "-1"@));
    let update = kin_update_fields(c);
    assert(create =~= f1 + f2 + f3 + f4 + f5 + seq![("ai_avatar"@, "-1"@)]);
    assert(update =~= g1 + g2 + g3 + g4 + g5);
    assert forall|i: int| 0 <= i < create.len() implies is_create_name(#[trigger] create[i].0) by {
        let a = f1 + f2 + f3 + f4 + f5;
        if i < a.len() {
            assert(create[i] == a[i]);
            let b = f1 + f2 + f3 + f4;
            if i < b.len() {
                assert(a[i] == b[i]);
                let d = f1 + f2 + f3;
                if i < d.len() {
                    assert(b[i] == d[i]);
                    let e = f1 + f2;
                    if i < e.len() {
                        assert(d[i] == e[i]);
                        if i < f1.len() {
                            assert(e[i] == f1[i]);
                        } else {
                            assert(e[i] == f2[i - f1.len()]);
                        }
                    } else {
                        assert(d[i] == f3[i - e.len()]);
                    }
                } else {
                    assert(b[i] == f4[i - d.len()]);
                }
            } else {
                assert(a[i] == f5[i - b.len()]);
            }
        }
    }
    assert forall|j: int| 0 <= j < update.len() implies is_update_name(#[trigger] update[j].0) by {
        let b = g1 + g2 + g3 + g4;
        if j < b.len() {
            assert(update[j] == b[j]);
            let d = g1 + g2 + g3;
            if j < d.len() {
                assert(b[j] == d[j]);
                let e = g1 + g2;
                if j < e.len() {
                    assert(d[j] == e[j]);
                    if j < g1.len() {
                        assert(e[j] == g1[j]);
                    } else {
                        assert(e[j] == g2[j - g1.len()]);
                    }
                } else {
                    assert(d[j] == g3[j - e.len()]);
                }
            } else {
                assert(b[j] == g4[j - d.len()]);
            }
        } else {
            assert(update[j] == g5[j - b.len()]);
        }
    }
    assert forall|i: int, j: int|
        0 <= i < create.len() && 0 <= j < update.len() implies (#[trigger] create[i]).0 != (
    #[trigger] update[j]).0 by {
        assert(is_create_name(create[i].0));
        assert(is_update_name(update[j].0));
        lemma_create_and_update_names_differ(create[i].0);
    }
}

proof fn lemma_positions_of_unique(all_ids: Seq<Seq<char>>, id: Seq<char>, p: int, i: nat)
    requires
        0 <= p < all_ids.len(),
        all_ids[p] == id,
        forall|q: int| 0 <= q < all_ids.len() && #[trigger] all_ids[q] == id ==> q == p,
    ensures
        positions_from(all_ids, id, i) == (if i <= p {
            seq![p]
        } else {
            Seq::<int>::empty()
        }),
    decreases all_ids.len() - i,
{
    if i < all_ids.len() {
        lemma_positions_of_unique(all_ids, id, p, i + 1);
        if i as int == p {
            assert(positions_from(all_ids, id, i + 1) =~= Seq::<int>::empty());
            assert(seq![p] + Seq::<int>::empty() =~= seq![p]);
        }
    }
}

proof fn lemma_positions_of_absent(all_ids: Seq<Seq<char>>, id: Seq<char>, i: nat)
    requires
        !all_ids.contains(id),
    ensures
        positions_from(all_ids, id, i) == Seq::<int>::empty(),
    decreases all_ids.len() - i,
{
    if i < all_ids.len() {
        assert(all_ids[i as int] != id);
        lemma_positions_of_absent(all_ids, id, i + 1);
    }
}

/// The requested ids whose entries a push sends, in request order: each
/// id at its first mention, when an entry with that id is stored; repeats
/// and ids of no stored entry are left out.
pub open spec fn sent_ids(ids: Seq<Seq<char>>, all_ids: Seq<Seq<char>>) -> Seq<Seq<char>>
    decreases ids.len(),
{
    if ids.len() == 0 {
        Seq::empty()
    } else {
        let before = sent_ids(ids.drop_last(), all_ids);
        if ids.drop_last().contains(ids.last()) || !all_ids.contains(ids.last()) {
            before
        } else {
            before.push(ids.last())
        }
    }
}

/// When the stored entries have distinct ids (as stored ids are), a push
/// sends one entry per requested id that is stored, at the id's first
/// mention, in request order: the `k`-th entry sent is the stored entry
/// with the `k`-th id of `sent_ids`. Repeated requests of an id send it
/// once, and an id of no stored entry sends nothing. When the requested
/// ids are distinct and all stored, these are exactly the requested ids.
pub proof fn selection_follows_request_order(ids: Seq<Seq<char>>, all_ids: Seq<Seq<char>>)
    requires
        all_ids.no_duplicates(),
    ensures
        selected_positions(ids, all_ids).len() == sent_ids(ids, all_ids).len(),
        forall|k: int|
            0 <= k < sent_ids(ids, all_ids).len() ==> {
                let p = #[trigger] selected_positions(ids, all_ids)[k];
                0 <= p < all_ids.len() && all_ids[p] == sent_ids(ids, all_ids)[k]
            },
        (ids.no_duplicates() && forall|k: int| 0 <= k < ids.len() ==> all_ids.contains(
            #[trigger] ids[k],
        )) ==> sent_ids(ids, all_ids) == ids,
    decreases ids.len(),
{
    if ids.len() > 0 {
        let init = ids.drop_last();
        let last = ids.last();
        selection_follows_request_order(init, all_ids);
        let before = selected_positions(init, all_ids);
        let sb = sent_ids(init, all_ids);
        let sel = selected_positions(ids, all_ids);
        let sent = sent_ids(ids, all_ids);
        assert(ids[ids.len() - 1] == last);
        if init.contains(last) {
            assert(sel == before);
            assert(sent == sb);
        } else if !all_ids.contains(last) {
            lemma_positions_of_absent(all_ids, last, 0);
            assert(sel =~= before);
            assert(sent == sb);
        } else {
            let p = choose|p: int| 0 <= p < all_ids.len() && all_ids[p] == last;
            lemma_positions_of_unique(all_ids, last, p, 0);
            assert(sel == before + seq![p]);
            assert(sent == sb.push(last));
            assert forall|k: int| 0 <= k < sent.len() implies {
                let q = #[trigger] sel[k];
                0 <= q < all_ids.len() && all_ids[q] == sent[k]
            } by {
                if k < sb.len() {
                    assert(sel[k] == before[k]);
                    assert(sent[k] == sb[k]);
                }
            }
        }
        if ids.no_duplicates() && forall|k: int| 0 <= k < ids.len() ==> all_ids.contains(
            #[trigger] ids[k],
        ) {
            assert forall|k: int| 0 <= k < init.len() implies all_ids.contains(#[trigger] init[k]) by {
                assert(init[k] == ids[k]);
            }
            assert(init.no_duplicates()) by {
                assert forall|a: int, b: int|
                    0 <= a < init.len() && 0 <= b < init.len() && a != b implies init[a] != init[b] by {
                    assert(init[a] == ids[a] && init[b] == ids[b]);
                }
            }
            assert(!init.contains(last)) by {
                if init.contains(last) {
                    let a = choose|a: int| 0 <= a < init.len() && init[a] == last;
                    assert(ids[a] == last);
                }
            }
            assert(all_ids.contains(ids[ids.len() - 1]));
            assert(sent == init.push(last));
            assert(init.push(last) =~= ids);
        }
    }
}

} // verus!
