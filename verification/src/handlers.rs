//! Orchestration policy: what each transport event does to the event log
//! and which outbound action it asks for.
//!
//! Each handler is a function from plain event data (identifiers, optional
//! text, the query time) and the log to the next log state and the action
//! the caller must perform; transport delivery itself stays outside.

use vstd::prelude::*;
use crate::classify::Classification;
use crate::classify::Symbol;
use crate::classify::classify_opt_spec;
use crate::classify::get_reaction;
use crate::classify::text_view;
use crate::event_log::EventLog;
use crate::event_log::LeaderRow;
use crate::event_log::LogEntry;
use crate::event_log::WINDOW_SECONDS;
use crate::event_log::chat_recent_spec;
use crate::event_log::chat_total_spec;
use crate::event_log::erase_spec;
use crate::event_log::leaderboard_post;
use crate::event_log::record_spec;
use crate::event_log::user_recent_spec;
use crate::event_log::user_total_spec;

verus! {

/// Number of rows the statistics leaderboard is truncated to.
pub const LEADERBOARD_LIMIT: usize = 5;

/// The kind of conversation an event came from.
#[derive(Clone, Copy, Debug, PartialEq, Eq, Structural)]
pub enum ChatKind {
    /// A direct, two-party conversation.
    Private,
    /// A multi-party group.
    Group,
    /// A multi-party supergroup.
    Supergroup,
    /// A broadcast channel.
    Channel,
}

/// What an event does to the event log.
#[derive(Clone, Copy, Debug, PartialEq, Eq, Structural)]
pub enum LogAction {
    /// Leave the log untouched.
    Nothing,
    /// Insert-if-absent for the message's key.
    Record,
    /// Delete the message's key.
    Erase,
}

/// What an event asks the outbound sink to do with the message's reaction.
#[derive(Clone, Copy, Debug, PartialEq, Eq, Structural)]
pub enum ReactionUpdate {
    /// Do not touch the reaction.
    Leave,
    /// Attach the empty reaction set, clearing any prior reaction.
    Clear,
    /// Attach exactly this symbol.
    Attach(Symbol),
}

/// Decision for a new message: only a match acts — record the event and
/// attach the matched symbol; anything else does nothing.
pub open spec fn new_message_decision_spec(c: Classification) -> (LogAction, ReactionUpdate) {
    match c {
        Classification::Match(s) => (LogAction::Record, ReactionUpdate::Attach(s)),
        _ => (LogAction::Nothing, ReactionUpdate::Leave),
    }
}

/// Decision for an edited message: a match records (idempotently) and
/// attaches the symbol; a definite non-match erases the entry and clears
/// the reaction; a non-text edit does nothing.
pub open spec fn edited_message_decision_spec(c: Classification) -> (LogAction, ReactionUpdate) {
    match c {
        Classification::NoOpinion => (LogAction::Nothing, ReactionUpdate::Leave),
        Classification::EmptyMatch => (LogAction::Erase, ReactionUpdate::Clear),
        Classification::Match(s) => (LogAction::Record, ReactionUpdate::Attach(s)),
    }
}

/// The log after an action for the given message event.
pub open spec fn apply_action_spec(
    s: Seq<LogEntry>,
    action: LogAction,
    msg_id: i64,
    chat_id: i64,
    user_id: i64,
    now: i64,
) -> Seq<LogEntry> {
    match action {
        LogAction::Nothing => s,
        LogAction::Record => record_spec(s, msg_id, chat_id, user_id, now),
        LogAction::Erase => erase_spec(s, msg_id, chat_id),
    }
}

/// Decides what a new message does.
pub fn decide_new_message(c: Classification) -> (d: (LogAction, ReactionUpdate))
    ensures
        d == new_message_decision_spec(c),
{
    match c {
        Classification::Match(s) => (LogAction::Record, ReactionUpdate::Attach(s)),
        _ => (LogAction::Nothing, ReactionUpdate::Leave),
    }
}

/// Decides what an edited message does.
pub fn decide_edited_message(c: Classification) -> (d: (LogAction, ReactionUpdate))
    ensures
        d == edited_message_decision_spec(c),
{
    match c {
        Classification::NoOpinion => (LogAction::Nothing, ReactionUpdate::Leave),
        Classification::EmptyMatch => (LogAction::Erase, ReactionUpdate::Clear),
        Classification::Match(s) => (LogAction::Record, ReactionUpdate::Attach(s)),
    }
}

/// Performs a log action for the given message event.
pub fn apply_action(
    log: &mut EventLog,
    action: LogAction,
    msg_id: i64,
    chat_id: i64,
    user_id: i64,
    now: i64,
)
    requires
        old(log).inv(),
    ensures
        final(log).inv(),
        final(log)@ == apply_action_spec(old(log)@, action, msg_id, chat_id, user_id, now),
{
    match action {
        LogAction::Nothing => {},
        LogAction::Record => log.record(msg_id, chat_id, user_id, now),
        LogAction::Erase => log.erase(msg_id, chat_id),
    }
}

/// Handles a new message: classify its text, record a match in the log, and
/// report the reaction the caller must attach (none unless it matched).
pub fn message_handler(
    log: &mut EventLog,
    msg_id: i64,
    chat_id: i64,
    user_id: i64,
    text: Option<&str>,
    now: i64,
) -> (r: ReactionUpdate)
    requires
        old(log).inv(),
    ensures
        final(log).inv(),
        r == new_message_decision_spec(classify_opt_spec(text_view(text))).1,
        final(log)@ == apply_action_spec(
            old(log)@,
            new_message_decision_spec(classify_opt_spec(text_view(text))).0,
            msg_id,
            chat_id,
            user_id,
            now,
        ),
{
    let c = get_reaction(text);
    let (action, reaction) = decide_new_message(c);
    apply_action(log, action, msg_id, chat_id, user_id, now);
    reaction
}

/// Handles an edited message: classify the new text; a match records
/// (idempotently, keeping the first timestamp), a definite non-match erases
/// the entry; the caller attaches the reported reaction, clearing it when
/// the edit stopped matching.
pub fn edit_message_handler(
    log: &mut EventLog,
    msg_id: i64,
    chat_id: i64,
    user_id: i64,
    text: Option<&str>,
    now: i64,
) -> (r: ReactionUpdate)
    requires
        old(log).inv(),
    ensures
        final(log).inv(),
        r == edited_message_decision_spec(classify_opt_spec(text_view(text))).1,
        final(log)@ == apply_action_spec(
            old(log)@,
            edited_message_decision_spec(classify_opt_spec(text_view(text))).0,
            msg_id,
            chat_id,
            user_id,
            now,
        ),
{
    let c = get_reaction(text);
    let (action, reaction) = decide_edited_message(c);
    apply_action(log, action, msg_id, chat_id, user_id, now);
    reaction
}

/// Handles an inline query: the requesting user's all-time and in-window
/// match counts, in that order.
pub fn inline_handler(log: &EventLog, user_id: i64, now: i64) -> (r: (u64, u64))
    requires
        i64::MIN + WINDOW_SECONDS <= now,
    ensures
        r.0 as nat == user_total_spec(log@, user_id),
        r.1 as nat == user_recent_spec(log@, user_id, now),
{
    (log.total_by_user(user_id), log.recent_by_user(user_id, now))
}

/// The statistics a conversation's stats command reports.
#[derive(Clone, Debug)]
pub struct ChatStats {
    /// All-time match count in the conversation.
    pub total: u64,
    /// Match count in the trailing window.
    pub recent: u64,
    /// Top users by in-window count, at most `LEADERBOARD_LIMIT` rows.
    pub board: Vec<LeaderRow>,
}

/// Handles the stats command: refused (with `None`) outside multi-party
/// conversations; otherwise the conversation's totals and its leaderboard.
pub fn group_stat_command(log: &EventLog, chat_id: i64, kind: ChatKind, now: i64) -> (r: Option<
    ChatStats,
>)
    requires
        i64::MIN + WINDOW_SECONDS <= now,
    ensures
        r is Some <==> (kind == ChatKind::Group || kind == ChatKind::Supergroup),
        r is Some ==> (r->0).total as nat == chat_total_spec(log@, chat_id),
        r is Some ==> (r->0).recent as nat == chat_recent_spec(log@, chat_id, now),
        r is Some ==> leaderboard_post(
            log@,
            chat_id,
            now,
            LEADERBOARD_LIMIT as int,
            (r->0).board@,
        ),
{
    match kind {
        ChatKind::Group | ChatKind::Supergroup => {
            let total = log.total_by_conversation(chat_id);
            let recent = log.recent_by_conversation(chat_id, now);
            let board = log.leaderboard(chat_id, now, LEADERBOARD_LIMIT);
            Some(ChatStats { total, recent, board })
        },
        _ => None,
    }
}

/// The recognized chat commands.
#[derive(Clone, Copy, Debug, PartialEq, Eq, Structural)]
pub enum Command {
    /// Show the help message.
    Help,
    /// Show the conversation's match statistics.
    Stats,
}

impl Command {
    /// The description of this command, chosen by explicit pattern match.
    pub fn description(&self) -> (s: String)
        ensures
            s@ == match *self {
                Command::Help => "显示帮助信息."@,
                Command::Stats => "查看阿鸽打统计."@,
            },
    {
        match self {
            Command::Help => "显示帮助信息.".to_owned(),
            Command::Stats => "查看阿鸽打统计.".to_owned(),
        }
    }

    /// The help text: every recognized command with its description.
    pub fn descriptions() -> (s: String)
        ensures
            s@ == "支持以下命令:\n/help — 显示帮助信息.\n/stats — 查看阿鸽打统计."@,
    {
        "支持以下命令:\n/help — 显示帮助信息.\n/stats — 查看阿鸽打统计.".to_owned()
    }
}

/// The value std's default hasher assigns to a string: a fixed, keyless
/// hash, a function of the string's characters alone.
pub uninterp spec fn default_hash_of(s: Seq<char>) -> u64;

/// Relies on std's `DefaultHasher` (`new`, `Hash::hash`, `finish`):
/// hashers made by `new` are all identical and never seeded, so the
/// finished value is a function of the hashed string alone.
#[verifier::external_body]
fn default_hash(m: &String) -> (r: u64)
    ensures
        r == default_hash_of(m@),
{
    let mut s = std::hash::DefaultHasher::new();
    std::hash::Hash::hash(m, &mut s);
    std::hash::Hasher::finish(&s)
}

/// Identifier for an inline result, derived by hashing the result's text;
/// equal texts get equal identifiers.
pub fn hash(m: &String) -> (r: u64)
    ensures
        r == default_hash_of(m@),
{
    default_hash(m)
}

} // verus!
