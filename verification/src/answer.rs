//! The bot's commands: what it decides on each step of a command, from
//! the message that carries the command to the replies it sends.
//!
//! A command is handled as a conversation with the outside world: the
//! caller starts in [`AnswerState::Idle`], hands each [`AnswerEvent`] to
//! [`answer`], performs the [`AnswerAction`] it gets back and reports the
//! outcome as the next event, until the state is [`AnswerState::Done`].

use vstd::prelude::*;
use vstd::string::*;
use crate::birthdays::{User, birthday_answer, birthday_reply};
use crate::search::{SearchResults, search_messages, search_replies, texts};
use crate::text::{
    all_ascii_digits, decimal, decimal_reads_back, digits_value, parse_i32, parse_i32_spec, push_decimal, split_whitespace, strip_leading,
    strip_leading_char, words,
};

verus! {

/// A command of the bot, with its argument text.
#[derive(Debug, Clone, PartialEq, Eq)]
pub enum Command {
    /// `/buscarengoogle <query>`
    SearchGoogle(String),
    /// `/cumpleanios <name>`
    Birthday(String),
    /// `/bloqueo @user [minutes]`
    Block(String),
    /// `/start`
    Start,
}

/// Where a command stands.
#[derive(Debug, Clone, PartialEq, Eq)]
pub enum AnswerState {
    /// No command received yet.
    Idle,
    /// Waiting for the calendar month, to count the search against the
    /// monthly quota.
    CheckingQuota { chat_id: i64, query: String },
    /// Waiting for the search service's answer.
    Searching { chat_id: i64 },
    /// Waiting for the birthday database.
    LoadingDatabase { chat_id: i64, mention: String },
    /// Waiting for the membership status of the sender of `/bloqueo`.
    CheckingSender { chat_id: i64, args: String, replied_to: Option<u64> },
    /// Waiting for the membership status of the user to be muted.
    CheckingTarget { chat_id: i64, args: String, username: String, target_id: u64, minutes: u32 },
    /// Waiting for the current time.
    ReadingClock { chat_id: i64, args: String, username: String, target_id: u64, minutes: u32 },
    /// Waiting for the restriction to be applied.
    Restricting { chat_id: i64, args: String, username: String, target_id: u64, minutes: u32 },
    /// The command is over.
    Done,
}

/// What the outside world reports.
#[derive(Debug, Clone, PartialEq, Eq)]
pub enum AnswerEvent {
    /// A message with a command: its chat, the sender's user id (if the
    /// message has one) and the author of the message it replies to (if
    /// any).
    Received { chat_id: i64, command: Command, sender: Option<u64>, replied_to: Option<u64> },
    /// The current calendar month (year, and month from 1 to 12).
    CalendarMonth { year: i32, month: u32 },
    /// The search service answered.
    SearchCompleted(SearchResults),
    /// The birthday database was read: its users, or `None` when its JSON
    /// is malformed.
    DatabaseLoaded(Option<Vec<User>>),
    /// The chat membership status asked for: whether the user is an
    /// administrator or the owner of the chat.
    MemberStatus { is_admin: bool },
    /// The current time, in seconds since the Unix epoch.
    Clock { unix_secs: u64 },
    /// The restriction was applied.
    Restricted,
}

/// What the bot asks of the outside world.
#[derive(Debug, Clone, PartialEq, Eq)]
pub enum AnswerAction {
    /// Read the current calendar month.
    ReadCalendarMonth,
    /// Run a Google search for `query`.
    Search { query: String },
    /// Read the birthday database.
    LoadDatabase,
    /// Look up the chat membership status of a user.
    FetchMemberStatus { chat_id: i64, user_id: u64 },
    /// Read the current time.
    ReadClock,
    /// Forbid a user to write in the chat until the given Unix time.
    Restrict { chat_id: i64, user_id: u64, until: i64 },
    /// Send these messages to the chat, in order, and end the command; a
    /// failed delivery is an error of the command when `must_deliver`.
    Reply { chat_id: i64, messages: Vec<String>, must_deliver: bool },
    /// End the command without sending anything.
    Stop,
}

/// How many Google searches the bot runs in one calendar month.
pub const MONTHLY_SEARCH_LIMIT: u32 = 256;

/// The searches run so far in a calendar month.
#[derive(Debug, Clone, PartialEq, Eq)]
pub struct SearchQuota {
    pub year: i32,
    pub month: u32,
    pub used: u32,
}

/// The text answering `/start`.
pub const START_TEXT: &'static str = "  🪏Bienvenido al Palabot🪏🪏Coamndos:
            \n\n🪏`/start` Muestra la lista de comandos del palabot
            \n🪏`/buscarengoogle <texto de la busqueda>`este comando arroja el primer resultado de la busqueda en google, permite maximo 256 busquedas al mes
            \n🪏`/cumpleanios <@usuario>` Permite arrojar la fecha de cumpleaños del usuario mencionado
            \n🪏`/bloque <@usuario> <1hs/1min/etc>` (operacion no implementada) permitira a los admins silenciar a un usuario por un tiempo predeterminado
            \n🪏Gracias a todos los usuarios de Palabot:\n🪏repositorio: https://github.com/cristalmirror/palabot ";

/// The minutes a user is muted for when `/bloqueo` names no duration.
pub const DEFAULT_MUTE_MINUTES: u32 = 60;

/// The user and the minutes that a `/bloqueo` argument text names: the
/// first word without its leading `@`s, and the second word read as a
/// positive `i32` (an hour when there is no second word). `None` when
/// there is no word, or the second word is not a positive number.
pub open spec fn block_request(args: Seq<char>) -> Option<(Seq<char>, u32)> {
    let ws = words(args);
    if ws.len() == 0 {
        None
    } else {
        let username = strip_leading(ws[0], '@');
        if ws.len() == 1 {
            Some((username, DEFAULT_MUTE_MINUTES))
        } else {
            match parse_i32_spec(ws[1]) {
                Some(m) => if m > 0 {
                    Some((username, m as u32))
                } else {
                    None
                },
                None => None,
            }
        }
    }
}

/// The Unix time at which a mute of `minutes` minutes that starts at `now`
/// ends, saturated at `i64::MAX`.
pub open spec fn mute_until_spec(now: u64, minutes: u32) -> i64 {
    let t = now as int + minutes as int * 60;
    if t > i64::MAX {
        i64::MAX
    } else {
        t as i64
    }
}

pub open spec fn no_sender_text() -> Seq<char> {
    "No se identificar al remimitente."@
}

pub open spec fn not_admin_text() -> Seq<char> {
    "❌ Solo los administradores pueden silenciar usuarios."@
}

pub open spec fn usage_text() -> Seq<char> {
    "⚠️ Uso: /bloqueo @usuario [minutos]"@
}

pub open spec fn target_unknown_text() -> Seq<char> {
    "❌ No pude encontrar a ese usuario. Prueba respondiendo su mensaje."@
}

pub open spec fn quota_exhausted_text() -> Seq<char> {
    "❌ Se alcanzó el límite de 256 búsquedas de este mes."@
}

/// How many searches `q` counts in the month `month` of `year`: its
/// count if it is that month's, else none.
pub open spec fn used_in(q: SearchQuota, year: i32, month: u32) -> u32 {
    if q.year == year && q.month == month {
        q.used
    } else {
        0
    }
}

pub open spec fn target_is_admin_text() -> Seq<char> {
    "❌ No puedes silenciar a un administrador."@
}

/// The confirmation that `username` is muted for `minutes` minutes.
pub open spec fn muted_text(username: Seq<char>, minutes: u32) -> Seq<char> {
    "🔇 @"@ + username + " silenciado por "@ + decimal(minutes as nat) + " minuto(s).\na casa papu!!"@
}

/// The notice that closes `/bloqueo args`.
pub open spec fn blocked_text(args: Seq<char>) -> Seq<char> {
    "Usuario Bloqueado: "@ + args + " (Operacion aun no implementada)"@
}

/// `a` sends exactly `messages` to `chat_id` and ends the command.
pub open spec fn is_reply(a: AnswerAction, chat_id: i64, messages: Seq<Seq<char>>, must_deliver: bool) -> bool {
    &&& a is Reply
    &&& a->Reply_chat_id == chat_id
    &&& texts(a->Reply_messages@) == messages
    &&& a->Reply_must_deliver == must_deliver
}

/// One step of a command when the search quota plays no part: in state
/// `s`, on event `e`, the bot moves to `next` and asks for `a`. An event
/// that does not fit the state ends the command without a reply.
pub open spec fn command_step(s: AnswerState, e: AnswerEvent, next: AnswerState, a: AnswerAction) -> bool {
    match (s, e) {
        (AnswerState::Idle, AnswerEvent::Received { chat_id, command, sender, replied_to }) => match command {
            Command::SearchGoogle(query) => next == AnswerState::CheckingQuota { chat_id, query }
                && a == AnswerAction::ReadCalendarMonth,
            Command::Birthday(mention) => next == AnswerState::LoadingDatabase { chat_id, mention }
                && a == AnswerAction::LoadDatabase,
            Command::Block(args) => match sender {
                None => next == AnswerState::Done && is_reply(a, chat_id, seq![no_sender_text()], true),
                Some(user_id) => next == AnswerState::CheckingSender { chat_id, args, replied_to }
                    && a == AnswerAction::FetchMemberStatus { chat_id, user_id },
            },
            Command::Start => next == AnswerState::Done && is_reply(a, chat_id, seq![START_TEXT@], true),
        },
        (AnswerState::Searching { chat_id }, AnswerEvent::SearchCompleted(r)) => next == AnswerState::Done
            && is_reply(a, chat_id, search_messages(r), r.ai_overview is None),
        (AnswerState::LoadingDatabase { chat_id, mention }, AnswerEvent::DatabaseLoaded(db)) => next
            == AnswerState::Done && match db {
            Some(users) => is_reply(a, chat_id, seq![birthday_answer(users@, mention@)], true),
            None => a == AnswerAction::Stop,
        },
        (
            AnswerState::CheckingSender { chat_id, args, replied_to },
            AnswerEvent::MemberStatus { is_admin },
        ) => if !is_admin {
            next == AnswerState::Done && is_reply(a, chat_id, seq![not_admin_text()], true)
        } else {
            match block_request(args@) {
                None => next == AnswerState::Done && is_reply(a, chat_id, seq![usage_text()], true),
                Some((username, minutes)) => match replied_to {
                    None => next == AnswerState::Done && is_reply(
                        a,
                        chat_id,
                        seq![target_unknown_text()],
                        true,
                    ),
                    Some(target_id) => {
                        &&& next is CheckingTarget
                        &&& next->CheckingTarget_chat_id == chat_id
                        &&& next->CheckingTarget_args == args
                        &&& next->CheckingTarget_username@ == username
                        &&& next->CheckingTarget_target_id == target_id
                        &&& next->CheckingTarget_minutes == minutes
                        &&& a == AnswerAction::FetchMemberStatus { chat_id, user_id: target_id }
                    },
                },
            }
        },
        (
            AnswerState::CheckingTarget { chat_id, args, username, target_id, minutes },
            AnswerEvent::MemberStatus { is_admin },
        ) => if is_admin {
            next == AnswerState::Done && is_reply(a, chat_id, seq![target_is_admin_text()], true)
        } else {
            next == AnswerState::ReadingClock { chat_id, args, username, target_id, minutes }
                && a == AnswerAction::ReadClock
        },
        (
            AnswerState::ReadingClock { chat_id, args, username, target_id, minutes },
            AnswerEvent::Clock { unix_secs },
        ) => next == AnswerState::Restricting { chat_id, args, username, target_id, minutes }
            && a == AnswerAction::Restrict {
            chat_id,
            user_id: target_id,
            until: mute_until_spec(unix_secs, minutes),
        },
        (
            AnswerState::Restricting { chat_id, args, username, target_id, minutes },
            AnswerEvent::Restricted,
        ) => next == AnswerState::Done && is_reply(
            a,
            chat_id,
            seq![muted_text(username@, minutes), blocked_text(args@)],
            true,
        ),
        _ => next == AnswerState::Done && a == AnswerAction::Stop,
    }
}

/// One step of a command: in state `s` with the monthly search quota
/// `q`, on event `e`, the bot moves to `next`, leaves the quota `q2` and
/// asks for `a`. A search is run only while fewer than
/// [`MONTHLY_SEARCH_LIMIT`] searches were run in the current calendar
/// month, and each search run is counted; past the limit the user is told
/// so. Every other step leaves the quota as it is.
pub open spec fn answer_spec(
    s: AnswerState,
    q: SearchQuota,
    e: AnswerEvent,
    next: AnswerState,
    q2: SearchQuota,
    a: AnswerAction,
) -> bool {
    match (s, e) {
        (AnswerState::CheckingQuota { chat_id, query }, AnswerEvent::CalendarMonth { year, month }) => {
            let used = used_in(q, year, month);
            if used < MONTHLY_SEARCH_LIMIT {
                &&& next == AnswerState::Searching { chat_id }
                &&& a == AnswerAction::Search { query }
                &&& q2 == SearchQuota { year, month, used: (used + 1) as u32 }
            } else {
                &&& next == AnswerState::Done
                &&& is_reply(a, chat_id, seq![quota_exhausted_text()], true)
                &&& q2 == SearchQuota { year, month, used }
            }
        },
        _ => q2 == q && command_step(s, e, next, a),
    }
}

/// Reads the argument text of `/bloqueo`: the user to mute and for how
/// many minutes.
pub fn parse_block_args(args: &String) -> (r: Option<(String, u32)>)
    ensures
        match r {
            None => block_request(args@) is None,
            Some((username, minutes)) => block_request(args@) == Some((username@, minutes)),
        },
{
    let ws = split_whitespace(args.as_str());
    proof {
        assert(ws@.len() == words(args@).len());
        assert(forall|i: int| 0 <= i < ws@.len() ==> ws@[i]@ == #[trigger] words(args@)[i]) by {
            assert forall|i: int| 0 <= i < ws@.len() implies ws@[i]@ == #[trigger] words(args@)[i] by {
                assert(ws@.map_values(|w: String| w@)[i] == ws@[i]@);
            }
        }
    }
    if ws.len() == 0 {
        return None;
    }
    let username = strip_leading_char(ws[0].as_str(), '@');
    if ws.len() == 1 {
        return Some((username, DEFAULT_MUTE_MINUTES));
    }
    match parse_i32(ws[1].as_str()) {
        Some(m) => if m > 0 {
            Some((username, m as u32))
        } else {
            None
        },
        None => None,
    }
}

/// The Unix time at which a mute of `minutes` minutes that starts at `now`
/// ends, saturated at `i64::MAX`.
pub fn mute_until(now: u64, minutes: u32) -> (until: i64)
    ensures
        until == mute_until_spec(now, minutes),
{
    let t: u128 = now as u128 + (minutes as u128) * 60;
    if t > 0x7fff_ffff_ffff_ffff {
        0x7fff_ffff_ffff_ffff
    } else {
        t as i64
    }
}

fn reply_one(chat_id: i64, text: String) -> (a: AnswerAction)
    ensures
        is_reply(a, chat_id, seq![text@], true),
{
    let mut messages: Vec<String> = Vec::new();
    messages.push(text);
    assert(texts(messages@) =~= seq![text@]);
    AnswerAction::Reply { chat_id, messages, must_deliver: true }
}

/// The text answering `/start`.
pub fn start_message() -> (t: String)
    ensures
        t@ == START_TEXT@,
{
    String::from_str(START_TEXT)
}

fn muted_message(username: &String, minutes: u32) -> (t: String)
    ensures
        t@ == muted_text(username@, minutes),
{
    let mut t = String::from_str("🔇 @");
    t.append(username.as_str());
    t.append(" silenciado por ");
    push_decimal(&mut t, minutes as u64);
    t.append(" minuto(s).\na casa papu!!");
    assert(t@ =~= muted_text(username@, minutes));
    t
}

fn blocked_message(args: &String) -> (t: String)
    ensures
        t@ == blocked_text(args@),
{
    let mut t = String::from_str("Usuario Bloqueado: ");
    t.append(args.as_str());
    t.append(" (Operacion aun no implementada)");
    assert(t@ =~= blocked_text(args@));
    t
}

/// One step of a command: the next state and what to ask for, given the
/// current state and what the outside world reported.
pub fn answer(state: AnswerState, quota: &mut SearchQuota, event: AnswerEvent) -> (r: (AnswerState, AnswerAction))
    ensures
        answer_spec(state, *old(quota), event, r.0, *final(quota), r.1),
{
    match (state, event) {
        (AnswerState::CheckingQuota { chat_id, query }, AnswerEvent::CalendarMonth { year, month }) => {
            let used = if quota.year == year && quota.month == month {
                quota.used
            } else {
                0
            };
            if used < MONTHLY_SEARCH_LIMIT {
                *quota = SearchQuota { year, month, used: used + 1 };
                (AnswerState::Searching { chat_id }, AnswerAction::Search { query })
            } else {
                *quota = SearchQuota { year, month, used };
                (
                    AnswerState::Done,
                    reply_one(chat_id, String::from_str("❌ Se alcanzó el límite de 256 búsquedas de este mes.")),
                )
            }
        },
        (AnswerState::Idle, AnswerEvent::Received { chat_id, command, sender, replied_to }) => match command {
            Command::SearchGoogle(query) => (
                AnswerState::CheckingQuota { chat_id, query },
                AnswerAction::ReadCalendarMonth,
            ),
            Command::Birthday(mention) => (
                AnswerState::LoadingDatabase { chat_id, mention },
                AnswerAction::LoadDatabase,
            ),
            Command::Block(args) => match sender {
                None => (
                    AnswerState::Done,
                    reply_one(chat_id, String::from_str("No se identificar al remimitente.")),
                ),
                Some(user_id) => (
                    AnswerState::CheckingSender { chat_id, args, replied_to },
                    AnswerAction::FetchMemberStatus { chat_id, user_id },
                ),
            },
            Command::Start => (AnswerState::Done, reply_one(chat_id, start_message())),
        },
        (AnswerState::Searching { chat_id }, AnswerEvent::SearchCompleted(r)) => {
            let reply = search_replies(&r);
            (
                AnswerState::Done,
                AnswerAction::Reply { chat_id, messages: reply.messages, must_deliver: reply.must_deliver },
            )
        },
        (AnswerState::LoadingDatabase { chat_id, mention }, AnswerEvent::DatabaseLoaded(db)) => match db {
            Some(users) => (AnswerState::Done, reply_one(chat_id, birthday_reply(&users, &mention))),
            None => (AnswerState::Done, AnswerAction::Stop),
        },
        (
            AnswerState::CheckingSender { chat_id, args, replied_to },
            AnswerEvent::MemberStatus { is_admin },
        ) => {
            if !is_admin {
                return (
                    AnswerState::Done,
                    reply_one(
                        chat_id,
                        String::from_str("❌ Solo los administradores pueden silenciar usuarios."),
                    ),
                );
            }
            match parse_block_args(&args) {
                None => (
                    AnswerState::Done,
                    reply_one(chat_id, String::from_str("⚠️ Uso: /bloqueo @usuario [minutos]")),
                ),
                Some((username, minutes)) => match replied_to {
                    None => (
                        AnswerState::Done,
                        reply_one(
                            chat_id,
                            String::from_str(
                                "❌ No pude encontrar a ese usuario. Prueba respondiendo su mensaje.",
                            ),
                        ),
                    ),
                    Some(target_id) => (
                        AnswerState::CheckingTarget { chat_id, args, username, target_id, minutes },
                        AnswerAction::FetchMemberStatus { chat_id, user_id: target_id },
                    ),
                },
            }
        },
        (
            AnswerState::CheckingTarget { chat_id, args, username, target_id, minutes },
            AnswerEvent::MemberStatus { is_admin },
        ) => if is_admin {
            (
                AnswerState::Done,
                reply_one(chat_id, String::from_str("❌ No puedes silenciar a un administrador.")),
            )
        } else {
            (
                AnswerState::ReadingClock { chat_id, args, username, target_id, minutes },
                AnswerAction::ReadClock,
            )
        },
        (
            AnswerState::ReadingClock { chat_id, args, username, target_id, minutes },
            AnswerEvent::Clock { unix_secs },
        ) => {
            let until = mute_until(unix_secs, minutes);
            (
                AnswerState::Restricting { chat_id, args, username, target_id, minutes },
                AnswerAction::Restrict { chat_id, user_id: target_id, until },
            )
        },
        (
            AnswerState::Restricting { chat_id, args, username, target_id, minutes },
            AnswerEvent::Restricted,
        ) => {
            let mut messages: Vec<String> = Vec::new();
            messages.push(muted_message(&username, minutes));
            messages.push(blocked_message(&args));
            assert(texts(messages@) =~= seq![muted_text(username@, minutes), blocked_text(args@)]);
            (AnswerState::Done, AnswerAction::Reply { chat_id, messages, must_deliver: true })
        },
        _ => (AnswerState::Done, AnswerAction::Stop),
    }
}


/// At most how many more events a command in state `s` takes.
pub open spec fn steps_left(s: AnswerState) -> nat {
    match s {
        AnswerState::Idle => 5,
        AnswerState::CheckingSender { .. } => 4,
        AnswerState::CheckingTarget { .. } => 3,
        AnswerState::ReadingClock { .. } => 2,
        AnswerState::Restricting { .. } => 1,
        AnswerState::CheckingQuota { .. } => 2,
        AnswerState::Searching { .. } => 1,
        AnswerState::LoadingDatabase { .. } => 1,
        AnswerState::Done => 0,
    }
}

/// How many events a command has taken to reach `s`.
pub open spec fn steps_taken(s: AnswerState) -> int {
    match s {
        AnswerState::Idle => 0,
        AnswerState::CheckingSender { .. } => 1,
        AnswerState::CheckingTarget { .. } => 2,
        AnswerState::ReadingClock { .. } => 3,
        AnswerState::Restricting { .. } => 4,
        AnswerState::CheckingQuota { .. } => 1,
        AnswerState::Searching { .. } => 2,
        AnswerState::LoadingDatabase { .. } => 1,
        AnswerState::Done => -1,
    }
}

/// `states`, `quotas`, `events` and `actions` are a run of one command from
/// [`AnswerState::Idle`]: on `events[i]` the bot moves from `states[i]` to
/// `states[i + 1]` and asks for `actions[i]`.
pub open spec fn is_run(
    states: Seq<AnswerState>,
    quotas: Seq<SearchQuota>,
    events: Seq<AnswerEvent>,
    actions: Seq<AnswerAction>,
) -> bool {
    &&& states.len() == events.len() + 1
    &&& quotas.len() == events.len() + 1
    &&& actions.len() == events.len()
    &&& states[0] == AnswerState::Idle
    &&& forall|i: int|
        #![trigger events[i]]
        0 <= i < events.len() ==> answer_spec(states[i], quotas[i], events[i], states[i + 1], quotas[i + 1], actions[i])
}

/// Every step of a command that is not over brings it closer to its end;
/// an ended command stays ended and asks for nothing; a step ends the
/// command exactly when it replies or stops.
pub proof fn answer_makes_progress(
    s: AnswerState,
    q: SearchQuota,
    e: AnswerEvent,
    next: AnswerState,
    q2: SearchQuota,
    a: AnswerAction,
)
    requires
        answer_spec(s, q, e, next, q2, a),
    ensures
        !(s is Done) ==> steps_left(next) < steps_left(s),
        !(s is Done) && !(next is Done) ==> steps_taken(next) == steps_taken(s) + 1,
        s is Done ==> next is Done && a is Stop,
        next is Done <==> (a is Reply || a is Stop),
        s is Idle ==> !(next is Idle),
{
}

/// No command takes more than five events: after five, it is over.
pub proof fn every_command_ends(states: Seq<AnswerState>, quotas: Seq<SearchQuota>, events: Seq<AnswerEvent>, actions: Seq<AnswerAction>)
    requires
        is_run(states, quotas, events, actions),
    ensures
        forall|i: int| 0 <= i < states.len() ==> steps_left(#[trigger] states[i]) + i <= 5 || states[i] is Done,
        forall|i: int| 5 <= i < states.len() ==> #[trigger] states[i] is Done,
{
    assert forall|i: int| 0 <= i < states.len() implies steps_left(#[trigger] states[i]) + i <= 5 || states[i] is Done by {
        lemma_run_steps_left(states, quotas, events, actions, i);
    }
    assert forall|i: int| 5 <= i < states.len() implies #[trigger] states[i] is Done by {
        lemma_run_steps_left(states, quotas, events, actions, i);
    }
}

proof fn lemma_run_steps_left(states: Seq<AnswerState>, quotas: Seq<SearchQuota>, events: Seq<AnswerEvent>, actions: Seq<AnswerAction>, i: int)
    requires
        is_run(states, quotas, events, actions),
        0 <= i < states.len(),
    ensures
        steps_left(states[i]) + i <= 5 || states[i] is Done,
        !(states[i] is Done) ==> steps_taken(states[i]) == i,
    decreases i,
{
    if i > 0 {
        lemma_run_steps_left(states, quotas, events, actions, i - 1);
        assert(answer_spec(states[i - 1], quotas[i - 1], events[i - 1], states[i], quotas[i], actions[i - 1]));
        answer_makes_progress(states[i - 1], quotas[i - 1], events[i - 1], states[i], quotas[i], actions[i - 1]);
    }
}

/// A user is muted only as the fourth step of `/bloqueo`, after the
/// sender of the command was found to be an administrator and the muted
/// user was found not to be one, and the muted user is the author of the
/// message that the command replies to.
pub proof fn mute_only_after_checks(
    states: Seq<AnswerState>,
    quotas: Seq<SearchQuota>,
    events: Seq<AnswerEvent>,
    actions: Seq<AnswerAction>,
    k: int,
)
    requires
        is_run(states, quotas, events, actions),
        0 <= k < actions.len(),
        actions[k] is Restrict,
    ensures
        k == 3,
        events[0] is Received,
        events[0]->Received_command is Block,
        events[0]->Received_sender is Some,
        actions[0] == (AnswerAction::FetchMemberStatus {
            chat_id: events[0]->Received_chat_id,
            user_id: events[0]->Received_sender->0,
        }),
        events[1] == (AnswerEvent::MemberStatus { is_admin: true }),
        events[0]->Received_replied_to == Some(actions[k]->Restrict_user_id),
        actions[1] == (AnswerAction::FetchMemberStatus {
            chat_id: events[0]->Received_chat_id,
            user_id: actions[k]->Restrict_user_id,
        }),
        events[2] == (AnswerEvent::MemberStatus { is_admin: false }),
        actions[k]->Restrict_chat_id == events[0]->Received_chat_id,
{
    assert(answer_spec(states[k], quotas[k], events[k], states[k + 1], quotas[k + 1], actions[k]));
    assert(states[k] is ReadingClock);
    lemma_run_steps_left(states, quotas, events, actions, k);
    assert(k == 3);
    lemma_run_steps_left(states, quotas, events, actions, 2);
    lemma_run_steps_left(states, quotas, events, actions, 1);
    assert(answer_spec(states[0], quotas[0], events[0], states[1], quotas[1], actions[0]));
    assert(answer_spec(states[1], quotas[1], events[1], states[2], quotas[2], actions[1]));
    assert(answer_spec(states[2], quotas[2], events[2], states[3], quotas[3], actions[2]));
    answer_makes_progress(states[2], quotas[2], events[2], states[3], quotas[3], actions[2]);
    answer_makes_progress(states[1], quotas[1], events[1], states[2], quotas[2], actions[1]);
    answer_makes_progress(states[0], quotas[0], events[0], states[1], quotas[1], actions[0]);
    assert(states[2] is CheckingTarget);
    assert(states[1] is CheckingSender);
}


/// The calendar month `m1` of `y1` is not later than the month `m2` of
/// `y2`.
pub open spec fn month_le(y1: i32, m1: u32, y2: i32, m2: u32) -> bool {
    y1 < y2 || (y1 == y2 && m1 <= m2)
}

/// How many of the first `n` steps ran a search in the month `month` of
/// `year`.
pub open spec fn searches_in_month(
    events: Seq<AnswerEvent>,
    actions: Seq<AnswerAction>,
    year: i32,
    month: u32,
    n: int,
) -> nat
    decreases n,
{
    if n <= 0 {
        0
    } else {
        searches_in_month(events, actions, year, month, n - 1) + if actions[n - 1] is Search && events[n
            - 1] == (AnswerEvent::CalendarMonth { year, month }) {
            1nat
        } else {
            0nat
        }
    }
}

/// `events` and `actions` are the steps of any number of commands, one
/// after another or interleaved, that share one search quota: on
/// `events[i]`, a command in state `states[i]` moves to `nexts[i]` and asks
/// for `actions[i]`, and the quota goes from `quotas[i]` to
/// `quotas[i + 1]`.
pub open spec fn is_quota_history(
    states: Seq<AnswerState>,
    nexts: Seq<AnswerState>,
    quotas: Seq<SearchQuota>,
    events: Seq<AnswerEvent>,
    actions: Seq<AnswerAction>,
) -> bool {
    &&& states.len() == events.len()
    &&& nexts.len() == events.len()
    &&& actions.len() == events.len()
    &&& quotas.len() == events.len() + 1
    &&& forall|i: int|
        #![trigger events[i]]
        0 <= i < events.len() ==> answer_spec(states[i], quotas[i], events[i], nexts[i], quotas[i + 1], actions[i])
}

/// The calendar months reported by `events` never go back, and none is
/// earlier than the month of the quota `q0` they start from.
pub open spec fn months_never_go_back(q0: SearchQuota, events: Seq<AnswerEvent>) -> bool {
    &&& forall|j: int|
        #![trigger events[j]]
        0 <= j < events.len() && events[j] is CalendarMonth ==> month_le(
            q0.year,
            q0.month,
            events[j]->CalendarMonth_year,
            events[j]->CalendarMonth_month,
        )
    &&& forall|i: int, j: int|
        #![trigger events[i], events[j]]
        0 <= i < j < events.len() && events[i] is CalendarMonth && events[j] is CalendarMonth ==> month_le(
            events[i]->CalendarMonth_year,
            events[i]->CalendarMonth_month,
            events[j]->CalendarMonth_year,
            events[j]->CalendarMonth_month,
        )
}

proof fn lemma_quota_history(
    states: Seq<AnswerState>,
    nexts: Seq<AnswerState>,
    quotas: Seq<SearchQuota>,
    events: Seq<AnswerEvent>,
    actions: Seq<AnswerAction>,
    n: int,
)
    requires
        is_quota_history(states, nexts, quotas, events, actions),
        quotas[0].used <= MONTHLY_SEARCH_LIMIT,
        months_never_go_back(quotas[0], events),
        0 <= n <= events.len(),
    ensures
        quotas[n].used == searches_in_month(events, actions, quotas[n].year, quotas[n].month, n) + used_in(
            quotas[0],
            quotas[n].year,
            quotas[n].month,
        ),
        forall|y: i32, m: u32|
            #[trigger] searches_in_month(events, actions, y, m, n) + used_in(quotas[0], y, m)
                <= MONTHLY_SEARCH_LIMIT,
        forall|y: i32, m: u32|
            !month_le(y, m, quotas[n].year, quotas[n].month) ==> #[trigger] searches_in_month(
                events,
                actions,
                y,
                m,
                n,
            ) == 0 && used_in(quotas[0], y, m) == 0,
        month_le(quotas[0].year, quotas[0].month, quotas[n].year, quotas[n].month),
        forall|j: int|
            #![trigger events[j]]
            n <= j < events.len() && events[j] is CalendarMonth ==> month_le(
                quotas[n].year,
                quotas[n].month,
                events[j]->CalendarMonth_year,
                events[j]->CalendarMonth_month,
            ),
    decreases n,
{
    let q0 = quotas[0];
    if n == 0 {
        assert forall|y: i32, m: u32|
            #[trigger] searches_in_month(events, actions, y, m, 0) + used_in(q0, y, m) <= MONTHLY_SEARCH_LIMIT by {}
        assert forall|y: i32, m: u32|
            !month_le(y, m, q0.year, q0.month) implies #[trigger] searches_in_month(events, actions, y, m, 0) == 0
                && used_in(q0, y, m) == 0 by {}
    } else {
        let i = n - 1;
        lemma_quota_history(states, nexts, quotas, events, actions, i);
        let q = quotas[i];
        let q2 = quotas[n];
        let e = events[i];
        let a = actions[i];
        assert(answer_spec(states[i], q, e, nexts[i], q2, a));
        if states[i] is CheckingQuota && e is CalendarMonth {
            let y0 = e->CalendarMonth_year;
            let m0 = e->CalendarMonth_month;
            assert(month_le(q.year, q.month, y0, m0));
            let used = used_in(q, y0, m0);
            if !(q.year == y0 && q.month == m0) {
                assert(!month_le(y0, m0, q.year, q.month));
                assert(searches_in_month(events, actions, y0, m0, i) == 0);
            }
            assert(used == searches_in_month(events, actions, y0, m0, i) + used_in(q0, y0, m0));
            assert forall|y: i32, m: u32|
                #[trigger] searches_in_month(events, actions, y, m, n) + used_in(q0, y, m)
                    <= MONTHLY_SEARCH_LIMIT by {
                assert(searches_in_month(events, actions, y, m, i) + used_in(q0, y, m) <= MONTHLY_SEARCH_LIMIT);
            }
            assert forall|y: i32, m: u32|
                !month_le(y, m, q2.year, q2.month) implies #[trigger] searches_in_month(events, actions, y, m, n)
                    == 0 && used_in(q0, y, m) == 0 by {
                assert(!month_le(y, m, q.year, q.month));
                assert(searches_in_month(events, actions, y, m, i) == 0);
            }
            assert forall|j: int|
                #![trigger events[j]]
                n <= j < events.len() && events[j] is CalendarMonth implies month_le(
                    q2.year,
                    q2.month,
                    events[j]->CalendarMonth_year,
                    events[j]->CalendarMonth_month,
                ) by {
                assert(events[i] is CalendarMonth);
            }
        } else {
            assert(q2 == q);
            assert(!(a is Search));
            assert forall|y: i32, m: u32|
                #[trigger] searches_in_month(events, actions, y, m, n) + used_in(q0, y, m)
                    <= MONTHLY_SEARCH_LIMIT by {
                assert(searches_in_month(events, actions, y, m, i) + used_in(q0, y, m) <= MONTHLY_SEARCH_LIMIT);
            }
            assert forall|y: i32, m: u32|
                !month_le(y, m, q2.year, q2.month) implies #[trigger] searches_in_month(events, actions, y, m, n)
                    == 0 && used_in(q0, y, m) == 0 by {
                assert(searches_in_month(events, actions, y, m, i) == 0);
            }
            assert(searches_in_month(events, actions, q.year, q.month, n) == searches_in_month(
                events,
                actions,
                q.year,
                q.month,
                i,
            ));
        }
    }
}

/// However the commands come, the bot runs at most
/// [`MONTHLY_SEARCH_LIMIT`] searches in any calendar month, counting those
/// that the starting quota records, as long as the calendar months it is
/// told never go back.
pub proof fn at_most_limit_searches_per_month(
    states: Seq<AnswerState>,
    nexts: Seq<AnswerState>,
    quotas: Seq<SearchQuota>,
    events: Seq<AnswerEvent>,
    actions: Seq<AnswerAction>,
)
    requires
        is_quota_history(states, nexts, quotas, events, actions),
        quotas[0].used <= MONTHLY_SEARCH_LIMIT,
        months_never_go_back(quotas[0], events),
    ensures
        forall|y: i32, m: u32|
            #[trigger] searches_in_month(events, actions, y, m, events.len() as int) + used_in(quotas[0], y, m)
                <= MONTHLY_SEARCH_LIMIT,
{
    lemma_quota_history(states, nexts, quotas, events, actions, events.len() as int);
}

/// A search asked for once the month's quota is spent is refused, with no
/// search run and the quota unchanged.
pub proof fn spent_quota_refuses(
    chat_id: i64,
    query: String,
    q: SearchQuota,
    year: i32,
    month: u32,
    next: AnswerState,
    q2: SearchQuota,
    a: AnswerAction,
)
    requires
        answer_spec(
            AnswerState::CheckingQuota { chat_id, query },
            q,
            AnswerEvent::CalendarMonth { year, month },
            next,
            q2,
            a,
        ),
        q.year == year,
        q.month == month,
        q.used >= MONTHLY_SEARCH_LIMIT,
    ensures
        !(a is Search),
        is_reply(a, chat_id, seq![quota_exhausted_text()], true),
        q2 == q,
{
}


/// The confirmation of a mute states the minutes the restriction used:
/// when the restriction asked for at the reading `now` of the clock ends at
/// `until`, the confirmation that follows names the muted user and a
/// decimal numeral `digits` such that `until` is `now` plus `digits`
/// minutes (saturated at `i64::MAX`).
pub proof fn mute_notice_states_the_minutes(
    states: Seq<AnswerState>,
    quotas: Seq<SearchQuota>,
    events: Seq<AnswerEvent>,
    actions: Seq<AnswerAction>,
    k: int,
)
    requires
        is_run(states, quotas, events, actions),
        0 <= k,
        k + 1 < actions.len(),
        actions[k] is Restrict,
        events[k + 1] == AnswerEvent::Restricted,
    ensures
        states[k] is ReadingClock,
        events[k] is Clock,
        actions[k + 1] is Reply,
        actions[k + 1]->Reply_messages@.len() == 2,
        exists|digits: Seq<char>|
            {
                &&& digits.len() > 0
                &&& all_ascii_digits(digits)
                &&& #[trigger] actions[k + 1]->Reply_messages@[0]@ == "🔇 @"@ + states[k]->ReadingClock_username@
                    + " silenciado por "@ + digits + " minuto(s).\na casa papu!!"@
                &&& actions[k]->Restrict_until == if events[k]->Clock_unix_secs + digits_value(digits) * 60
                    > i64::MAX {
                    i64::MAX as int
                } else {
                    events[k]->Clock_unix_secs + digits_value(digits) * 60
                }
            },
{
    assert(answer_spec(states[k], quotas[k], events[k], states[k + 1], quotas[k + 1], actions[k]));
    assert(states[k] is ReadingClock);
    assert(answer_spec(states[k + 1], quotas[k + 1], events[k + 1], states[k + 2], quotas[k + 2], actions[k + 1]));
    assert(states[k + 1] is Restricting);
    assert(states[k + 1]->Restricting_minutes == states[k]->ReadingClock_minutes);
    assert(states[k + 1]->Restricting_username == states[k]->ReadingClock_username);
    let minutes = states[k]->ReadingClock_minutes;
    let digits = decimal(minutes as nat);
    decimal_reads_back(minutes as nat);
    let msgs = actions[k + 1]->Reply_messages@;
    assert(texts(msgs) == seq![muted_text(states[k]->ReadingClock_username@, minutes), blocked_text(
        states[k + 1]->Restricting_args@,
    )]);
    assert(texts(msgs).len() == msgs.len());
    assert(msgs.len() == 2);
    assert(texts(actions[k + 1]->Reply_messages@)[0] == actions[k + 1]->Reply_messages@[0]@);
    assert(actions[k + 1]->Reply_messages@[0]@ == "🔇 @"@ + states[k]->ReadingClock_username@
        + " silenciado por "@ + digits + " minuto(s).\na casa papu!!"@);
}

} // verus!
