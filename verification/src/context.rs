//! Chat history as complete turns, and the rolling window that keeps the newest
//! turns that fit the model's context.
use vstd::prelude::*;

use crate::errors::{is_error, AppError, ErrorKind};
use crate::text::{decimal_chars, decimal_string};
use vstd::string::StringExecFns;

verus! {

pub const CONTEXT_SAFETY_TOKENS: u32 = 32;

/// The speaker of a chat message.
#[derive(Debug, Clone, Copy, PartialEq, Eq, Structural)]
pub enum ChatRole {
    System,
    User,
    Assistant,
}

/// One chat message.
#[derive(Debug, Clone, PartialEq, Eq)]
pub struct ChatMessage {
    pub role: ChatRole,
    pub content: String,
}

pub struct MessageSpec {
    pub role: ChatRole,
    pub content: Seq<char>,
}

impl View for ChatMessage {
    type V = MessageSpec;

    open spec fn view(&self) -> MessageSpec {
        MessageSpec { role: self.role, content: self.content@ }
    }
}

impl ChatMessage {
    /// A copy with the same role and text.
    pub fn duplicate(&self) -> (copy: ChatMessage)
        ensures
            copy@ == self@,
    {
        ChatMessage { role: self.role, content: self.content.clone() }
    }
}

pub open spec fn messages_view(messages: Seq<ChatMessage>) -> Seq<MessageSpec> {
    messages.map_values(|m: ChatMessage| m@)
}

pub open spec fn turns_view(turns: Seq<Vec<ChatMessage>>) -> Seq<Seq<MessageSpec>> {
    turns.map_values(|t: Vec<ChatMessage>| messages_view(t@))
}

/// Why a message list is not a well-formed chat.
#[derive(Debug, Clone, Copy, PartialEq, Eq, Structural)]
pub enum ChatOrderError {
    FinalNotUser,
    SystemNotFirst,
    AssistantFirst,
    RepeatedAssistant,
}

impl ChatOrderError {
    pub fn into_app_error(self) -> (error: AppError)
        ensures
            error is Operation,
            error.detail_spec() == order_error_text(self),
    {
        match self {
            ChatOrderError::FinalNotUser => AppError::Operation(
                "the final chat message must have the user role".to_owned(),
            ),
            ChatOrderError::SystemNotFirst => AppError::Operation(
                "the system prompt must be the first chat message".to_owned(),
            ),
            ChatOrderError::AssistantFirst => AppError::Operation(
                "chat history cannot begin with an assistant message".to_owned(),
            ),
            ChatOrderError::RepeatedAssistant => AppError::Operation(
                "a chat history turn cannot contain multiple assistant messages".to_owned(),
            ),
        }
    }
}

/// Concatenation of turns.
pub open spec fn flatten(turns: Seq<Seq<MessageSpec>>) -> Seq<MessageSpec>
    decreases turns.len(),
{
    if turns.len() == 0 {
        seq![]
    } else {
        flatten(turns.drop_last()) + turns.last()
    }
}

pub open spec fn has_role(messages: Seq<MessageSpec>, role: ChatRole) -> bool {
    exists|i: int| 0 <= i < messages.len() && messages[i].role == role
}

/// Groups a history without system messages into turns: each user message opens a turn,
/// and at most one assistant message may answer it.
pub open spec fn turns_spec(history: Seq<MessageSpec>) -> Result<Seq<Seq<MessageSpec>>, ChatOrderError>
    decreases history.len(),
{
    if history.len() == 0 {
        Ok(seq![])
    } else {
        match turns_spec(history.drop_last()) {
            Err(e) => Err(e),
            Ok(turns) => {
                let m = history.last();
                if m.role == ChatRole::User {
                    Ok(turns.push(seq![m]))
                } else if turns.len() == 0 {
                    Err(ChatOrderError::AssistantFirst)
                } else if has_role(turns.last(), ChatRole::Assistant) {
                    Err(ChatOrderError::RepeatedAssistant)
                } else {
                    Ok(turns.update(turns.len() - 1, turns.last().push(m)))
                }
            },
        }
    }
}

pub struct WindowSpec {
    pub system: Option<MessageSpec>,
    pub turns: Seq<Seq<MessageSpec>>,
    pub current: MessageSpec,
}

/// The optional leading system message of a message list without its final message.
pub open spec fn leading_system(body: Seq<MessageSpec>) -> Option<MessageSpec> {
    if body.len() > 0 && body[0].role == ChatRole::System {
        Some(body[0])
    } else {
        None
    }
}

pub open spec fn history_of(body: Seq<MessageSpec>) -> Seq<MessageSpec> {
    if leading_system(body) is Some {
        body.subrange(1, body.len() as int)
    } else {
        body
    }
}

/// How a message list splits into an optional system prompt, complete history turns and
/// the current user message, or why it cannot.
pub open spec fn window_spec(messages: Seq<MessageSpec>) -> Result<WindowSpec, ChatOrderError> {
    if messages.len() == 0 || messages.last().role != ChatRole::User {
        Err(ChatOrderError::FinalNotUser)
    } else {
        let body = messages.drop_last();
        let history = history_of(body);
        if has_role(history, ChatRole::System) {
            Err(ChatOrderError::SystemNotFirst)
        } else {
            match turns_spec(history) {
                Err(e) => Err(e),
                Ok(turns) => Ok(
                    WindowSpec { system: leading_system(body), turns, current: messages.last() },
                ),
            }
        }
    }
}

pub open spec fn system_seq(system: Option<MessageSpec>) -> Seq<MessageSpec> {
    match system {
        Some(m) => seq![m],
        None => seq![],
    }
}

pub open spec fn min_nat(a: nat, b: nat) -> nat {
    if a <= b {
        a
    } else {
        b
    }
}

/// The newest `k` turns (all of them when there are fewer).
pub open spec fn newest_turns(turns: Seq<Seq<MessageSpec>>, k: nat) -> Seq<Seq<MessageSpec>> {
    turns.subrange(turns.len() - min_nat(k, turns.len()), turns.len() as int)
}

/// The messages sent for a window that keeps its newest `k` turns.
pub open spec fn window_messages(w: WindowSpec, k: nat) -> Seq<MessageSpec> {
    system_seq(w.system) + flatten(newest_turns(w.turns, k)) + seq![w.current]
}

/// A chat split into its system prompt, its complete history turns and the current user
/// message, so that the oldest turns can be left out as a whole.
pub struct RollingContextWindow {
    system: Option<ChatMessage>,
    history_turns: Vec<Vec<ChatMessage>>,
    current_user: ChatMessage,
}

impl View for RollingContextWindow {
    type V = WindowSpec;

    closed spec fn view(&self) -> WindowSpec {
        WindowSpec {
            system: match self.system {
                Some(m) => Some(m@),
                None => None,
            },
            turns: turns_view(self.history_turns@),
            current: self.current_user@,
        }
    }
}

proof fn lemma_flatten_push(turns: Seq<Seq<MessageSpec>>, t: Seq<MessageSpec>)
    ensures
        flatten(turns.push(t)) == flatten(turns) + t,
{
    assert(turns.push(t).drop_last() =~= turns);
}

proof fn lemma_flatten_update_last(turns: Seq<Seq<MessageSpec>>, m: MessageSpec)
    requires
        turns.len() > 0,
    ensures
        flatten(turns.update(turns.len() - 1, turns.last().push(m))) == flatten(turns).push(m),
{
    let updated = turns.update(turns.len() - 1, turns.last().push(m));
    assert(updated.drop_last() =~= turns.drop_last());
    assert(flatten(turns) == flatten(turns.drop_last()) + turns.last());
    assert(flatten(updated) =~= flatten(turns).push(m));
}

/// Grouping into turns keeps every message in order.
proof fn lemma_turns_flatten(history: Seq<MessageSpec>)
    ensures
        turns_spec(history) matches Ok(turns) ==> flatten(turns) == history,
    decreases history.len(),
{
    if history.len() > 0 {
        lemma_turns_flatten(history.drop_last());
        if let Ok(turns) = turns_spec(history.drop_last()) {
            let m = history.last();
            if m.role == ChatRole::User {
                lemma_flatten_push(turns, seq![m]);
                assert(flatten(turns) + seq![m] =~= history);
            } else if turns.len() > 0 && !has_role(turns.last(), ChatRole::Assistant) {
                lemma_flatten_update_last(turns, m);
                assert(flatten(turns).push(m) =~= history);
            }
        }
    }
}

/// Every turn opens with a user message and holds at most one assistant answer.
pub open spec fn well_formed_turn(t: Seq<MessageSpec>) -> bool {
    ||| t.len() == 1 && t[0].role == ChatRole::User
    ||| t.len() == 2 && t[0].role == ChatRole::User && t[1].role == ChatRole::Assistant
}

proof fn lemma_turns_well_formed(history: Seq<MessageSpec>)
    requires
        !has_role(history, ChatRole::System),
    ensures
        turns_spec(history) matches Ok(turns) ==> forall|i: int|
            0 <= i < turns.len() ==> well_formed_turn(#[trigger] turns[i]),
    decreases history.len(),
{
    if history.len() > 0 {
        assert(!has_role(history.drop_last(), ChatRole::System)) by {
            if has_role(history.drop_last(), ChatRole::System) {
                let i = choose|i: int|
                    0 <= i < history.drop_last().len() && history.drop_last()[i].role
                        == ChatRole::System;
                assert(history[i].role == ChatRole::System);
            }
        }
        lemma_turns_well_formed(history.drop_last());
        let m = history.last();
        assert(m.role != ChatRole::System) by {
            assert(history[history.len() - 1] == m);
        }
        if let Ok(turns) = turns_spec(history.drop_last()) {
            if m.role != ChatRole::User && turns.len() > 0 && !has_role(
                turns.last(),
                ChatRole::Assistant,
            ) {
                let last = turns.last();
                assert(well_formed_turn(last));
                assert(last.len() == 1) by {
                    if last.len() == 2 {
                        assert(last[1].role == ChatRole::Assistant);
                    }
                }
            }
        }
    }
}

/// Once a prefix of the history is rejected, the whole history is rejected the same way.
proof fn lemma_turns_prefix_error(h: Seq<MessageSpec>, k: int)
    requires
        0 <= k <= h.len(),
        turns_spec(h.subrange(0, k)) is Err,
    ensures
        turns_spec(h) == turns_spec(h.subrange(0, k)),
    decreases h.len(),
{
    if k == h.len() {
        assert(h.subrange(0, k) =~= h);
    } else {
        assert(h.drop_last().subrange(0, k) =~= h.subrange(0, k));
        lemma_turns_prefix_error(h.drop_last(), k);
    }
}

impl RollingContextWindow {
    /// Splits a chat request into its window.
    ///
    /// The last message must be the user's; a system message may only come first; each
    /// history turn is a user message optionally answered by one assistant message.
    #[verifier::loop_isolation(false)]
    fn split(messages: &[ChatMessage]) -> (result: Result<
        RollingContextWindow,
        ChatOrderError,
    >)
        ensures
            match window_spec(messages_view(messages@)) {
                Ok(w) => result matches Ok(window) && window@ == w,
                Err(e) => result == Err::<RollingContextWindow, ChatOrderError>(e),
            },
    {
        let ghost all = messages_view(messages@);
        let n = messages.len();
        if n == 0 || messages[n - 1].role != ChatRole::User {
            return Err(ChatOrderError::FinalNotUser);
        }
        let current_user = messages[n - 1].duplicate();
        let ghost body = all.drop_last();
        let has_system = n - 1 > 0 && messages[0].role == ChatRole::System;
        let start: usize = if has_system {
            1
        } else {
            0
        };
        let system = if has_system {
            Some(messages[0].duplicate())
        } else {
            None
        };
        let ghost history = history_of(body);
        proof {
            assert(history =~= all.subrange(start as int, n - 1));
        }
        let mut i = start;
        while i < n - 1
            invariant
                all == messages_view(messages@),
                n == messages@.len(),
                n >= 1,
                start <= i <= n - 1,
                history =~= all.subrange(start as int, n - 1),
                forall|j: int| start <= j < i ==> all[j].role != ChatRole::System,
            decreases n - 1 - i,
        {
            if messages[i].role == ChatRole::System {
                proof {
                    assert(history[i - start].role == ChatRole::System);
                    assert(has_role(history, ChatRole::System));
                }
                return Err(ChatOrderError::SystemNotFirst);
            }
            i += 1;
        }
        proof {
            assert(!has_role(history, ChatRole::System)) by {
                if has_role(history, ChatRole::System) {
                    let j = choose|j: int|
                        0 <= j < history.len() && history[j].role == ChatRole::System;
                    assert(all[start + j].role == ChatRole::System);
                }
            }
        }
        let mut turns: Vec<Vec<ChatMessage>> = Vec::new();
        proof {
            assert(history.subrange(0, 0) =~= Seq::<MessageSpec>::empty());
            assert(turns_view(turns@) =~= Seq::<Seq<MessageSpec>>::empty());
        }
        let mut i = start;
        while i < n - 1
            invariant
                all == messages_view(messages@),
                n == messages@.len(),
                n >= 1,
                start <= i <= n - 1,
                history =~= all.subrange(start as int, n - 1),
                !has_role(history, ChatRole::System),
                turns_spec(history.subrange(0, i - start)) == Ok::<
                    Seq<Seq<MessageSpec>>,
                    ChatOrderError,
                >(turns_view(turns@)),
            decreases n - 1 - i,
        {
            let ghost prefix = history.subrange(0, i - start);
            let ghost next = history.subrange(0, i + 1 - start);
            proof {
                assert(next.drop_last() =~= prefix);
                assert(next.last() == all[i as int]);
            }
            let message = &messages[i];
            if message.role == ChatRole::User {
                let mut turn: Vec<ChatMessage> = Vec::new();
                turn.push(message.duplicate());
                let ghost old_turns = turns@;
                turns.push(turn);
                proof {
                    assert(messages_view(turn@) =~= seq![all[i as int]]);
                    assert(turns_view(turns@) =~= turns_view(old_turns).push(seq![all[i as int]]));
                }
            } else {
                let count = turns.len();
                if count == 0 {
                    proof {
                        lemma_turns_prefix_error(history, i + 1 - start);
                    }
                    return Err(ChatOrderError::AssistantFirst);
                }
                let last_has_assistant = Self::has_assistant(&turns[count - 1]);
                if last_has_assistant {
                    proof {
                        assert(turns_view(turns@).last() == messages_view(turns@[count - 1]@));
                        lemma_turns_prefix_error(history, i + 1 - start);
                    }
                    return Err(ChatOrderError::RepeatedAssistant);
                }
                let ghost old_turns = turns@;
                let mut last = turns.pop().unwrap();
                let ghost old_last = last@;
                last.push(message.duplicate());
                turns.push(last);
                proof {
                    assert(old_turns.drop_last() =~= turns@.drop_last());
                    assert(messages_view(last@) =~= messages_view(old_last).push(all[i as int]));
                    assert(turns_view(turns@) =~= turns_view(old_turns).update(
                        count - 1,
                        turns_view(old_turns).last().push(all[i as int]),
                    ));
                }
            }
            i += 1;
        }
        proof {
            assert(history.subrange(0, n - 1 - start) =~= history);
            lemma_turns_flatten(history);
            lemma_turns_well_formed(history);
            assert forall|j: int| 0 <= j < turns@.len() implies well_formed_turn(
                #[trigger] messages_view(turns@[j]@),
            ) by {
                assert(turns_view(turns@)[j] == messages_view(turns@[j]@));
            }
        }
        Ok(RollingContextWindow { system, history_turns: turns, current_user })
    }

    fn has_assistant(turn: &Vec<ChatMessage>) -> (found: bool)
        ensures
            found == has_role(messages_view(turn@), ChatRole::Assistant),
    {
        let mut i: usize = 0;
        while i < turn.len()
            invariant
                i <= turn@.len(),
                forall|j: int| 0 <= j < i ==> turn@[j].role != ChatRole::Assistant,
            decreases turn@.len() - i,
        {
            if turn[i].role == ChatRole::Assistant {
                proof {
                    assert(messages_view(turn@)[i as int].role == ChatRole::Assistant);
                }
                return true;
            }
            i += 1;
        }
        false
    }

    /// Number of complete history turns.
    pub fn history_turn_count(&self) -> (count: usize)
        ensures
            count == self@.turns.len(),
    {
        self.history_turns.len()
    }
}


/// The text of the error that a rejected message order becomes.
pub open spec fn order_error_text(e: ChatOrderError) -> Seq<char> {
    match e {
        ChatOrderError::FinalNotUser => "the final chat message must have the user role"@,
        ChatOrderError::SystemNotFirst => "the system prompt must be the first chat message"@,
        ChatOrderError::AssistantFirst => "chat history cannot begin with an assistant message"@,
        ChatOrderError::RepeatedAssistant => "a chat history turn cannot contain multiple assistant messages"@,
    }
}

proof fn lemma_flatten_len_bound(turns: Seq<Seq<MessageSpec>>)
    requires
        forall|i: int| 0 <= i < turns.len() ==> well_formed_turn(#[trigger] turns[i]),
    ensures
        flatten(turns).len() <= 2 * turns.len(),
        flatten(turns).len() >= turns.len(),
    decreases turns.len(),
{
    if turns.len() > 0 {
        assert(forall|i: int| 0 <= i < turns.drop_last().len() ==> turns.drop_last()[i] == turns[i]);
        lemma_flatten_len_bound(turns.drop_last());
        assert(well_formed_turn(turns[turns.len() - 1]));
    }
}

/// The newest turns that are kept sit at the end of the history.
proof fn lemma_flatten_suffix(turns: Seq<Seq<MessageSpec>>, k: nat)
    ensures
        flatten(turns) == flatten(turns.subrange(0, turns.len() - min_nat(k, turns.len())))
            + flatten(newest_turns(turns, k)),
    decreases turns.len(),
{
    let n = turns.len();
    let m = min_nat(k, n);
    if m == 0 {
        assert(turns.subrange(0, n as int) =~= turns);
        assert(newest_turns(turns, k) =~= Seq::<Seq<MessageSpec>>::empty());
        assert(flatten(turns) + Seq::<MessageSpec>::empty() =~= flatten(turns));
    } else {
        let rest = turns.drop_last();
        lemma_flatten_suffix(rest, (m - 1) as nat);
        assert(min_nat((m - 1) as nat, rest.len()) == m - 1);
        assert(rest.subrange(0, rest.len() - (m - 1)) =~= turns.subrange(0, n - m));
        assert(newest_turns(turns, k).drop_last() =~= newest_turns(rest, (m - 1) as nat));
        assert(newest_turns(turns, k).last() == turns.last());
        assert(flatten(turns) =~= flatten(turns.subrange(0, n - m)) + flatten(newest_turns(turns, k)));
    }
}

impl RollingContextWindow {
    #[verifier::type_invariant]
    closed spec fn wf(self) -> bool {
        &&& forall|i: int|
            0 <= i < self.history_turns@.len() ==> well_formed_turn(
                #[trigger] messages_view(self.history_turns@[i]@),
            )
        &&& flatten(turns_view(self.history_turns@)).len() <= usize::MAX
    }

    /// Splits a chat request into its window, as `window_spec` describes.
    pub fn from_messages(messages: &[ChatMessage]) -> (result: Result<RollingContextWindow, AppError>)
        ensures
            match window_spec(messages_view(messages@)) {
                Ok(w) => result matches Ok(window) && window@ == w,
                Err(e) => result matches Err(error) && error is Operation && error.detail_spec()
                    == order_error_text(e),
            },
    {
        match Self::split(messages) {
            Ok(window) => Ok(window),
            Err(e) => Err(e.into_app_error()),
        }
    }

    /// Number of messages in all history turns.
    pub fn history_message_count(&self) -> (count: usize)
        ensures
            count == flatten(self@.turns).len(),
    {
        proof {
            use_type_invariant(self);
            assert(newest_turns(self@.turns, self@.turns.len()) =~= self@.turns);
        }
        self.retained_history_message_count(self.history_turns.len())
    }

    /// Number of history messages in the newest `retained_turns` turns.
    pub fn retained_history_message_count(&self, retained_turns: usize) -> (count: usize)
        ensures
            count == flatten(newest_turns(self@.turns, retained_turns as nat)).len(),
    {
        proof {
            use_type_invariant(self);
        }
        let total = self.history_turns.len();
        let kept = if retained_turns < total {
            retained_turns
        } else {
            total
        };
        let first = total - kept;
        let ghost turns = self@.turns;
        let mut count: usize = 0;
        let mut i = first;
        while i < total
            invariant
                turns == turns_view(self.history_turns@),
                total == turns.len(),
                first <= i <= total,
                flatten(turns).len() <= usize::MAX,
                count == flatten(turns.subrange(first as int, i as int)).len(),
            decreases total - i,
        {
            proof {
                assert(turns.subrange(first as int, i + 1).drop_last() =~= turns.subrange(first as int, i as int));
                lemma_flatten_concat(turns.subrange(0, first as int), turns.subrange(first as int, i + 1));
                lemma_flatten_concat(turns.subrange(0, i + 1), turns.subrange(i + 1, total as int));
                assert(turns.subrange(0, first as int) + turns.subrange(first as int, i + 1) =~= turns.subrange(0, i + 1));
                assert(turns.subrange(0, i + 1) + turns.subrange(i + 1, total as int) =~= turns);
                assert(turns[i as int] == messages_view(self.history_turns@[i as int]@));
            }
            count = count + self.history_turns[i].len();
            i += 1;
        }
        proof {
            assert(newest_turns(turns, retained_turns as nat) =~= turns.subrange(first as int, total as int));
        }
        count
    }

    /// The messages to send when only the newest `retained_turns` history turns are kept:
    /// the system prompt, those turns in order, then the current user message.
    pub fn messages_with_newest_turns(&self, retained_turns: usize) -> (messages: Vec<ChatMessage>)
        ensures
            messages_view(messages@) == window_messages(self@, retained_turns as nat),
    {
        proof {
            use_type_invariant(self);
        }
        let total = self.history_turns.len();
        let kept = if retained_turns < total {
            retained_turns
        } else {
            total
        };
        let first = total - kept;
        let ghost turns = self@.turns;
        let mut messages: Vec<ChatMessage> = Vec::new();
        match &self.system {
            Some(system) => {
                let item = system.duplicate();
                messages.push(item);
                proof {
                    lemma_messages_view_push(Seq::empty(), item);
                }
            },
            None => {},
        }
        let ghost sys = system_seq(self@.system);
        proof {
            assert(messages_view(messages@) =~= sys);
        }
        let mut i = first;
        while i < total
            invariant
                turns == turns_view(self.history_turns@),
                total == turns.len(),
                first <= i <= total,
                messages_view(messages@) == sys + flatten(turns.subrange(first as int, i as int)),
            decreases total - i,
        {
            let turn = &self.history_turns[i];
            let ghost before = messages_view(messages@);
            let mut j: usize = 0;
            while j < turn.len()
                invariant
                    j <= turn@.len(),
                    messages_view(messages@) == before + messages_view(turn@).subrange(0, j as int),
                decreases turn@.len() - j,
            {
                let ghost old_messages = messages@;
                let item = turn[j].duplicate();
                messages.push(item);
                proof {
                    lemma_messages_view_push(old_messages, item);
                    assert(messages_view(turn@).subrange(0, j + 1) =~= messages_view(turn@).subrange(0, j as int).push(turn@[j as int]@));
                    assert(messages_view(messages@) =~= before + messages_view(turn@).subrange(0, j + 1));
                }
                j += 1;
            }
            proof {
                assert(messages_view(turn@).subrange(0, turn@.len() as int) =~= messages_view(turn@));
                assert(turns.subrange(first as int, i + 1).drop_last() =~= turns.subrange(first as int, i as int));
                assert(turns.subrange(first as int, i + 1).last() == messages_view(turn@));
                assert(messages_view(messages@) =~= sys + flatten(turns.subrange(first as int, i + 1)));
            }
            i += 1;
        }
        let ghost before = messages_view(messages@);
        let ghost old_messages = messages@;
        let item = self.current_user.duplicate();
        messages.push(item);
        proof {
            lemma_messages_view_push(old_messages, item);
            assert(newest_turns(turns, retained_turns as nat) =~= turns.subrange(first as int, total as int));
            assert(messages_view(messages@) =~= before + seq![self@.current]);
        }
        messages
    }
}

/// Keeping every history turn sends exactly the messages of the request.
pub proof fn law_full_window_is_the_request(messages: Seq<MessageSpec>)
    requires
        window_spec(messages) is Ok,
    ensures
        ({
            let w = window_spec(messages)->Ok_0;
            window_messages(w, w.turns.len()) == messages
        }),
{
    let w = window_spec(messages)->Ok_0;
    let body = messages.drop_last();
    let history = history_of(body);
    lemma_turns_flatten(history);
    assert(newest_turns(w.turns, w.turns.len()) =~= w.turns);
    if leading_system(body) is Some {
        assert(seq![body[0]] + history =~= body);
    } else {
        assert(Seq::<MessageSpec>::empty() + history =~= body);
    }
    assert(body.push(messages.last()) =~= messages);
    assert(system_seq(w.system) + flatten(w.turns) =~= body);
}

/// A window keeps whole turns only: the kept history is the tail of the full history,
/// every kept turn opens with a user message, and keeping more turns never keeps fewer
/// messages.
pub proof fn law_window_keeps_newest_whole_turns(messages: Seq<MessageSpec>, k1: nat, k2: nat)
    requires
        window_spec(messages) is Ok,
        k1 <= k2,
    ensures
        ({
            let w = window_spec(messages)->Ok_0;
            let history = history_of(messages.drop_last());
            let kept = flatten(newest_turns(w.turns, k1));
            &&& kept.len() <= history.len()
            &&& kept == history.subrange(history.len() - kept.len(), history.len() as int)
            &&& (kept.len() > 0 ==> kept[0].role == ChatRole::User)
            &&& kept.len() <= flatten(newest_turns(w.turns, k2)).len()
        }),
{
    let w = window_spec(messages)->Ok_0;
    let body = messages.drop_last();
    let history = history_of(body);
    lemma_turns_flatten(history);
    lemma_turns_well_formed(history);
    lemma_flatten_suffix(w.turns, k1);
    lemma_flatten_suffix(w.turns, k2);
    let kept = flatten(newest_turns(w.turns, k1));
    let older = flatten(w.turns.subrange(0, w.turns.len() - min_nat(k1, w.turns.len())));
    assert(history == older + kept);
    assert(kept =~= history.subrange(history.len() - kept.len(), history.len() as int));
    let nt = newest_turns(w.turns, k1);
    if nt.len() > 0 {
        lemma_flatten_first(nt);
        assert(well_formed_turn(w.turns[w.turns.len() - min_nat(k1, w.turns.len())]));
    } else {
        assert(nt =~= Seq::<Seq<MessageSpec>>::empty());
    }
    // More turns keep a longer tail of the same history.
    let nt2 = newest_turns(w.turns, k2);
    let m1 = min_nat(k1, w.turns.len());
    let m2 = min_nat(k2, w.turns.len());
    assert(nt2.subrange(m2 - m1, m2 as int) =~= nt);
    lemma_flatten_suffix(nt2, m1);
    assert(min_nat(m1, nt2.len()) == m1);
    assert(newest_turns(nt2, m1) =~= nt);
}

proof fn lemma_messages_view_push(v: Seq<ChatMessage>, m: ChatMessage)
    ensures
        messages_view(v.push(m)) == messages_view(v).push(m@),
{
    assert(messages_view(v.push(m)) =~= messages_view(v).push(m@));
}

proof fn lemma_flatten_concat(a: Seq<Seq<MessageSpec>>, b: Seq<Seq<MessageSpec>>)
    ensures
        flatten(a + b) == flatten(a) + flatten(b),
    decreases b.len(),
{
    if b.len() == 0 {
        assert(a + b =~= a);
        assert(flatten(a) + flatten(b) =~= flatten(a));
    } else {
        lemma_flatten_concat(a, b.drop_last());
        assert((a + b).drop_last() =~= a + b.drop_last());
        assert(flatten(a + b) =~= flatten(a) + flatten(b));
    }
}

proof fn lemma_flatten_first(turns: Seq<Seq<MessageSpec>>)
    requires
        turns.len() > 0,
        turns[0].len() > 0,
    ensures
        flatten(turns).len() > 0,
        flatten(turns)[0] == turns[0][0],
    decreases turns.len(),
{
    if turns.len() == 1 {
        assert(turns.drop_last() =~= Seq::<Seq<MessageSpec>>::empty());
        assert(flatten(turns.drop_last()) =~= Seq::<MessageSpec>::empty());
        assert(flatten(turns) == flatten(turns.drop_last()) + turns.last());
        assert(flatten(turns) =~= turns[0]);
    } else {
        assert(turns.drop_last()[0] == turns[0]);
        lemma_flatten_first(turns.drop_last());
    }
}


// ---------------------------------------------------------------------------
// Choosing how many turns fit.
// ---------------------------------------------------------------------------
/// What was kept and what it costs, as reported alongside a generation.
#[derive(Debug, Clone, PartialEq, Eq)]
pub struct ContextWindowReport {
    pub strategy: String,
    pub context_capacity: u32,
    pub input_token_budget: u32,
    pub input_tokens: u64,
    pub reserved_output_tokens: u32,
    pub safety_tokens: u32,
    pub retained_history_messages: u32,
    pub omitted_history_messages: u32,
    pub approximate: bool,
}

/// Input tokens left once the response reserve and the safety margin are taken out of the
/// context capacity; an error when nothing is left.
pub fn input_token_budget(context_capacity: u32, max_output_tokens: u32) -> (result: Result<u32, AppError>)
    ensures
        context_capacity >= max_output_tokens + CONTEXT_SAFETY_TOKENS ==> result == Ok::<u32, AppError>(
            (context_capacity - max_output_tokens - CONTEXT_SAFETY_TOKENS) as u32,
        ),
        context_capacity < max_output_tokens + CONTEXT_SAFETY_TOKENS ==> (result matches Err(e)
            && is_error(e, ErrorKind::Operation, reserve_overflow_text(context_capacity, max_output_tokens))),
{
    if context_capacity < max_output_tokens || context_capacity - max_output_tokens < CONTEXT_SAFETY_TOKENS {
        let mut text = "the ".to_owned();
        text.append(decimal_string(max_output_tokens as u64).as_str());
        text.append("-token response reserve leaves no room in the ");
        text.append(decimal_string(context_capacity as u64).as_str());
        text.append("-token context window; lower the response limit");
        Err(AppError::Operation(text))
    } else {
        Ok(context_capacity - max_output_tokens - CONTEXT_SAFETY_TOKENS)
    }
}

/// The refusal when the system prompt and current message alone need `tokens` input tokens.
pub open spec fn mandatory_overflow_text(tokens: u64, budget: u32, reserved: u32) -> Seq<char> {
    "the system prompt and current message need "@ + decimal_chars(tokens as nat) + " input tokens, but only "@
        + decimal_chars(budget as nat) + " remain after reserving "@ + decimal_chars(reserved as nat)
        + " output tokens; lower the response limit or shorten the prompt/message"@
}

/// The refusal when the response reserve and safety margin do not fit the context.
pub open spec fn reserve_overflow_text(context_capacity: u32, max_output_tokens: u32) -> Seq<char> {
    "the "@ + decimal_chars(max_output_tokens as nat) + "-token response reserve leaves no room in the "@
        + decimal_chars(context_capacity as nat) + "-token context window; lower the response limit"@
}

/// Which count the planner needs next.
#[derive(Debug, Clone, Copy, PartialEq, Eq, Structural)]
pub enum PlanStage {
    /// The whole history with every turn.
    Full,
    /// Only the system prompt and the current message.
    Mandatory,
    /// The newest `k` turns.
    Growing(usize),
    Done,
}

/// Chooses the number of newest history turns to keep from their token counts, asking
/// for one count at a time in the order the counts are needed.
pub struct ContextPlanner {
    pub budget: u32,
    pub reserved_output_tokens: u32,
    pub total_turns: usize,
    pub stage: PlanStage,
    pub retained_turns: usize,
    pub selected_tokens: u64,
}

/// The next number of newest turns whose token count is needed.
pub open spec fn query_spec(total: usize, stage: PlanStage) -> Option<usize> {
    match stage {
        PlanStage::Full => Some(total),
        PlanStage::Mandatory => Some(0),
        PlanStage::Growing(k) => Some(k),
        PlanStage::Done => None,
    }
}

/// The planner after learning the count it asked for; `Err` carries the token count of
/// the messages that can never be left out when they alone exceed the budget.
pub open spec fn step_spec(p: ContextPlanner, tokens: u64) -> Result<ContextPlanner, u64> {
    match p.stage {
        PlanStage::Full => if tokens <= p.budget {
            Ok(ContextPlanner { stage: PlanStage::Done, retained_turns: p.total_turns, selected_tokens: tokens, ..p })
        } else {
            Ok(ContextPlanner { stage: PlanStage::Mandatory, ..p })
        },
        PlanStage::Mandatory => if tokens > p.budget {
            Err(tokens)
        } else {
            Ok(ContextPlanner {
                stage: if p.total_turns >= 1 { PlanStage::Growing(1) } else { PlanStage::Done },
                retained_turns: 0,
                selected_tokens: tokens,
                ..p
            })
        },
        PlanStage::Growing(k) => if tokens > p.budget {
            Ok(ContextPlanner { stage: PlanStage::Done, ..p })
        } else {
            Ok(ContextPlanner {
                stage: if k < p.total_turns { PlanStage::Growing((k + 1) as usize) } else { PlanStage::Done },
                retained_turns: k,
                selected_tokens: tokens,
                ..p
            })
        },
        PlanStage::Done => Ok(p),
    }
}

impl ContextPlanner {
    /// A planner for a window with `total_turns` history turns and the given input budget.
    pub fn new(budget: u32, reserved_output_tokens: u32, total_turns: usize) -> (planner: ContextPlanner)
        ensures
            planner == (ContextPlanner { budget, reserved_output_tokens, total_turns, stage: PlanStage::Full, retained_turns: 0, selected_tokens: 0 }),
    {
        ContextPlanner { budget, reserved_output_tokens, total_turns, stage: PlanStage::Full, retained_turns: 0, selected_tokens: 0 }
    }

    /// How many newest turns to count next, or `None` once the choice is made.
    pub fn next_query(&self) -> (query: Option<usize>)
        ensures
            query == query_spec(self.total_turns, self.stage),
    {
        match self.stage {
            PlanStage::Full => Some(self.total_turns),
            PlanStage::Mandatory => Some(0),
            PlanStage::Growing(k) => Some(k),
            PlanStage::Done => None,
        }
    }

    /// Takes the token count of the messages that `next_query` asked for.
    ///
    /// Fails when the system prompt and the current message alone exceed the budget.
    pub fn record(&mut self, tokens: u64) -> (result: Result<(), AppError>)
        ensures
            match step_spec(*old(self), tokens) {
                Ok(next) => result is Ok && *final(self) == next,
                Err(t) => result matches Err(e) && is_error(e, ErrorKind::Operation, mandatory_overflow_text(t, old(self).budget, old(self).reserved_output_tokens)),
            },
    {
        match self.stage {
            PlanStage::Full => {
                if tokens <= self.budget as u64 {
                    self.stage = PlanStage::Done;
                    self.retained_turns = self.total_turns;
                    self.selected_tokens = tokens;
                } else {
                    self.stage = PlanStage::Mandatory;
                }
                Ok(())
            },
            PlanStage::Mandatory => {
                if tokens > self.budget as u64 {
                    let mut text = "the system prompt and current message need ".to_owned();
                    text.append(decimal_string(tokens).as_str());
                    text.append(" input tokens, but only ");
                    text.append(decimal_string(self.budget as u64).as_str());
                    text.append(" remain after reserving ");
                    text.append(decimal_string(self.reserved_output_tokens as u64).as_str());
                    text.append(" output tokens; lower the response limit or shorten the prompt/message");
                    return Err(AppError::Operation(text));
                }
                self.stage = if self.total_turns >= 1 {
                    PlanStage::Growing(1)
                } else {
                    PlanStage::Done
                };
                self.retained_turns = 0;
                self.selected_tokens = tokens;
                Ok(())
            },
            PlanStage::Growing(k) => {
                if tokens > self.budget as u64 {
                    self.stage = PlanStage::Done;
                } else {
                    self.stage = if k < self.total_turns {
                        PlanStage::Growing(k + 1)
                    } else {
                        PlanStage::Done
                    };
                    self.retained_turns = k;
                    self.selected_tokens = tokens;
                }
                Ok(())
            },
            PlanStage::Done => Ok(()),
        }
    }
}

/// Runs the planner, answering each query with `count`, for at most `fuel` steps.
pub open spec fn run_spec(p: ContextPlanner, count: spec_fn(nat) -> u64, fuel: nat) -> Result<ContextPlanner, u64>
    decreases fuel,
{
    match query_spec(p.total_turns, p.stage) {
        None => Ok(p),
        Some(k) => if fuel == 0 {
            Ok(p)
        } else {
            match step_spec(p, count(k as nat)) {
                Err(t) => Err(t),
                Ok(next) => run_spec(next, count, (fuel - 1) as nat),
            }
        },
    }
}

/// The newest turn counts from `k` on that fit, one after another.
pub open spec fn fitting_run(count: spec_fn(nat) -> u64, budget: u32, total: nat, k: nat) -> nat
    decreases total + 1 - k,
{
    if k > total || count(k) > budget {
        (k - 1) as nat
    } else {
        fitting_run(count, budget, total, k + 1)
    }
}

/// The choice the planner makes: every turn when all of them fit; otherwise the longest
/// run of newest turns `1..=r` whose counts each fit, provided the mandatory messages fit.
pub open spec fn plan_spec(count: spec_fn(nat) -> u64, budget: u32, total: nat) -> Result<(nat, u64), u64> {
    if count(total) <= budget {
        Ok((total, count(total)))
    } else if count(0) > budget {
        Err(count(0))
    } else {
        let r = fitting_run(count, budget, total, 1);
        Ok((r, count(r)))
    }
}

proof fn lemma_growing_run(p: ContextPlanner, count: spec_fn(nat) -> u64, k: nat, fuel: nat)
    requires
        p.stage == PlanStage::Growing(k as usize),
        1 <= k <= p.total_turns,
        fuel >= p.total_turns + 1 - k,
        p.retained_turns == k - 1,
        p.selected_tokens == count((k - 1) as nat),
    ensures
        run_spec(p, count, fuel) matches Ok(done) && done.stage == PlanStage::Done
            && done.retained_turns == fitting_run(count, p.budget, p.total_turns as nat, k)
            && done.selected_tokens == count(fitting_run(count, p.budget, p.total_turns as nat, k)),
    decreases p.total_turns + 1 - k,
{
    let tokens = count(k);
    if tokens > p.budget {
    } else if k < p.total_turns {
        let next = step_spec(p, tokens)->Ok_0;
        lemma_growing_run(next, count, k + 1, (fuel - 1) as nat);
    } else {
        assert(fitting_run(count, p.budget, p.total_turns as nat, k + 1) == k);
    }
}

proof fn lemma_fitting_run_bounds(count: spec_fn(nat) -> u64, budget: u32, total: nat, k: nat)
    requires
        1 <= k <= total + 1,
        count((k - 1) as nat) <= budget,
    ensures
        k - 1 <= fitting_run(count, budget, total, k) <= total,
        count(fitting_run(count, budget, total, k)) <= budget,
        fitting_run(count, budget, total, k) < total ==> count(fitting_run(count, budget, total, k) + 1) > budget,
    decreases total + 1 - k,
{
    if k > total || count(k) > budget {
    } else {
        lemma_fitting_run_bounds(count, budget, total, k + 1);
    }
}

/// When counting more turns never gives fewer tokens, the plan keeps the largest number of
/// newest turns whose messages fit the budget, with their count; it fails, with the count of
/// the mandatory messages, only when not even those fit.
pub proof fn law_plan_keeps_most_turns_that_fit(count: spec_fn(nat) -> u64, budget: u32, total: nat)
    requires
        forall|a: nat, b: nat| a <= b <= total ==> #[trigger] count(a) <= #[trigger] count(b),
    ensures
        match plan_spec(count, budget, total) {
            Ok((kept, tokens)) => {
                &&& kept <= total
                &&& tokens == count(kept)
                &&& tokens <= budget
                &&& forall|k: nat| kept < k <= total ==> #[trigger] count(k) > budget
            },
            Err(t) => t == count(0) && forall|k: nat| k <= total ==> #[trigger] count(k) > budget,
        },
{
    if count(total) <= budget {
    } else if count(0) > budget {
        assert forall|k: nat| k <= total implies #[trigger] count(k) > budget by {
            assert(count(0) <= count(k));
        }
    } else {
        lemma_fitting_run_bounds(count, budget, total, 1);
        let r = fitting_run(count, budget, total, 1);
        if r == total {
            assert(count(total) <= budget);
        }
        assert forall|k: nat| r < k <= total implies #[trigger] count(k) > budget by {
            assert(count((r + 1) as nat) <= count(k));
        }
    }
}

/// Answering the planner's queries with any counting function, it settles within
/// `total + 2` steps, and its choice is `plan_spec`: all turns when they fit, an error
/// when the mandatory messages alone do not, and otherwise the longest run of newest
/// turns that fit.
pub proof fn law_planner_chooses_longest_fitting_run(budget: u32, reserved: u32, total: usize, count: spec_fn(nat) -> u64)
    requires
        total < usize::MAX,
    ensures
        ({
            let start = ContextPlanner { budget, reserved_output_tokens: reserved, total_turns: total, stage: PlanStage::Full, retained_turns: 0, selected_tokens: 0 };
            match (run_spec(start, count, (total + 2) as nat), plan_spec(count, budget, total as nat)) {
                (Ok(done), Ok((kept, tokens))) => done.stage == PlanStage::Done && done.retained_turns == kept
                    && done.selected_tokens == tokens,
                (Err(t1), Err(t2)) => t1 == t2,
                _ => false,
            }
        }),
{
    let start = ContextPlanner { budget, reserved_output_tokens: reserved, total_turns: total, stage: PlanStage::Full, retained_turns: 0, selected_tokens: 0 };
    let fuel = (total + 2) as nat;
    let first = step_spec(start, count(total as nat));
    assert(run_spec(start, count, fuel) == match first {
        Err(t) => Err(t),
        Ok(next) => run_spec(next, count, (fuel - 1) as nat),
    });
    if count(total as nat) <= budget {
        let done = first->Ok_0;
        assert(run_spec(done, count, (fuel - 1) as nat) == Ok::<ContextPlanner, u64>(done));
    } else {
        let mandatory = first->Ok_0;
        let second = step_spec(mandatory, count(0));
        assert(run_spec(mandatory, count, (fuel - 1) as nat) == match second {
            Err(t) => Err(t),
            Ok(next) => run_spec(next, count, (fuel - 2) as nat),
        });
        if count(0) <= budget {
            let grown = second->Ok_0;
            if total >= 1 {
                lemma_growing_run(grown, count, 1, (fuel - 2) as nat);
            } else {
                assert(fitting_run(count, budget, total as nat, 1) == 0);
                assert(run_spec(grown, count, (fuel - 2) as nat) == Ok::<ContextPlanner, u64>(grown));
            }
        }
    }
}


/// When counting more turns never gives fewer tokens, the planner, run from the start with
/// those counts, keeps the largest number of newest turns that fit the budget and reports
/// their count; it refuses, with the count of the mandatory messages, exactly when not even
/// those fit.
pub proof fn law_planner_keeps_most_turns_that_fit(budget: u32, reserved: u32, total: usize, count: spec_fn(nat) -> u64)
    requires
        total < usize::MAX,
        forall|a: nat, b: nat| a <= b <= total ==> #[trigger] count(a) <= #[trigger] count(b),
    ensures
        ({
            let start = ContextPlanner { budget, reserved_output_tokens: reserved, total_turns: total, stage: PlanStage::Full, retained_turns: 0, selected_tokens: 0 };
            match run_spec(start, count, (total + 2) as nat) {
                Ok(done) => {
                    &&& done.stage == PlanStage::Done
                    &&& done.retained_turns <= total
                    &&& done.selected_tokens == count(done.retained_turns as nat)
                    &&& done.selected_tokens <= budget
                    &&& forall|k: nat| done.retained_turns < k <= total ==> #[trigger] count(k) > budget
                },
                Err(t) => t == count(0) && t > budget,
            }
        }),
{
    law_planner_chooses_longest_fitting_run(budget, reserved, total, count);
    law_plan_keeps_most_turns_that_fit(count, budget, total as nat);
    assert(count(0) <= count(total as nat));
}

/// The messages to send and the report that explains them.
pub struct ContextWindowPlan {
    pub messages: Vec<ChatMessage>,
    pub report: ContextWindowReport,
}

impl ContextPlanner {
    /// The window's messages with the chosen number of newest turns, and its report.
    pub fn finish(&self, window: &RollingContextWindow, context_capacity: u32, max_output_tokens: u32) -> (plan: ContextWindowPlan)
        requires
            self.stage == PlanStage::Done,
        ensures
            messages_view(plan.messages@) == window_messages(window@, self.retained_turns as nat),
            plan.report.strategy@ == "rolling_window"@,
            plan.report.context_capacity == context_capacity,
            plan.report.input_token_budget == self.budget,
            plan.report.input_tokens == self.selected_tokens,
            plan.report.reserved_output_tokens == max_output_tokens,
            plan.report.safety_tokens == CONTEXT_SAFETY_TOKENS,
            plan.report.retained_history_messages == flatten(newest_turns(window@.turns, self.retained_turns as nat)).len() as u32,
            plan.report.omitted_history_messages == (flatten(window@.turns).len() - flatten(newest_turns(window@.turns, self.retained_turns as nat)).len()) as u32,
            !plan.report.approximate,
    {
        let messages = window.messages_with_newest_turns(self.retained_turns);
        let retained = window.retained_history_message_count(self.retained_turns);
        let total = window.history_message_count();
        proof {
            lemma_flatten_suffix(window@.turns, self.retained_turns as nat);
        }
        let report = ContextWindowReport {
            strategy: "rolling_window".to_owned(),
            context_capacity,
            input_token_budget: self.budget,
            input_tokens: self.selected_tokens,
            reserved_output_tokens: max_output_tokens,
            safety_tokens: CONTEXT_SAFETY_TOKENS,
            retained_history_messages: retained as u32,
            omitted_history_messages: (total - retained) as u32,
            approximate: false,
        };
        ContextWindowPlan { messages, report }
    }
}

} // verus!
