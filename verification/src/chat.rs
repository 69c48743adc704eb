//! Conversational sessions: bounded message logs, input history, and the
//! folding of streamed chat events into session state.

use vstd::prelude::*;
use std::collections::VecDeque;
use crate::api::{ChatResponse, ChatResponseV};
use crate::text::{str_eq, string_append};

verus! {

/// Most messages a session log keeps; appending beyond this evicts the oldest.
pub const MESSAGE_LOG_CAP: usize = 100;

/// Most entries the input-history ring keeps, most recent first.
pub const HISTORY_CAP: usize = 50;

#[derive(Debug, Clone, Copy, PartialEq, Eq, Structural)]
pub enum MessageRole {
    System,
    User,
    Assistant,
}

/// A persisted turn in a session, immutable once appended.
#[derive(Debug, Clone)]
pub struct ChatMessage {
    pub role: MessageRole,
    pub content: String,
    /// Milliseconds since the Unix epoch, supplied by the caller.
    pub timestamp: i64,
}

pub ghost struct ChatMessageV {
    pub role: MessageRole,
    pub content: Seq<char>,
    pub timestamp: int,
}

impl View for ChatMessage {
    type V = ChatMessageV;

    open spec fn view(&self) -> ChatMessageV {
        ChatMessageV {
            role: self.role,
            content: self.content@,
            timestamp: self.timestamp as int,
        }
    }
}

/// An independent conversation thread: bounded message log, model choice,
/// streaming accumulator, and input history.
#[derive(Debug, Clone)]
pub struct ChatSession {
    pub messages: VecDeque<ChatMessage>,
    pub current_model: String,
    pub is_streaming: bool,
    /// Accumulator for the in-flight assistant reply.
    pub current_response: String,
    pub input_buffer: String,
    pub total_tokens: usize,
    pub session_started: i64,
    /// Previous user submissions, most recent first.
    pub message_history: VecDeque<String>,
    /// Current position in the history ring; `None` = not navigating.
    pub history_index: Option<usize>,
    /// The in-progress edit, preserved while navigating history.
    pub temp_input: String,
}

pub ghost struct ChatSessionV {
    pub messages: Seq<ChatMessageV>,
    pub current_model: Seq<char>,
    pub is_streaming: bool,
    pub current_response: Seq<char>,
    pub input_buffer: Seq<char>,
    pub total_tokens: int,
    pub session_started: int,
    pub message_history: Seq<Seq<char>>,
    pub history_index: Option<int>,
    pub temp_input: Seq<char>,
}

impl View for ChatSession {
    type V = ChatSessionV;

    open spec fn view(&self) -> ChatSessionV {
        ChatSessionV {
            messages: self.messages@.map_values(|m: ChatMessage| m@),
            current_model: self.current_model@,
            is_streaming: self.is_streaming,
            current_response: self.current_response@,
            input_buffer: self.input_buffer@,
            total_tokens: self.total_tokens as int,
            session_started: self.session_started as int,
            message_history: self.message_history@.map_values(|s: String| s@),
            history_index: match self.history_index {
                Some(i) => Some(i as int),
                None => None,
            },
            temp_input: self.temp_input@,
        }
    }
}

/// The message log stays within capacity and the history cursor, when set,
/// points at an existing ring entry.
pub open spec fn session_wf(s: ChatSessionV) -> bool {
    &&& s.messages.len() <= MESSAGE_LOG_CAP
    &&& s.message_history.len() <= HISTORY_CAP
    &&& match s.history_index {
        Some(i) => 0 <= i < s.message_history.len(),
        None => true,
    }
}

/// A fresh ring gains the entry at the front; the oldest entry beyond
/// capacity is dropped.
pub open spec fn spec_push_history(h: Seq<Seq<char>>, c: Seq<char>) -> Seq<Seq<char>> {
    let pushed = seq![c] + h;
    if pushed.len() > HISTORY_CAP { pushed.take(HISTORY_CAP as int) } else { pushed }
}

/// A log gains the entry at the back; entries beyond capacity are evicted
/// oldest first.
pub open spec fn spec_push_log(m: Seq<ChatMessageV>, msg: ChatMessageV) -> Seq<ChatMessageV> {
    let pushed = m.push(msg);
    if pushed.len() > MESSAGE_LOG_CAP {
        pushed.skip(pushed.len() - MESSAGE_LOG_CAP)
    } else {
        pushed
    }
}

pub open spec fn spec_add_message(
    s: ChatSessionV,
    role: MessageRole,
    content: Seq<char>,
    now: int,
) -> ChatSessionV {
    ChatSessionV {
        messages: spec_push_log(
            s.messages,
            ChatMessageV { role, content, timestamp: now },
        ),
        message_history: if role == MessageRole::User {
            spec_push_history(s.message_history, content)
        } else {
            s.message_history
        },
        ..s
    }
}

/// The state of a freshly created session for the given model.
pub open spec fn spec_new_session(model: Seq<char>, now: int) -> ChatSessionV {
    ChatSessionV {
        messages: Seq::<ChatMessageV>::empty(),
        current_model: model,
        is_streaming: false,
        current_response: Seq::<char>::empty(),
        input_buffer: Seq::<char>::empty(),
        total_tokens: 0,
        session_started: now,
        message_history: Seq::<Seq<char>>::empty(),
        history_index: None::<int>,
        temp_input: Seq::<char>::empty(),
    }
}

/// Navigating up swaps the edit buffer for ever-older history entries; the
/// in-progress edit is parked in `temp_input` when navigation begins.  With
/// an empty ring, or at the oldest entry, nothing changes.
pub open spec fn spec_navigate_up(s: ChatSessionV) -> ChatSessionV {
    if s.message_history.len() == 0 {
        s
    } else {
        match s.history_index {
            None => ChatSessionV {
                temp_input: s.input_buffer,
                history_index: Some(0int),
                input_buffer: s.message_history[0],
                ..s
            },
            Some(i) => if i < s.message_history.len() - 1 {
                ChatSessionV {
                    history_index: Some(i + 1),
                    input_buffer: s.message_history[i + 1],
                    ..s
                }
            } else {
                s
            },
        }
    }
}

/// Navigating down moves back toward the newest entry; stepping past it
/// restores the parked edit and ends navigation.
pub open spec fn spec_navigate_down(s: ChatSessionV) -> ChatSessionV {
    match s.history_index {
        Some(i) => if i == 0 {
            ChatSessionV {
                input_buffer: s.temp_input,
                history_index: None::<int>,
                temp_input: Seq::<char>::empty(),
                ..s
            }
        } else {
            ChatSessionV {
                history_index: Some(i - 1),
                input_buffer: s.message_history[i - 1],
                ..s
            }
        },
        None => s,
    }
}

/// Clearing wipes the log, the accumulator, the edit buffer and the token
/// counter, and restarts the clock; the model and the history ring stay.
pub open spec fn spec_clear_session(s: ChatSessionV, now: int) -> ChatSessionV {
    ChatSessionV {
        messages: Seq::<ChatMessageV>::empty(),
        current_response: Seq::<char>::empty(),
        input_buffer: Seq::<char>::empty(),
        total_tokens: 0,
        session_started: now,
        ..s
    }
}

/// The system-message announcement of a model switch.
pub open spec fn spec_switch_notice(model: Seq<char>) -> Seq<char> {
    "Switched to model: "@ + model
}

/// Switching models updates the active model and announces the switch in
/// the log as a system message.
pub open spec fn spec_change_model(s: ChatSessionV, model: Seq<char>, now: int) -> ChatSessionV {
    spec_add_message(
        ChatSessionV { current_model: model, ..s },
        MessageRole::System,
        spec_switch_notice(model),
        now,
    )
}

/// The conversational context of a message log: every non-system message,
/// in insertion order.
pub open spec fn spec_context(messages: Seq<ChatMessageV>) -> Seq<ChatMessageV> {
    messages.filter(|m: ChatMessageV| m.role != MessageRole::System)
}

proof fn lemma_context_empty()
    ensures
        spec_context(Seq::<ChatMessageV>::empty()) == Seq::<ChatMessageV>::empty(),
{
    reveal(Seq::filter);
}

proof fn lemma_context_step(s: Seq<ChatMessageV>)
    requires
        s.len() > 0,
    ensures
        spec_context(s) == if s.last().role != MessageRole::System {
            spec_context(s.drop_last()).push(s.last())
        } else {
            spec_context(s.drop_last())
        },
{
    reveal(Seq::filter);
}

impl ChatSession {
    pub open spec fn wf(&self) -> bool {
        session_wf(self@)
    }

    /// A new session: empty log, empty history, the given model, started now.
    pub fn new(model: String, now_ms: i64) -> (s: ChatSession)
        ensures
            s.wf(),
            s@ == spec_new_session(model@, now_ms as int),
    {
        let s = ChatSession {
            messages: VecDeque::new(),
            current_model: model,
            is_streaming: false,
            current_response: String::new(),
            input_buffer: String::new(),
            total_tokens: 0,
            session_started: now_ms,
            message_history: VecDeque::new(),
            history_index: None,
            temp_input: String::new(),
        };
        proof {
            assert(s@.messages =~= Seq::<ChatMessageV>::empty());
            assert(s@.message_history =~= Seq::<Seq<char>>::empty());
            assert(s@ =~= spec_new_session(s.current_model@, now_ms as int));
        }
        s
    }

    /// Appends a message to the log, evicting the oldest entry past capacity;
    /// a user message is also remembered at the front of the history ring.
    pub fn add_message(&mut self, role: MessageRole, content: String, now_ms: i64)
        requires
            old(self).wf(),
        ensures
            final(self).wf(),
            final(self)@ == spec_add_message(old(self)@, role, content@, now_ms as int),
    {
        let ghost c = content@;
        if role == MessageRole::User {
            self.message_history.push_front(content.clone());
            if self.message_history.len() > HISTORY_CAP {
                self.message_history.pop_back();
            }
            proof {
                assert(self@.message_history =~= spec_push_history(
                    old(self)@.message_history,
                    c,
                ));
            }
        }

        let message = ChatMessage { role, content, timestamp: now_ms };
        self.messages.push_back(message);
        if self.messages.len() > MESSAGE_LOG_CAP {
            self.messages.pop_front();
        }
        proof {
            assert(self@.messages =~= spec_push_log(
                old(self)@.messages,
                ChatMessageV { role, content: c, timestamp: now_ms as int },
            ));
            assert(self@ =~= spec_add_message(old(self)@, role, c, now_ms as int));
        }
    }

    /// Moves the history cursor one entry older, parking the in-progress
    /// edit the first time; a no-op on an empty ring or at the oldest entry.
    pub fn navigate_history_up(&mut self)
        requires
            old(self).wf(),
        ensures
            final(self).wf(),
            final(self)@ == spec_navigate_up(old(self)@),
    {
        if self.message_history.len() == 0 {
            return;
        }

        match self.history_index {
            None => {
                self.temp_input = self.input_buffer.clone();
                self.history_index = Some(0);
                self.input_buffer = self.message_history[0].clone();
            }
            Some(index) => {
                if index < self.message_history.len() - 1 {
                    self.history_index = Some(index + 1);
                    self.input_buffer = self.message_history[index + 1].clone();
                }
            }
        }
        proof {
            assert(self@ =~= spec_navigate_up(old(self)@));
        }
    }

    /// Moves the history cursor one entry newer; stepping past the newest
    /// entry restores the parked edit and ends navigation.
    pub fn navigate_history_down(&mut self)
        requires
            old(self).wf(),
        ensures
            final(self).wf(),
            final(self)@ == spec_navigate_down(old(self)@),
    {
        match self.history_index {
            Some(index) => {
                if index == 0 {
                    self.input_buffer = self.temp_input.clone();
                    self.history_index = None;
                    self.temp_input = String::new();
                } else {
                    self.history_index = Some(index - 1);
                    self.input_buffer = self.message_history[index - 1].clone();
                }
            }
            None => {}
        }
        proof {
            assert(self@ =~= spec_navigate_down(old(self)@));
        }
    }

    /// Ends history navigation without touching the edit buffer.
    pub fn reset_history_navigation(&mut self)
        requires
            old(self).wf(),
        ensures
            final(self).wf(),
            final(self)@ == (ChatSessionV {
                history_index: None::<int>,
                temp_input: Seq::<char>::empty(),
                ..old(self)@
            }),
    {
        self.history_index = None;
        self.temp_input = String::new();
        proof {
            assert(self@ =~= ChatSessionV {
                history_index: None::<int>,
                temp_input: Seq::<char>::empty(),
                ..old(self)@
            });
        }
    }

    /// Wipes the log, accumulator, edit buffer and token counter; keeps the
    /// model and the input history.
    pub fn clear_session(&mut self, now_ms: i64)
        requires
            old(self).wf(),
        ensures
            final(self).wf(),
            final(self)@ == spec_clear_session(old(self)@, now_ms as int),
    {
        self.messages.clear();
        self.current_response = String::new();
        self.input_buffer = String::new();
        self.total_tokens = 0;
        self.session_started = now_ms;
        proof {
            assert(self@.messages =~= Seq::<ChatMessageV>::empty());
            assert(self@ =~= spec_clear_session(old(self)@, now_ms as int));
        }
    }

    /// Switches the active model and logs a system message announcing it.
    pub fn change_model(&mut self, new_model: String, now_ms: i64)
        requires
            old(self).wf(),
        ensures
            final(self).wf(),
            final(self)@ == spec_change_model(old(self)@, new_model@, now_ms as int),
    {
        self.current_model = new_model;
        let mut notice = "Switched to model: ".to_owned();
        string_append(&mut notice, self.current_model.as_str());
        self.add_message(MessageRole::System, notice, now_ms);
    }

    /// The message context handed to a new turn: every non-system message,
    /// in insertion order.  System messages are log annotations, not
    /// conversational content.
    pub fn get_context_for_api(&self) -> (ctx: Vec<ChatMessage>)
        ensures
            ctx@.map_values(|m: ChatMessage| m@) == spec_context(self@.messages),
    {
        let mut ctx: Vec<ChatMessage> = Vec::new();
        proof {
            lemma_context_empty();
            assert(ctx@.map_values(|m: ChatMessage| m@) =~= Seq::<ChatMessageV>::empty());
            assert(self@.messages.take(0) =~= Seq::<ChatMessageV>::empty());
        }
        let n = self.messages.len();
        for i in 0..n
            invariant
                n == self.messages@.len(),
                n == self@.messages.len(),
                ctx@.map_values(|m: ChatMessage| m@) == spec_context(self@.messages.take(i as int)),
        {
            let m = &self.messages[i];
            let ghost t_prev = self@.messages.take(i as int);
            let ghost t_next = self@.messages.take(i + 1);
            proof {
                assert(t_next.drop_last() =~= t_prev);
                assert(t_next.last() == self@.messages[i as int]);
                assert(m@ == self@.messages[i as int]);
                lemma_context_step(t_next);
            }
            let ghost ctx0 = ctx@;
            if !matches!(m.role, MessageRole::System) {
                let copied = ChatMessage {
                    role: m.role,
                    content: m.content.clone(),
                    timestamp: m.timestamp,
                };
                proof {
                    assert(copied@ == m@);
                }
                ctx.push(copied);
                proof {
                    assert(ctx@ == ctx0.push(copied));
                    assert(ctx@.map_values(|m: ChatMessage| m@) =~= ctx0.map_values(
                        |m: ChatMessage| m@,
                    ).push(copied@));
                    assert(ctx@.map_values(|m: ChatMessage| m@) == spec_context(t_next));
                }
            } else {
                proof {
                    assert(t_next.last().role == MessageRole::System);
                    assert(ctx@.map_values(|m: ChatMessage| m@) == spec_context(t_next));
                }
            }
        }
        proof {
            assert(self@.messages.take(n as int) =~= self@.messages);
        }
        ctx
    }

    /// Folds one streamed chat event into the session.  An assistant
    /// fragment extends the accumulator verbatim; a system fragment is a
    /// terminal synthetic error; `done = true` commits the accumulated
    /// reply, folds the usage counter into the token total, and ends the
    /// turn.
    pub fn apply_stream_event(&mut self, event: ChatResponse, now_ms: i64) -> (ctl: TurnCtl)
        requires
            old(self).wf(),
        ensures
            final(self).wf(),
            final(self)@ == spec_apply_stream_event(old(self)@, event@, now_ms as int).0,
            ctl == spec_apply_stream_event(old(self)@, event@, now_ms as int).1,
    {
        match &event.message {
            Some(m) => {
                if str_eq(m.role.as_str(), "system") {
                    self.add_message(MessageRole::System, m.content.clone(), now_ms);
                    self.is_streaming = false;
                    proof {
                        assert(self@ =~= spec_apply_stream_event(
                            old(self)@,
                            event@,
                            now_ms as int,
                        ).0);
                    }
                    return TurnCtl::Errored;
                } else if str_eq(m.role.as_str(), "assistant") {
                    string_append(&mut self.current_response, m.content.as_str());
                }
            }
            None => {}
        }

        if crate::api::event_terminates_turn(&event) {
            if !self.current_response.as_str().is_empty() {
                let reply = self.current_response.clone();
                self.add_message(MessageRole::Assistant, reply, now_ms);
            }
            self.is_streaming = false;
            self.current_response = String::new();
            match event.eval_count {
                Some(c) => {
                    let gained = c as usize;
                    if self.total_tokens > usize::MAX - gained {
                        self.total_tokens = usize::MAX;
                    } else {
                        self.total_tokens = self.total_tokens + gained;
                    }
                }
                None => {}
            }
            proof {
                assert(self@ =~= spec_apply_stream_event(old(self)@, event@, now_ms as int).0);
            }
            TurnCtl::Finished
        } else {
            proof {
                assert(self@ =~= spec_apply_stream_event(old(self)@, event@, now_ms as int).0);
            }
            TurnCtl::Continue
        }
    }
}

/// How the session engine proceeds after folding one event: keep draining,
/// or stop because the turn finished or a system fragment ended it.
#[derive(Debug, Clone, Copy, PartialEq, Eq, Structural)]
pub enum TurnCtl {
    Continue,
    Finished,
    Errored,
}

/// The event carries an assistant-role fragment.
pub open spec fn is_assistant_fragment(ev: ChatResponseV) -> bool {
    match ev.message {
        Some(m) => m.role == "assistant"@,
        None => false,
    }
}

/// The event carries a system-role fragment, a terminal synthetic error.
pub open spec fn is_system_fragment(ev: ChatResponseV) -> bool {
    match ev.message {
        Some(m) => m.role == "system"@,
        None => false,
    }
}

/// The fragment text an event carries, empty when it carries none.
pub open spec fn fragment_text(ev: ChatResponseV) -> Seq<char> {
    match ev.message {
        Some(m) => m.content,
        None => Seq::<char>::empty(),
    }
}

/// The running token total after folding a reported usage counter, held at
/// the machine limit rather than overflowing.
pub open spec fn spec_fold_tokens(total: int, counted: Option<int>) -> int {
    match counted {
        Some(n) => if total + n > usize::MAX as int {
            usize::MAX as int
        } else {
            total + n
        },
        None => total,
    }
}

/// One step of the session engine's streaming state machine.
pub open spec fn spec_apply_stream_event(
    s: ChatSessionV,
    ev: ChatResponseV,
    now: int,
) -> (ChatSessionV, TurnCtl) {
    if is_system_fragment(ev) {
        (
            ChatSessionV {
                is_streaming: false,
                ..spec_add_message(s, MessageRole::System, fragment_text(ev), now)
            },
            TurnCtl::Errored,
        )
    } else {
        let s1 = if is_assistant_fragment(ev) {
            ChatSessionV { current_response: s.current_response + fragment_text(ev), ..s }
        } else {
            s
        };
        if ev.done == Some(true) {
            let s2 = if s1.current_response.len() > 0 {
                spec_add_message(s1, MessageRole::Assistant, s1.current_response, now)
            } else {
                s1
            };
            (
                ChatSessionV {
                    is_streaming: false,
                    current_response: Seq::<char>::empty(),
                    total_tokens: spec_fold_tokens(s2.total_tokens, ev.eval_count),
                    ..s2
                },
                TurnCtl::Finished,
            )
        } else {
            (s1, TurnCtl::Continue)
        }
    }
}

/// The result of folding a sequence of streamed events into a session, in
/// order, stopping as soon as an event ends the turn.
pub open spec fn spec_fold_turn(s: ChatSessionV, evs: Seq<ChatResponseV>, now: int) -> ChatSessionV
    decreases evs.len(),
{
    if evs.len() == 0 {
        s
    } else {
        let step = spec_apply_stream_event(s, evs[0], now);
        if step.1 == TurnCtl::Continue {
            spec_fold_turn(step.0, evs.skip(1), now)
        } else {
            step.0
        }
    }
}

/// The concatenation, in order, of the assistant fragments a sequence of
/// events carries.
pub open spec fn assistant_fragments(evs: Seq<ChatResponseV>) -> Seq<char>
    decreases evs.len(),
{
    if evs.len() == 0 {
        Seq::<char>::empty()
    } else {
        (if is_assistant_fragment(evs[0]) {
            fragment_text(evs[0])
        } else {
            Seq::<char>::empty()
        }) + assistant_fragments(evs.skip(1))
    }
}

/// For a turn delivered as non-terminal, non-system events followed by
/// exactly one `done = true` event, the turn ends with streaming off and an
/// empty accumulator, and the committed assistant message is the in-order
/// concatenation of every assistant fragment seen, appended on top of
/// whatever the accumulator already held; with nothing accumulated, no
/// message is committed.
pub proof fn lemma_turn_reply_is_fragment_concat(
    s: ChatSessionV,
    evs: Seq<ChatResponseV>,
    now: int,
)
    requires
        evs.len() > 0,
        forall|i: int| 0 <= i < evs.len() - 1 ==> (#[trigger] evs[i]).done != Some(true),
        forall|i: int| 0 <= i < evs.len() ==> !is_system_fragment(#[trigger] evs[i]),
        evs.last().done == Some(true),
    ensures
        ({
            let folded = spec_fold_turn(s, evs, now);
            let full = s.current_response + assistant_fragments(evs);
            &&& !folded.is_streaming
            &&& folded.current_response == Seq::<char>::empty()
            &&& (full.len() > 0 ==> folded.messages == spec_push_log(
                s.messages,
                ChatMessageV { role: MessageRole::Assistant, content: full, timestamp: now },
            ))
            &&& (full.len() == 0 ==> folded.messages == s.messages)
        }),
    decreases evs.len(),
{
    let ev = evs[0];
    let head = if is_assistant_fragment(ev) {
        fragment_text(ev)
    } else {
        Seq::<char>::empty()
    };
    let step = spec_apply_stream_event(s, ev, now);
    if evs.len() == 1 {
        assert(evs.last() == ev);
        assert(ev.done == Some(true));
        assert(assistant_fragments(evs.skip(1)) == Seq::<char>::empty());
        assert(assistant_fragments(evs) =~= head);
        assert(s.current_response + assistant_fragments(evs) =~= s.current_response + head);
        assert(step.1 == TurnCtl::Finished);
        assert(spec_fold_turn(s, evs, now) == step.0);
    } else {
        assert(ev.done != Some(true));
        assert(step.1 == TurnCtl::Continue);
        assert(step.0.messages == s.messages);
        assert(step.0.current_response =~= s.current_response + head);

        let rest = evs.skip(1);
        assert(rest.len() == evs.len() - 1);
        assert(forall|i: int| 0 <= i < rest.len() - 1 ==> (#[trigger] rest[i]).done != Some(
            true,
        )) by {
            assert(forall|i: int| 0 <= i < rest.len() - 1 ==> rest[i] == evs[i + 1]);
        }
        assert(forall|i: int| 0 <= i < rest.len() ==> !is_system_fragment(
            #[trigger] rest[i],
        )) by {
            assert(forall|i: int| 0 <= i < rest.len() ==> rest[i] == evs[i + 1]);
        }
        assert(rest.last() == evs.last());
        lemma_turn_reply_is_fragment_concat(step.0, rest, now);
        assert(spec_fold_turn(s, evs, now) == spec_fold_turn(step.0, rest, now));
        assert(step.0.current_response + assistant_fragments(rest) =~= s.current_response
            + assistant_fragments(evs));
    }
}

/// The message log is bounded by its capacity: appending to a full log
/// evicts exactly the oldest entry and keeps the order of the rest.
pub proof fn lemma_log_eviction(s: ChatSessionV, role: MessageRole, content: Seq<char>, now: int)
    requires
        session_wf(s),
    ensures
        ({
            let entry = ChatMessageV { role, content, timestamp: now };
            let after = spec_add_message(s, role, content, now);
            &&& after.messages.len() <= MESSAGE_LOG_CAP
            &&& (s.messages.len() < MESSAGE_LOG_CAP ==> after.messages == s.messages.push(entry))
            &&& (s.messages.len() == MESSAGE_LOG_CAP ==> after.messages
                == s.messages.drop_first().push(entry))
        }),
{
    let entry = ChatMessageV { role, content, timestamp: now };
    if s.messages.len() == MESSAGE_LOG_CAP {
        assert(spec_push_log(s.messages, entry) =~= s.messages.drop_first().push(entry));
    }
}

/// Input history is bounded by its capacity, and the most recent user
/// submission is retrieved by one upward navigation from a fresh
/// (non-navigating) state, with the in-progress edit parked untouched.
pub proof fn lemma_history_retrieval(s: ChatSessionV, content: Seq<char>, now: int)
    requires
        session_wf(s),
        s.history_index is None,
    ensures
        ({
            let submitted = spec_add_message(s, MessageRole::User, content, now);
            let navigated = spec_navigate_up(submitted);
            &&& submitted.message_history.len() <= HISTORY_CAP
            &&& submitted.message_history[0] == content
            &&& navigated.input_buffer == content
            &&& navigated.history_index == Some(0int)
            &&& navigated.temp_input == submitted.input_buffer
        }),
{
}

#[derive(Debug, Clone, PartialEq, Eq, Structural)]
pub enum InputMode {
    Normal,
    Editing,
    ModelSelection,
}

/// The collection of sessions, the active-session cursor, and the model
/// selector state.  Sessions stay in creation order and at least one always
/// exists.
#[derive(Debug, Clone)]
pub struct ChatState {
    pub sessions: Vec<ChatSession>,
    pub active_session_index: usize,
    pub input_mode: InputMode,
    pub show_model_selector: bool,
    pub available_models: Vec<String>,
    pub selected_model_index: usize,
}

pub ghost struct ChatStateV {
    pub sessions: Seq<ChatSessionV>,
    pub active_session_index: int,
    pub input_mode: InputMode,
    pub show_model_selector: bool,
    pub available_models: Seq<Seq<char>>,
    pub selected_model_index: int,
}

impl View for ChatState {
    type V = ChatStateV;

    open spec fn view(&self) -> ChatStateV {
        ChatStateV {
            sessions: self.sessions@.map_values(|s: ChatSession| s@),
            active_session_index: self.active_session_index as int,
            input_mode: self.input_mode,
            show_model_selector: self.show_model_selector,
            available_models: self.available_models@.map_values(|s: String| s@),
            selected_model_index: self.selected_model_index as int,
        }
    }
}

/// At least one session exists, the active index points at one of them, and
/// every session is itself well formed.
pub open spec fn state_wf(s: ChatStateV) -> bool {
    &&& s.sessions.len() >= 1
    &&& 0 <= s.active_session_index < s.sessions.len()
    &&& forall|i: int| 0 <= i < s.sessions.len() ==> session_wf(#[trigger] s.sessions[i])
}

/// The model a fresh state starts with: the first known model, or a
/// baked-in default when none are known yet.
pub open spec fn spec_default_model(models: Seq<Seq<char>>) -> Seq<char> {
    if models.len() > 0 {
        models[0]
    } else {
        "llama3.1:latest"@
    }
}

/// The active session of a state.
pub open spec fn spec_active(s: ChatStateV) -> ChatSessionV {
    s.sessions[s.active_session_index]
}

/// A sibling session seeded with the active session's model becomes the
/// new active session.
pub open spec fn spec_new_session_op(s: ChatStateV, now: int) -> ChatStateV {
    ChatStateV {
        sessions: s.sessions.push(spec_new_session(spec_active(s).current_model, now)),
        active_session_index: s.sessions.len() as int,
        ..s
    }
}

/// Removing the active session keeps at least one session; when the last
/// list entry was removed the active index clamps to the new last entry.
pub open spec fn spec_delete_session(s: ChatStateV) -> ChatStateV {
    if s.sessions.len() <= 1 {
        s
    } else {
        let remaining = s.sessions.remove(s.active_session_index);
        ChatStateV {
            sessions: remaining,
            active_session_index: if s.active_session_index >= remaining.len() {
                remaining.len() - 1
            } else {
                s.active_session_index
            },
            ..s
        }
    }
}

/// Opening the selector enters model-selection mode; closing it returns to
/// normal mode.
pub open spec fn spec_toggle_model_selector(s: ChatStateV) -> ChatStateV {
    let showing = !s.show_model_selector;
    ChatStateV {
        show_model_selector: showing,
        input_mode: if showing { InputMode::ModelSelection } else { InputMode::Normal },
        ..s
    }
}

/// Confirming the selector switches the active session to the highlighted
/// model (when the highlight is in range) and closes the selector.
pub open spec fn spec_select_model(s: ChatStateV, now: int) -> ChatStateV {
    let s1 = if s.selected_model_index < s.available_models.len() {
        ChatStateV {
            sessions: s.sessions.update(
                s.active_session_index,
                spec_change_model(
                    spec_active(s),
                    s.available_models[s.selected_model_index],
                    now,
                ),
            ),
            ..s
        }
    } else {
        s
    };
    ChatStateV { show_model_selector: false, input_mode: InputMode::Normal, ..s1 }
}

/// Replacing one well-formed session of a well-formed state keeps the
/// state well formed.
pub proof fn lemma_state_wf_update(s: ChatStateV, i: int, v: ChatSessionV)
    requires
        state_wf(s),
        0 <= i < s.sessions.len(),
        session_wf(v),
    ensures
        state_wf(ChatStateV { sessions: s.sessions.update(i, v), ..s }),
{
    let updated = s.sessions.update(i, v);
    assert forall|k: int| 0 <= k < updated.len() implies session_wf(#[trigger] updated[k]) by {
        if k != i {
            assert(session_wf(s.sessions[k]));
        }
    }
}

impl ChatState {
    pub open spec fn wf(&self) -> bool {
        state_wf(self@)
    }

    /// One fresh session on the first known model (or the default), normal
    /// input mode, selector closed.
    pub fn new(available_models: Vec<String>, now_ms: i64) -> (s: ChatState)
        ensures
            s.wf(),
            s@.sessions =~= seq![
                spec_new_session(
                    spec_default_model(available_models@.map_values(|m: String| m@)),
                    now_ms as int,
                ),
            ],
            s@.active_session_index == 0,
            s@.input_mode == InputMode::Normal,
            s@.show_model_selector == false,
            s@.available_models == available_models@.map_values(|m: String| m@),
            s@.selected_model_index == 0,
    {
        let default_model = if available_models.len() > 0 {
            available_models[0].clone()
        } else {
            "llama3.1:latest".to_owned()
        };

        let mut sessions: Vec<ChatSession> = Vec::new();
        sessions.push(ChatSession::new(default_model, now_ms));

        let s = ChatState {
            sessions,
            active_session_index: 0,
            input_mode: InputMode::Normal,
            show_model_selector: false,
            available_models,
            selected_model_index: 0,
        };
        proof {
            assert(s@.sessions =~= seq![
                spec_new_session(
                    spec_default_model(s.available_models@.map_values(|m: String| m@)),
                    now_ms as int,
                ),
            ]);
        }
        s
    }

    /// A mutable borrow of the active session.  A caller that leaves the
    /// session well formed leaves the whole state well formed.
    pub fn current_session(&mut self) -> (r: &mut ChatSession)
        requires
            old(self).wf(),
        ensures
            *r == old(self).sessions@[old(self).active_session_index as int],
            final(self).sessions@ == old(self).sessions@.update(
                old(self).active_session_index as int,
                *final(r),
            ),
            final(self).active_session_index == old(self).active_session_index,
            final(self).input_mode == old(self).input_mode,
            final(self).show_model_selector == old(self).show_model_selector,
            final(self).available_models == old(self).available_models,
            final(self).selected_model_index == old(self).selected_model_index,
    {
        let i = self.active_session_index;
        &mut self.sessions[i]
    }

    /// Creates a sibling session on the active session's model and makes it
    /// the active one.
    pub fn new_session(&mut self, now_ms: i64)
        requires
            old(self).wf(),
        ensures
            final(self).wf(),
            final(self)@ == spec_new_session_op(old(self)@, now_ms as int),
    {
        let i = self.active_session_index;
        let model = self.sessions[i].current_model.clone();
        self.sessions.push(ChatSession::new(model, now_ms));
        self.active_session_index = self.sessions.len() - 1;
        proof {
            assert(self@.sessions =~= spec_new_session_op(old(self)@, now_ms as int).sessions);
            assert(self@ =~= spec_new_session_op(old(self)@, now_ms as int));
        }
    }

    /// Removes the active session.  Removing the last remaining session is
    /// a no-op: the session count never reaches zero.
    pub fn delete_session(&mut self)
        requires
            old(self).wf(),
        ensures
            final(self).wf(),
            final(self)@ == spec_delete_session(old(self)@),
            final(self)@.sessions.len() >= 1,
            old(self)@.sessions.len() == 1 ==> final(self)@ == old(self)@,
    {
        if self.sessions.len() > 1 {
            let i = self.active_session_index;
            self.sessions.remove(i);
            if self.active_session_index >= self.sessions.len() {
                self.active_session_index = self.sessions.len() - 1;
            }
            proof {
                assert(self@.sessions =~= spec_delete_session(old(self)@).sessions);
                assert(self@ =~= spec_delete_session(old(self)@));
            }
        }
    }

    /// Shows or hides the model selector, switching the input mode with it.
    pub fn toggle_model_selector(&mut self)
        requires
            old(self).wf(),
        ensures
            final(self).wf(),
            final(self)@ == spec_toggle_model_selector(old(self)@),
    {
        self.show_model_selector = !self.show_model_selector;
        if self.show_model_selector {
            self.input_mode = InputMode::ModelSelection;
        } else {
            self.input_mode = InputMode::Normal;
        }
        proof {
            assert(self@ =~= spec_toggle_model_selector(old(self)@));
        }
    }

    /// Folds one streamed event into the active session; see
    /// [`ChatSession::apply_stream_event`].
    pub fn apply_event_to_active(&mut self, event: ChatResponse, now_ms: i64) -> (ctl: TurnCtl)
        requires
            old(self).wf(),
        ensures
            final(self).wf(),
            final(self)@ == (ChatStateV {
                sessions: old(self)@.sessions.update(
                    old(self)@.active_session_index,
                    spec_apply_stream_event(
                        spec_active(old(self)@),
                        event@,
                        now_ms as int,
                    ).0,
                ),
                ..old(self)@
            }),
            ctl == spec_apply_stream_event(spec_active(old(self)@), event@, now_ms as int).1,
    {
        let i = self.active_session_index;
        let session = &mut self.sessions[i];
        let ctl = session.apply_stream_event(event, now_ms);
        proof {
            assert(self@.sessions =~= old(self)@.sessions.update(
                old(self)@.active_session_index,
                spec_apply_stream_event(spec_active(old(self)@), event@, now_ms as int).0,
            ));
            assert(self@ =~= ChatStateV { sessions: self@.sessions, ..old(self)@ });
            lemma_state_wf_update(
                old(self)@,
                old(self)@.active_session_index,
                spec_apply_stream_event(spec_active(old(self)@), event@, now_ms as int).0,
            );
        }
        ctl
    }

    /// Clears the active session's streaming flag, as the engine does when
    /// the relay disconnects before any terminal event.
    pub fn halt_active_streaming(&mut self)
        requires
            old(self).wf(),
        ensures
            final(self).wf(),
            final(self)@ == (ChatStateV {
                sessions: old(self)@.sessions.update(
                    old(self)@.active_session_index,
                    ChatSessionV { is_streaming: false, ..spec_active(old(self)@) },
                ),
                ..old(self)@
            }),
    {
        let i = self.active_session_index;
        let session = &mut self.sessions[i];
        session.is_streaming = false;
        proof {
            assert(self@.sessions =~= old(self)@.sessions.update(
                old(self)@.active_session_index,
                ChatSessionV { is_streaming: false, ..spec_active(old(self)@) },
            ));
            assert(self@ =~= ChatStateV { sessions: self@.sessions, ..old(self)@ });
            lemma_state_wf_update(
                old(self)@,
                old(self)@.active_session_index,
                ChatSessionV { is_streaming: false, ..spec_active(old(self)@) },
            );
        }
    }

    /// Applies the highlighted catalog entry to the active session and
    /// closes the selector.
    pub fn select_model(&mut self, now_ms: i64)
        requires
            old(self).wf(),
        ensures
            final(self).wf(),
            final(self)@ == spec_select_model(old(self)@, now_ms as int),
    {
        if self.selected_model_index < self.available_models.len() {
            let new_model = self.available_models[self.selected_model_index].clone();
            let i = self.active_session_index;
            let session = &mut self.sessions[i];
            session.change_model(new_model, now_ms);
            proof {
                assert(self@.sessions =~= spec_select_model(old(self)@, now_ms as int).sessions);
            }
        }
        self.show_model_selector = false;
        self.input_mode = InputMode::Normal;
        proof {
            assert(self@ =~= spec_select_model(old(self)@, now_ms as int));
        }
    }
}

} // verus!
