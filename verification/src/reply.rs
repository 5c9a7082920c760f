//! The course of one chat reply, as a state machine: the caller reports what
//! happened (the request was sent, the provider answered, text arrived, a
//! payload was parsed, time passed, the stream ended, the user cancelled,
//! something failed) and performs the actions it gets back.
use vstd::prelude::*;
use crate::diagnostic::{Diagnostic, DiagnosticView};
use crate::provider::{ProviderConfig, ProviderId};
use crate::stream::{
    closing_event, drain_events, drained, event_data, no_first_response,
    no_first_response_error, reply_too_long, reply_too_long_error, stream_stalled,
    stream_stalled_error,
};
use crate::text::{chars_of, extend, owned, string_of, strings_view, trim};

verus! {

pub const CONNECTING_MESSAGE: &'static str = "Conectando con el proveedor…";

pub const PREPARING_MESSAGE: &'static str = "El modelo está preparando la respuesta…";

pub const RECEIVING_MESSAGE: &'static str = "Recibiendo respuesta…";

/// Where a reply stands.
#[derive(Clone, Copy, Debug, PartialEq, Eq, Structural)]
pub enum StreamPhase {
    /// The request is on its way; no answer yet.
    Connecting,
    /// The provider answered and the reply streams in.
    Receiving,
    /// The stream ended; the rest of the buffer is being parsed.
    Closing,
    /// The reply is over: done, cancelled or failed.
    Over,
}

/// A reply in progress: its phase, the text received and not yet split into
/// events, the stream's framing, the time limits of the connection and when
/// data last arrived (milliseconds since the request started).
#[derive(Clone, Debug)]
pub struct ChatStreamState {
    pub phase: StreamPhase,
    pub buffer: String,
    pub sse: bool,
    pub first_response_secs: u64,
    pub inactivity_secs: u64,
    pub max_response_secs: u64,
    pub last_activity_ms: u64,
}

pub struct StreamStateView {
    pub phase: StreamPhase,
    pub buffer: Seq<char>,
    pub sse: bool,
    pub first_response_secs: u64,
    pub inactivity_secs: u64,
    pub max_response_secs: u64,
    pub last_activity_ms: u64,
}

impl View for ChatStreamState {
    type V = StreamStateView;

    open spec fn view(&self) -> StreamStateView {
        StreamStateView {
            phase: self.phase,
            buffer: self.buffer@,
            sse: self.sse,
            first_response_secs: self.first_response_secs,
            inactivity_secs: self.inactivity_secs,
            max_response_secs: self.max_response_secs,
            last_activity_ms: self.last_activity_ms,
        }
    }
}

/// What happened to a reply; times are milliseconds since the request
/// started.
#[derive(Debug)]
pub enum ChatStreamEvent {
    /// The request was sent.
    Sent,
    /// The provider answered successfully.
    Responded { elapsed_ms: u64 },
    /// Text of the stream arrived.
    Chunk { text: String, elapsed_ms: u64 },
    /// A payload handed out by `Parse` was read: its reasoning, its text and
    /// whether it ends the reply.
    Parsed { reasoning: Option<String>, text: Option<String>, done: bool },
    /// Time passed.
    Tick { elapsed_ms: u64 },
    /// The stream closed.
    StreamEnd,
    /// The user cancelled.
    Cancelled,
    /// The request or the stream failed.
    Failed(Diagnostic),
}

pub enum EventView {
    Sent,
    Responded(u64),
    Chunk(Seq<char>, u64),
    Parsed(Option<Seq<char>>, Option<Seq<char>>, bool),
    Tick(u64),
    StreamEnd,
    Cancelled,
    Failed(DiagnosticView),
}

pub open spec fn text_view(o: Option<String>) -> Option<Seq<char>> {
    match o {
        Some(s) => Some(s@),
        None => None,
    }
}

pub open spec fn event_view(e: ChatStreamEvent) -> EventView {
    match e {
        ChatStreamEvent::Sent => EventView::Sent,
        ChatStreamEvent::Responded { elapsed_ms } => EventView::Responded(elapsed_ms),
        ChatStreamEvent::Chunk { text, elapsed_ms } => EventView::Chunk(text@, elapsed_ms),
        ChatStreamEvent::Parsed { reasoning, text, done } => EventView::Parsed(
            text_view(reasoning),
            text_view(text),
            done,
        ),
        ChatStreamEvent::Tick { elapsed_ms } => EventView::Tick(elapsed_ms),
        ChatStreamEvent::StreamEnd => EventView::StreamEnd,
        ChatStreamEvent::Cancelled => EventView::Cancelled,
        ChatStreamEvent::Failed(d) => EventView::Failed(d@),
    }
}

/// What the caller must do.
#[derive(Debug)]
pub enum ChatAction {
    /// Show a status message.
    Status(String),
    /// Parse this payload and report it back with `Parsed`.
    Parse(String),
    /// Show reasoning text.
    Reasoning(String),
    /// Show reply text.
    Delta(String),
    /// The reply is complete.
    Done,
    /// The reply was cancelled.
    Cancelled,
    /// The reply failed.
    Fail(Diagnostic),
}

pub enum ActionView {
    Status(Seq<char>),
    Parse(Seq<char>),
    Reasoning(Seq<char>),
    Delta(Seq<char>),
    Done,
    Cancelled,
    Fail(DiagnosticView),
}

pub open spec fn action_view(a: ChatAction) -> ActionView {
    match a {
        ChatAction::Status(s) => ActionView::Status(s@),
        ChatAction::Parse(s) => ActionView::Parse(s@),
        ChatAction::Reasoning(s) => ActionView::Reasoning(s@),
        ChatAction::Delta(s) => ActionView::Delta(s@),
        ChatAction::Done => ActionView::Done,
        ChatAction::Cancelled => ActionView::Cancelled,
        ChatAction::Fail(d) => ActionView::Fail(d@),
    }
}

pub open spec fn actions_view(v: Seq<ChatAction>) -> Seq<ActionView> {
    v.map_values(|a: ChatAction| action_view(a))
}

/// The actions that end a reply.
pub open spec fn ends_reply(a: ActionView) -> bool {
    a is Done || a is Cancelled || a is Fail
}

pub open spec fn with_phase(s: StreamStateView, phase: StreamPhase) -> StreamStateView {
    StreamStateView { phase, ..s }
}

/// The reasoning, then the text, of a parsed payload, where present.
pub open spec fn shown(reasoning: Option<Seq<char>>, text: Option<Seq<char>>) -> Seq<ActionView> {
    (match reasoning {
        Some(r) => seq![ActionView::Reasoning(r)],
        None => Seq::empty(),
    }) + (match text {
        Some(t) => seq![ActionView::Delta(t)],
        None => Seq::empty(),
    })
}

/// One step of a reply. An ended reply ignores everything. Otherwise a
/// cancellation or a failure ends it at once. While connecting, no answer
/// within the first-response limit fails it. While receiving, it fails once
/// the whole reply outlasts the maximum, or when no data came for the
/// inactivity limit; arriving text is split into events whose non-empty
/// payloads are handed out for parsing, in order; a parsed payload shows its
/// reasoning and text and, when it says so, completes the reply. When the
/// stream ends, what is left in the buffer is parsed last (unless it is blank)
/// and the reply completes.
pub open spec fn chat_step_spec(s: StreamStateView, e: EventView) -> (StreamStateView, Seq<ActionView>) {
    if s.phase == StreamPhase::Over {
        (s, Seq::empty())
    } else {
        match e {
            EventView::Cancelled => (with_phase(s, StreamPhase::Over), seq![ActionView::Cancelled]),
            EventView::Failed(d) => (with_phase(s, StreamPhase::Over), seq![ActionView::Fail(d)]),
            EventView::Sent => if s.phase == StreamPhase::Connecting {
                (s, seq![ActionView::Status(PREPARING_MESSAGE@)])
            } else {
                (s, Seq::empty())
            },
            EventView::Responded(t) => if s.phase == StreamPhase::Connecting {
                (
                    StreamStateView { phase: StreamPhase::Receiving, last_activity_ms: t, ..s },
                    seq![ActionView::Status(RECEIVING_MESSAGE@)],
                )
            } else {
                (s, Seq::empty())
            },
            EventView::Tick(t) => if s.phase == StreamPhase::Connecting {
                if t >= s.first_response_secs * 1000 {
                    (
                        with_phase(s, StreamPhase::Over),
                        seq![ActionView::Fail(no_first_response(s.first_response_secs))],
                    )
                } else {
                    (s, Seq::empty())
                }
            } else if s.phase == StreamPhase::Receiving {
                if t > s.max_response_secs * 1000 {
                    (with_phase(s, StreamPhase::Over), seq![ActionView::Fail(reply_too_long())])
                } else if t >= s.last_activity_ms + s.inactivity_secs * 1000 {
                    (with_phase(s, StreamPhase::Over), seq![ActionView::Fail(stream_stalled())])
                } else {
                    (s, Seq::empty())
                }
            } else {
                (s, Seq::empty())
            },
            EventView::Chunk(text, t) => if s.phase == StreamPhase::Receiving {
                let d = drained(s.buffer + text, s.sse);
                (
                    StreamStateView { buffer: d.1, last_activity_ms: t, ..s },
                    d.0.map_values(|p: Seq<char>| ActionView::Parse(p)),
                )
            } else {
                (s, Seq::empty())
            },
            EventView::Parsed(reasoning, text, done) => if s.phase == StreamPhase::Receiving {
                if done {
                    (
                        with_phase(s, StreamPhase::Over),
                        shown(reasoning, text).push(ActionView::Done),
                    )
                } else {
                    (s, shown(reasoning, text))
                }
            } else if s.phase == StreamPhase::Closing {
                (with_phase(s, StreamPhase::Over), shown(reasoning, text).push(ActionView::Done))
            } else {
                (s, Seq::empty())
            },
            EventView::StreamEnd => if s.phase == StreamPhase::Receiving {
                if trim(s.buffer).len() == 0 {
                    (with_phase(s, StreamPhase::Over), seq![ActionView::Done])
                } else {
                    (
                        with_phase(s, StreamPhase::Closing),
                        seq![ActionView::Parse(event_data(s.buffer, s.sse))],
                    )
                }
            } else {
                (s, Seq::empty())
            },
        }
    }
}

/// A reply about to be requested over `config`, and the status it opens
/// with.
pub fn chat_stream_start(config: &ProviderConfig) -> (r: (ChatStreamState, Vec<ChatAction>))
    ensures
        r.0@ == (StreamStateView {
            phase: StreamPhase::Connecting,
            buffer: Seq::empty(),
            sse: config.provider != ProviderId::Ollama,
            first_response_secs: config.first_response_timeout_secs,
            inactivity_secs: config.inactivity_timeout_secs,
            max_response_secs: config.max_response_timeout_secs,
            last_activity_ms: 0,
        }),
        actions_view(r.1@) == seq![ActionView::Status(CONNECTING_MESSAGE@)],
{
    let state = ChatStreamState {
        phase: StreamPhase::Connecting,
        buffer: String::new(),
        sse: config.provider != ProviderId::Ollama,
        first_response_secs: config.first_response_timeout_secs,
        inactivity_secs: config.inactivity_timeout_secs,
        max_response_secs: config.max_response_timeout_secs,
        last_activity_ms: 0,
    };
    let actions = vec![ChatAction::Status(owned(CONNECTING_MESSAGE))];
    assert(actions_view(actions@) =~= seq![ActionView::Status(CONNECTING_MESSAGE@)]);
    (state, actions)
}

fn copy_state(s: &ChatStreamState) -> (r: ChatStreamState)
    ensures
        r@ == s@,
{
    ChatStreamState {
        phase: s.phase,
        buffer: s.buffer.clone(),
        sse: s.sse,
        first_response_secs: s.first_response_secs,
        inactivity_secs: s.inactivity_secs,
        max_response_secs: s.max_response_secs,
        last_activity_ms: s.last_activity_ms,
    }
}

fn ended(s: &ChatStreamState) -> (r: ChatStreamState)
    ensures
        r@ == with_phase(s@, StreamPhase::Over),
{
    ChatStreamState { phase: StreamPhase::Over, ..copy_state(s) }
}

fn shown_actions(reasoning: Option<String>, text: Option<String>) -> (r: Vec<ChatAction>)
    ensures
        actions_view(r@) == shown(text_view(reasoning), text_view(text)),
{
    let mut v: Vec<ChatAction> = Vec::new();
    match reasoning {
        Some(x) => v.push(ChatAction::Reasoning(x)),
        None => {},
    }
    let ghost first = actions_view(v@);
    match text {
        Some(x) => v.push(ChatAction::Delta(x)),
        None => {},
    }
    assert(actions_view(v@) =~= shown(text_view(reasoning), text_view(text)));
    v
}

fn push_done(v: Vec<ChatAction>) -> (r: Vec<ChatAction>)
    ensures
        actions_view(r@) == actions_view(v@).push(ActionView::Done),
{
    let mut v = v;
    let ghost before = actions_view(v@);
    v.push(ChatAction::Done);
    assert(actions_view(v@) =~= before.push(ActionView::Done));
    v
}

fn single(a: ChatAction) -> (r: Vec<ChatAction>)
    ensures
        actions_view(r@) == seq![action_view(a)],
{
    let v = vec![a];
    assert(actions_view(v@) =~= seq![action_view(v@[0])]);
    v
}

/// One step of a reply (see `chat_step_spec`).
pub fn chat_stream_step(state: &ChatStreamState, event: ChatStreamEvent) -> (r: (ChatStreamState, Vec<ChatAction>))
    ensures
        (r.0@, actions_view(r.1@)) == chat_step_spec(state@, event_view(event)),
{
    let ghost ev = event_view(event);
    if state.phase == StreamPhase::Over {
        let v: Vec<ChatAction> = Vec::new();
        assert(actions_view(v@) =~= Seq::<ActionView>::empty());
        return (copy_state(state), v);
    }
    let nothing: Vec<ChatAction> = Vec::new();
    assert(actions_view(nothing@) =~= Seq::<ActionView>::empty());
    match event {
        ChatStreamEvent::Cancelled => (ended(state), single(ChatAction::Cancelled)),
        ChatStreamEvent::Failed(d) => (ended(state), single(ChatAction::Fail(d))),
        ChatStreamEvent::Sent => if state.phase == StreamPhase::Connecting {
            (copy_state(state), single(ChatAction::Status(owned(PREPARING_MESSAGE))))
        } else {
            (copy_state(state), nothing)
        },
        ChatStreamEvent::Responded { elapsed_ms } => if state.phase == StreamPhase::Connecting {
            (
                ChatStreamState {
                    phase: StreamPhase::Receiving,
                    last_activity_ms: elapsed_ms,
                    ..copy_state(state)
                },
                single(ChatAction::Status(owned(RECEIVING_MESSAGE))),
            )
        } else {
            (copy_state(state), nothing)
        },
        ChatStreamEvent::Tick { elapsed_ms } => {
            let t = elapsed_ms as u128;
            if state.phase == StreamPhase::Connecting {
                if t >= (state.first_response_secs as u128) * 1000 {
                    (ended(state), single(ChatAction::Fail(no_first_response_error(state.first_response_secs))))
                } else {
                    (copy_state(state), nothing)
                }
            } else if state.phase == StreamPhase::Receiving {
                if t > (state.max_response_secs as u128) * 1000 {
                    (ended(state), single(ChatAction::Fail(reply_too_long_error())))
                } else if t >= (state.last_activity_ms as u128) + (state.inactivity_secs as u128) * 1000 {
                    (ended(state), single(ChatAction::Fail(stream_stalled_error())))
                } else {
                    (copy_state(state), nothing)
                }
            } else {
                (copy_state(state), nothing)
            }
        },
        ChatStreamEvent::Chunk { text, elapsed_ms } => if state.phase == StreamPhase::Receiving {
            let mut all = chars_of(state.buffer.as_str());
            extend(&mut all, &chars_of(text.as_str()));
            let mut buffer = string_of(&all);
            let payloads = drain_events(&mut buffer, state.sse);
            let mut actions: Vec<ChatAction> = Vec::new();
            let mut i: usize = 0;
            let mut payloads = payloads;
            let ghost pv = strings_view(payloads@);
            let n = payloads.len();
            while i < n
                invariant
                    n == payloads.len(),
                    i <= n,
                    pv == strings_view(payloads@),
                    actions_view(actions@) == pv.take(i as int).map_values(
                        |p: Seq<char>| ActionView::Parse(p),
                    ),
                decreases n - i,
            {
                let p = payloads[i].clone();
                let ghost before = actions_view(actions@);
                actions.push(ChatAction::Parse(p));
                assert(pv.take(i + 1) =~= pv.take(i as int).push(pv[i as int]));
                assert(actions_view(actions@) =~= before.push(ActionView::Parse(pv[i as int])));
                i += 1;
            }
            assert(pv.take(n as int) =~= pv);
            (
                ChatStreamState { buffer, last_activity_ms: elapsed_ms, ..copy_state(state) },
                actions,
            )
        } else {
            (copy_state(state), nothing)
        },
        ChatStreamEvent::Parsed { reasoning, text, done } => if state.phase == StreamPhase::Receiving {
            if done {
                (ended(state), push_done(shown_actions(reasoning, text)))
            } else {
                (copy_state(state), shown_actions(reasoning, text))
            }
        } else if state.phase == StreamPhase::Closing {
            (ended(state), push_done(shown_actions(reasoning, text)))
        } else {
            (copy_state(state), nothing)
        },
        ChatStreamEvent::StreamEnd => if state.phase == StreamPhase::Receiving {
            match closing_event(state.buffer.as_str(), state.sse) {
                None => (ended(state), single(ChatAction::Done)),
                Some(payload) => (
                    ChatStreamState { phase: StreamPhase::Closing, ..copy_state(state) },
                    single(ChatAction::Parse(payload)),
                ),
            }
        } else {
            (copy_state(state), nothing)
        },
    }
}

// ---------------------------------------------------------------- laws

/// An ended reply stays ended and does nothing more.
pub proof fn lemma_ended_reply_is_silent(s: StreamStateView, e: EventView)
    requires
        s.phase == StreamPhase::Over,
    ensures
        chat_step_spec(s, e) == (s, Seq::<ActionView>::empty()),
{
}

/// A step ends the reply exactly when it reports an ending (done, cancelled
/// or failed), that ending is its last action, and no other action of the
/// step is one.
pub proof fn lemma_one_ending_last(s: StreamStateView, e: EventView)
    ensures
        ({
            let (t, a) = chat_step_spec(s, e);
            &&& (s.phase != StreamPhase::Over && t.phase == StreamPhase::Over) <==> (a.len() > 0
                && ends_reply(a.last()))
            &&& forall|i: int| 0 <= i < a.len() - 1 ==> !ends_reply(#[trigger] a[i])
        }),
{
    let (t, a) = chat_step_spec(s, e);
    if s.phase != StreamPhase::Over {
        match e {
            EventView::Chunk(text, time) => {
                if s.phase == StreamPhase::Receiving {
                    let d = drained(s.buffer + text, s.sse);
                    assert forall|i: int| 0 <= i < a.len() implies !ends_reply(#[trigger] a[i]) by {
                        assert(a[i] == ActionView::Parse(d.0[i]));
                    }
                }
            },
            EventView::Parsed(reasoning, text, done) => {
                let sh = shown(reasoning, text);
                assert forall|i: int| 0 <= i < sh.len() implies !ends_reply(#[trigger] sh[i]) by {
                    match reasoning {
                        Some(r) => {
                            assert(sh[0] == ActionView::Reasoning(r));
                        },
                        None => {},
                    }
                }
                if (s.phase == StreamPhase::Receiving && done) || s.phase == StreamPhase::Closing {
                    assert(a =~= sh.push(ActionView::Done));
                    assert forall|i: int| 0 <= i < a.len() - 1 implies !ends_reply(#[trigger] a[i]) by {
                        assert(a[i] == sh[i]);
                    }
                } else if s.phase == StreamPhase::Receiving {
                    assert(a == sh);
                    if a.len() > 0 {
                        assert(!ends_reply(sh[a.len() - 1]));
                    }
                }
            },
            _ => {},
        }
    }
}

/// Cancelling a reply that has not ended ends it, with nothing but the
/// cancellation reported.
pub proof fn lemma_cancellation_ends_reply(s: StreamStateView)
    requires
        s.phase != StreamPhase::Over,
    ensures
        chat_step_spec(s, EventView::Cancelled) == (with_phase(s, StreamPhase::Over), seq![ActionView::Cancelled]),
{
}

} // verus!
