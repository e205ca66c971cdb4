//! The agent: chooses a model for each turn, falls back from the fast to the strong one, and
//! remembers what was said.

use vstd::prelude::*;

use crate::error::{ClientError, ErrorView};
use crate::events::LlmEvent;
use crate::llm::{hinted, hinted_messages, message_views, ChatMessage, MessageView, ModelTier};
use crate::memory::{
    last_n, said, window_spec, DEFAULT_WINDOW, InMemoryStore, MemoryStore, Message, Role, Said,
};
use crate::metrics::EscalationReason;
use crate::text::{
    chars_of, contains, copy_opt, lemma_trim_twice, lower_spec, occurs, occurs_at, opt_str_view,
    opt_view, same, to_ascii_lowercase, trim, trim_spec,
};

verus! {

/// Characters from which on a question goes to the strong model.
pub const DEFAULT_STRONG_MIN_CHARS: usize = 15;

/// Chooses the model by the length of the question.
#[derive(Clone, Copy, Debug)]
pub struct ModelRouter;

impl Default for ModelRouter {
    fn default() -> (r: Self)
        ensures
            r == ModelRouter,
    {
        ModelRouter
    }
}

/// The model for a question: the fast one for a short question, white space around it not
/// counted.
pub open spec fn route_spec(input: Seq<char>) -> ModelTier {
    if trim_spec(input).len() < DEFAULT_STRONG_MIN_CHARS {
        ModelTier::Fast
    } else {
        ModelTier::Strong
    }
}

impl ModelRouter {
    /// The model for a question.
    pub fn route(&self, input: &str) -> (r: ModelTier)
        ensures
            r == route_spec(input@),
    {
        let t = trim(input);
        let n: usize = chars_of(t.as_str()).len();
        if n < DEFAULT_STRONG_MIN_CHARS {
            ModelTier::Fast
        } else {
            ModelTier::Strong
        }
    }
}

/// The error is a time limit that ran out.
pub open spec fn is_timeout(e: ErrorView) -> bool {
    match e {
        ErrorView::Http(m) => occurs(lower_spec(m), "timeout"@) || occurs(lower_spec(m), "timed out"@),
        _ => false,
    }
}

/// Why an error makes the agent fall back to the strong model.
pub open spec fn reason_spec(e: ErrorView) -> EscalationReason {
    if is_timeout(e) {
        EscalationReason::Timeout
    } else {
        EscalationReason::ProviderError
    }
}

/// Why an error makes the agent fall back to the strong model.
pub fn escalation_reason_for(error: &ClientError) -> (r: EscalationReason)
    ensures
        r == reason_spec(error@),
{
    match error {
        ClientError::Http(m) => {
            let low = to_ascii_lowercase(m.as_str());
            if contains(low.as_str(), "timeout") || contains(low.as_str(), "timed out") {
                EscalationReason::Timeout
            } else {
                EscalationReason::ProviderError
            }
        },
        _ => EscalationReason::ProviderError,
    }
}

pub open spec fn empty_response() -> ErrorView {
    ErrorView::Decode("LLM returned an empty response"@)
}

/// The error for an answer without text.
pub fn empty_response_error() -> (r: ClientError)
    ensures
        r@ == empty_response(),
{
    ClientError::Decode("LLM returned an empty response".to_string())
}

/// The messages of a turn: what is remembered, then the question.
pub open spec fn turn_messages_spec(history: Seq<Said>, input: Seq<char>) -> Seq<MessageView> {
    Seq::new(
        history.len(),
        |i: int| MessageView { role: history[i].role.name_spec(), content: history[i].content },
    ).push(MessageView { role: "user"@, content: input })
}

/// The messages of a turn.
pub fn turn_messages(history: &Vec<Message>, user_input: &str) -> (r: Vec<ChatMessage>)
    ensures
        message_views(r@) == turn_messages_spec(said(history@), user_input@),
{
    let ghost want = turn_messages_spec(said(history@), user_input@);
    let mut out: Vec<ChatMessage> = Vec::new();
    for i in 0..history.len()
        invariant
            want == turn_messages_spec(said(history@), user_input@),
            message_views(out@) =~= want.take(i as int),
    {
        let ghost before = out@;
        let h = &history[i];
        out.push(ChatMessage { role: h.role.as_str().to_string(), content: h.content.clone() });
        assert(message_views(out@) =~= message_views(before).push(want[i as int]));
        assert(want.take(i + 1) =~= want.take(i as int).push(want[i as int]));
    }
    let ghost before = out@;
    out.push(ChatMessage { role: "user".to_string(), content: user_input.to_string() });
    assert(message_views(out@) =~= message_views(before).push(want[history@.len() as int]));
    assert(message_views(out@) =~= want);
    out
}

/// The last message of the user.
pub open spec fn last_user(ms: Seq<MessageView>) -> Option<Seq<char>>
    decreases ms.len(),
{
    if ms.len() == 0 {
        None
    } else if ms.last().role == "user"@ {
        Some(ms.last().content)
    } else {
        last_user(ms.drop_last())
    }
}

/// The model for messages that the caller put together: by the last question in them.
pub fn route_messages(messages: &Vec<ChatMessage>) -> (r: ModelTier)
    ensures
        r == (match last_user(message_views(messages@)) {
            Some(q) => route_spec(q),
            None => ModelTier::Fast,
        }),
{
    let ghost all = message_views(messages@);
    let mut i: usize = messages.len();
    assert(all.take(i as int) =~= all);
    while i > 0
        invariant
            i <= messages@.len(),
            all == message_views(messages@),
            last_user(all) == last_user(all.take(i as int)),
        decreases i,
    {
        i -= 1;
        proof {
            assert(all.take(i + 1).drop_last() =~= all.take(i as int));
            assert(all.take(i + 1).last() == messages@[i as int]@);
        }
        if same(messages[i].role.as_str(), "user") {
            return ModelRouter.route(messages[i].content.as_str());
        }
    }
    ModelTier::Fast
}

// ---- a turn ----

/// Where a turn stands.
#[derive(Debug, Clone, Copy, PartialEq, Eq, Structural)]
pub enum TurnPhase {
    /// The model is being asked.
    Asking,
    /// The answer is coming in.
    Answering,
    /// The turn is over.
    Over,
}

/// What happens in a turn.
pub enum TurnEvent {
    /// The model has begun to answer.
    Started,
    /// The model could not be asked.
    StartFailed(ClientError),
    /// A piece of the answer.
    Event(LlmEvent),
    /// The answer broke off.
    StreamFailed(ClientError),
    /// The answer ended.
    StreamEnded,
}

/// What happens in a turn.
pub ghost enum TurnEventView {
    Started,
    StartFailed(ErrorView),
    Event { delta: Seq<char>, is_final: bool },
    StreamFailed(ErrorView),
    StreamEnded,
}

impl View for TurnEvent {
    type V = TurnEventView;

    open spec fn view(&self) -> TurnEventView {
        match *self {
            TurnEvent::Started => TurnEventView::Started,
            TurnEvent::StartFailed(e) => TurnEventView::StartFailed(e@),
            TurnEvent::Event(e) => TurnEventView::Event { delta: e.delta@, is_final: e.is_final },
            TurnEvent::StreamFailed(e) => TurnEventView::StreamFailed(e@),
            TurnEvent::StreamEnded => TurnEventView::StreamEnded,
        }
    }
}

/// What the turn does next.
pub enum TurnNext {
    /// Wait for the next event.
    Wait,
    /// Ask the strong model, for this reason.
    Escalate(EscalationReason),
    /// Nothing; the answer is complete.
    Finish,
    /// Report this error and end.
    Fail(ClientError),
}

pub ghost enum TurnNextView {
    Wait,
    Escalate(EscalationReason),
    Finish,
    Fail(ErrorView),
}

impl View for TurnNext {
    type V = TurnNextView;

    open spec fn view(&self) -> TurnNextView {
        match *self {
            TurnNext::Wait => TurnNextView::Wait,
            TurnNext::Escalate(r) => TurnNextView::Escalate(r),
            TurnNext::Finish => TurnNextView::Finish,
            TurnNext::Fail(e) => TurnNextView::Fail(e@),
        }
    }
}

/// What an event brings about: messages to remember, a piece of the answer to pass on, and what
/// to do next.
pub struct TurnStep {
    pub remember: Vec<Message>,
    pub emit: Option<LlmEvent>,
    pub next: TurnNext,
}

pub ghost struct StepView {
    pub remember: Seq<Said>,
    pub emit: Option<(Seq<char>, bool)>,
    pub next: TurnNextView,
}

impl View for TurnStep {
    type V = StepView;

    open spec fn view(&self) -> StepView {
        StepView {
            remember: said(self.remember@),
            emit: match self.emit {
                Some(e) => Some((e.delta@, e.is_final)),
                None => None,
            },
            next: self.next@,
        }
    }
}

/// The state of a turn.
pub ghost struct TurnState {
    pub phase: TurnPhase,
    pub tier: ModelTier,
    /// Some of the answer was passed on.
    pub visible: bool,
    /// The question is remembered.
    pub recorded: bool,
    /// The answer so far.
    pub answer: Seq<char>,
    /// The question.
    pub input: Seq<char>,
    /// What the models are asked with.
    pub messages: Seq<MessageView>,
    /// The mood of the speaker, where it is known.
    pub hint: Option<Seq<char>>,
}

/// How a model is asked.
#[derive(Debug)]
pub struct ModelRequest {
    pub tier: ModelTier,
    /// What was said, and the question. No note for the model is among them.
    pub messages: Vec<ChatMessage>,
    /// The mood of the speaker, where it is known.
    pub emotion_hint: Option<String>,
}

pub ghost struct RequestView {
    pub tier: ModelTier,
    pub messages: Seq<MessageView>,
    pub hint: Option<Seq<char>>,
}

impl View for ModelRequest {
    type V = RequestView;

    open spec fn view(&self) -> RequestView {
        RequestView {
            tier: self.tier,
            messages: message_views(self.messages@),
            hint: opt_view(self.emotion_hint),
        }
    }
}

impl ModelRequest {
    /// The messages that are sent: a note on the speaker's mood, where it is known, then what was
    /// said.
    pub fn sent_messages(&self) -> (r: Vec<ChatMessage>)
        ensures
            message_views(r@) == hinted(self@.messages, self@.hint),
    {
        let hint: Option<&str> = match &self.emotion_hint {
            Some(h) => Some(h.as_str()),
            None => None,
        };
        hinted_messages(&self.messages, hint)
    }
}

/// How the model is asked in this state of a turn.
pub open spec fn request_of(s: TurnState) -> RequestView {
    RequestView { tier: s.tier, messages: s.messages, hint: s.hint }
}

pub open spec fn quiet(next: TurnNextView) -> StepView {
    StepView { remember: Seq::empty(), emit: None, next }
}

/// The fast model gave nothing: ask the strong one.
pub open spec fn escalate(s: TurnState, reason: EscalationReason) -> (TurnState, StepView) {
    (
        TurnState { phase: TurnPhase::Asking, tier: ModelTier::Strong, ..s },
        quiet(TurnNextView::Escalate(reason)),
    )
}

pub open spec fn over(s: TurnState, next: TurnNextView) -> (TurnState, StepView) {
    (TurnState { phase: TurnPhase::Over, ..s }, quiet(next))
}

/// A piece of the answer arrives.
pub open spec fn on_piece(s: TurnState, delta: Seq<char>, is_final: bool) -> (TurnState, StepView) {
    let shown = delta.len() > 0;
    let t = if shown {
        TurnState { visible: true, recorded: true, answer: s.answer + delta, ..s }
    } else {
        s
    };
    let question = if shown && !s.recorded {
        seq![Said { role: Role::User, content: s.input }]
    } else {
        Seq::empty()
    };
    if is_final && !t.visible {
        if s.tier == ModelTier::Fast {
            escalate(s, EscalationReason::EmptyResponse)
        } else {
            over(s, TurnNextView::Fail(empty_response()))
        }
    } else if is_final {
        (
            TurnState { phase: TurnPhase::Over, answer: Seq::empty(), ..t },
            StepView {
                remember: question.push(Said { role: Role::Assistant, content: t.answer }),
                emit: Some((delta, true)),
                next: TurnNextView::Finish,
            },
        )
    } else {
        (
            t,
            StepView {
                remember: question,
                emit: if t.visible { Some((delta, false)) } else { None },
                next: TurnNextView::Wait,
            },
        )
    }
}

/// What an event does to a turn.
pub open spec fn turn_step(s: TurnState, e: TurnEventView) -> (TurnState, StepView) {
    match (s.phase, e) {
        (TurnPhase::Asking, TurnEventView::Started) => (
            TurnState { phase: TurnPhase::Answering, visible: false, ..s },
            quiet(TurnNextView::Wait),
        ),
        (TurnPhase::Asking, TurnEventView::StartFailed(err)) => if s.tier == ModelTier::Fast {
            escalate(s, reason_spec(err))
        } else {
            over(s, TurnNextView::Fail(err))
        },
        (TurnPhase::Answering, TurnEventView::Event { delta, is_final }) => on_piece(
            s,
            delta,
            is_final,
        ),
        (TurnPhase::Answering, TurnEventView::StreamFailed(err)) => if s.tier == ModelTier::Fast
            && !s.visible {
            escalate(s, reason_spec(err))
        } else {
            over(s, TurnNextView::Fail(err))
        },
        (TurnPhase::Answering, TurnEventView::StreamEnded) => if s.visible {
            over(s, TurnNextView::Finish)
        } else if s.tier == ModelTier::Fast {
            escalate(s, EscalationReason::EmptyResponse)
        } else {
            over(s, TurnNextView::Fail(empty_response()))
        },
        _ => (s, quiet(TurnNextView::Wait)),
    }
}

/// The state at the start of a turn.
pub open spec fn turn_start(
    input: Seq<char>,
    messages: Seq<MessageView>,
    hint: Option<Seq<char>>,
) -> TurnState {
    TurnState {
        phase: TurnPhase::Asking,
        tier: route_spec(input),
        visible: false,
        recorded: false,
        answer: Seq::empty(),
        input,
        messages,
        hint,
    }
}

/// One turn of a conversation. It is told what happens and says what to do.
pub struct AgentTurn {
    phase: TurnPhase,
    tier: ModelTier,
    visible: bool,
    recorded: bool,
    answer: String,
    input: String,
    messages: Vec<ChatMessage>,
    emotion_hint: Option<String>,
}

impl View for AgentTurn {
    type V = TurnState;

    closed spec fn view(&self) -> TurnState {
        TurnState {
            phase: self.phase,
            tier: self.tier,
            visible: self.visible,
            recorded: self.recorded,
            answer: self.answer@,
            input: self.input@,
            messages: message_views(self.messages@),
            hint: opt_view(self.emotion_hint),
        }
    }
}

fn silent(next: TurnNext) -> (r: TurnStep)
    ensures
        r@ == quiet(next@),
{
    let s = TurnStep { remember: Vec::new(), emit: None, next };
    assert(said(s.remember@) =~= Seq::<Said>::empty());
    s
}

impl AgentTurn {
    /// Starts the turn for a question. These are the messages with which the models are asked.
    pub fn new(user_input: &str, messages: Vec<ChatMessage>, emotion_hint: Option<&str>) -> (r: Self)
        ensures
            r@ == turn_start(user_input@, message_views(messages@), opt_str_view(emotion_hint)),
    {
        AgentTurn {
            phase: TurnPhase::Asking,
            tier: ModelRouter.route(user_input),
            visible: false,
            recorded: false,
            answer: String::new(),
            input: user_input.to_string(),
            messages,
            emotion_hint: match emotion_hint {
                Some(h) => Some(h.to_string()),
                None => None,
            },
        }
    }

    /// How the model is asked: at the start, and again where the strong one is to be asked.
    pub fn request(&self) -> (r: ModelRequest)
        ensures
            r@ == request_of(self@),
    {
        ModelRequest {
            tier: self.tier,
            messages: hinted_messages(&self.messages, None),
            emotion_hint: copy_opt(&self.emotion_hint),
        }
    }

    /// The model that is asked.
    pub fn tier(&self) -> (r: ModelTier)
        ensures
            r == self@.tier,
    {
        self.tier
    }

    /// Where the turn stands.
    pub fn phase(&self) -> (r: TurnPhase)
        ensures
            r == self@.phase,
    {
        self.phase
    }

    fn escalate(&mut self, reason: EscalationReason) -> (r: TurnStep)
        ensures
            (final(self)@, r@) == escalate(old(self)@, reason),
    {
        self.phase = TurnPhase::Asking;
        self.tier = ModelTier::Strong;
        silent(TurnNext::Escalate(reason))
    }

    fn end(&mut self, next: TurnNext) -> (r: TurnStep)
        ensures
            (final(self)@, r@) == over(old(self)@, next@),
    {
        self.phase = TurnPhase::Over;
        silent(next)
    }

    fn is_fast(&self) -> (r: bool)
        ensures
            r == (self@.tier == ModelTier::Fast),
    {
        match self.tier {
            ModelTier::Fast => true,
            ModelTier::Strong => false,
        }
    }

    fn on_piece(&mut self, event: LlmEvent) -> (r: TurnStep)
        ensures
            (final(self)@, r@) == on_piece(old(self)@, event.delta@, event.is_final),
    {
        let shown = !event.delta.as_str().is_empty();
        if event.is_final && !self.visible && !shown {
            return if self.is_fast() {
                self.escalate(EscalationReason::EmptyResponse)
            } else {
                self.end(TurnNext::Fail(empty_response_error()))
            };
        }
        let ghost before = self@;
        let mut remember: Vec<Message> = Vec::new();
        if shown {
            if !self.recorded {
                remember.push(Message { role: Role::User, content: self.input.clone() });
            }
            self.recorded = true;
            self.visible = true;
            self.answer.append(event.delta.as_str());
        }
        let ghost question = if shown && !before.recorded {
            seq![Said { role: Role::User, content: before.input }]
        } else {
            Seq::empty()
        };
        assert(said(remember@) =~= question);
        if event.is_final {
            let mut answer: String = String::new();
            core::mem::swap(&mut self.answer, &mut answer);
            let ghost full = answer@;
            remember.push(Message { role: Role::Assistant, content: answer });
            assert(said(remember@) =~= question.push(Said { role: Role::Assistant, content: full }));
            self.phase = TurnPhase::Over;
            TurnStep { remember, emit: Some(event), next: TurnNext::Finish }
        } else {
            let emit = if self.visible { Some(event) } else { None };
            TurnStep { remember, emit, next: TurnNext::Wait }
        }
    }

    /// Tells the turn what happened.
    pub fn step(&mut self, event: TurnEvent) -> (r: TurnStep)
        ensures
            (final(self)@, r@) == turn_step(old(self)@, event@),
    {
        match (self.phase, event) {
            (TurnPhase::Asking, TurnEvent::Started) => {
                self.phase = TurnPhase::Answering;
                self.visible = false;
                silent(TurnNext::Wait)
            },
            (TurnPhase::Asking, TurnEvent::StartFailed(e)) => {
                if self.is_fast() {
                    let reason = escalation_reason_for(&e);
                    self.escalate(reason)
                } else {
                    self.end(TurnNext::Fail(e))
                }
            },
            (TurnPhase::Answering, TurnEvent::Event(e)) => self.on_piece(e),
            (TurnPhase::Answering, TurnEvent::StreamFailed(e)) => {
                if self.is_fast() && !self.visible {
                    let reason = escalation_reason_for(&e);
                    self.escalate(reason)
                } else {
                    self.end(TurnNext::Fail(e))
                }
            },
            (TurnPhase::Answering, TurnEvent::StreamEnded) => {
                if self.visible {
                    self.end(TurnNext::Finish)
                } else if self.is_fast() {
                    self.escalate(EscalationReason::EmptyResponse)
                } else {
                    self.end(TurnNext::Fail(empty_response_error()))
                }
            },
            _ => silent(TurnNext::Wait),
        }
    }
}

// ---- the agent ----

/// Holds the memory that its turns read and write.
pub struct LlmAgent<S: MemoryStore> {
    pub store: S,
}

impl LlmAgent<InMemoryStore> {
    /// An agent that remembers `DEFAULT_WINDOW` messages of each session in this process.
    pub fn new() -> (r: Self)
        ensures
            r.store.store_ok(),
            r.store.window() == DEFAULT_WINDOW,
            forall|s: Seq<char>| #[trigger] r.store.memory(s) == Seq::<Said>::empty(),
    {
        LlmAgent { store: InMemoryStore::new(DEFAULT_WINDOW) }
    }

    /// An agent that remembers `window_size` messages of each session, at least one.
    pub fn with_window(window_size: usize) -> (r: Self)
        ensures
            r.store.store_ok(),
            r.store.window() == window_spec(window_size),
            forall|s: Seq<char>| #[trigger] r.store.memory(s) == Seq::<Said>::empty(),
    {
        LlmAgent { store: InMemoryStore::new(window_size) }
    }
}

impl<S: MemoryStore> LlmAgent<S> {
    /// An agent with this memory.
    pub fn with_store(store: S) -> (r: Self)
        ensures
            r.store == store,
    {
        LlmAgent { store }
    }

    /// Forgets a session.
    pub fn clear_memory(&mut self, session_id: &str)
        requires
            old(self).store.store_ok(),
        ensures
            final(self).store.store_ok(),
            final(self).store.window() == old(self).store.window(),
            final(self).store.memory(session_id@) == Seq::<Said>::empty(),
            forall|s: Seq<char>|
                s != session_id@ ==> #[trigger] final(self).store.memory(s) == old(
                    self,
                ).store.memory(s),
    {
        self.store.clear(session_id);
    }

    /// How many messages of a session are remembered.
    pub fn memory_len(&self, session_id: &str) -> (r: usize)
        requires
            self.store.store_ok(),
        ensures
            r == self.store.memory(session_id@).len(),
    {
        self.store.len(session_id)
    }

    /// Starts a turn: its state, and how the model is asked. The speaker's mood goes along beside
    /// the messages; none of them tells it.
    pub fn chat(&self, session_id: &str, user_input: &str, emotion_hint: Option<&str>) -> (r: (
        AgentTurn,
        ModelRequest,
    ))
        requires
            self.store.store_ok(),
        ensures
            r.0@ == turn_start(
                user_input@,
                turn_messages_spec(self.store.memory(session_id@), user_input@),
                opt_str_view(emotion_hint),
            ),
            r.1@ == request_of(r.0@),
            r.1@.tier == route_spec(user_input@),
            r.1@.hint == opt_str_view(emotion_hint),
            r.1@.messages == turn_messages_spec(self.store.memory(session_id@), user_input@),
    {
        let history = self.store.history(session_id);
        let turn = AgentTurn::new(user_input, turn_messages(&history, user_input), emotion_hint);
        let request = turn.request();
        (turn, request)
    }

    /// Remembers what a step of a turn asks for.
    pub fn remember(&mut self, session_id: &str, messages: Vec<Message>)
        requires
            old(self).store.store_ok(),
        ensures
            final(self).store.store_ok(),
            final(self).store.window() == old(self).store.window(),
            final(self).store.memory(session_id@) == last_n(
                old(self).store.memory(session_id@) + said(messages@),
                old(self).store.window(),
            ),
            forall|s: Seq<char>|
                s != session_id@ ==> #[trigger] final(self).store.memory(s) == old(
                    self,
                ).store.memory(s),
    {
        let ghost n = self.store.window();
        let ghost start = self.store.memory(session_id@);
        let ghost all = said(messages@);
        proof {
            self.store.within_window(session_id@);
            assert(start + all.take(0) =~= start);
        }
        for i in 0..messages.len()
            invariant
                self.store.store_ok(),
                1 <= n,
                n == old(self).store.window(),
                self.store.window() == n,
                start == old(self).store.memory(session_id@),
                all == said(messages@),
                self.store.memory(session_id@) == last_n(start + all.take(i as int), n),
                forall|s: Seq<char>|
                    s != session_id@ ==> #[trigger] self.store.memory(s) == old(
                        self,
                    ).store.memory(s),
        {
            let ghost so_far = start + all.take(i as int);
            let m = messages[i].clone();
            self.store.append(session_id, m);
            proof {
                assert(start + all.take(i + 1) =~= so_far.push(all[i as int]));
                assert(last_n(last_n(so_far, n).push(all[i as int]), n) =~= last_n(
                    so_far.push(all[i as int]),
                    n,
                ));
            }
        }
        assert(all.take(messages@.len() as int) =~= all);
    }
}

// ---- what holds of whole turns ----

/// The states and steps of a turn in which these events happen.
pub open spec fn turn_run(s: TurnState, events: Seq<TurnEventView>) -> (TurnState, Seq<StepView>)
    decreases events.len(),
{
    if events.len() == 0 {
        (s, Seq::empty())
    } else {
        let (t, steps) = turn_run(s, events.drop_last());
        let (u, step) = turn_step(t, events.last());
        (u, steps.push(step))
    }
}

/// How many of the steps ask the strong model.
pub open spec fn escalations(steps: Seq<StepView>) -> nat
    decreases steps.len(),
{
    if steps.len() == 0 {
        0
    } else {
        escalations(steps.drop_last()) + if steps.last().next is Escalate { 1nat } else { 0nat }
    }
}

/// Everything that the steps remember, in order.
pub open spec fn all_remembered(steps: Seq<StepView>) -> Seq<Said>
    decreases steps.len(),
{
    if steps.len() == 0 {
        Seq::empty()
    } else {
        all_remembered(steps.drop_last()) + steps.last().remember
    }
}

/// The text that the steps pass on, joined.
pub open spec fn all_emitted(steps: Seq<StepView>) -> Seq<char>
    decreases steps.len(),
{
    if steps.len() == 0 {
        Seq::empty()
    } else {
        all_emitted(steps.drop_last()) + (match steps.last().emit {
            Some(e) => e.0,
            None => Seq::empty(),
        })
    }
}

/// What holds after every step of a turn.
pub open spec fn turn_invariant(s: TurnState, steps: Seq<StepView>, start: TurnState) -> bool {
    let input = start.input;
    let question = Said { role: Role::User, content: input };
    &&& s.input == input
    &&& s.messages == start.messages
    &&& s.hint == start.hint
    &&& escalations(steps) <= 1
    &&& escalations(steps) == 1 ==> s.tier == ModelTier::Strong
    &&& s.phase is Asking ==> !s.visible && all_emitted(steps).len() == 0 && !s.recorded
        && s.answer.len() == 0
    &&& s.phase is Answering ==> s.visible == s.recorded && s.answer == all_emitted(steps) && (s.visible
        <==> all_emitted(steps).len() > 0)
    &&& s.phase !is Over ==> all_remembered(steps) == (if s.recorded {
        seq![question]
    } else {
        Seq::empty()
    })
    &&& s.phase is Over ==> ({
        ||| all_remembered(steps) == Seq::<Said>::empty() && all_emitted(steps).len() == 0
        ||| all_remembered(steps) == seq![question] && all_emitted(steps).len() > 0
        ||| all_remembered(steps) == seq![
            question,
            Said { role: Role::Assistant, content: all_emitted(steps) },
        ] && all_emitted(steps).len() > 0
    })
}

proof fn lemma_step_keeps_invariant(
    t: TurnState,
    steps: Seq<StepView>,
    e: TurnEventView,
    start: TurnState,
)
    requires
        turn_invariant(t, steps, start),
    ensures
        turn_invariant(turn_step(t, e).0, steps.push(turn_step(t, e).1), start),
{
    let input = start.input;
    let (u, step) = turn_step(t, e);
    let after = steps.push(step);
    assert(after.drop_last() =~= steps);
    assert(after.last() == step);
    let question = Said { role: Role::User, content: input };
    let base = all_remembered(steps);
    let shown = all_emitted(steps);
    assert(all_remembered(after) == base + step.remember);
    assert(base + Seq::<Said>::empty() =~= base);
    assert(shown + Seq::<char>::empty() =~= shown);
    if t.phase is Answering && e is Event {
        let delta = e->delta;
        let is_final = e->is_final;
        let answer = t.answer + delta;
        let now_visible = t.visible || delta.len() > 0;
        if is_final && !now_visible {
            assert(step.remember =~= Seq::<Said>::empty());
            assert(all_remembered(after) == base);
            assert(all_emitted(after) == shown);
            assert(shown.len() == 0);
            assert(base =~= Seq::<Said>::empty());
        } else {
            let said_answer = Said { role: Role::Assistant, content: answer };
            let asked = if delta.len() > 0 && !t.recorded {
                seq![question]
            } else {
                Seq::<Said>::empty()
            };
            if delta.len() == 0 {
                assert(answer =~= t.answer);
                assert(shown + delta =~= shown);
            }
            if now_visible {
                assert(base + asked =~= seq![question]);
                assert(base + asked.push(said_answer) =~= seq![question, said_answer]);
                assert(all_emitted(after) == shown + delta);
            } else {
                assert(all_emitted(after) == shown);
                assert(base + asked =~= base);
            }
            if is_final {
                assert(step.remember == asked.push(said_answer));
            } else {
                assert(step.remember == asked);
            }
        }
    } else {
        assert(step.remember =~= Seq::<Said>::empty());
        assert(step.emit is None);
        assert(all_remembered(after) == base);
        assert(all_emitted(after) == shown);
        if t.phase is Asking {
            assert(t.answer =~= shown);
        }
    }
}

proof fn lemma_turn_invariant(
    input: Seq<char>,
    messages: Seq<MessageView>,
    hint: Option<Seq<char>>,
    events: Seq<TurnEventView>,
)
    ensures
        ({
            let start = turn_start(input, messages, hint);
            turn_invariant(turn_run(start, events).0, turn_run(start, events).1, start)
        }),
    decreases events.len(),
{
    let start = turn_start(input, messages, hint);
    if events.len() > 0 {
        lemma_turn_invariant(input, messages, hint, events.drop_last());
        let (t, steps) = turn_run(start, events.drop_last());
        lemma_step_keeps_invariant(t, steps, events.last(), start);
    }
}

/// Whatever happens in a turn, the strong model is asked at most once, and only before any of
/// the answer was passed on.
pub proof fn law_escalates_at_most_once(
    input: Seq<char>,
    messages: Seq<MessageView>,
    hint: Option<Seq<char>>,
    events: Seq<TurnEventView>,
)
    ensures
        ({
            let (s, steps) = turn_run(turn_start(input, messages, hint), events);
            &&& escalations(steps) <= 1
            &&& forall|e: TurnEventView|
                (#[trigger] turn_step(s, e)).1.next is Escalate ==> all_emitted(steps).len() == 0
                    && s.tier == ModelTier::Fast && escalations(steps) == 0
        }),
{
    lemma_turn_invariant(input, messages, hint, events);
}

/// Whatever happens in a turn, each model that is asked is asked with the same messages and the
/// same hint; a turn that falls back asks the strong model.
pub proof fn law_each_model_is_asked_the_same(
    input: Seq<char>,
    messages: Seq<MessageView>,
    hint: Option<Seq<char>>,
    events: Seq<TurnEventView>,
)
    ensures
        ({
            let (s, steps) = turn_run(turn_start(input, messages, hint), events);
            &&& request_of(s).messages == messages
            &&& request_of(s).hint == hint
            &&& escalations(steps) == 1 ==> request_of(s).tier == ModelTier::Strong
            &&& escalations(steps) == 0 ==> request_of(s).tier == route_spec(input)
        }),
    decreases events.len(),
{
    lemma_turn_invariant(input, messages, hint, events);
    if events.len() > 0 {
        law_each_model_is_asked_the_same(input, messages, hint, events.drop_last());
        let (t, steps) = turn_run(turn_start(input, messages, hint), events.drop_last());
        let step = turn_step(t, events.last()).1;
        assert(steps.push(step).drop_last() =~= steps);
    }
}

/// Whatever happens in a turn, what is remembered of it is nothing, the question, or the question
/// and the answer; nothing where nothing was passed on, and the answer is what was passed on.
pub proof fn law_remembers_what_was_said(
    input: Seq<char>,
    messages: Seq<MessageView>,
    hint: Option<Seq<char>>,
    events: Seq<TurnEventView>,
)
    ensures
        ({
            let (s, steps) = turn_run(turn_start(input, messages, hint), events);
            let question = Said { role: Role::User, content: input };
            let answer = Said { role: Role::Assistant, content: all_emitted(steps) };
            &&& all_remembered(steps).len() == 0 <==> all_emitted(steps).len() == 0
            &&& all_remembered(steps).len() > 0 ==> all_remembered(steps) == seq![question]
                || all_remembered(steps) == seq![question, answer]
        }),
{
    lemma_turn_invariant(input, messages, hint, events);
}

/// The messages of a turn hold no note for the model unless one is remembered.
pub proof fn law_no_note_among_the_messages(history: Seq<Said>, input: Seq<char>)
    requires
        forall|i: int| 0 <= i < history.len() ==> (#[trigger] history[i]).role != Role::System,
    ensures
        forall|i: int|
            0 <= i < turn_messages_spec(history, input).len() ==> (#[trigger] turn_messages_spec(
                history,
                input,
            )[i]).role != "system"@,
{
    reveal_strlit("system");
    reveal_strlit("user");
    reveal_strlit("assistant");
    assert("system"@.len() != "user"@.len());
    assert("system"@.len() != "assistant"@.len());
    let ms = turn_messages_spec(history, input);
    assert forall|i: int| 0 <= i < ms.len() implies (#[trigger] ms[i]).role != "system"@ by {
        if i < history.len() {
            assert(history[i].role != Role::System);
        }
    }
}

/// A complete exchange leaves the question and the answer as the latest of what is remembered.
pub proof fn law_exchange_is_remembered(before: Seq<Said>, question: Said, answer: Said, n: int)
    requires
        2 <= n,
        before.len() <= n,
    ensures
        ({
            let after = last_n(before + seq![question, answer], n);
            &&& after.len() >= 2
            &&& after[after.len() - 2] == question
            &&& after[after.len() - 1] == answer
        }),
{
}

/// A turn that is over stays over and does nothing more.
pub proof fn law_over_is_over(s: TurnState, e: TurnEventView)
    requires
        s.phase is Over,
    ensures
        turn_step(s, e) == (s, quiet(TurnNextView::Wait)),
{
}

/// The pieces that a model brings in a turn, joined.
pub open spec fn all_brought(s: TurnState, events: Seq<TurnEventView>) -> Seq<char>
    decreases events.len(),
{
    if events.len() == 0 {
        Seq::empty()
    } else {
        let t = turn_run(s, events.drop_last()).0;
        all_brought(s, events.drop_last()) + (match events.last() {
            TurnEventView::Event { delta, .. } => if t.phase is Answering {
                delta
            } else {
                Seq::empty()
            },
            _ => Seq::empty(),
        })
    }
}

/// Everything that the models say in a turn is passed on, in order: the pieces that are passed on,
/// joined, are the pieces that came, joined.
pub proof fn law_everything_said_is_passed_on(s: TurnState, events: Seq<TurnEventView>)
    ensures
        all_emitted(turn_run(s, events).1) == all_brought(s, events),
    decreases events.len(),
{
    if events.len() > 0 {
        law_everything_said_is_passed_on(s, events.drop_last());
        let (t, steps) = turn_run(s, events.drop_last());
        let step = turn_step(t, events.last()).1;
        let all = steps.push(step);
        assert(all.drop_last() =~= steps);
        assert(all.last() == step);
        assert(all_emitted(steps) + Seq::<char>::empty() =~= all_emitted(steps));
        match events.last() {
            TurnEventView::Event { delta, is_final } => {
                if t.phase is Answering && delta.len() == 0 {
                    assert(all_emitted(steps) + delta =~= all_emitted(steps));
                }
            },
            _ => {},
        }
    }
}

/// A fast model that fails before it said anything, or ends without a word, is followed by the
/// strong one, which is asked the same; the turn goes on and nothing is told or remembered.
pub proof fn law_fast_failure_falls_back(s: TurnState, e: TurnEventView)
    requires
        s.tier == ModelTier::Fast,
        !s.visible,
        ({
            ||| (s.phase is Asking && e is StartFailed)
            ||| (s.phase is Answering && (e is StreamFailed || e is StreamEnded))
            ||| (s.phase is Answering && (e matches TurnEventView::Event { delta, is_final } && is_final
                && delta.len() == 0))
        }),
    ensures
        ({
            let (t, step) = turn_step(s, e);
            &&& step.next is Escalate
            &&& step.emit is None
            &&& step.remember.len() == 0
            &&& t.phase is Asking
            &&& request_of(t) == (RequestView { tier: ModelTier::Strong, ..request_of(s) })
        }),
{
}

/// A failure that nothing can make up for is reported as it came: one of the strong model, and one
/// after something was passed on.
pub proof fn law_last_failure_is_reported(s: TurnState, e: TurnEventView, err: ErrorView)
    requires
        ({
            ||| (s.phase is Asking && s.tier == ModelTier::Strong && e == TurnEventView::StartFailed(err))
            ||| (s.phase is Answering && (s.tier == ModelTier::Strong || s.visible) && e
                == TurnEventView::StreamFailed(err))
        }),
    ensures
        turn_step(s, e).1.next == TurnNextView::Fail(err),
        turn_step(s, e).0.phase is Over,
        turn_step(s, e).1.emit is None,
{
}

/// A complete answer is remembered whole, behind its question.
pub proof fn law_complete_answer_is_remembered(
    input: Seq<char>,
    messages: Seq<MessageView>,
    hint: Option<Seq<char>>,
    events: Seq<TurnEventView>,
    delta: Seq<char>,
)
    requires
        ({
            let (t, steps) = turn_run(turn_start(input, messages, hint), events);
            t.phase is Answering && all_emitted(steps).len() + delta.len() > 0
        }),
    ensures
        ({
            let end = TurnEventView::Event { delta, is_final: true };
            let start = turn_start(input, messages, hint);
            let (t, steps) = turn_run(start, events.push(end));
            &&& t.phase is Over
            &&& steps.last().next is Finish
            &&& all_remembered(steps) == seq![
                Said { role: Role::User, content: input },
                Said { role: Role::Assistant, content: all_brought(start, events.push(end)) },
            ]
        }),
{
    let end = TurnEventView::Event { delta, is_final: true };
    let start = turn_start(input, messages, hint);
    assert(events.push(end).drop_last() =~= events);
    lemma_turn_invariant(input, messages, hint, events);
    lemma_turn_invariant(input, messages, hint, events.push(end));
    law_everything_said_is_passed_on(start, events.push(end));
    law_everything_said_is_passed_on(start, events);
    let (t, steps) = turn_run(start, events);
    let (u, step) = turn_step(t, end);
    let after = steps.push(step);
    assert(after.drop_last() =~= steps);
    assert(after.last() == step);
    assert(step.remember.len() > 0);
    assert(step.remember.last().role == Role::Assistant);
    assert(all_remembered(after) == all_remembered(steps) + step.remember);
    assert(all_remembered(after).last() == step.remember.last());
}

/// What is remembered is said again in the order in which it was said, each with its own role, and
/// the question comes last.
pub proof fn law_turn_goes_on_from_memory(history: Seq<Said>, input: Seq<char>)
    ensures
        ({
            let ms = turn_messages_spec(history, input);
            &&& ms.len() == history.len() + 1
            &&& ms.last() == (MessageView { role: "user"@, content: input })
            &&& forall|i: int|
                0 <= i < history.len() ==> (#[trigger] ms[i]).content == history[i].content && ms[i].role
                    == (match history[i].role {
                    Role::System => "system"@,
                    Role::User => "user"@,
                    Role::Assistant => "assistant"@,
                })
        }),
{
}

/// The last question decides, whatever the others said since.
pub proof fn law_last_question_decides(ms: Seq<MessageView>, question: Seq<char>, m: MessageView)
    requires
        m.role != "user"@,
    ensures
        last_user(ms.push(MessageView { role: "user"@, content: question })) == Some(question),
        last_user(ms.push(m)) == last_user(ms),
        last_user(Seq::empty()) is None,
{
    assert(ms.push(m).drop_last() =~= ms);
}

/// Only the length of a question decides which model answers, and a longer one never gets the
/// weaker model.
pub proof fn law_longer_questions_get_the_stronger_model(a: Seq<char>, b: Seq<char>)
    requires
        trim_spec(a).len() <= trim_spec(b).len(),
    ensures
        route_spec(a) == ModelTier::Strong ==> route_spec(b) == ModelTier::Strong,
        route_spec(a) == ModelTier::Fast <==> trim_spec(a).len() < DEFAULT_STRONG_MIN_CHARS,
        route_spec(a) == route_spec(trim_spec(a)),
{
    lemma_trim_twice(a);
}

/// From the first word on every piece is passed on at once, and the turn goes on until the last.
pub proof fn law_pieces_are_passed_on_at_once(s: TurnState, delta: Seq<char>)
    requires
        s.phase is Answering,
    ensures
        ({
            let (t, step) = turn_step(s, TurnEventView::Event { delta, is_final: false });
            &&& s.visible || delta.len() > 0 ==> step.emit == Some((delta, false)) && t.visible
            &&& !s.visible && delta.len() == 0 ==> step.emit is None && t == s
            &&& step.next is Wait
            &&& t.phase is Answering
            &&& t.answer == s.answer + delta
        }),
{
    assert(s.answer + Seq::<char>::empty() =~= s.answer);
    if delta.len() == 0 {
        assert(s.answer + delta =~= s.answer);
    }
}

/// A message of the transport that speaks of a time limit, in whatever case, is one that ran out;
/// every other failure is the provider's.
pub proof fn law_timeouts_are_recognised(a: Seq<char>, b: Seq<char>, m: Seq<char>, e: ErrorView)
    ensures
        lower_spec(m) == a + "timeout"@ + b ==> reason_spec(ErrorView::Http(m))
            == EscalationReason::Timeout,
        lower_spec(m) == a + "timed out"@ + b ==> reason_spec(ErrorView::Http(m))
            == EscalationReason::Timeout,
        !(e is Http) ==> reason_spec(e) == EscalationReason::ProviderError,
        !occurs(lower_spec(m), "timeout"@) && !occurs(lower_spec(m), "timed out"@) ==> reason_spec(
            ErrorView::Http(m),
        ) == EscalationReason::ProviderError,
{
    let low = lower_spec(m);
    let n = a.len() as int;
    if low == a + "timeout"@ + b {
        assert(low.subrange(n, n + "timeout"@.len()) =~= "timeout"@);
        assert(occurs_at(low, "timeout"@, n));
    }
    if low == a + "timed out"@ + b {
        assert(low.subrange(n, n + "timed out"@.len()) =~= "timed out"@);
        assert(occurs_at(low, "timed out"@, n));
    }
}

} // verus!
