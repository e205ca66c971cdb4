//! The conversations of this server, one for each connection: where a message goes, and when a
//! conversation begins and ends.

use vstd::prelude::*;

use dashmap::DashMap;

use crate::payload::{PayloadView, VoicePayload};
use crate::session::{
    payload_step, run_step, run_stop, AudioView, ConversationView, RunEvent,
    RunEventView, RunPhase, RunStep, RunStepView, RunView, SessionAction, SessionActionView,
    SessionState, Ticket, UtteranceRun, VoiceSession,
};
use crate::text::{concat3, same};

verus! {

/// The conversations, by the name of their session.
pub type Conversations = DashMap<String, VoiceSession>;

/// The conversations in the map.
pub uninterp spec fn conversations(map: Conversations) -> Map<Seq<char>, ConversationView>;

/// No conversations.
pub open spec fn no_conversations() -> Map<Seq<char>, ConversationView> {
    Map::empty()
}

/// `DashMap::new`: a map without entries.
#[verifier::external_body]
fn conversations_new() -> (r: Conversations)
    ensures
        conversations(r) == no_conversations(),
{
    DashMap::new()
}

/// `DashMap::remove`: takes the value of a key out, where it has one. The map is taken by
/// exclusive reference, so nothing else changes it meanwhile.
#[verifier::external_body]
fn conversations_remove(map: &mut Conversations, key: &str) -> (r: Option<VoiceSession>)
    ensures
        conversations(*final(map)) == conversations(*old(map)).remove(key@),
        r is Some <==> conversations(*old(map)).contains_key(key@),
        r is Some ==> r->0@ == conversations(*old(map))[key@],
{
    match map.remove(key) {
        Some((_, value)) => Some(value),
        None => None,
    }
}

/// `DashMap::insert`: sets the value of a key. The map is taken by exclusive reference, so
/// nothing else changes it meanwhile.
#[verifier::external_body]
fn conversations_insert(map: &mut Conversations, key: String, value: VoiceSession)
    ensures
        conversations(*final(map)) == conversations(*old(map)).insert(key@, value@),
{
    map.insert(key, value);
}

/// `DashMap::len`: how many entries there are.
#[verifier::external_body]
fn conversations_len(map: &Conversations) -> (r: usize)
    ensures
        r == conversations(*map).dom().len(),
{
    map.len()
}

/// What comes from a connection.
#[derive(Debug)]
pub enum WsData {
    WsMessage {
        business: String,
        actor: String,
        connid: String,
        /// What the message says, where that could be read.
        payload: Option<VoicePayload>,
    },
    WsConnect,
    WsDisconnect { session_id: String },
}

/// Where what came goes.
#[derive(Debug)]
pub enum WsOutcome {
    /// There is nothing to do.
    Ignored,
    /// Live recognition takes it.
    LiveAsr { session_id: String, payload: VoicePayload },
    /// The conversation took it.
    Conversation { session_id: String, action: SessionAction },
    /// The conversation is gone, and everything of it is cancelled for good.
    Removed { session_id: String },
}

pub ghost enum WsOutcomeView {
    Ignored,
    LiveAsr { session_id: Seq<char>, payload: PayloadView },
    Conversation { session_id: Seq<char>, action: SessionActionView },
    Removed { session_id: Seq<char> },
}

impl View for WsOutcome {
    type V = WsOutcomeView;

    open spec fn view(&self) -> WsOutcomeView {
        match *self {
            WsOutcome::Ignored => WsOutcomeView::Ignored,
            WsOutcome::LiveAsr { session_id, payload } => WsOutcomeView::LiveAsr {
                session_id: session_id@,
                payload: payload@,
            },
            WsOutcome::Conversation { session_id, action } => WsOutcomeView::Conversation {
                session_id: session_id@,
                action: action@,
            },
            WsOutcome::Removed { session_id } => WsOutcomeView::Removed { session_id: session_id@ },
        }
    }
}

/// The name of the session of a connection.
pub open spec fn session_name(business: Seq<char>, actor: Seq<char>, connid: Seq<char>) -> Seq<char> {
    business + "-"@ + actor + "-"@ + connid
}

/// A conversation that begins with the message of this stamp.
pub open spec fn fresh(session_id: Seq<char>, now: u64, stamp: u64) -> ConversationView {
    ConversationView {
        session_id,
        state: SessionState::Idle,
        closed: false,
        epoch: stamp,
        answering: None,
        audio: AudioView { bytes: Seq::empty(), started_at: now },
        sample_rate: 0,
        channels: 0,
        tts_sample_rate: None,
        voice: None,
    }
}

/// The conversations, and the stamp of the last message that one of them took.
pub ghost struct ServiceView {
    pub conversations: Map<Seq<char>, ConversationView>,
    pub stamp: u64,
}

/// The stamp of the next message. No stamp is given twice, not even to two conversations of one
/// name.
pub open spec fn next_stamp(v: ServiceView) -> u64 {
    (v.stamp + 1) as u64
}

/// The conversation of a session, which begins where there is none.
pub open spec fn conversation_of(v: ServiceView, id: Seq<char>, now: u64) -> ConversationView {
    if v.conversations.contains_key(id) {
        v.conversations[id]
    } else {
        fresh(id, now, next_stamp(v))
    }
}

/// What becomes of the conversations when a message comes, and where it goes.
pub open spec fn message_step(
    v: ServiceView,
    business: Seq<char>,
    id: Seq<char>,
    payload: Option<PayloadView>,
    now: u64,
) -> (ServiceView, WsOutcomeView) {
    match payload {
        None => (v, WsOutcomeView::Ignored),
        Some(p) => if business == "live-asr"@ {
            (v, WsOutcomeView::LiveAsr { session_id: id, payload: p })
        } else {
            let stamp = next_stamp(v);
            let (after, action) = payload_step(conversation_of(v, id, now), p, now, stamp);
            (
                ServiceView { conversations: v.conversations.insert(id, after), stamp },
                WsOutcomeView::Conversation { session_id: id, action },
            )
        },
    }
}

pub open spec fn opt_payload(p: Option<VoicePayload>) -> Option<PayloadView> {
    match p {
        Some(v) => Some(v@),
        None => None,
    }
}

/// What becomes of the conversations, and where what came goes.
pub open spec fn wsdata_spec(v: ServiceView, data: WsData, now: u64) -> (
    ServiceView,
    WsOutcomeView,
) {
    match data {
        WsData::WsMessage { business, actor, connid, payload } => message_step(
            v,
            business@,
            session_name(business@, actor@, connid@),
            opt_payload(payload),
            now,
        ),
        WsData::WsConnect => (v, WsOutcomeView::Ignored),
        WsData::WsDisconnect { session_id } => (
            ServiceView { conversations: v.conversations.remove(session_id@), ..v },
            WsOutcomeView::Removed { session_id: session_id@ },
        ),
    }
}

/// What happens to the processing of an utterance does this to the conversations. Where the
/// conversation is gone the processing ends in silence.
pub open spec fn service_step(v: ServiceView, r: RunView, e: RunEventView) -> (
    ServiceView,
    RunView,
    RunStepView,
) {
    if v.conversations.contains_key(r.session_id) {
        let (after, run, step) = run_step(v.conversations[r.session_id], r, e);
        (
            ServiceView { conversations: v.conversations.insert(r.session_id, after), ..v },
            run,
            step,
        )
    } else {
        (v, RunView { phase: RunPhase::Over, ..r }, run_stop(Seq::empty()))
    }
}

/// The conversations of this server.
pub struct VoiceService {
    sessions: Conversations,
    stamp: u64,
}

impl View for VoiceService {
    type V = ServiceView;

    closed spec fn view(&self) -> ServiceView {
        ServiceView { conversations: conversations(self.sessions), stamp: self.stamp }
    }
}

impl VoiceService {
    /// No connections yet.
    pub fn new() -> (r: Self)
        ensures
            r@ == (ServiceView { conversations: no_conversations(), stamp: 0 }),
            in_order(r@),
    {
        VoiceService { sessions: conversations_new(), stamp: 0 }
    }

    /// How many conversations there are.
    pub fn session_count(&self) -> (r: usize)
        ensures
            r == self@.conversations.dom().len(),
    {
        conversations_len(&self.sessions)
    }

    /// The stamp of the last message that a conversation took.
    pub fn stamp(&self) -> (r: u64)
        ensures
            r == self@.stamp,
    {
        self.stamp
    }

    fn message(&mut self, business: &str, id: String, payload: VoicePayload, now: u64) -> (r: WsOutcome)
        requires
            old(self)@.stamp < u64::MAX,
        ensures
            (final(self)@, r@) == message_step(old(self)@, business@, id@, Some(payload@), now),
    {
        if same(business, "live-asr") {
            return WsOutcome::LiveAsr { session_id: id, payload };
        }
        let ghost before = self@.conversations;
        self.stamp = self.stamp + 1;
        let mut session = match conversations_remove(&mut self.sessions, id.as_str()) {
            Some(s) => s,
            None => VoiceSession::new(id.clone(), now, self.stamp),
        };
        let action = session.on_payload(payload, now, self.stamp);
        conversations_insert(&mut self.sessions, id.clone(), session);
        assert(self@.conversations =~= before.insert(id@, session@));
        WsOutcome::Conversation { session_id: id, action }
    }

    /// Takes what comes from a connection, at this time in milliseconds.
    pub fn wsdata(&mut self, data: WsData, now: u64) -> (r: WsOutcome)
        requires
            data is WsMessage ==> old(self)@.stamp < u64::MAX,
        ensures
            (final(self)@, r@) == wsdata_spec(old(self)@, data, now),
    {
        match data {
            WsData::WsMessage { business, actor, connid, payload } => {
                let head = concat3(business.as_str(), "-", actor.as_str());
                let id = concat3(head.as_str(), "-", connid.as_str());
                match payload {
                    Some(p) => self.message(business.as_str(), id, p, now),
                    None => WsOutcome::Ignored,
                }
            },
            WsData::WsConnect => WsOutcome::Ignored,
            WsData::WsDisconnect { session_id } => {
                let _gone = conversations_remove(&mut self.sessions, session_id.as_str());
                WsOutcome::Removed { session_id }
            },
        }
    }

    /// Takes what happens to the processing of an utterance.
    pub fn step(&mut self, run: &mut UtteranceRun, event: RunEvent) -> (r: RunStep)
        requires
            old(run).wf(),
        ensures
            final(run).wf(),
            (final(self)@, final(run)@, r@) == service_step(old(self)@, old(run)@, event@),
    {
        let ghost before = self@.conversations;
        let id = run.session_id();
        match conversations_remove(&mut self.sessions, id.as_str()) {
            Some(s) => {
                let mut session = s;
                let step = session.step(run, event);
                conversations_insert(&mut self.sessions, id, session);
                assert(self@.conversations =~= before.insert(id@, session@));
                step
            },
            None => {
                assert(self@.conversations =~= before);
                run.give_up()
            },
        }
    }
}

/// What comes from one connection changes no conversation of another.
pub proof fn law_conversations_are_separate(
    v: ServiceView,
    business: Seq<char>,
    id: Seq<char>,
    payload: Option<PayloadView>,
    now: u64,
    other: Seq<char>,
)
    requires
        other != id,
    ensures
        ({
            let after = message_step(v, business, id, payload, now).0.conversations;
            &&& after.contains_key(other) == v.conversations.contains_key(other)
            &&& v.conversations.contains_key(other) ==> after[other] == v.conversations[other]
        }),
{
}

/// The processing of an utterance changes no conversation but its own.
pub proof fn law_processing_stays_in_its_conversation(
    v: ServiceView,
    r: RunView,
    e: RunEventView,
    other: Seq<char>,
)
    requires
        other != r.session_id,
    ensures
        ({
            let after = service_step(v, r, e).0.conversations;
            &&& after.contains_key(other) == v.conversations.contains_key(other)
            &&& v.conversations.contains_key(other) ==> after[other] == v.conversations[other]
        }),
{
}

/// Messages for live recognition, and those that cannot be read, do not touch a conversation.
pub proof fn law_other_messages_touch_nothing(
    v: ServiceView,
    business: Seq<char>,
    id: Seq<char>,
    payload: Option<PayloadView>,
    now: u64,
)
    requires
        payload is None || business == "live-asr"@,
    ensures
        message_step(v, business, id, payload, now).0 == v,
{
}

/// What a connection brings after its conversation is gone begins a new one.
pub proof fn law_conversation_begins_afresh(
    v: ServiceView,
    business: Seq<char>,
    id: Seq<char>,
    payload: PayloadView,
    now: u64,
)
    requires
        business != "live-asr"@,
        !v.conversations.contains_key(id),
    ensures
        message_step(v, business, id, Some(payload), now).0.conversations[id] == payload_step(
            fresh(id, now, next_stamp(v)),
            payload,
            now,
            next_stamp(v),
        ).0,
{
}

// ---- what is cancelled stays cancelled ----

/// Something that happens to the conversations.
pub ghost enum Happening {
    /// Something comes from a connection.
    Ws { data: WsData, now: u64 },
    /// Something happens to the processing of an utterance.
    Run { run: RunView, event: RunEventView },
}

/// The conversations after something happened.
pub open spec fn service_next(v: ServiceView, h: Happening) -> ServiceView {
    match h {
        Happening::Ws { data, now } => wsdata_spec(v, data, now).0,
        Happening::Run { run, event } => service_step(v, run, event).0,
    }
}

/// The conversations after all of this happened, in this order.
pub open spec fn service_run(v: ServiceView, hs: Seq<Happening>) -> ServiceView
    decreases hs.len(),
{
    if hs.len() == 0 {
        v
    } else {
        service_next(service_run(v, hs.drop_last()), hs.last())
    }
}

/// A ticket as conversations give them out: it is not older than what it belongs to.
pub open spec fn issued(t: Ticket) -> bool {
    t.epoch <= t.id
}

/// What a conversation holds is in the order in which its messages came.
pub open spec fn conversation_in_order(s: ConversationView, stamp: u64) -> bool {
    &&& s.epoch <= stamp
    &&& s.answering matches Some(id) ==> s.epoch <= id
    &&& s.closed ==> s.answering is None
}

/// What the conversations hold is in the order in which their messages came.
pub open spec fn in_order(v: ServiceView) -> bool {
    forall|name: Seq<char>| #[trigger]
        v.conversations.contains_key(name) ==> conversation_in_order(
            v.conversations[name],
            v.stamp,
        )
}

/// What can happen: the stamps last, and what is processed has a ticket that was given out.
pub open spec fn can_happen(v: ServiceView, h: Happening) -> bool {
    match h {
        Happening::Ws { data, .. } => data is WsMessage ==> v.stamp < u64::MAX,
        Happening::Run { run, .. } => issued(run.ticket),
    }
}

/// All of this can happen, in this order.
pub open spec fn can_all_happen(v: ServiceView, hs: Seq<Happening>) -> bool
    decreases hs.len(),
{
    hs.len() > 0 ==> can_all_happen(v, hs.drop_last()) && can_happen(
        service_run(v, hs.drop_last()),
        hs.last(),
    )
}

/// The conversation of a ticket was left, ended or interrupted since the ticket was given out.
pub open spec fn gone(v: ServiceView, name: Seq<char>, t: Ticket) -> bool {
    &&& issued(t)
    &&& t.id <= v.stamp
    &&& v.conversations.contains_key(name) ==> {
        let s = v.conversations[name];
        s.closed || t.id < s.epoch
    }
}

/// What ends all processing of a session: its connection goes, or a message interrupts or ends its
/// conversation.
pub open spec fn ends_processing(h: Happening, name: Seq<char>) -> bool {
    h matches Happening::Ws { data, .. } && match data {
        WsData::WsDisconnect { session_id } => session_id@ == name,
        WsData::WsMessage { business, actor, connid, payload: Some(p) } => business@ != "live-asr"@
            && session_name(business@, actor@, connid@) == name && (p@ is Interrupt
            || p@ is SessionEnd),
        _ => false,
    }
}

/// The processing of this utterance is silent: whatever happens to it, nothing is sent, nothing
/// changes, and it is over.
pub open spec fn silent(v: ServiceView, r: RunView, e: RunEventView) -> bool {
    service_step(v, r, e) == (v, RunView { phase: RunPhase::Over, ..r }, run_stop(Seq::empty()))
}

/// Whatever happens, the conversations stay in order, and stamps never go back.
pub proof fn law_conversations_stay_in_order(v: ServiceView, h: Happening)
    requires
        in_order(v),
        can_happen(v, h),
    ensures
        in_order(service_next(v, h)),
        v.stamp <= service_next(v, h).stamp,
{
    let w = service_next(v, h);
    assert forall|name: Seq<char>| #[trigger] w.conversations.contains_key(name) implies
        conversation_in_order(w.conversations[name], w.stamp) by {
        if v.conversations.contains_key(name) {
            assert(conversation_in_order(v.conversations[name], v.stamp));
        }
    }
}

/// The tickets that conversations give out are in order, and newer than everything before.
pub proof fn law_tickets_are_new(
    v: ServiceView,
    business: Seq<char>,
    id: Seq<char>,
    payload: Option<PayloadView>,
    now: u64,
)
    requires
        in_order(v),
        v.stamp < u64::MAX,
    ensures
        ({
            let (w, outcome) = message_step(v, business, id, payload, now);
            outcome matches WsOutcomeView::Conversation {
                action: SessionActionView::Process(u),
                ..
            } ==> issued(u.ticket) && v.stamp < u.ticket.id <= w.stamp
        }),
{
    if v.conversations.contains_key(id) {
        assert(conversation_in_order(v.conversations[id], v.stamp));
    }
}

proof fn lemma_gone_step(v: ServiceView, h: Happening, name: Seq<char>, t: Ticket)
    requires
        in_order(v),
        can_happen(v, h),
        gone(v, name, t),
    ensures
        gone(service_next(v, h), name, t),
{
    let w = service_next(v, h);
    if v.conversations.contains_key(name) {
        assert(conversation_in_order(v.conversations[name], v.stamp));
    }
}

/// Where a conversation is gone for a ticket, it stays gone, whatever happens.
pub proof fn law_gone_stays_gone(v: ServiceView, hs: Seq<Happening>, name: Seq<char>, t: Ticket)
    requires
        in_order(v),
        can_all_happen(v, hs),
        gone(v, name, t),
    ensures
        in_order(service_run(v, hs)),
        gone(service_run(v, hs), name, t),
    decreases hs.len(),
{
    if hs.len() > 0 {
        law_gone_stays_gone(v, hs.drop_last(), name, t);
        let before = service_run(v, hs.drop_last());
        law_conversations_stay_in_order(before, hs.last());
        lemma_gone_step(before, hs.last(), name, t);
    }
}

proof fn lemma_gone_is_silent(v: ServiceView, r: RunView, e: RunEventView)
    requires
        in_order(v),
        gone(v, r.session_id, r.ticket),
    ensures
        silent(v, r, e),
{
    if v.conversations.contains_key(r.session_id) {
        let s = v.conversations[r.session_id];
        assert(conversation_in_order(s, v.stamp));
        assert(v.conversations.insert(r.session_id, s) =~= v.conversations);
    }
}

/// An utterance whose connection goes, or whose conversation is interrupted or ended, is never
/// heard of again: whatever happens afterwards, also where its session connects again, nothing of
/// it is sent and it changes nothing.
pub proof fn law_cancelled_for_good(
    v: ServiceView,
    end: Happening,
    hs: Seq<Happening>,
    r: RunView,
    e: RunEventView,
)
    requires
        in_order(v),
        issued(r.ticket),
        r.ticket.id <= v.stamp,
        ends_processing(end, r.session_id),
        can_happen(v, end),
        can_all_happen(service_next(v, end), hs),
    ensures
        silent(service_run(service_next(v, end), hs), r, e),
{
    if v.conversations.contains_key(r.session_id) {
        assert(conversation_in_order(v.conversations[r.session_id], v.stamp));
    }
    let w = service_next(v, end);
    law_conversations_stay_in_order(v, end);
    assert(gone(w, r.session_id, r.ticket));
    law_gone_stays_gone(w, hs, r.session_id, r.ticket);
    lemma_gone_is_silent(service_run(w, hs), r, e);
}

/// Something else of its session is answered, or nothing is.
pub open spec fn superseded(v: ServiceView, r: RunView) -> bool {
    v.conversations.contains_key(r.session_id) ==> v.conversations[r.session_id].answering != Some(
        r.ticket.id,
    )
}

/// An answer that gave way to a newer one is never heard of again, whatever happens afterwards to
/// anything else.
pub proof fn law_superseded_for_good(v: ServiceView, hs: Seq<Happening>, r: RunView, e: RunEventView)
    requires
        r.ticket.answering,
        superseded(v, r),
        forall|i: int|
            0 <= i < hs.len() ==> (#[trigger] hs[i] matches Happening::Run { run, .. }
                ==> run.session_id != r.session_id || run.ticket.id != r.ticket.id),
    ensures
        superseded(service_run(v, hs), r),
        silent(service_run(v, hs), r, e),
    decreases hs.len(),
{
    if hs.len() > 0 {
        let before = hs.drop_last();
        assert forall|i: int| 0 <= i < before.len() implies (#[trigger] before[i] matches Happening::Run {
            run,
            ..
        } ==> run.session_id != r.session_id || run.ticket.id != r.ticket.id) by {
            assert(before[i] == hs[i]);
        }
        law_superseded_for_good(v, before, r, e);
        assert(hs.last() == hs[hs.len() - 1]);
    }
    let w = service_run(v, hs);
    if w.conversations.contains_key(r.session_id) {
        let s = w.conversations[r.session_id];
        assert(w.conversations.insert(r.session_id, s) =~= w.conversations);
    }
}

/// A message goes where it belongs: one for live recognition to live recognition as it is, and no
/// conversation is touched; any other to the conversation of its connection, which begins where
/// there is none.
pub proof fn law_messages_go_where_they_belong(
    v: ServiceView,
    business: Seq<char>,
    id: Seq<char>,
    p: PayloadView,
    now: u64,
)
    ensures
        ({
            let (w, outcome) = message_step(v, business, id, Some(p), now);
            &&& business == "live-asr"@ ==> w == v && outcome == (WsOutcomeView::LiveAsr {
                session_id: id,
                payload: p,
            })
            &&& business != "live-asr"@ ==> w.conversations.contains_key(id) && (
            outcome matches WsOutcomeView::Conversation { session_id, .. } && session_id == id)
            &&& message_step(v, business, id, None, now) == (v, WsOutcomeView::Ignored)
        }),
{
}

} // verus!
