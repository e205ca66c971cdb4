//! Short-term conversation memory: a window over the latest messages of each session.

use std::collections::VecDeque;

use dashmap::DashMap;
use vstd::prelude::*;
use vstd::utf8::encode_utf8;

use crate::json::{
    json_string, object_text, reads_text, text_member, JsonNode, Member, NodeView, ObjectWriter,
};
use crate::record::{
    closed_members, field_required_text, field_view, field_views, lemma_written_field,
    object_members, pair_members, read_members, read_record, reads_object, record_fields,
    required_text, str_views, value_node, value_of,
};
use crate::text::{concat, same, views};

verus! {

/// How many messages are kept where nothing else is configured.
pub const DEFAULT_WINDOW: usize = 20;

/// Who said something.
#[derive(Debug, Clone, Copy, PartialEq, Eq, Structural)]
pub enum Role {
    System,
    User,
    Assistant,
}

impl Role {
    pub open spec fn name_spec(self) -> Seq<char> {
        match self {
            Role::System => "system"@,
            Role::User => "user"@,
            Role::Assistant => "assistant"@,
        }
    }

    /// The name of the role in a request.
    pub fn as_str(self) -> (r: &'static str)
        ensures
            r@ == self.name_spec(),
    {
        match self {
            Role::System => "system",
            Role::User => "user",
            Role::Assistant => "assistant",
        }
    }

    /// The name of the role in storage.
    pub open spec fn stored_spec(self) -> Seq<char> {
        match self {
            Role::System => "System"@,
            Role::User => "User"@,
            Role::Assistant => "Assistant"@,
        }
    }
}

/// Something that was said.
#[derive(Debug)]
pub struct Message {
    pub role: Role,
    pub content: String,
}

/// Who said what.
pub ghost struct Said {
    pub role: Role,
    pub content: Seq<char>,
}

impl View for Message {
    type V = Said;

    open spec fn view(&self) -> Said {
        Said { role: self.role, content: self.content@ }
    }
}

impl Clone for Message {
    fn clone(&self) -> (r: Self)
        ensures
            r@ == self@,
    {
        Message { role: self.role, content: self.content.clone() }
    }
}

pub open spec fn said(v: Seq<Message>) -> Seq<Said> {
    Seq::new(v.len(), |i: int| v[i]@)
}

/// The last `n` elements of `s`.
pub open spec fn last_n<A>(s: Seq<A>, n: int) -> Seq<A> {
    if s.len() > n {
        s.skip(s.len() - n)
    } else {
        s
    }
}

/// At least one message is kept.
pub open spec fn window_spec(n: usize) -> usize {
    if n == 0 {
        1
    } else {
        n
    }
}

/// The latest messages, oldest first; at most `capacity` of them.
pub struct ShortTermMemory {
    capacity: usize,
    items: VecDeque<Message>,
}

impl View for ShortTermMemory {
    type V = Seq<Said>;

    closed spec fn view(&self) -> Seq<Said> {
        said(self.items@)
    }
}

impl ShortTermMemory {
    pub closed spec fn cap(&self) -> usize {
        self.capacity
    }

    pub open spec fn wf(&self) -> bool {
        1 <= self.cap() && self@.len() <= self.cap()
    }

    /// An empty memory. A capacity of 0 counts as 1.
    pub fn new(capacity: usize) -> (r: Self)
        ensures
            r.wf(),
            r.cap() == window_spec(capacity),
            r@ == Seq::<Said>::empty(),
    {
        let capacity: usize = if capacity == 0 { 1 } else { capacity };
        let m = ShortTermMemory { capacity, items: VecDeque::new() };
        assert(m@ =~= Seq::<Said>::empty());
        m
    }

    /// A memory that holds `items` already.
    pub fn holding(capacity: usize, items: Vec<Message>) -> (r: Self)
        requires
            items@.len() <= window_spec(capacity),
        ensures
            r.wf(),
            r.cap() == window_spec(capacity),
            r@ == said(items@),
    {
        let mut m = ShortTermMemory::new(capacity);
        for i in 0..items.len()
            invariant
                items@.len() <= window_spec(capacity),
                m.wf(),
                m.cap() == window_spec(capacity),
                m@ == said(items@).take(i as int),
        {
            assert(said(items@).take(i + 1) =~= said(items@).take(i as int).push(
                items@[i as int]@,
            ));
            m.push(items[i].clone());
        }
        assert(said(items@).take(items@.len() as int) =~= said(items@));
        m
    }

    /// Adds a message; the oldest one goes where there is no room.
    pub fn push(&mut self, msg: Message)
        requires
            old(self).wf(),
        ensures
            final(self).wf(),
            final(self).cap() == old(self).cap(),
            final(self)@ == last_n(old(self)@.push(msg@), old(self).cap() as int),
    {
        let ghost before = self@;
        let ghost m = msg@;
        if self.items.len() == self.capacity {
            self.items.pop_front();
        }
        self.items.push_back(msg);
        assert(self@ =~= last_n(before.push(m), self.cap() as int));
    }

    /// The messages, oldest first.
    pub fn history(&self) -> (r: Vec<Message>)
        ensures
            said(r@) == self@,
    {
        let mut out: Vec<Message> = Vec::new();
        for i in 0..self.items.len()
            invariant
                said(out@) =~= said(self.items@).take(i as int),
        {
            let ghost before = out@;
            out.push(self.items[i].clone());
            assert(said(out@) =~= said(before).push(self.items@[i as int]@));
            assert(said(self.items@).take(i + 1) =~= said(self.items@).take(i as int).push(
                said(self.items@)[i as int],
            ));
        }
        assert(said(self.items@).take(self.items@.len() as int) =~= said(self.items@));
        out
    }

    pub fn len(&self) -> (r: usize)
        ensures
            r == self@.len(),
    {
        self.items.len()
    }

    pub fn is_empty(&self) -> (r: bool)
        ensures
            r == (self@.len() == 0),
    {
        self.items.len() == 0
    }

    pub fn capacity(&self) -> (r: usize)
        ensures
            r == self.cap(),
    {
        self.capacity
    }

    /// Forgets everything.
    pub fn clear(&mut self)
        requires
            old(self).wf(),
        ensures
            final(self).wf(),
            final(self)@ == Seq::<Said>::empty(),
            final(self).cap() == old(self).cap(),
    {
        self.items.clear();
        assert(self@ =~= Seq::<Said>::empty());
    }
}

/// What a memory of capacity `n` holds after some messages, one after another.
pub open spec fn remembered(all: Seq<Said>, n: int) -> Seq<Said>
    decreases all.len(),
{
    if all.len() == 0 {
        Seq::empty()
    } else {
        last_n(remembered(all.drop_last(), n).push(all.last()), n)
    }
}

/// However many messages were added, the memory holds the latest of them in the order in which
/// they were said.
pub proof fn law_memory_is_a_window(all: Seq<Said>, n: int)
    requires
        1 <= n,
    ensures
        remembered(all, n) == last_n(all, n),
    decreases all.len(),
{
    if all.len() > 0 {
        law_memory_is_a_window(all.drop_last(), n);
        assert(remembered(all, n) =~= last_n(all, n));
    } else {
        assert(last_n(all, n) =~= Seq::<Said>::empty());
    }
}

// ---- many sessions ----

/// Memory of many sessions.
pub trait MemoryStore {
    /// What is remembered of a session.
    spec fn memory(&self, session: Seq<char>) -> Seq<Said>;

    /// How many messages of a session are remembered.
    spec fn window(&self) -> int;

    /// The store is in order.
    spec fn store_ok(&self) -> bool;

    /// No more than the window is remembered of any session.
    proof fn within_window(&self, session: Seq<char>)
        requires
            self.store_ok(),
        ensures
            1 <= self.window(),
            self.memory(session).len() <= self.window(),
    ;

    /// The messages of a session, oldest first; none of a new session.
    fn history(&self, session_id: &str) -> (r: Vec<Message>)
        requires
            self.store_ok(),
        ensures
            said(r@) == self.memory(session_id@),
    ;

    /// Adds a message to a session; its oldest one goes where there is no room.
    fn append(&mut self, session_id: &str, msg: Message)
        requires
            old(self).store_ok(),
        ensures
            final(self).store_ok(),
            final(self).window() == old(self).window(),
            final(self).memory(session_id@) == last_n(
                old(self).memory(session_id@).push(msg@),
                old(self).window(),
            ),
            forall|s: Seq<char>|
                s != session_id@ ==> #[trigger] final(self).memory(s) == old(self).memory(s),
    ;

    /// Forgets a session.
    fn clear(&mut self, session_id: &str)
        requires
            old(self).store_ok(),
        ensures
            final(self).store_ok(),
            final(self).window() == old(self).window(),
            final(self).memory(session_id@) == Seq::<Said>::empty(),
            forall|s: Seq<char>|
                s != session_id@ ==> #[trigger] final(self).memory(s) == old(self).memory(s),
    ;

    /// How many messages of a session are remembered.
    fn len(&self, session_id: &str) -> (r: usize)
        requires
            self.store_ok(),
        ensures
            r == self.memory(session_id@).len(),
    ;

    /// Whether nothing of a session is remembered.
    fn is_empty(&self, session_id: &str) -> (r: bool)
        requires
            self.store_ok(),
        ensures
            r == (self.memory(session_id@).len() == 0),
    {
        self.len(session_id) == 0
    }
}

/// `dashmap::DashMap`.
#[verifier::external_type_specification]
#[verifier::external_body]
#[verifier::reject_recursive_types(K)]
#[verifier::reject_recursive_types(V)]
#[verifier::reject_recursive_types(S)]
pub struct ExDashMap<K, V, S>(DashMap<K, V, S>);

/// The messages of each session, by its identifier.
pub type Sessions = DashMap<String, Vec<Message>>;

/// The messages of each session in the map.
pub uninterp spec fn sessions_map(map: Sessions) -> Map<Seq<char>, Seq<Said>>;

/// A map without sessions.
pub open spec fn no_sessions() -> Map<Seq<char>, Seq<Said>> {
    Map::empty()
}

/// `DashMap::new`: a map without entries.
#[verifier::external_body]
fn sessions_new() -> (r: Sessions)
    ensures
        sessions_map(r) == no_sessions(),
{
    DashMap::new()
}

/// `DashMap::get`: a copy of the value of a key, where it has one.
#[verifier::external_body]
fn sessions_get(map: &Sessions, key: &str) -> (r: Option<Vec<Message>>)
    ensures
        r is Some <==> sessions_map(*map).contains_key(key@),
        r is Some ==> said(r->0@) == sessions_map(*map)[key@],
{
    match map.get(key) {
        Some(entry) => Some(entry.value().clone()),
        None => None,
    }
}

/// `DashMap::insert`: sets the value of a key. The map is taken by exclusive reference, so
/// nothing else changes it meanwhile.
#[verifier::external_body]
fn sessions_insert(map: &mut Sessions, key: String, value: Vec<Message>)
    ensures
        sessions_map(*final(map)) == sessions_map(*old(map)).insert(key@, said(value@)),
{
    map.insert(key, value);
}

/// Memory of many sessions in this process.
pub struct InMemoryStore {
    window_size: usize,
    map: Sessions,
}

impl InMemoryStore {
    /// A store that remembers `window_size` messages of each session, at least one.
    pub fn new(window_size: usize) -> (r: Self)
        ensures
            r.store_ok(),
            r.window() == window_spec(window_size),
            forall|s: Seq<char>| #[trigger] r.memory(s) == Seq::<Said>::empty(),
    {
        let window_size: usize = if window_size == 0 { 1 } else { window_size };
        InMemoryStore { window_size, map: sessions_new() }
    }

    /// How many messages of a session are remembered.
    pub fn window_size(&self) -> (r: usize)
        ensures
            r == self.window(),
    {
        self.window_size
    }
}

impl MemoryStore for InMemoryStore {
    closed spec fn memory(&self, session: Seq<char>) -> Seq<Said> {
        if sessions_map(self.map).contains_key(session) {
            sessions_map(self.map)[session]
        } else {
            Seq::empty()
        }
    }

    closed spec fn window(&self) -> int {
        self.window_size as int
    }

    closed spec fn store_ok(&self) -> bool {
        &&& 1 <= self.window_size
        &&& forall|s: Seq<char>| (#[trigger] self.memory(s)).len() <= self.window_size
    }

    proof fn within_window(&self, session: Seq<char>) {
    }

    fn history(&self, session_id: &str) -> (r: Vec<Message>) {
        match sessions_get(&self.map, session_id) {
            Some(items) => items,
            None => {
                let none: Vec<Message> = Vec::new();
                assert(said(none@) =~= Seq::<Said>::empty());
                none
            },
        }
    }

    fn append(&mut self, session_id: &str, msg: Message) {
        let ghost before = *self;
        let items = self.history(session_id);
        assert(self.memory(session_id@).len() <= self.window_size);
        assert(said(items@).len() == items@.len());
        let mut memory = ShortTermMemory::holding(self.window_size, items);
        memory.push(msg);
        sessions_insert(&mut self.map, session_id.to_string(), memory.history());
        assert forall|s: Seq<char>| (#[trigger] self.memory(s)).len() <= self.window_size by {
            if s != session_id@ {
                assert(self.memory(s) == before.memory(s));
            }
        }
    }

    fn clear(&mut self, session_id: &str) {
        let ghost before = *self;
        let none: Vec<Message> = Vec::new();
        assert(said(none@) =~= Seq::<Said>::empty());
        if sessions_get(&self.map, session_id).is_some() {
            sessions_insert(&mut self.map, session_id.to_string(), none);
        }
        assert forall|s: Seq<char>| (#[trigger] self.memory(s)).len() <= self.window_size by {
            if s != session_id@ {
                assert(self.memory(s) == before.memory(s));
            }
        }
    }

    fn len(&self, session_id: &str) -> (r: usize) {
        match sessions_get(&self.map, session_id) {
            Some(items) => {
                assert(said(items@).len() == items@.len());
                items.len()
            },
            None => 0,
        }
    }
}

// ---- the list in Redis ----

pub const DEFAULT_KEY_PREFIX: &'static str = "voice:memory:";

pub const DEFAULT_TTL_SECS: u64 = 3600;

/// A message as it is stored.
pub open spec fn message_members(m: Said) -> Seq<Member> {
    text_member("role"@, m.role.stored_spec()) + text_member("content"@, m.content)
}

/// A message as it is stored.
pub fn message_to_json(m: &Message) -> (r: String)
    ensures
        r@ == object_text(message_members(m@)),
{
    let role: &str = match m.role {
        Role::System => "System",
        Role::User => "User",
        Role::Assistant => "Assistant",
    };
    let mut w = ObjectWriter::new();
    w.text("role", role);
    w.text("content", m.content.as_str());
    assert(w@ =~= message_members(m@));
    w.finish()
}

/// The role that is stored under a name.
pub open spec fn stored_role(name: Seq<char>) -> Option<Role> {
    if name == "System"@ {
        Some(Role::System)
    } else if name == "User"@ {
        Some(Role::User)
    } else if name == "Assistant"@ {
        Some(Role::Assistant)
    } else {
        None
    }
}

/// The role that is stored under a name.
pub fn role_from_stored(name: &str) -> (r: Option<Role>)
    ensures
        r == stored_role(name@),
{
    if same(name, "System") {
        Some(Role::System)
    } else if same(name, "User") {
        Some(Role::User)
    } else if same(name, "Assistant") {
        Some(Role::Assistant)
    } else {
        None
    }
}

/// Each role is read back from the name under which it is stored.
pub proof fn law_roles_are_read_back(role: Role)
    ensures
        stored_role(role.stored_spec()) == Some(role),
{
    reveal_strlit("System");
    reveal_strlit("User");
    reveal_strlit("Assistant");
    assert("System"@[0] != "User"@[0]);
    assert("System"@[0] != "Assistant"@[0]);
    assert("User"@[0] != "Assistant"@[0]);
}

/// The role that a field holds: its name, or an object whose only member has its name and is null.
pub open spec fn role_field(f: Option<Seq<u8>>) -> Option<Role> {
    match required_text(f) {
        Some(name) => stored_role(name),
        None => match f {
            Some(v) => match object_members(v) {
                Some(ms) => if ms.len() == 1 && value_of(ms[0].value) == Some(NodeView::Null) {
                    stored_role(ms[0].name)
                } else {
                    None
                },
                None => None,
            },
            None => None,
        },
    }
}

/// The message that a stored document holds; none where it cannot be read.
pub open spec fn stored_message(document: Seq<char>) -> Option<Said> {
    match record_fields(encode_utf8(document), seq!["role"@, "content"@], 2) {
        Some(f) => match (role_field(f[0]), required_text(f[1])) {
            (Some(role), Some(content)) => Some(Said { role, content }),
            _ => None,
        },
        None => None,
    }
}

fn read_role(f: &Option<Vec<u8>>) -> (r: Option<Role>)
    ensures
        r == role_field(field_view(*f)),
        f matches Some(v) ==> reads_text(v@, value_of(v@)),
{
    match field_required_text(f) {
        Some(name) => role_from_stored(name.as_str()),
        None => match f {
            Some(v) => match read_members(v.as_slice()) {
                Some(ms) => {
                    if ms.len() != 1 {
                        return None;
                    }
                    assert(pair_members(ms@)[0].value == ms@[0].1@);
                    match value_node(&ms[0].1) {
                        Some(JsonNode::Null) => role_from_stored(ms[0].0.as_str()),
                        _ => None,
                    }
                },
                None => None,
            },
            None => None,
        },
    }
}

/// The fields of a message that was stored.
proof fn lemma_message_fields(m: Said, d: Seq<u8>)
    requires
        d == encode_utf8(object_text(message_members(m))),
        reads_object(d),
    ensures
        record_fields(d, seq!["role"@, "content"@], 2) == Some(
            seq![
                Some(encode_utf8(json_string(m.role.stored_spec()))),
                Some(encode_utf8(json_string(m.content))),
            ],
        ),
{
    reveal_strlit("role");
    reveal_strlit("content");
    assert("role"@.len() != "content"@.len());
    let ms = message_members(m);
    assert(ms[0] == Member { name: "role"@, value: json_string(m.role.stored_spec()) });
    assert(ms[1] == Member { name: "content"@, value: json_string(m.content) });
    assert(closed_members(ms));
    lemma_written_field(ms, "role"@);
    lemma_written_field(ms, "content"@);
    assert(ms[0].name == "role"@);
    assert(ms[1].name == "content"@);
    assert(record_fields(d, seq!["role"@, "content"@], 2)->0 =~= seq![
        Some(encode_utf8(ms[0].value)),
        Some(encode_utf8(ms[1].value)),
    ]);
}

/// The message that a stored document holds. What `message_to_json` wrote is read back.
pub fn message_from_json(document: &str) -> (r: Option<Message>)
    ensures
        match r {
            Some(m) => stored_message(document@) == Some(m@),
            None => stored_message(document@) is None,
        },
        forall|m: Said|
            document@ == #[trigger] object_text(message_members(m)) ==> stored_message(document@)
                == Some(m),
{
    let bytes = document.as_bytes();
    let names: [&str; 2] = ["role", "content"];
    let fields = read_record(bytes, &names, 2);
    proof {
        assert(str_views(names@) =~= seq!["role"@, "content"@]);
        assert forall|m: Said| document@ == #[trigger] object_text(message_members(m)) implies
            record_fields(bytes@, seq!["role"@, "content"@], 2) == Some(
            seq![
                Some(encode_utf8(json_string(m.role.stored_spec()))),
                Some(encode_utf8(json_string(m.content))),
            ],
        ) && stored_role(m.role.stored_spec()) == Some(m.role) by {
            lemma_message_fields(m, bytes@);
            law_roles_are_read_back(m.role);
        }
    }
    let f = match fields {
        Some(f) => f,
        None => {
            return None;
        },
    };
    assert(field_views(f@)[0] == field_view(f@[0]));
    assert(field_views(f@)[1] == field_view(f@[1]));
    match (read_role(&f[0]), field_required_text(&f[1])) {
        (Some(role), Some(content)) => Some(Message { role, content }),
        _ => None,
    }
}

/// The list of a session after a message: the new one first, no more than `n` in all.
pub open spec fn list_after<A>(list: Seq<A>, item: A, n: int) -> Seq<A> {
    let longer = seq![item] + list;
    if longer.len() > n {
        longer.take(n)
    } else {
        longer
    }
}

/// The messages of a stored list, oldest first; what cannot be read is passed over.
pub open spec fn stored_messages(list: Seq<Seq<char>>) -> Seq<Said>
    decreases list.len(),
{
    if list.len() == 0 {
        Seq::empty()
    } else {
        let older = stored_messages(list.drop_first());
        match stored_message(list[0]) {
            Some(m) => older.push(m),
            None => older,
        }
    }
}

/// The list in which these messages are stored, in this order.
pub open spec fn written_list(messages: Seq<Said>) -> Seq<Seq<char>> {
    Seq::new(messages.len(), |i: int| object_text(message_members(messages[i])))
}

/// The messages of a stored list, oldest first. In storage the newest comes first. A list that
/// holds what `message_to_json` wrote gives all of its messages.
pub fn history_from_list(list: &Vec<String>) -> (r: Vec<Message>)
    ensures
        said(r@) == stored_messages(views(list@)),
        forall|messages: Seq<Said>|
            views(list@) == #[trigger] written_list(messages) ==> said(r@) == messages.reverse(),
{
    let ghost all = views(list@);
    let mut out: Vec<Message> = Vec::new();
    let mut i: usize = list.len();
    assert(all.skip(i as int) =~= Seq::<Seq<char>>::empty());
    assert(said(out@) =~= Seq::<Said>::empty());
    assert forall|messages: Seq<Said>| all == #[trigger] written_list(messages) implies said(out@)
        == messages.skip(i as int).reverse() by {
        assert(all.len() == messages.len());
        assert(messages.skip(i as int).reverse() =~= Seq::<Said>::empty());
    }
    while i > 0
        invariant
            i <= list@.len(),
            all == views(list@),
            said(out@) == stored_messages(all.skip(i as int)),
            forall|messages: Seq<Said>|
                all == #[trigger] written_list(messages) ==> said(out@) == messages.skip(
                    i as int,
                ).reverse(),
        decreases i,
    {
        i -= 1;
        let ghost before = said(out@);
        proof {
            assert(all.skip(i as int).drop_first() =~= all.skip(i + 1));
            assert(all.skip(i as int)[0] == list@[i as int]@);
        }
        if let Some(m) = message_from_json(list[i].as_str()) {
            let ghost v = m@;
            out.push(m);
            assert(said(out@) =~= before.push(v));
        }
        assert forall|messages: Seq<Said>| all == #[trigger] written_list(messages) implies said(
            out@,
        ) == messages.skip(i as int).reverse() by {
            assert(all[i as int] == object_text(message_members(messages[i as int])));
            assert(all.len() == messages.len());
            assert(messages.skip(i as int).reverse() =~= messages.skip(i + 1).reverse().push(
                messages[i as int],
            ));
        }
    }
    assert(all.skip(0) =~= all);
    assert forall|messages: Seq<Said>| all == #[trigger] written_list(messages) implies said(out@)
        == messages.reverse() by {
        assert(messages.skip(0) =~= messages);
    }
    out
}

/// The key under which a session is stored.
pub fn session_key(prefix: &str, session_id: &str) -> (r: String)
    ensures
        r@ == prefix@ + session_id@,
{
    concat(prefix, session_id)
}

/// The last index that is kept when the list of a session is cut to its window.
pub fn last_kept_index(window_size: usize) -> (r: usize)
    ensures
        r == window_spec(window_size) - 1,
{
    if window_size == 0 {
        0
    } else {
        window_size - 1
    }
}

/// The list after some messages, one after another.
pub open spec fn list_of<A>(all: Seq<A>, n: int) -> Seq<A>
    decreases all.len(),
{
    if all.len() == 0 {
        Seq::empty()
    } else {
        list_after(list_of(all.drop_last(), n), all.last(), n)
    }
}

/// Read from its end, the stored list is the same window over the conversation that the memory
/// in the process keeps.
pub proof fn law_stored_list_is_the_window<A>(all: Seq<A>, n: int)
    requires
        1 <= n,
    ensures
        list_of(all, n).reverse() == last_n(all, n),
    decreases all.len(),
{
    if all.len() > 0 {
        law_stored_list_is_the_window(all.drop_last(), n);
        let before = list_of(all.drop_last(), n);
        let w = last_n(all.drop_last(), n);
        assert(before.len() == w.len());
        assert forall|i: int| 0 <= i < before.len() implies before[i] == w[w.len() - 1 - i] by {
            assert(before.reverse()[before.len() - 1 - i] == before[i]);
        }
        assert(list_of(all, n).reverse() =~= last_n(all, n));
    } else {
        assert(list_of(all, n).reverse() =~= last_n(all, n));
    }
}

/// What is kept is the newest: as many as fit, the latest last, each in its place before it.
pub proof fn law_newest_is_kept(all: Seq<Said>, n: int, k: int)
    requires
        1 <= n,
    ensures
        ({
            let kept = remembered(all, n);
            &&& kept.len() == (if all.len() < n {
                all.len() as int
            } else {
                n
            })
            &&& 0 <= k < kept.len() ==> kept[kept.len() - 1 - k] == all[all.len() - 1 - k]
        }),
{
    law_memory_is_a_window(all, n);
}

/// At least one message is remembered, and otherwise as many as are asked for.
pub proof fn law_window_is_as_asked(n: usize)
    ensures
        window_spec(n) >= 1,
        n > 0 ==> window_spec(n) == n,
{
}

} // verus!
