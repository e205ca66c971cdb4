//! JSON: what is read out of a document and how an object is written.
//!
//! Documents are read with `serde_json`: single nodes here, by JSON pointer, whole records in
//! `record`. Objects are written field after field; only the quoting of strings is left to
//! `serde_json`.

use std::collections::BTreeMap;

use vstd::prelude::*;
use vstd::utf8::encode_utf8;

use crate::string_map::pairs_map;
use crate::text::{decimal, decimal_of};

verus! {

/// A node of a JSON document. The elements of an array and the members of an object are nodes
/// of their own.
#[derive(Debug, Clone)]
pub enum JsonNode {
    Null,
    Bool(bool),
    /// A number as it is written.
    Number(String),
    Text(String),
    /// An array with so many elements.
    Array(usize),
    Object,
}

/// What a node holds.
pub ghost enum NodeView {
    Null,
    Bool(bool),
    Number(Seq<char>),
    Text(Seq<char>),
    Array(nat),
    Object,
}

impl View for JsonNode {
    type V = NodeView;

    open spec fn view(&self) -> NodeView {
        match *self {
            JsonNode::Null => NodeView::Null,
            JsonNode::Bool(b) => NodeView::Bool(b),
            JsonNode::Number(n) => NodeView::Number(n@),
            JsonNode::Text(s) => NodeView::Text(s@),
            JsonNode::Array(n) => NodeView::Array(n as nat),
            JsonNode::Object => NodeView::Object,
        }
    }
}

pub open spec fn node_view(n: Option<JsonNode>) -> Option<NodeView> {
    match n {
        Some(n) => Some(n@),
        None => None,
    }
}

/// The message with which `serde_json` rejects a document; none where it accepts it.
pub uninterp spec fn json_error(document: Seq<u8>) -> Option<Seq<char>>;

/// The node that a JSON pointer names in a document, where there is one.
pub uninterp spec fn json_node(document: Seq<u8>, pointer: Seq<char>) -> Option<NodeView>;

/// The JSON string that stands for a text, with its quotes and escapes.
pub uninterp spec fn json_string(text: Seq<char>) -> Seq<char>;

/// A name that stands in an object, and in a pointer to its member, as it is.
pub open spec fn plain_name(name: Seq<char>) -> bool {
    forall|i: int| 0 <= i < name.len() ==> 'a' <= #[trigger] name[i] <= 'z' || name[i] == '_'
}

/// Names that are plain and differ.
pub open spec fn plain_names(pairs: Seq<(Seq<char>, Seq<char>)>) -> bool {
    &&& forall|i: int| 0 <= i < pairs.len() ==> plain_name(#[trigger] pairs[i].0)
    &&& forall|i: int, j: int|
        0 <= i < j < pairs.len() ==> #[trigger] pairs[i].0 != #[trigger] pairs[j].0
}

/// The object whose members are texts.
pub open spec fn text_object(pairs: Seq<(Seq<char>, Seq<char>)>) -> Seq<char> {
    object_text(
        Seq::new(
            pairs.len(),
            |i: int| Member { name: pairs[i].0, value: json_string(pairs[i].1) },
        ),
    )
}

/// A string that was written is read: the whole document is its text.
pub open spec fn reads_text(document: Seq<u8>, n: Option<NodeView>) -> bool {
    forall|t: Seq<char>|
        document == encode_utf8(#[trigger] json_string(t)) ==> n == Some(NodeView::Text(t))
}

/// `serde_json::from_slice` into a `serde_json::Value`: accepts or rejects the document. Which
/// documents are accepted, and the wording of a rejection, are left to `serde_json`.
#[verifier::external_body]
fn check_json(document: &[u8]) -> (r: Option<String>)
    ensures
        crate::text::opt_view(r) == json_error(document@),
{
    match serde_json::from_slice::<serde_json::Value>(document) {
        Ok(_) => None,
        Err(e) => Some(e.to_string()),
    }
}

/// `serde_json::Value::pointer` on a parsed document: the node that the pointer names. There is
/// none in a document that is rejected. Under the empty pointer, a string that `quote` wrote is its
/// text.
#[verifier::external_body]
fn find_node(document: &[u8], pointer: &str) -> (r: Option<JsonNode>)
    ensures
        node_view(r) == json_node(document@, pointer@),
        json_error(document@) is Some ==> r is None,
        pointer@.len() == 0 ==> reads_text(document@, node_view(r)),
{
    let value: serde_json::Value = serde_json::from_slice(document).ok()?;
    Some(match value.pointer(pointer)? {
        serde_json::Value::Null => JsonNode::Null,
        serde_json::Value::Bool(b) => JsonNode::Bool(*b),
        serde_json::Value::Number(n) => JsonNode::Number(n.to_string()),
        serde_json::Value::String(s) => JsonNode::Text(s.clone()),
        serde_json::Value::Array(a) => JsonNode::Array(a.len()),
        serde_json::Value::Object(_) => JsonNode::Object,
    })
}

/// The texts of an object whose members are all texts, by their names; nothing where the document
/// is something else.
pub uninterp spec fn json_texts(document: Seq<char>) -> Option<Map<Seq<char>, Seq<char>>>;

pub open spec fn texts_view(r: Option<Vec<(String, String)>>) -> Option<Map<Seq<char>, Seq<char>>> {
    match r {
        Some(v) => Some(pairs_map(v@)),
        None => None,
    }
}

/// `serde_json::from_str` into a map from texts to texts: its pairs. Which documents are accepted
/// is left to `serde_json`.
#[verifier::external_body]
pub(crate) fn read_texts(document: &str) -> (r: Option<Vec<(String, String)>>)
    ensures
        texts_view(r) == json_texts(document@),
{
    let map: BTreeMap<String, String> = serde_json::from_str(document).ok()?;
    Some(map.into_iter().collect())
}

/// `serde_json::Value::to_string` on a string value: the text as a JSON string.
#[verifier::external_body]
fn quote(text: &str) -> (r: String)
    ensures
        r@ == json_string(text@),
{
    serde_json::Value::from(text).to_string()
}

/// Why a document that is JSON is not what was expected.
pub open spec fn shape_message() -> Seq<char> {
    "unexpected JSON shape"@
}

/// Why a document is rejected: what `serde_json` says where it is no JSON, else that it is not what
/// was expected.
pub open spec fn rejection(document: Seq<u8>) -> Seq<char> {
    match json_error(document) {
        Some(m) => m,
        None => shape_message(),
    }
}

/// Why a document is rejected.
pub fn rejection_text(document: &[u8]) -> (r: String)
    ensures
        r@ == rejection(document@),
{
    match check_json(document) {
        Some(m) => m,
        None => "unexpected JSON shape".to_string(),
    }
}

/// The text that a node is, where it is one.
pub open spec fn text_node(n: Option<NodeView>) -> Option<Seq<char>> {
    match n {
        Some(NodeView::Text(s)) => Some(s),
        _ => None,
    }
}

/// A JSON document.
pub struct Document<'a> {
    pub bytes: &'a [u8],
}

impl<'a> Document<'a> {
    /// The node at `pointer`.
    pub open spec fn at(&self, pointer: Seq<char>) -> Option<NodeView> {
        json_node(self.bytes@, pointer)
    }

    /// The message with which the document is rejected.
    pub fn error(&self) -> (r: Option<String>)
        ensures
            crate::text::opt_view(r) == json_error(self.bytes@),
    {
        check_json(self.bytes)
    }

    /// The node at `pointer`.
    pub fn node(&self, pointer: &str) -> (r: Option<JsonNode>)
        ensures
            node_view(r) == self.at(pointer@),
            pointer@.len() == 0 ==> reads_text(self.bytes@, self.at(pointer@)),
    {
        find_node(self.bytes, pointer)
    }

    /// The text at `pointer`, where there is one.
    pub fn text_at(&self, pointer: &str) -> (r: Option<String>)
        ensures
            crate::text::opt_view(r) == text_node(self.at(pointer@)),
    {
        match self.node(pointer) {
            Some(JsonNode::Text(s)) => Some(s),
            _ => None,
        }
    }
}

/// The text as a JSON string.
pub fn json_text(s: &str) -> (r: String)
    ensures
        r@ == json_string(s@),
{
    quote(s)
}

/// How a truth value is written.
pub open spec fn bool_text(b: bool) -> Seq<char> {
    if b {
        "true"@
    } else {
        "false"@
    }
}

/// A member of an object: its name and its value as it is written.
pub ghost struct Member {
    pub name: Seq<char>,
    pub value: Seq<char>,
}

/// A member with a text for its value.
pub open spec fn text_member(name: Seq<char>, value: Seq<char>) -> Seq<Member> {
    seq![Member { name, value: json_string(value) }]
}

/// A member with a number for its value.
pub open spec fn number_member(name: Seq<char>, value: nat) -> Seq<Member> {
    seq![Member { name, value: decimal(value) }]
}

/// A member with a truth value.
pub open spec fn bool_member(name: Seq<char>, value: bool) -> Seq<Member> {
    seq![Member { name, value: bool_text(value) }]
}

/// A member whose value is already JSON.
pub open spec fn raw_member(name: Seq<char>, value: Seq<char>) -> Seq<Member> {
    seq![Member { name, value }]
}

/// A text member that is left out where there is no value.
pub open spec fn opt_text_member(name: Seq<char>, value: Option<Seq<char>>) -> Seq<Member> {
    match value {
        Some(v) => text_member(name, v),
        None => Seq::empty(),
    }
}

/// A number member that is left out where there is no value.
pub open spec fn opt_number_member(name: Seq<char>, value: Option<u32>) -> Seq<Member> {
    match value {
        Some(v) => number_member(name, v as nat),
        None => Seq::empty(),
    }
}

/// A truth value that is left out where there is none.
pub open spec fn opt_bool_member(name: Seq<char>, value: Option<bool>) -> Seq<Member> {
    match value {
        Some(v) => bool_member(name, v),
        None => Seq::empty(),
    }
}

/// A member whose value is already JSON, left out where there is none.
pub open spec fn opt_raw_member(name: Seq<char>, value: Option<Seq<char>>) -> Seq<Member> {
    match value {
        Some(v) => raw_member(name, v),
        None => Seq::empty(),
    }
}

pub open spec fn member_text(m: Member) -> Seq<char> {
    seq!['"'] + m.name + seq!['"', ':'] + m.value
}

/// `parts` with a comma between each two.
pub open spec fn join_with_comma(parts: Seq<Seq<char>>) -> Seq<char>
    decreases parts.len(),
{
    if parts.len() == 0 {
        Seq::empty()
    } else if parts.len() == 1 {
        parts[0]
    } else {
        join_with_comma(parts.drop_last()) + seq![','] + parts.last()
    }
}

pub open spec fn members_text(members: Seq<Member>) -> Seq<Seq<char>> {
    Seq::new(members.len(), |i: int| member_text(members[i]))
}

/// The object with these members, in this order.
pub open spec fn object_text(members: Seq<Member>) -> Seq<char> {
    seq!['{'] + join_with_comma(members_text(members)) + seq!['}']
}

/// The array of these values.
pub open spec fn array_text(values: Seq<Seq<char>>) -> Seq<char> {
    seq!['['] + join_with_comma(values) + seq![']']
}

/// Writes an object member by member.
pub struct ObjectWriter {
    text: String,
    count: Ghost<Seq<Member>>,
    empty: bool,
}

impl View for ObjectWriter {
    type V = Seq<Member>;

    /// The members written so far.
    closed spec fn view(&self) -> Seq<Member> {
        self.count@
    }
}

impl ObjectWriter {
    pub closed spec fn wf(&self) -> bool {
        &&& self.text@ == join_with_comma(members_text(self.count@))
        &&& self.empty == (self.count@.len() == 0)
    }

    pub fn new() -> (r: Self)
        ensures
            r.wf(),
            r@ == Seq::<Member>::empty(),
    {
        let w = ObjectWriter { text: String::new(), count: Ghost(Seq::empty()), empty: true };
        assert(members_text(w.count@) =~= Seq::<Seq<char>>::empty());
        w
    }

    /// Writes a member whose value is already JSON.
    pub fn raw(&mut self, name: &str, value: &str)
        requires
            old(self).wf(),
        ensures
            final(self).wf(),
            final(self)@ == old(self)@ + raw_member(name@, value@),
    {
        let ghost before = self.count@;
        let ghost m = Member { name: name@, value: value@ };
        let ghost t0 = self.text@;
        if !self.empty {
            self.text.push(',');
        }
        let ghost t1 = self.text@;
        self.text.push('"');
        self.text.append(name);
        self.text.push('"');
        self.text.push(':');
        self.text.append(value);
        self.empty = false;
        self.count = Ghost(before + raw_member(name@, value@));
        proof {
            let parts = members_text(self.count@);
            assert(parts.drop_last() =~= members_text(before));
            assert(parts.last() == member_text(m));
            assert(self.text@ =~= t1 + member_text(m));
            if before.len() > 0 {
                assert(t1 =~= t0 + seq![',']);
                assert(self.text@ =~= t0 + seq![','] + member_text(m));
            } else {
                assert(t0 =~= Seq::<char>::empty());
                assert(self.text@ =~= member_text(m));
            }
        }
    }

    pub fn text(&mut self, name: &str, value: &str)
        requires
            old(self).wf(),
        ensures
            final(self).wf(),
            final(self)@ == old(self)@ + text_member(name@, value@),
    {
        let q = quote(value);
        self.raw(name, q.as_str());
    }

    pub fn number(&mut self, name: &str, value: u64)
        requires
            old(self).wf(),
        ensures
            final(self).wf(),
            final(self)@ == old(self)@ + number_member(name@, value as nat),
    {
        let d = decimal_of(value);
        self.raw(name, d.as_str());
    }

    pub fn boolean(&mut self, name: &str, value: bool)
        requires
            old(self).wf(),
        ensures
            final(self).wf(),
            final(self)@ == old(self)@ + bool_member(name@, value),
    {
        if value {
            self.raw(name, "true");
        } else {
            self.raw(name, "false");
        }
    }

    pub fn opt_text(&mut self, name: &str, value: &Option<String>)
        requires
            old(self).wf(),
        ensures
            final(self).wf(),
            final(self)@ == old(self)@ + opt_text_member(name@, crate::text::opt_view(*value)),
    {
        match value {
            Some(v) => self.text(name, v.as_str()),
            None => {
                assert(self@ + Seq::<Member>::empty() =~= self@);
            },
        }
    }

    pub fn opt_raw(&mut self, name: &str, value: &Option<String>)
        requires
            old(self).wf(),
        ensures
            final(self).wf(),
            final(self)@ == old(self)@ + opt_raw_member(name@, crate::text::opt_view(*value)),
    {
        match value {
            Some(v) => self.raw(name, v.as_str()),
            None => {
                assert(self@ + Seq::<Member>::empty() =~= self@);
            },
        }
    }

    pub fn opt_number(&mut self, name: &str, value: Option<u32>)
        requires
            old(self).wf(),
        ensures
            final(self).wf(),
            final(self)@ == old(self)@ + opt_number_member(name@, value),
    {
        match value {
            Some(v) => self.number(name, v as u64),
            None => {
                assert(self@ + Seq::<Member>::empty() =~= self@);
            },
        }
    }

    pub fn opt_boolean(&mut self, name: &str, value: Option<bool>)
        requires
            old(self).wf(),
        ensures
            final(self).wf(),
            final(self)@ == old(self)@ + opt_bool_member(name@, value),
    {
        match value {
            Some(v) => self.boolean(name, v),
            None => {
                assert(self@ + Seq::<Member>::empty() =~= self@);
            },
        }
    }

    /// The object with the members written.
    pub fn finish(self) -> (r: String)
        requires
            self.wf(),
        ensures
            r@ == object_text(self@),
    {
        let mut out: String = String::new();
        out.push('{');
        out.append(self.text.as_str());
        out.push('}');
        assert(out@ =~= object_text(self.count@));
        out
    }
}

/// The array of these values, each already JSON.
pub fn write_array(values: &Vec<String>) -> (r: String)
    ensures
        r@ == array_text(crate::text::views(values@)),
{
    let ghost all = crate::text::views(values@);
    let mut body: String = String::new();
    for i in 0..values.len()
        invariant
            all == crate::text::views(values@),
            body@ == join_with_comma(all.take(i as int)),
    {
        let ghost b = body@;
        proof {
            assert(all.take(i + 1).drop_last() =~= all.take(i as int));
        }
        if i > 0 {
            body.push(',');
        }
        body.append(values[i].as_str());
        proof {
            if i > 0 {
                assert(body@ =~= b + seq![','] + values@[i as int]@);
            } else {
                assert(all.take(0) =~= Seq::<Seq<char>>::empty());
                assert(body@ =~= values@[0]@);
            }
        }
    }
    assert(all.take(values@.len() as int) =~= all);
    let mut out: String = String::new();
    out.push('[');
    out.append(body.as_str());
    out.push(']');
    assert(out@ =~= array_text(all));
    out
}

} // verus!
