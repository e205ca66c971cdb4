//! A map from texts to texts, for request headers and environment variables.

use vstd::prelude::*;

use crate::text::{lower_spec, same};

verus! {

/// The map that a list of pairs stands for; of two pairs with one key the later counts.
pub open spec fn pairs_map(pairs: Seq<(String, String)>) -> Map<Seq<char>, Seq<char>>
    decreases pairs.len(),
{
    if pairs.len() == 0 {
        Map::empty()
    } else {
        pairs_map(pairs.drop_last()).insert(pairs.last().0@, pairs.last().1@)
    }
}

/// No key occurs twice.
pub open spec fn distinct_keys(pairs: Seq<(String, String)>) -> bool {
    forall|i: int, j: int| 0 <= i < j < pairs.len() ==> (#[trigger] pairs[i]).0@ != (#[trigger] pairs[j]).0@
}

/// The keys of the map are those of the pairs.
proof fn lemma_pairs_keys(pairs: Seq<(String, String)>)
    ensures
        forall|i: int|
            0 <= i < pairs.len() ==> pairs_map(pairs).contains_key((#[trigger] pairs[i]).0@),
        forall|k: Seq<char>| #[trigger]
            pairs_map(pairs).contains_key(k) ==> exists|i: int|
                0 <= i < pairs.len() && (#[trigger] pairs[i]).0@ == k,
        pairs_map(pairs).dom().finite(),
        distinct_keys(pairs) ==> pairs_map(pairs).dom().len() == pairs.len(),
    decreases pairs.len(),
{
    if pairs.len() > 0 {
        let before = pairs.drop_last();
        lemma_pairs_keys(before);
        let last = pairs.last().0@;
        assert forall|i: int| 0 <= i < pairs.len() implies pairs_map(pairs).contains_key(
            (#[trigger] pairs[i]).0@,
        ) by {
            if i < before.len() {
                assert(before[i] == pairs[i]);
            }
        }
        assert forall|k: Seq<char>| #[trigger] pairs_map(pairs).contains_key(k) implies exists|i: int|
            0 <= i < pairs.len() && (#[trigger] pairs[i]).0@ == k by {
            if k == last {
                assert(pairs[pairs.len() - 1].0@ == k);
            } else {
                let i = choose|i: int| 0 <= i < before.len() && (#[trigger] before[i]).0@ == k;
                assert(pairs[i].0@ == k);
            }
        }
        if distinct_keys(pairs) {
            assert(distinct_keys(before)) by {
                assert forall|i: int, j: int| 0 <= i < j < before.len() implies (#[trigger] before[i]).0@
                    != (#[trigger] before[j]).0@ by {
                    assert(pairs[i].0@ != pairs[j].0@);
                }
            }
            if pairs_map(before).contains_key(last) {
                let i = choose|i: int| 0 <= i < before.len() && (#[trigger] before[i]).0@ == last;
                assert(pairs[i].0@ != pairs[pairs.len() - 1].0@);
            }
        }
        assert(pairs_map(pairs).dom() =~= pairs_map(before).dom().insert(last));
    } else {
        assert(pairs_map(pairs).dom() =~= Set::<Seq<char>>::empty());
    }
}

/// A key that is new keeps the keys apart.
proof fn lemma_push_distinct(pairs: Seq<(String, String)>, pair: (String, String))
    requires
        distinct_keys(pairs),
        !pairs_map(pairs).contains_key(pair.0@),
    ensures
        distinct_keys(pairs.push(pair)),
{
    lemma_pairs_keys(pairs);
    let longer = pairs.push(pair);
    assert forall|i: int, j: int| 0 <= i < j < longer.len() implies (#[trigger] longer[i]).0@ != (
    #[trigger] longer[j]).0@ by {
        assert(longer[i] == pairs[i]);
        assert(pairs_map(pairs).contains_key(pairs[i].0@));
        if j < pairs.len() {
            assert(longer[j] == pairs[j]);
        }
    }
}

/// The first pairs do not have the key of a later one.
proof fn lemma_later_key(pairs: Seq<(String, String)>, i: int)
    requires
        distinct_keys(pairs),
        0 <= i < pairs.len(),
    ensures
        !pairs_map(pairs.take(i)).contains_key(pairs[i].0@),
{
    lemma_pairs_keys(pairs.take(i));
    if pairs_map(pairs.take(i)).contains_key(pairs[i].0@) {
        let k = choose|k: int|
            0 <= k < pairs.take(i).len() && (#[trigger] pairs.take(i)[k]).0@ == pairs[i].0@;
        assert(pairs[k].0@ != pairs[i].0@);
    }
}

/// A map from texts to texts, kept in the order in which its keys were set.
#[derive(Debug)]
pub struct StringMap {
    pairs: Vec<(String, String)>,
}

impl StringMap {
    #[verifier::type_invariant]
    spec fn keys_differ(self) -> bool {
        distinct_keys(self.pairs@)
    }
}

impl View for StringMap {
    type V = Map<Seq<char>, Seq<char>>;

    closed spec fn view(&self) -> Map<Seq<char>, Seq<char>> {
        pairs_map(self.pairs@)
    }
}

impl Clone for StringMap {
    fn clone(&self) -> (r: Self)
        ensures
            r@ == self@,
    {
        self.copy()
    }
}

impl Default for StringMap {
    fn default() -> (r: Self)
        ensures
            r@ == Map::<Seq<char>, Seq<char>>::empty(),
    {
        StringMap::new()
    }
}

impl StringMap {
    /// The empty map.
    pub fn new() -> (r: Self)
        ensures
            r@ == Map::<Seq<char>, Seq<char>>::empty(),
    {
        StringMap { pairs: Vec::new() }
    }

    /// Sets the value of a key.
    pub fn insert(&mut self, key: String, value: String)
        ensures
            final(self)@ == old(self)@.insert(key@, value@),
    {
        let mut kept: Vec<(String, String)> = Vec::new();
        proof {
            use_type_invariant(&*self);
        }
        for i in 0..self.pairs.len()
            invariant
                self.pairs@ == old(self).pairs@,
                distinct_keys(self.pairs@),
                distinct_keys(kept@),
                pairs_map(kept@) =~= pairs_map(self.pairs@.take(i as int)).remove(key@),
        {
            let p = &self.pairs[i];
            proof {
                assert(self.pairs@.take(i + 1).drop_last() =~= self.pairs@.take(i as int));
                lemma_later_key(self.pairs@, i as int);
            }
            if !same(p.0.as_str(), key.as_str()) {
                let ghost before = kept@;
                let copy = (p.0.clone(), p.1.clone());
                proof {
                    lemma_push_distinct(before, copy);
                }
                kept.push(copy);
                assert(kept@.drop_last() =~= before);
            }
        }
        assert(self.pairs@.take(self.pairs@.len() as int) =~= self.pairs@);
        let ghost before = kept@;
        let ghost (k, v) = (key@, value@);
        let pair = (key, value);
        proof {
            lemma_push_distinct(before, pair);
        }
        kept.push(pair);
        assert(kept@.drop_last() =~= before);
        assert(pairs_map(kept@) =~= pairs_map(self.pairs@).insert(k, v));
        self.pairs = kept;
    }

    /// The value of a key.
    pub fn get(&self, key: &str) -> (r: Option<String>)
        ensures
            r is Some <==> self@.contains_key(key@),
            r is Some ==> r->0@ == self@[key@],
    {
        let mut found: Option<String> = None;
        for i in 0..self.pairs.len()
            invariant
                found is Some <==> pairs_map(self.pairs@.take(i as int)).contains_key(key@),
                found is Some ==> found->0@ == pairs_map(self.pairs@.take(i as int))[key@],
        {
            proof {
                assert(self.pairs@.take(i + 1).drop_last() =~= self.pairs@.take(i as int));
            }
            if same(self.pairs[i].0.as_str(), key) {
                found = Some(self.pairs[i].1.clone());
            }
        }
        assert(self.pairs@.take(self.pairs@.len() as int) =~= self.pairs@);
        found
    }

    /// Whether a key has a value.
    pub fn contains_key(&self, key: &str) -> (r: bool)
        ensures
            r == self@.contains_key(key@),
    {
        self.get(key).is_some()
    }

    /// How many keys there are.
    pub fn len(&self) -> (r: usize)
        ensures
            r == self@.dom().len(),
    {
        proof {
            use_type_invariant(self);
            lemma_pairs_keys(self.pairs@);
        }
        self.pairs.len()
    }

    /// The pairs, in order.
    pub closed spec fn entries_spec(&self) -> Seq<(String, String)> {
        self.pairs@
    }

    /// The pairs, in order.
    pub fn entries(&self) -> (r: &Vec<(String, String)>)
        ensures
            r@ == self.entries_spec(),
            pairs_map(r@) == self@,
            distinct_keys(r@),
    {
        proof {
            use_type_invariant(self);
        }
        &self.pairs
    }

    /// A copy.
    pub fn copy(&self) -> (r: Self)
        ensures
            r@ == self@,
    {
        let mut pairs: Vec<(String, String)> = Vec::new();
        proof {
            use_type_invariant(self);
        }
        for i in 0..self.pairs.len()
            invariant
                distinct_keys(self.pairs@),
                distinct_keys(pairs@),
                pairs_map(pairs@) == pairs_map(self.pairs@.take(i as int)),
        {
            let ghost before = pairs@;
            let pair = (self.pairs[i].0.clone(), self.pairs[i].1.clone());
            proof {
                lemma_later_key(self.pairs@, i as int);
                lemma_push_distinct(before, pair);
            }
            pairs.push(pair);
            proof {
                assert(self.pairs@.take(i + 1).drop_last() =~= self.pairs@.take(i as int));
                assert(pairs@.drop_last() =~= before);
            }
        }
        assert(self.pairs@.take(self.pairs@.len() as int) =~= self.pairs@);
        StringMap { pairs }
    }

    /// Sets these values, one after another.
    pub fn put_all(&mut self, pairs: &Vec<(String, String)>)
        ensures
            final(self)@ == old(self)@.union_prefer_right(pairs_map(pairs@)),
    {
        assert(old(self)@.union_prefer_right(pairs_map(pairs@.take(0))) =~= old(self)@);
        for i in 0..pairs.len()
            invariant
                self@ =~= old(self)@.union_prefer_right(pairs_map(pairs@.take(i as int))),
        {
            proof {
                assert(pairs@.take(i + 1).drop_last() =~= pairs@.take(i as int));
            }
            self.insert(pairs[i].0.clone(), pairs[i].1.clone());
        }
        assert(pairs@.take(pairs@.len() as int) =~= pairs@);
    }

    /// This map with the values of `over` on top.
    pub fn merged(&self, over: &StringMap) -> (r: Self)
        ensures
            r@ == self@.union_prefer_right(over@),
    {
        let mut out = self.copy();
        out.put_all(&over.pairs);
        out
    }
}

/// A character that may stand in the name of a header.
pub open spec fn token_char(c: char) -> bool {
    ||| '0' <= c <= '9'
    ||| 'a' <= c <= 'z'
    ||| 'A' <= c <= 'Z'
    ||| c == '!' || c == '#' || c == '$' || c == '%' || c == '&' || c == '\'' || c == '*'
    ||| c == '+' || c == '-' || c == '.' || c == '^' || c == '_' || c == '`' || c == '|' || c == '~'
}

/// A text that can be the name of a header.
pub open spec fn header_name_ok(name: Seq<char>) -> bool {
    &&& 1 <= name.len() <= 0xFFFF
    &&& forall|i: int| 0 <= i < name.len() ==> token_char(#[trigger] name[i])
}

/// A text that can be the value of a header: no control characters but tabs.
pub open spec fn header_value_ok(value: Seq<char>) -> bool {
    forall|i: int|
        0 <= i < value.len() ==> #[trigger] value[i] == '\t' || (' ' <= value[i] && value[i]
            != '\u{7F}')
}

/// The name of a header in lower case, or why it can be none.
pub open spec fn read_name_spec(name: Seq<char>) -> Result<Seq<char>, Seq<char>> {
    if header_name_ok(name) {
        Ok(lower_spec(name))
    } else {
        Err("invalid HTTP header name"@)
    }
}

/// Why a text cannot be the value of a header; nothing where it can.
pub open spec fn check_value_spec(value: Seq<char>) -> Option<Seq<char>> {
    if header_value_ok(value) {
        None
    } else {
        Some("failed to parse header value"@)
    }
}

pub open spec fn name_read(r: Result<String, String>) -> Result<Seq<char>, Seq<char>> {
    match r {
        Ok(n) => Ok(n@),
        Err(m) => Err(m@),
    }
}

pub open spec fn value_checked(r: Result<(), String>) -> Option<Seq<char>> {
    match r {
        Ok(_) => None,
        Err(m) => Some(m@),
    }
}

/// `reqwest::header::HeaderName::from_bytes`: the name in lower case, where it can be the name of
/// a header; else what the error says.
#[verifier::external_body]
pub(crate) fn read_header_name(name: &str) -> (r: Result<String, String>)
    ensures
        name_read(r) == read_name_spec(name@),
{
    match reqwest::header::HeaderName::from_bytes(name.as_bytes()) {
        Ok(n) => Ok(n.as_str().to_string()),
        Err(e) => Err(e.to_string()),
    }
}

/// `reqwest::header::HeaderValue::from_str`: whether a text can be the value of a header; where it
/// cannot, what the error says.
#[verifier::external_body]
pub(crate) fn check_header_value(value: &str) -> (r: Result<(), String>)
    ensures
        value_checked(r) == check_value_spec(value@),
{
    match reqwest::header::HeaderValue::from_str(value) {
        Ok(_) => Ok(()),
        Err(e) => Err(e.to_string()),
    }
}

/// The headers that can be sent of a list of pairs, with their names in lower case.
pub open spec fn sendable(pairs: Seq<(String, String)>) -> Map<Seq<char>, Seq<char>>
    decreases pairs.len(),
{
    if pairs.len() == 0 {
        Map::empty()
    } else {
        let (k, v) = pairs.last();
        if header_name_ok(k@) && header_value_ok(v@) {
            sendable(pairs.drop_last()).insert(lower_spec(k@), v@)
        } else {
            sendable(pairs.drop_last())
        }
    }
}

/// These are the headers that can be sent of a map. Where two names differ in case alone, either
/// may be the one that counts.
pub open spec fn sent_of(
    sent: Map<Seq<char>, Seq<char>>,
    headers: Map<Seq<char>, Seq<char>>,
) -> bool {
    exists|pairs: Seq<(String, String)>| #[trigger]
        pairs_map(pairs) == headers && distinct_keys(pairs) && sendable(pairs) == sent
}

impl StringMap {
    /// The pairs that can be sent as headers, with their names in lower case.
    pub fn to_headers(&self) -> (r: StringMap)
        ensures
            r@ == sendable(self.entries_spec()),
            sent_of(r@, self@),
    {
        let mut out = StringMap::new();
        for i in 0..self.pairs.len()
            invariant
                out@ == sendable(self.pairs@.take(i as int)),
        {
            proof {
                assert(self.pairs@.take(i + 1).drop_last() =~= self.pairs@.take(i as int));
            }
            let (k, v) = &self.pairs[i];
            if let (Ok(name), Ok(())) = (read_header_name(k.as_str()), check_header_value(v.as_str())) {
                out.insert(name, v.clone());
            }
        }
        assert(self.pairs@.take(self.pairs@.len() as int) =~= self.pairs@);
        proof {
            use_type_invariant(self);
            assert(pairs_map(self.pairs@) == self@);
        }
        out
    }
}

/// A header that can be sent is sent under its name in lower case, and takes the place of an
/// earlier one of that name; one that cannot be sent is left out and disturbs no other.
pub proof fn law_headers_are_sent(pairs: Seq<(String, String)>, pair: (String, String), name: Seq<char>)
    ensures
        ({
            let before = sendable(pairs);
            let after = sendable(pairs.push(pair));
            let ok = header_name_ok(pair.0@) && header_value_ok(pair.1@);
            &&& ok ==> after.contains_key(lower_spec(pair.0@)) && after[lower_spec(pair.0@)] == pair.1@
            &&& !ok ==> after == before
            &&& name != lower_spec(pair.0@) ==> after.contains_key(name) == before.contains_key(name) && (
            before.contains_key(name) ==> after[name] == before[name])
        }),
        sendable(Seq::empty()) == Map::<Seq<char>, Seq<char>>::empty(),
{
    assert(pairs.push(pair).drop_last() =~= pairs);
}

} // verus!
