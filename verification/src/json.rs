//! JSON documents: the tree that a document denotes, and the values that the gateway edits.
use vstd::prelude::*;
use crate::text;

verus! {

#[verifier::external_type_specification]
#[verifier::external_body]
pub struct ExJsonValue(serde_json::Value);

#[verifier::external_type_specification]
#[verifier::external_body]
pub struct ExJsonNumber(serde_json::Number);

/// What a JSON document denotes. The members of an object have no order.
pub enum JsonTree {
    Null,
    Bool(bool),
    /// A number that is an integer from 0 to `u64::MAX`.
    Unsigned(u64),
    /// Any other number.
    OtherNumber(serde_json::Number),
    Text(Seq<char>),
    Array(Seq<JsonTree>),
    Object(Map<Seq<char>, JsonTree>),
}

impl JsonTree {
    /// The member `key`, if this is an object that has it.
    pub open spec fn member(self, key: Seq<char>) -> Option<JsonTree> {
        match self {
            JsonTree::Object(members) => if members.dom().contains(key) {
                Some(members[key])
            } else {
                None
            },
            _ => None,
        }
    }
}

/// A JSON value.
pub enum Json {
    Null,
    Bool(bool),
    Unsigned(u64),
    OtherNumber(OtherNumber),
    Text(String),
    Array(Vec<Json>),
    Object(JsonObject),
}

/// A number that is no integer from 0 to `u64::MAX`.
pub struct OtherNumber {
    number: serde_json::Number,
}

/// The members of a JSON object, each key once.
pub struct JsonObject {
    entries: Vec<(String, Json)>,
}

/// Whether no key occurs twice.
pub open spec fn distinct_keys(entries: Seq<(String, Json)>) -> bool {
    forall|i: int, j: int|
        0 <= i < j < entries.len() ==> (#[trigger] entries[i]).0@ != (#[trigger] entries[j]).0@
}

/// The trees of a sequence of values.
pub open spec fn trees(items: Seq<Json>) -> Seq<JsonTree>
    decreases items,
{
    Seq::new(
        items.len(),
        |i: int|
            if 0 <= i < items.len() {
                items[i]@
            } else {
                JsonTree::Null
            },
    )
}

/// The members that a sequence of entries makes.
pub open spec fn members(entries: Seq<(String, Json)>) -> Map<Seq<char>, JsonTree>
    decreases entries,
{
    if entries.len() == 0 {
        Map::empty()
    } else {
        members(entries.drop_last()).insert(entries.last().0@, entries.last().1@)
    }
}

impl View for JsonObject {
    type V = Map<Seq<char>, JsonTree>;

    closed spec fn view(&self) -> Map<Seq<char>, JsonTree>
        decreases self,
    {
        members(self.entries@)
    }
}

impl JsonObject {
    #[verifier::type_invariant]
    spec fn each_key_once(self) -> bool {
        distinct_keys(self.entries@)
    }
}

impl View for OtherNumber {
    type V = serde_json::Number;

    closed spec fn view(&self) -> serde_json::Number {
        self.number
    }
}

impl OtherNumber {
    #[verifier::type_invariant]
    spec fn is_no_unsigned(self) -> bool {
        unsigned_of(self.number) is None
    }
}

impl View for Json {
    type V = JsonTree;

    open spec fn view(&self) -> JsonTree
        decreases self,
    {
        match self {
            Json::Null => JsonTree::Null,
            Json::Bool(b) => JsonTree::Bool(*b),
            Json::Unsigned(n) => JsonTree::Unsigned(*n),
            Json::OtherNumber(n) => JsonTree::OtherNumber(n@),
            Json::Text(s) => JsonTree::Text(s@),
            Json::Array(items) => JsonTree::Array(trees(items@)),
            Json::Object(object) => JsonTree::Object(object@),
        }
    }
}

// ---------------------------------------------------------------------------
// The outside representation
// ---------------------------------------------------------------------------

/// One level of a `serde_json::Value`.
enum Node {
    Null,
    Bool(bool),
    Number(serde_json::Number),
    Text(String),
    Array(Vec<serde_json::Value>),
    Object(Vec<(String, serde_json::Value)>),
}

/// The tree that a `serde_json::Value` holds.
pub uninterp spec fn tree_of(value: serde_json::Value) -> JsonTree;

/// The integer from 0 to `u64::MAX` that a `serde_json::Number` holds, if it holds one.
pub uninterp spec fn unsigned_of(number: serde_json::Number) -> Option<u64>;

/// The tree of a number.
pub open spec fn number_tree(number: serde_json::Number) -> JsonTree {
    match unsigned_of(number) {
        Some(u) => JsonTree::Unsigned(u),
        None => JsonTree::OtherNumber(number),
    }
}

/// The tree of the JSON document that the bytes spell, if they spell one.
pub uninterp spec fn parsed_json(bytes: Seq<u8>) -> Option<JsonTree>;

/// The text that a tree is written as, if it can be written.
pub uninterp spec fn json_text(tree: JsonTree) -> Option<Seq<char>>;

impl Node {
    /// The tree that this level and what hangs below it hold.
    spec fn tree(self) -> JsonTree {
        match self {
            Node::Null => JsonTree::Null,
            Node::Bool(b) => JsonTree::Bool(b),
            Node::Number(n) => number_tree(n),
            Node::Text(s) => JsonTree::Text(s@),
            Node::Array(items) => JsonTree::Array(
                Seq::new(items@.len(), |i: int| tree_of(items@[i])),
            ),
            Node::Object(entries) => JsonTree::Object(pair_map(value_pairs(entries@))),
        }
    }

    /// Whether no key of an object occurs twice.
    spec fn distinct_keys(self) -> bool {
        self matches Node::Object(entries) ==> forall|i: int, j: int|
            0 <= i < j < entries@.len() ==> entries@[i].0@ != entries@[j].0@
    }
}

/// Calls `serde_json::from_slice`: it hands back a value that holds the tree named by
/// `parsed_json`, or an error where that names none.
#[verifier::external_body]
fn parse_value(bytes: &[u8]) -> (value: Option<serde_json::Value>)
    ensures
        match value {
            Some(v) => parsed_json(bytes@) == Some(tree_of(v)),
            None => parsed_json(bytes@) is None,
        },
{
    serde_json::from_slice(bytes).ok()
}

/// Calls `serde_json::to_string`: what is written depends on the tree that the value holds alone.
#[verifier::external_body]
fn write_value(value: &serde_json::Value) -> (text: Option<String>)
    ensures
        match text {
            Some(s) => json_text(tree_of(*value)) == Some(s@),
            None => json_text(tree_of(*value)) is None,
        },
{
    serde_json::to_string(value).ok()
}

/// Calls `serde_json::Number::as_u64`: it gives the integer named by `unsigned_of`, and nothing
/// for a number that is negative or has a fraction or an exponent.
#[verifier::external_body]
fn as_unsigned(number: &serde_json::Number) -> (unsigned: Option<u64>)
    ensures
        unsigned == unsigned_of(*number),
{
    number.as_u64()
}

/// Calls `serde_json::Number::from` on a `u64`: the number holds that integer.
#[verifier::external_body]
fn number_from(unsigned: u64) -> (number: serde_json::Number)
    ensures
        unsigned_of(number) == Some(unsigned),
{
    serde_json::Number::from(unsigned)
}

/// Takes one level of a `serde_json::Value` apart. No key of a `serde_json::Map` occurs twice.
#[verifier::external_body]
fn open_value(value: serde_json::Value) -> (node: Node)
    ensures
        node.tree() == tree_of(value),
        node.distinct_keys(),
{
    match value {
        serde_json::Value::Null => Node::Null,
        serde_json::Value::Bool(b) => Node::Bool(b),
        serde_json::Value::Number(n) => Node::Number(n),
        serde_json::Value::String(s) => Node::Text(s),
        serde_json::Value::Array(items) => Node::Array(items),
        serde_json::Value::Object(map) => Node::Object(map.into_iter().collect()),
    }
}

/// Puts one level of a `serde_json::Value` together.
#[verifier::external_body]
fn close_value(node: Node) -> (value: serde_json::Value)
    requires
        node.distinct_keys(),
    ensures
        tree_of(value) == node.tree(),
{
    match node {
        Node::Null => serde_json::Value::Null,
        Node::Bool(b) => serde_json::Value::Bool(b),
        Node::Number(n) => serde_json::Value::Number(n),
        Node::Text(s) => serde_json::Value::String(s),
        Node::Array(items) => serde_json::Value::Array(items),
        Node::Object(entries) => serde_json::Value::Object(entries.into_iter().collect()),
    }
}

/// The map that a sequence of pairs makes; of pairs with the same key the last counts.
pub open spec fn pair_map(pairs: Seq<(Seq<char>, JsonTree)>) -> Map<Seq<char>, JsonTree>
    decreases pairs.len(),
{
    if pairs.len() == 0 {
        Map::empty()
    } else {
        pair_map(pairs.drop_last()).insert(pairs.last().0, pairs.last().1)
    }
}

/// The keys and trees of a sequence of entries.
pub open spec fn pairs(entries: Seq<(String, Json)>) -> Seq<(Seq<char>, JsonTree)> {
    Seq::new(entries.len(), |i: int| (entries[i].0@, entries[i].1@))
}

/// The keys and trees of a sequence of outside entries.
spec fn value_pairs(entries: Seq<(String, serde_json::Value)>) -> Seq<(Seq<char>, JsonTree)> {
    Seq::new(entries.len(), |i: int| (entries[i].0@, tree_of(entries[i].1)))
}

/// A key is in the map exactly when some pair has it.
proof fn lemma_pair_map_dom(all: Seq<(Seq<char>, JsonTree)>, key: Seq<char>)
    ensures
        pair_map(all).dom().contains(key) <==> exists|i: int|
            0 <= i < all.len() && (#[trigger] all[i]).0 == key,
        pair_map(all).dom().finite(),
    decreases all.len(),
{
    if all.len() > 0 {
        let front = all.drop_last();
        lemma_pair_map_dom(front, key);
        if pair_map(front).dom().contains(key) {
            let i = choose|i: int| 0 <= i < front.len() && (#[trigger] front[i]).0 == key;
            assert(all[i].0 == key);
        }
        if exists|i: int| 0 <= i < all.len() && (#[trigger] all[i]).0 == key {
            let i = choose|i: int| 0 <= i < all.len() && (#[trigger] all[i]).0 == key;
            if i < front.len() {
                assert(front[i].0 == key);
            }
        }
        assert(all.last() == all[all.len() - 1]);
    }
}

/// The last pair with a key gives the value.
proof fn lemma_pair_map_last(all: Seq<(Seq<char>, JsonTree)>, i: int)
    requires
        0 <= i < all.len(),
        forall|j: int| i < j < all.len() ==> (#[trigger] all[j]).0 != all[i].0,
    ensures
        pair_map(all).dom().contains(all[i].0),
        pair_map(all)[all[i].0] == all[i].1,
    decreases all.len(),
{
    if i < all.len() - 1 {
        let front = all.drop_last();
        assert forall|j: int| i < j < front.len() implies (#[trigger] front[j]).0 != front[i].0 by {
            assert(front[j] == all[j]);
        }
        lemma_pair_map_last(front, i);
        assert(all[all.len() - 1].0 != all[i].0);
    }
}

/// The members of an object are the map that its keys and trees make.
pub proof fn lemma_members_are_pair_map(entries: Seq<(String, Json)>)
    ensures
        members(entries) == pair_map(pairs(entries)),
    decreases entries.len(),
{
    if entries.len() > 0 {
        lemma_members_are_pair_map(entries.drop_last());
        assert(pairs(entries).drop_last() == pairs(entries.drop_last()));
    }
}

/// Every member of an object is below it.
proof fn lemma_member_decreases(all: Seq<(Seq<char>, JsonTree)>, i: int)
    requires
        0 <= i < all.len(),
        forall|j: int| i < j < all.len() ==> (#[trigger] all[j]).0 != all[i].0,
    ensures
        decreases_to!(JsonTree::Object(pair_map(all)) => all[i].1),
{
    lemma_pair_map_last(all, i);
    lemma_pair_map_dom(all, all[i].0);
    let tree = JsonTree::Object(pair_map(all));
    assert(decreases_to!(tree => tree->Object_0));
    assert(decreases_to!(tree->Object_0 => tree->Object_0[all[i].0]));
}

/// The value of the library that holds the same tree as `value`.
fn json_of_value(value: serde_json::Value) -> (json: Json)
    ensures
        json@ == tree_of(value),
    decreases tree_of(value),
{
    let ghost tree = tree_of(value);
    match open_value(value) {
        Node::Null => Json::Null,
        Node::Bool(b) => Json::Bool(b),
        Node::Number(number) => match as_unsigned(&number) {
            Some(u) => Json::Unsigned(u),
            None => Json::OtherNumber(OtherNumber { number }),
        },
        Node::Text(s) => Json::Text(s),
        Node::Array(items) => {
            let ghost all = items@;
            let mut out: Vec<Json> = Vec::new();
            for item in it: items.into_iter()
                invariant
                    it.seq() == all,
                    tree == JsonTree::Array(Seq::new(all.len(), |i: int| tree_of(all[i]))),
                    tree == tree_of(value),
                    out@.len() == it.index(),
                    forall|i: int| 0 <= i < out@.len() ==> (#[trigger] out@[i])@ == tree_of(all[i]),
            {
                proof {
                    assert(tree->Array_0[it.index() as int] == tree_of(item));
                    assert(decreases_to!(tree => tree->Array_0));
                    assert(decreases_to!(tree->Array_0 => tree->Array_0[it.index() as int]));
                }
                out.push(json_of_value(item));
            }
            assert(trees(out@) == tree->Array_0);
            Json::Array(out)
        },
        Node::Object(entries) => {
            let ghost all = entries@;
            let mut out: Vec<(String, Json)> = Vec::new();
            for entry in it: entries.into_iter()
                invariant
                    it.seq() == all,
                    tree == JsonTree::Object(pair_map(value_pairs(all))),
                    tree == tree_of(value),
                    forall|i: int, j: int| 0 <= i < j < all.len() ==> all[i].0@ != all[j].0@,
                    pairs(out@) == value_pairs(all.take(it.index() as int)),
            {
                let ghost before = out@;
                let ghost k = it.index() as int;
                let (key, child) = entry;
                proof {
                    assert(value_pairs(all)[k].0 == all[k].0@);
                    lemma_member_decreases(value_pairs(all), k);
                }
                out.push((key, json_of_value(child)));
                proof {
                    assert(value_pairs(all.take(k)) == value_pairs(all).take(k));
                    assert(value_pairs(all.take(k + 1)) == value_pairs(all.take(k)).push(
                        value_pairs(all)[k],
                    ));
                    assert(pairs(out@) == pairs(before).push(value_pairs(all)[k]));
                }
            }
            proof {
                assert(all.take(all.len() as int) == all);
                lemma_members_are_pair_map(out@);
                assert forall|i: int, j: int| 0 <= i < j < out@.len() implies (#[trigger] out@[i]).0@
                    != (#[trigger] out@[j]).0@ by {
                    assert(pairs(out@)[i].0 == value_pairs(all)[i].0);
                    assert(pairs(out@)[j].0 == value_pairs(all)[j].0);
                }
            }
            Json::Object(JsonObject { entries: out })
        },
    }
}

/// The outside value that holds the same tree as `json`.
fn value_of_json(json: Json) -> (value: serde_json::Value)
    ensures
        tree_of(value) == json@,
    decreases json,
{
    let ghost whole = json;
    let node = match json {
        Json::Null => Node::Null,
        Json::Bool(b) => Node::Bool(b),
        Json::Unsigned(n) => Node::Number(number_from(n)),
        Json::OtherNumber(other) => {
            proof {
                use_type_invariant(&other);
            }
            Node::Number(other.number)
        },
        Json::Text(s) => Node::Text(s),
        Json::Array(items) => {
            let ghost all = items@;
            let mut out: Vec<serde_json::Value> = Vec::new();
            for item in it: items.into_iter()
                invariant
                    it.seq() == all,
                    whole == json,
                    whole is Array,
                    all == whole->Array_0@,
                    out@.len() == it.index(),
                    forall|i: int| 0 <= i < out@.len() ==> tree_of(#[trigger] out@[i]) == all[i]@,
            {
                proof {
                    let k = it.index() as int;
                    assert(decreases_to!(whole => whole->Array_0));
                    assert(decreases_to!(whole->Array_0 => whole->Array_0@));
                    assert(decreases_to!(whole->Array_0@ => whole->Array_0@[k]));
                }
                out.push(value_of_json(item));
            }
            assert(Seq::new(out@.len(), |i: int| tree_of(out@[i])) == trees(all));
            Node::Array(out)
        },
        Json::Object(object) => {
            proof {
                use_type_invariant(&object);
            }
            let ghost all = object.entries@;
            let mut out: Vec<(String, serde_json::Value)> = Vec::new();
            for entry in it: object.entries.into_iter()
                invariant
                    it.seq() == all,
                    whole == json,
                    whole is Object,
                    all == whole->Object_0.entries@,
                    value_pairs(out@) == pairs(all.take(it.index() as int)),
            {
                let ghost k = it.index() as int;
                let ghost before = out@;
                let (key, child) = entry;
                proof {
                    let entries = whole->Object_0.entries;
                    assert(decreases_to!(whole => whole->Object_0));
                    assert(decreases_to!(whole->Object_0 => whole->Object_0.entries));
                    assert(decreases_to!(entries => entries@));
                    assert(decreases_to!(entries@ => entries@[k]));
                    assert(decreases_to!(entries@[k] => entries@[k].1));
                }
                out.push((key, value_of_json(child)));
                proof {
                    assert(pairs(all.take(k + 1)) == pairs(all.take(k)).push(pairs(all)[k]));
                    assert(value_pairs(out@) == value_pairs(before).push(pairs(all)[k]));
                }
            }
            proof {
                assert(all.take(all.len() as int) == all);
                lemma_members_are_pair_map(all);
                assert forall|i: int, j: int| 0 <= i < j < out@.len() implies out@[i].0@
                    != out@[j].0@ by {
                    assert(value_pairs(out@)[i].0 == pairs(all)[i].0);
                    assert(value_pairs(out@)[j].0 == pairs(all)[j].0);
                }
            }
            Node::Object(out)
        },
    };
    close_value(node)
}

/// With each key once, the members are exactly the entries.
pub proof fn lemma_members_lookup(entries: Seq<(String, Json)>)
    requires
        distinct_keys(entries),
    ensures
        members(entries).dom().finite(),
        forall|i: int|
            0 <= i < entries.len() ==> members(entries).dom().contains(
                (#[trigger] entries[i]).0@,
            ) && members(entries)[entries[i].0@] == entries[i].1@,
        forall|k: Seq<char>| #[trigger]
            members(entries).dom().contains(k) ==> exists|i: int|
                0 <= i < entries.len() && (#[trigger] entries[i]).0@ == k,
{
    let all = pairs(entries);
    lemma_members_are_pair_map(entries);
    lemma_pair_map_dom(all, Seq::empty());
    assert forall|i: int| 0 <= i < entries.len() implies members(entries).dom().contains(
        (#[trigger] entries[i]).0@,
    ) && members(entries)[entries[i].0@] == entries[i].1@ by {
        assert(all[i] == (entries[i].0@, entries[i].1@));
        assert forall|j: int| i < j < all.len() implies (#[trigger] all[j]).0 != all[i].0 by {
            assert(entries[i].0@ != entries[j].0@);
        }
        lemma_pair_map_last(all, i);
    }
    assert forall|k: Seq<char>| #[trigger] members(entries).dom().contains(k) implies exists|i: int|
        0 <= i < entries.len() && (#[trigger] entries[i]).0@ == k by {
        lemma_pair_map_dom(all, k);
        let i = choose|i: int| 0 <= i < all.len() && (#[trigger] all[i]).0 == k;
        assert(entries[i].0@ == k);
    }
}

/// Every entry of an object is below the object.
pub proof fn lemma_entry_decreases(entries: Seq<(String, Json)>, i: int)
    requires
        distinct_keys(entries),
        0 <= i < entries.len(),
    ensures
        decreases_to!(JsonTree::Object(members(entries)) => entries[i].1@),
{
    lemma_members_lookup(entries);
    let tree = JsonTree::Object(members(entries));
    assert(decreases_to!(tree => tree->Object_0));
    assert(decreases_to!(tree->Object_0 => tree->Object_0[entries[i].0@]));
}

/// One more entry.
proof fn lemma_members_push(entries: Seq<(String, Json)>, entry: (String, Json))
    ensures
        members(entries.push(entry)) == members(entries).insert(entry.0@, entry.1@),
{
    assert(entries.push(entry).drop_last() == entries);
}

/// The tree behind an optional value.
pub open spec fn optional_tree(json: Option<Json>) -> Option<JsonTree> {
    match json {
        Some(j) => Some(j@),
        None => None,
    }
}

/// The entries whose key is not `key`, and the value of the one whose key it is.
fn without_key(entries: Vec<(String, Json)>, key: &str) -> (split: (
    Vec<(String, Json)>,
    Option<Json>,
))
    requires
        distinct_keys(entries@),
    ensures
        distinct_keys(split.0@),
        forall|i: int| 0 <= i < split.0@.len() ==> (#[trigger] split.0@[i]).0@ != key@,
        members(split.0@) == members(entries@).remove(key@),
        match split.1 {
            Some(v) => members(entries@).dom().contains(key@) && members(entries@)[key@] == v@,
            None => !members(entries@).dom().contains(key@),
        },
{
    let ghost all = entries@;
    let mut rest: Vec<(String, Json)> = Vec::new();
    let mut found: Option<Json> = None;
    for entry in it: entries.into_iter()
        invariant
            it.seq() == all,
            distinct_keys(all),
            distinct_keys(rest@),
            forall|i: int| 0 <= i < rest@.len() ==> (#[trigger] rest@[i]).0@ != key@,
            forall|i: int|
                0 <= i < rest@.len() ==> exists|j: int|
                    0 <= j < it.index() && (#[trigger] rest@[i]) == #[trigger] all[j],
            members(rest@) == members(all.take(it.index() as int)).remove(key@),
            match found {
                Some(v) => members(all.take(it.index() as int)).dom().contains(key@) && members(
                    all.take(it.index() as int),
                )[key@] == v@,
                None => !members(all.take(it.index() as int)).dom().contains(key@),
            },
    {
        let ghost k = it.index() as int;
        let ghost before = rest@;
        proof {
            lemma_members_push(all.take(k), entry);
            assert(all.take(k + 1) == all.take(k).push(entry));
            assert(entry == all[k]);
        }
        if text::same_text(entry.0.as_str(), key) {
            assert(members(all.take(k + 1)).remove(key@) =~= members(all.take(k)).remove(key@));
            found = Some(entry.1);
        } else {
            proof {
                lemma_members_push(before, entry);
            }
            rest.push(entry);
            assert(members(all.take(k + 1)).remove(key@) =~= members(rest@));
        }
    }
    assert(all.take(all.len() as int) == all);
    (rest, found)
}

impl JsonObject {
    /// An object without members.
    pub fn new() -> (object: JsonObject)
        ensures
            object@ == Map::<Seq<char>, JsonTree>::empty(),
    {
        JsonObject { entries: Vec::new() }
    }

    /// The member `key`.
    pub fn get(&self, key: &str) -> (value: Option<&Json>)
        ensures
            match value {
                Some(v) => self@.dom().contains(key@) && self@[key@] == v@,
                None => !self@.dom().contains(key@),
            },
    {
        let ghost all = pairs(self.entries@);
        proof {
            lemma_members_are_pair_map(self.entries@);
            lemma_pair_map_dom(all, key@);
        }
        let mut i: usize = self.entries.len();
        while i > 0
            invariant
                i <= self.entries.len(),
                all == pairs(self.entries@),
                self@ == pair_map(all),
                forall|j: int| i <= j < all.len() ==> (#[trigger] all[j]).0 != key@,
            decreases i,
        {
            i = i - 1;
            assert(all[i as int] == (self.entries@[i as int].0@, self.entries@[i as int].1@));
            if text::same_text(self.entries[i].0.as_str(), key) {
                proof {
                    lemma_pair_map_last(all, i as int);
                }
                return Some(&self.entries[i].1);
            }
        }
        None
    }

    /// Removes the member `key` and hands it back.
    pub fn take(&mut self, key: &str) -> (value: Option<Json>)
        ensures
            final(self)@ == old(self)@.remove(key@),
            match value {
                Some(v) => old(self)@.dom().contains(key@) && old(self)@[key@] == v@,
                None => !old(self)@.dom().contains(key@),
            },
    {
        let ghost all = self.entries@;
        proof {
            use_type_invariant(&*self);
        }
        let mut entries: Vec<(String, Json)> = Vec::new();
        std::mem::swap(&mut entries, &mut self.entries);
        let (rest, found) = without_key(entries, key);
        self.entries = rest;
        found
    }

    /// Makes `value` the member `key`.
    pub fn insert(&mut self, key: &str, value: Json)
        ensures
            final(self)@ == old(self)@.insert(key@, value@),
    {
        proof {
            use_type_invariant(&*self);
        }
        let mut entries: Vec<(String, Json)> = Vec::new();
        std::mem::swap(&mut entries, &mut self.entries);
        let (mut rest, _) = without_key(entries, key);
        let ghost before = rest@;
        rest.push((key.to_owned(), value));
        proof {
            lemma_members_push(before, rest@.last());
            assert(rest@ == before.push(rest@.last()));
            assert(members(rest@) =~= old(self)@.insert(key@, value@));
        }
        self.entries = rest;
    }

    /// The entries of this object.
    pub fn into_entries(self) -> (entries: Vec<(String, Json)>)
        ensures
            members(entries@) == self@,
            distinct_keys(entries@),
    {
        proof {
            use_type_invariant(&self);
        }
        self.entries
    }

    /// Whether `key` is a member.
    pub fn has(&self, key: &str) -> (yes: bool)
        ensures
            yes == self@.dom().contains(key@),
    {
        self.get(key).is_some()
    }
}

impl Json {
    /// The member `key`, if this is an object that has it.
    pub fn member(&self, key: &str) -> (value: Option<&Json>)
        ensures
            match value {
                Some(v) => self@.member(key@) == Some(v@),
                None => self@.member(key@) is None,
            },
    {
        match self {
            Json::Object(object) => object.get(key),
            _ => None,
        }
    }

    /// The value that a JSON document denotes; nothing if the bytes are not a JSON document.
    pub fn parse(bytes: &[u8]) -> (json: Option<Json>)
        ensures
            match json {
                Some(j) => parsed_json(bytes@) == Some(j@),
                None => parsed_json(bytes@) is None,
            },
    {
        match parse_value(bytes) {
            Some(value) => Some(json_of_value(value)),
            None => None,
        }
    }

    /// The text of this value.
    pub fn render(self) -> (text: Option<String>)
        ensures
            match text {
                Some(s) => json_text(self@) == Some(s@),
                None => json_text(self@) is None,
            },
    {
        let value = value_of_json(self);
        write_value(&value)
    }
}

/// A tree has a member exactly when it is an object that holds something under the key; then that is it.
pub proof fn law_member(tree: JsonTree, key: Seq<char>, map: Map<Seq<char>, JsonTree>, value: JsonTree)
    ensures
        tree.member(key) is Some ==> tree is Object,
        JsonTree::Object(map.insert(key, value)).member(key) == Some(value),
        JsonTree::Object(map.remove(key)).member(key) is None,
        map.dom().contains(key) ==> JsonTree::Object(map).member(key) == Some(map[key]),
        !map.dom().contains(key) ==> JsonTree::Object(map).member(key) is None,
{
}

} // verus!
