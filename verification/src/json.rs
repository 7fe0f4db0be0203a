//! JSON values as the library reads them.

use vstd::prelude::*;

use crate::text::same;

verus! {

/// A JSON number, as far as the library reads it.
#[derive(Clone, Copy, Debug, PartialEq, Eq, Structural)]
pub enum JsonNumber {
    /// An integer from zero up.
    Unsigned(u64),
    /// An integer below zero.
    Negative(i64),
    /// Any other number, cut toward zero to an integer and held to the range of `i64`.
    Fractional(i64),
}

/// A JSON value.
#[derive(Debug, PartialEq, Eq)]
pub enum Json {
    Null,
    Bool(bool),
    Number(JsonNumber),
    Str(String),
    Array(Vec<Json>),
    /// The members of an object, each name once.
    Object(Vec<(String, Json)>),
}

/// What a JSON value is, with text as character sequences.
pub enum JsonTree {
    Null,
    Bool(bool),
    Number(JsonNumber),
    Str(Seq<char>),
    Array(Seq<JsonTree>),
    Object(Seq<(Seq<char>, JsonTree)>),
}

/// What the items of an array are.
pub open spec fn items_view(items: Seq<Json>) -> Seq<JsonTree> {
    items.map_values(|j: Json| j@)
}

/// What the members of an object are.
pub open spec fn members_view(members: Seq<(String, Json)>) -> Seq<(Seq<char>, JsonTree)> {
    members.map_values(|e: (String, Json)| (e.0@, e.1@))
}

/// What a JSON value is.
pub open spec fn tree_of(j: Json) -> JsonTree
    decreases j,
{
    match j {
        Json::Null => JsonTree::Null,
        Json::Bool(b) => JsonTree::Bool(b),
        Json::Number(n) => JsonTree::Number(n),
        Json::Str(s) => JsonTree::Str(s@),
        Json::Array(a) => JsonTree::Array(
            Seq::new(
                a@.len(),
                |i: int|
                    if 0 <= i < a@.len() {
                        tree_of(a@[i])
                    } else {
                        JsonTree::Null
                    },
            ),
        ),
        Json::Object(m) => JsonTree::Object(
            Seq::new(
                m@.len(),
                |i: int|
                    if 0 <= i < m@.len() {
                        (m@[i].0@, tree_of(m@[i].1))
                    } else {
                        (Seq::empty(), JsonTree::Null)
                    },
            ),
        ),
    }
}

impl View for Json {
    type V = JsonTree;

    open spec fn view(&self) -> JsonTree {
        tree_of(*self)
    }
}

/// The member of the given name among `members`, if there is one.
pub open spec fn member(members: Seq<(Seq<char>, JsonTree)>, name: Seq<char>) -> Option<JsonTree>
    decreases members.len(),
{
    if members.len() == 0 {
        None
    } else if members[0].0 == name {
        Some(members[0].1)
    } else {
        member(members.drop_first(), name)
    }
}

/// The member of the given name, of an object that has one.
pub open spec fn tree_get(t: JsonTree, name: Seq<char>) -> Option<JsonTree> {
    match t {
        JsonTree::Object(members) => member(members, name),
        _ => None,
    }
}

/// The text of a string.
pub open spec fn tree_str(t: JsonTree) -> Option<Seq<char>> {
    match t {
        JsonTree::Str(s) => Some(s),
        _ => None,
    }
}

/// The text of the member of the given name, of an object that has one and where it is a string.
pub open spec fn tree_get_str(t: JsonTree, name: Seq<char>) -> Option<Seq<char>> {
    match tree_get(t, name) {
        Some(v) => tree_str(v),
        None => None,
    }
}

/// Whether no two of `members` have one name.
pub open spec fn names_differ(members: Seq<(Seq<char>, JsonTree)>) -> bool {
    forall|i: int, j: int|
        0 <= i < j < members.len() ==> (#[trigger] members[i]).0 != (#[trigger] members[j]).0
}

/// Whether no object in a value has a name twice.
pub open spec fn well_formed(t: JsonTree) -> bool
    decreases t,
{
    match t {
        JsonTree::Array(items) => forall|i: int|
            0 <= i < items.len() ==> #[trigger] well_formed(items[i]),
        JsonTree::Object(members) => names_differ(members) && forall|i: int|
            0 <= i < members.len() ==> #[trigger] well_formed(members[i].1),
        _ => true,
    }
}

proof fn lemma_member(members: Seq<(Seq<char>, JsonTree)>, k: int)
    requires
        names_differ(members),
        0 <= k < members.len(),
    ensures
        member(members, members[k].0) == Some(members[k].1),
    decreases members.len(),
{
    if k > 0 {
        let later = members.drop_first();
        assert forall|i: int, j: int| 0 <= i < j < later.len() implies (#[trigger] later[i]).0 != (
        #[trigger] later[j]).0 by {
            assert(members[i + 1].0 != members[j + 1].0);
        }
        assert(later[k - 1] == members[k]);
        assert(members[0].0 != members[k].0);
        lemma_member(later, k - 1);
    }
}

/// Where no member has a name, there is no member of that name.
proof fn lemma_no_member(members: Seq<(Seq<char>, JsonTree)>, name: Seq<char>)
    requires
        forall|i: int| 0 <= i < members.len() ==> (#[trigger] members[i]).0 != name,
    ensures
        member(members, name) is None,
    decreases members.len(),
{
    if members.len() > 0 {
        let later = members.drop_first();
        assert forall|i: int| 0 <= i < later.len() implies (#[trigger] later[i]).0 != name by {
            assert(later[i] == members[i + 1]);
        }
        lemma_no_member(later, name);
    }
}

/// A name has a member, or no member has the name.
pub proof fn lemma_named(members: Seq<(Seq<char>, JsonTree)>, name: Seq<char>)
    ensures
        member(members, name) is None || exists|i: int|
            0 <= i < members.len() && (#[trigger] members[i]).0 == name,
{
    if forall|i: int| 0 <= i < members.len() ==> (#[trigger] members[i]).0 != name {
        lemma_no_member(members, name);
    }
}

/// The order of members does not matter where no name comes twice: whatever holds the same members
/// gives the same value for each name.
pub proof fn law_members_have_no_order(
    a: Seq<(Seq<char>, JsonTree)>,
    b: Seq<(Seq<char>, JsonTree)>,
    name: Seq<char>,
)
    requires
        names_differ(a),
        names_differ(b),
        a.to_set() == b.to_set(),
    ensures
        member(a, name) == member(b, name),
{
    if exists|i: int| 0 <= i < a.len() && (#[trigger] a[i]).0 == name {
        let i = choose|i: int| 0 <= i < a.len() && (#[trigger] a[i]).0 == name;
        assert(a.to_set().contains(a[i]));
        let j = choose|j: int| 0 <= j < b.len() && b[j] == a[i];
        lemma_member(a, i);
        lemma_member(b, j);
    } else {
        assert forall|j: int| 0 <= j < b.len() implies (#[trigger] b[j]).0 != name by {
            assert(b.to_set().contains(b[j]));
            let i = choose|i: int| 0 <= i < a.len() && a[i] == b[j];
            assert(a[i].0 != name);
        }
        lemma_no_member(a, name);
        lemma_no_member(b, name);
    }
}

/// The texts of the strings among `items`, in order.
pub open spec fn strings_of(items: Seq<JsonTree>) -> Seq<Seq<char>>
    decreases items.len(),
{
    if items.len() == 0 {
        Seq::empty()
    } else {
        let before = strings_of(items.drop_last());
        match tree_str(items.last()) {
            Some(s) => before.push(s),
            None => before,
        }
    }
}

/// What an object is, by its members.
pub proof fn lemma_object_view(members: &Vec<(String, Json)>)
    ensures
        Json::Object(*members)@ == JsonTree::Object(members_view(members@)),
{
    let shown = Json::Object(*members)@->Object_0;
    assert(shown.len() == members@.len());
    assert forall|i: int| 0 <= i < members@.len() implies shown[i] == members_view(members@)[i] by {
        assert(members@[i].1@ == members_view(members@)[i].1);
    }
    assert(shown =~= members_view(members@));
}

/// What an array is, by its items.
pub proof fn lemma_array_view(items: &Vec<Json>)
    ensures
        Json::Array(*items)@ == JsonTree::Array(items_view(items@)),
{
    let shown = Json::Array(*items)@->Array_0;
    assert(shown.len() == items@.len());
    assert forall|i: int| 0 <= i < items@.len() implies shown[i] == items_view(items@)[i] by {
        assert(items@[i]@ == items_view(items@)[i]);
    }
    assert(shown =~= items_view(items@));
}

/// The value of the given name among `members`, if there is one.
pub fn find_member<'a>(members: &'a Vec<(String, Json)>, name: &str) -> (r: Option<&'a Json>)
    ensures
        match r {
            Some(v) => member(members_view(members@), name@) == Some(v@),
            None => member(members_view(members@), name@) is None,
        },
{
    let ghost all = members_view(members@);
    let mut i: usize = 0;
    assert(all.skip(0) == all);
    while i < members.len()
        invariant
            i <= members@.len(),
            all == members_view(members@),
            member(all, name@) == member(all.skip(i as int), name@),
        decreases members@.len() - i,
    {
        assert(all.skip(i as int)[0] == (members@[i as int].0@, members@[i as int].1@));
        if same(members[i].0.as_str(), name) {
            return Some(&members[i].1);
        }
        assert(all.skip(i as int).drop_first() == all.skip(i + 1));
        i += 1;
    }
    None
}

/// A copy of a value.
fn copy_json(j: &Json) -> (r: Json)
    ensures
        r@ == j@,
    decreases j,
{
    match j {
        Json::Null => Json::Null,
        Json::Bool(b) => Json::Bool(*b),
        Json::Number(n) => Json::Number(*n),
        Json::Str(s) => Json::Str(s.clone()),
        Json::Array(items) => {
            let mut out: Vec<Json> = Vec::new();
            let mut i: usize = 0;
            while i < items.len()
                invariant
                    *j == Json::Array(*items),
                    i <= items@.len(),
                    out@.len() == i,
                    forall|k: int| 0 <= k < i ==> (#[trigger] out@[k])@ == items@[k]@,
                decreases items@.len() - i,
            {
                assert(decreases_to!(*j => j->Array_0));
                assert(decreases_to!(items => items@));
                assert(decreases_to!(items@ => items@[i as int]));
                out.push(copy_json(&items[i]));
                i += 1;
            }
            proof {
                lemma_array_view(items);
                lemma_array_view(&out);
                assert(items_view(out@) =~= items_view(items@));
            }
            Json::Array(out)
        },
        Json::Object(members) => {
            let mut out: Vec<(String, Json)> = Vec::new();
            let mut i: usize = 0;
            while i < members.len()
                invariant
                    *j == Json::Object(*members),
                    i <= members@.len(),
                    out@.len() == i,
                    forall|k: int|
                        0 <= k < i ==> (#[trigger] out@[k]).0@ == members@[k].0@ && out@[k].1@
                            == members@[k].1@,
                decreases members@.len() - i,
            {
                assert(decreases_to!(*j => j->Object_0));
                assert(decreases_to!(members => members@));
                assert(decreases_to!(members@ => members@[i as int]));
                assert(decreases_to!(members@[i as int] => members@[i as int].1));
                out.push((members[i].0.clone(), copy_json(&members[i].1)));
                i += 1;
            }
            proof {
                lemma_object_view(members);
                lemma_object_view(&out);
                assert(members_view(out@) =~= members_view(members@));
            }
            Json::Object(out)
        },
    }
}

impl Clone for Json {
    fn clone(&self) -> (r: Self)
        ensures
            r@ == self@,
    {
        copy_json(self)
    }
}

/// Whether two values are one.
pub fn same_json(a: &Json, b: &Json) -> (r: bool)
    ensures
        r == (a@ == b@),
    decreases a,
{
    match (a, b) {
        (Json::Null, Json::Null) => true,
        (Json::Bool(x), Json::Bool(y)) => *x == *y,
        (Json::Number(x), Json::Number(y)) => *x == *y,
        (Json::Str(x), Json::Str(y)) => same(x.as_str(), y.as_str()),
        (Json::Array(x), Json::Array(y)) => {
            proof {
                lemma_array_view(x);
                lemma_array_view(y);
            }
            if x.len() != y.len() {
                assert(items_view(x@).len() != items_view(y@).len());
                return false;
            }
            let mut i: usize = 0;
            while i < x.len()
                invariant
                    *a == Json::Array(*x),
                    a@ == JsonTree::Array(items_view(x@)),
                    b@ == JsonTree::Array(items_view(y@)),
                    i <= x@.len(),
                    x@.len() == y@.len(),
                    forall|k: int| 0 <= k < i ==> (#[trigger] x@[k])@ == y@[k]@,
                decreases x@.len() - i,
            {
                assert(decreases_to!(*a => x@[i as int]));
                if !same_json(&x[i], &y[i]) {
                    assert(items_view(x@)[i as int] != items_view(y@)[i as int]);
                    return false;
                }
                i += 1;
            }
            assert(items_view(x@) =~= items_view(y@));
            true
        },
        (Json::Object(x), Json::Object(y)) => {
            proof {
                lemma_object_view(x);
                lemma_object_view(y);
            }
            if x.len() != y.len() {
                assert(members_view(x@).len() != members_view(y@).len());
                return false;
            }
            let mut i: usize = 0;
            while i < x.len()
                invariant
                    *a == Json::Object(*x),
                    a@ == JsonTree::Object(members_view(x@)),
                    b@ == JsonTree::Object(members_view(y@)),
                    i <= x@.len(),
                    x@.len() == y@.len(),
                    forall|k: int|
                        0 <= k < i ==> (#[trigger] x@[k]).0@ == y@[k].0@ && x@[k].1@ == y@[k].1@,
                decreases x@.len() - i,
            {
                assert(decreases_to!(*a => x@[i as int].1));
                if !same(x[i].0.as_str(), y[i].0.as_str()) || !same_json(&x[i].1, &y[i].1) {
                    assert(members_view(x@)[i as int] != members_view(y@)[i as int]);
                    return false;
                }
                i += 1;
            }
            assert(members_view(x@) =~= members_view(y@));
            true
        },
        _ => false,
    }
}

impl Json {
    /// The member of the given name, of an object that has one.
    pub fn get(&self, name: &str) -> (r: Option<&Json>)
        ensures
            match r {
                Some(v) => tree_get(self@, name@) == Some(v@),
                None => tree_get(self@, name@) is None,
            },
    {
        match self {
            Json::Object(members) => {
                proof {
                    lemma_object_view(members);
                }
                find_member(members, name)
            },
            _ => None,
        }
    }

    /// The text of a string.
    pub fn as_str(&self) -> (r: Option<&str>)
        ensures
            r.deep_view() == tree_str(self@),
    {
        match self {
            Json::Str(s) => Some(s.as_str()),
            _ => None,
        }
    }

    /// The text of the member of the given name, where it is a string.
    pub fn get_str(&self, name: &str) -> (r: Option<&str>)
        ensures
            r.deep_view() == tree_get_str(self@, name@),
    {
        match self.get(name) {
            Some(v) => v.as_str(),
            None => None,
        }
    }
}

/// The texts of the strings among `items`, in order.
pub fn string_items(items: &Vec<Json>) -> (r: Vec<String>)
    ensures
        r.deep_view() == strings_of(items_view(items@)),
{
    let ghost all = items_view(items@);
    let mut out: Vec<String> = Vec::new();
    let mut i: usize = 0;
    assert(all.take(0) == Seq::<JsonTree>::empty());
    assert(out.deep_view() == strings_of(all.take(0)));
    while i < items.len()
        invariant
            i <= items@.len(),
            all == items_view(items@),
            out.deep_view() == strings_of(all.take(i as int)),
        decreases items@.len() - i,
    {
        assert(all.take(i + 1).drop_last() == all.take(i as int));
        assert(all.take(i + 1).last() == items@[i as int]@);
        let ghost before = out.deep_view();
        if let Some(s) = items[i].as_str() {
            out.push(s.to_owned());
            assert(out.deep_view() == before.push(s@));
        }
        i += 1;
    }
    assert(all.take(i as int) == all);
    out
}

/// `serde_json::Value`, carried through unopened.
#[verifier::external_type_specification]
#[verifier::external_body]
pub struct ExValue(serde_json::Value);

/// What a `serde_json::Value` holds.
pub uninterp spec fn value_tree(v: serde_json::Value) -> JsonTree;

/// What `serde_json::from_slice` makes of a document; nothing where the document is not JSON.
pub uninterp spec fn json_parse(doc: Seq<u8>) -> Option<JsonTree>;

/// Reads a document with `serde_json::from_slice`. The result is named `json_parse`: a value where
/// the document is JSON, which then holds what the name says, and nothing where it is not.
#[verifier::external_body]
fn value_from_slice(doc: &[u8]) -> (r: Option<serde_json::Value>)
    ensures
        r is Some <==> json_parse(doc@) is Some,
        r matches Some(v) ==> json_parse(doc@) == Some(value_tree(v)),
{
    serde_json::from_slice(doc).ok()
}

/// The outermost layer of a `serde_json::Value`. A number comes as its three readings: as `u64`,
/// as `i64`, and cut to an integer.
pub enum JsonNode {
    Null,
    Bool(bool),
    Number(Option<u64>, Option<i64>, Option<i64>),
    Str(String),
    Array(Vec<serde_json::Value>),
    Object(Vec<(String, serde_json::Value)>),
}

/// The number with the given readings as `u64`, as `i64`, and cut to an integer.
pub open spec fn number_read(
    unsigned: Option<u64>,
    signed: Option<i64>,
    cut: Option<i64>,
) -> JsonNumber {
    match (unsigned, signed, cut) {
        (Some(n), _, _) => JsonNumber::Unsigned(n),
        (None, Some(n), _) => JsonNumber::Negative(n),
        (None, None, Some(n)) => JsonNumber::Fractional(n),
        (None, None, None) => JsonNumber::Fractional(0),
    }
}

/// What an opened value holds, its parts taken for what they hold.
pub open spec fn node_tree(n: JsonNode) -> JsonTree {
    match n {
        JsonNode::Null => JsonTree::Null,
        JsonNode::Bool(b) => JsonTree::Bool(b),
        JsonNode::Number(u, s, c) => JsonTree::Number(number_read(u, s, c)),
        JsonNode::Str(s) => JsonTree::Str(s@),
        JsonNode::Array(a) => JsonTree::Array(a@.map_values(|v: serde_json::Value| value_tree(v))),
        JsonNode::Object(m) => JsonTree::Object(
            m@.map_values(|e: (String, serde_json::Value)| (e.0@, value_tree(e.1))),
        ),
    }
}

/// Tells the variants of a `serde_json::Value` apart and moves their fields out. A number is read
/// with `Number::as_u64`, `Number::as_i64` and, cut toward zero, `Number::as_f64`. What the layer
/// holds is what the value held. An object is a `Map`, which has each name once.
#[verifier::external_body]
fn open_value(v: serde_json::Value) -> (r: JsonNode)
    ensures
        node_tree(r) == value_tree(v),
        node_tree(r) matches JsonTree::Object(members) ==> names_differ(members),
{
    match v {
        serde_json::Value::Null => JsonNode::Null,
        serde_json::Value::Bool(b) => JsonNode::Bool(b),
        serde_json::Value::Number(n) => {
            JsonNode::Number(n.as_u64(), n.as_i64(), n.as_f64().map(|f| f as i64))
        },
        serde_json::Value::String(s) => JsonNode::Str(s),
        serde_json::Value::Array(a) => JsonNode::Array(a),
        serde_json::Value::Object(m) => JsonNode::Object(m.into_iter().collect()),
    }
}

/// A `serde_json::Value` as the library's own value.
pub fn json_of(v: serde_json::Value) -> (r: Json)
    ensures
        r@ == value_tree(v),
        well_formed(r@),
    decreases value_tree(v),
{
    let ghost tree = value_tree(v);
    match open_value(v) {
        JsonNode::Null => Json::Null,
        JsonNode::Bool(b) => Json::Bool(b),
        JsonNode::Number(u, s, c) => Json::Number(read_number(u, s, c)),
        JsonNode::Str(s) => Json::Str(s),
        JsonNode::Array(a) => {
            let ghost items = a@;
            let mut out: Vec<Json> = Vec::new();
            for x in it: a.into_iter()
                invariant
                    it.seq() == items,
                    tree == JsonTree::Array(items.map_values(|v: serde_json::Value| value_tree(v))),
                    tree == value_tree(v),
                    out@.len() == it.index(),
                    forall|j: int|
                        0 <= j < out@.len() ==> (#[trigger] out@[j])@ == value_tree(items[j])
                            && well_formed(out@[j]@),
            {
                let ghost k = it.index() as int;
                assert(tree->Array_0[k] == value_tree(x));
                assert(decreases_to!(tree => tree->Array_0));
                assert(decreases_to!(tree->Array_0 => tree->Array_0[k]));
                out.push(json_of(x));
            }
            let r = Json::Array(out);
            assert(r@->Array_0 =~= tree->Array_0);
            assert forall|i: int| 0 <= i < r@->Array_0.len() implies #[trigger] well_formed(
                r@->Array_0[i],
            ) by {
                assert(r@->Array_0[i] == out@[i]@);
            }
            r
        },
        JsonNode::Object(m) => {
            let ghost items = m@;
            let mut out: Vec<(String, Json)> = Vec::new();
            for x in it: m.into_iter()
                invariant
                    it.seq() == items,
                    tree == JsonTree::Object(
                        items.map_values(|e: (String, serde_json::Value)| (e.0@, value_tree(e.1))),
                    ),
                    tree == value_tree(v),
                    out@.len() == it.index(),
                    forall|j: int|
                        0 <= j < out@.len() ==> (#[trigger] out@[j]).0@ == items[j].0@ && out@[j].1@
                            == value_tree(items[j].1) && well_formed(out@[j].1@),
            {
                let ghost k = it.index() as int;
                let (name, value) = x;
                assert(tree->Object_0[k] == (name@, value_tree(value)));
                assert(decreases_to!(tree => tree->Object_0));
                assert(decreases_to!(tree->Object_0 => tree->Object_0[k]));
                assert(decreases_to!(tree->Object_0[k] => tree->Object_0[k].1));
                out.push((name, json_of(value)));
            }
            let r = Json::Object(out);
            assert(r@->Object_0 =~= tree->Object_0);
            assert forall|i: int| 0 <= i < r@->Object_0.len() implies #[trigger] well_formed(
                r@->Object_0[i].1,
            ) by {
                assert(r@->Object_0[i].1 == out@[i].1@);
            }
            r
        },
    }
}

/// The number with the given readings.
fn read_number(unsigned: Option<u64>, signed: Option<i64>, cut: Option<i64>) -> (r: JsonNumber)
    ensures
        r == number_read(unsigned, signed, cut),
{
    match (unsigned, signed, cut) {
        (Some(n), _, _) => JsonNumber::Unsigned(n),
        (None, Some(n), _) => JsonNumber::Negative(n),
        (None, None, Some(n)) => JsonNumber::Fractional(n),
        (None, None, None) => JsonNumber::Fractional(0),
    }
}

/// The JSON value that a document holds, if it is JSON.
pub fn parse_json(doc: &[u8]) -> (r: Option<Json>)
    ensures
        r is Some <==> json_parse(doc@) is Some,
        r matches Some(j) ==> json_parse(doc@) == Some(j@) && well_formed(j@),
{
    match value_from_slice(doc) {
        Some(v) => Some(json_of(v)),
        None => None,
    }
}

/// A member is the first with its name: there is none where no member has the name, and what
/// stands before and after it does not matter.
pub proof fn law_members(
    before: Seq<(Seq<char>, JsonTree)>,
    after: Seq<(Seq<char>, JsonTree)>,
    name: Seq<char>,
    value: JsonTree,
)
    requires
        forall|i: int| 0 <= i < before.len() ==> (#[trigger] before[i]).0 != name,
    ensures
        member(before, name) is None,
        member(before + seq![(name, value)] + after, name) == Some(value),
    decreases before.len(),
{
    lemma_no_member(before, name);
    let all = before + seq![(name, value)] + after;
    if before.len() == 0 {
        assert(all[0] == (name, value));
    } else {
        let later = before.drop_first();
        assert forall|i: int| 0 <= i < later.len() implies (#[trigger] later[i]).0 != name by {
            assert(later[i] == before[i + 1]);
        }
        law_members(later, after, name, value);
        assert(all[0] == before[0]);
        assert(all.drop_first() =~= later + seq![(name, value)] + after);
    }
}

/// Only an object has members, and a member has a text if and only if it is a string.
pub proof fn law_member_texts(t: JsonTree, name: Seq<char>, text: Seq<char>)
    ensures
        t !is Object ==> tree_get(t, name) is None,
        t matches JsonTree::Object(members) ==> tree_get(t, name) == member(members, name),
        tree_get_str(t, name) == Some(text) <==> tree_get(t, name) == Some(JsonTree::Str(text)),
        tree_str(t) == Some(text) <==> t == JsonTree::Str(text),
{
}

/// The strings among items are taken in order, each of them and nothing else.
pub proof fn law_strings(a: Seq<JsonTree>, b: Seq<JsonTree>, t: JsonTree, text: Seq<char>)
    ensures
        strings_of(a + b) == strings_of(a) + strings_of(b),
        strings_of(seq![JsonTree::Str(text)]) == seq![text],
        t !is Str ==> strings_of(seq![t]) == Seq::<Seq<char>>::empty(),
        strings_of(Seq::empty()) == Seq::<Seq<char>>::empty(),
    decreases b.len(),
{
    let one = seq![JsonTree::Str(text)];
    assert(one.drop_last() =~= Seq::empty());
    assert(strings_of(one.drop_last()) == Seq::<Seq<char>>::empty());
    assert(one.last() == JsonTree::Str(text));
    assert(strings_of(one) =~= seq![text]);
    let other = seq![t];
    assert(other.drop_last() =~= Seq::empty());
    assert(strings_of(other.drop_last()) == Seq::<Seq<char>>::empty());
    if b.len() == 0 {
        assert(a + b =~= a);
        assert(strings_of(a) + strings_of(b) =~= strings_of(a));
    } else {
        law_strings(a, b.drop_last(), t, text);
        assert((a + b).drop_last() =~= a + b.drop_last());
        assert((a + b).last() == b.last());
        assert(strings_of(a + b) =~= strings_of(a) + strings_of(b));
    }
}

/// A number is what it reads as exactly, without a sign before with one; only what reads as neither
/// is cut.
pub proof fn law_numbers(u: u64, i: i64, signed: Option<i64>, cut: Option<i64>)
    ensures
        number_read(Some(u), signed, cut) == JsonNumber::Unsigned(u),
        number_read(None, Some(i), cut) == JsonNumber::Negative(i),
        number_read(None, None, Some(i)) == JsonNumber::Fractional(i),
{
}

/// A value is seen as what it holds, through every layer.
pub proof fn law_values_are_seen_whole(
    text: String,
    number: JsonNumber,
    flag: bool,
    items: Vec<Json>,
    members: Vec<(String, Json)>,
)
    ensures
        Json::Null@ == JsonTree::Null,
        Json::Bool(flag)@ == JsonTree::Bool(flag),
        Json::Number(number)@ == JsonTree::Number(number),
        Json::Str(text)@ == JsonTree::Str(text@),
        Json::Array(items)@ matches JsonTree::Array(seen) && seen.len() == items@.len() && forall|
            i: int,
        |
            0 <= i < seen.len() ==> #[trigger] seen[i] == items@[i]@,
        Json::Object(members)@ matches JsonTree::Object(seen) && seen.len() == members@.len()
            && forall|i: int|
            0 <= i < seen.len() ==> (#[trigger] seen[i]).0 == members@[i].0@ && seen[i].1
                == members@[i].1@,
{
    lemma_array_view(&items);
    lemma_object_view(&members);
}

} // verus!
