//! JSON values.
use vstd::prelude::*;
use crate::text;

verus! {

/// A number in a JSON value.
#[derive(Debug)]
pub enum JsonNumber {
    /// A whole number that is not negative.
    Unsigned(u64),
    /// A whole negative number.
    Negative(i64),
    /// Any other number, as it is written.
    Float(String),
}

/// A JSON value. The members of an object stand in its own order, with no name
/// twice.
#[derive(Debug)]
pub enum Json {
    Null,
    Bool(bool),
    Number(JsonNumber),
    Text(String),
    List(Vec<Json>),
    Object(Vec<(String, Json)>),
}

/// A number in a JSON value, as a mathematical value.
pub enum NumberTree {
    Unsigned(u64),
    Negative(i64),
    Float(Seq<char>),
}

/// A JSON value as a mathematical value.
pub enum JsonTree {
    Null,
    Bool(bool),
    Number(NumberTree),
    Text(Seq<char>),
    List(Seq<JsonTree>),
    Object(Seq<(Seq<char>, JsonTree)>),
}

impl View for JsonNumber {
    type V = NumberTree;

    open spec fn view(&self) -> NumberTree {
        match self {
            JsonNumber::Unsigned(n) => NumberTree::Unsigned(*n),
            JsonNumber::Negative(n) => NumberTree::Negative(*n),
            JsonNumber::Float(s) => NumberTree::Float(s@),
        }
    }
}

/// The value that a `Json` stands for.
pub open spec fn tree(json: Json) -> JsonTree
    decreases json,
{
    match json {
        Json::Null => JsonTree::Null,
        Json::Bool(b) => JsonTree::Bool(b),
        Json::Number(n) => JsonTree::Number(n@),
        Json::Text(s) => JsonTree::Text(s@),
        Json::List(items) => JsonTree::List(
            Seq::new(
                items@.len(),
                |i: int|
                    if 0 <= i < items@.len() {
                        tree(items@[i])
                    } else {
                        JsonTree::Null
                    },
            ),
        ),
        Json::Object(members) => JsonTree::Object(
            Seq::new(
                members@.len(),
                |i: int|
                    if 0 <= i < members@.len() {
                        (members@[i].0@, tree(members@[i].1))
                    } else {
                        (Seq::empty(), JsonTree::Null)
                    },
            ),
        ),
    }
}

/// The values that a list of `Json` stands for.
pub open spec fn list_tree(items: Seq<Json>) -> Seq<JsonTree> {
    Seq::new(items.len(), |i: int| tree(items[i]))
}

/// The values that the members of an object stand for.
pub open spec fn members_tree(members: Seq<(String, Json)>) -> Seq<(Seq<char>, JsonTree)> {
    Seq::new(members.len(), |i: int| (members[i].0@, tree(members[i].1)))
}

/// A list holds the values of its items.
pub proof fn lemma_list(items: Vec<Json>)
    ensures
        tree(Json::List(items)) == JsonTree::List(list_tree(items@)),
{
    assert(tree(Json::List(items))->List_0 =~= list_tree(items@));
}

/// An object holds the values of its members.
pub proof fn lemma_object(members: Vec<(String, Json)>)
    ensures
        tree(Json::Object(members)) == JsonTree::Object(members_tree(members@)),
{
    assert(tree(Json::Object(members))->Object_0 =~= members_tree(members@));
}

// ------------------------------------------------------- reading and writing

/// `serde_json::Value`, which is only carried from one call to the next.
#[verifier::external_type_specification]
#[verifier::external_body]
pub struct ExValue(serde_json::Value);

/// `serde_json::Number`, which is only carried from one call to the next.
#[verifier::external_type_specification]
#[verifier::external_body]
pub struct ExNumber(serde_json::Number);

/// A `serde_json::Number` as a number of this library. Nothing is claimed of the
/// conversion by itself; see `read_json`.
#[verifier::external_body]
fn number_from(number: &serde_json::Number) -> (r: JsonNumber) {
    match (number.as_u64(), number.as_i64()) {
        (Some(n), _) => JsonNumber::Unsigned(n),
        (None, Some(n)) => JsonNumber::Negative(n),
        (None, None) => JsonNumber::Float(number.to_string()),
    }
}

/// A `serde_json::Value` as a value of this library, one variant for another.
/// Nothing is claimed of the conversion by itself; see `read_json`.
#[verifier::external_body]
fn json_from(value: serde_json::Value) -> (r: Json) {
    match value {
        serde_json::Value::Null => Json::Null,
        serde_json::Value::Bool(b) => Json::Bool(b),
        serde_json::Value::Number(n) => Json::Number(number_from(&n)),
        serde_json::Value::String(s) => Json::Text(s),
        serde_json::Value::Array(items) => Json::List(items.into_iter().map(json_from).collect()),
        serde_json::Value::Object(members) => Json::Object(
            members.into_iter().map(|(k, v)| (k, json_from(v))).collect(),
        ),
    }
}

/// A number of this library as a `serde_json::Number`, where it is one. Nothing
/// is claimed of the conversion by itself; see `json_text` and `four_places`.
#[verifier::external_body]
fn number_into(number: &JsonNumber) -> (r: Option<serde_json::Number>) {
    match number {
        JsonNumber::Unsigned(n) => Some((*n).into()),
        JsonNumber::Negative(n) => Some((*n).into()),
        JsonNumber::Float(s) => s.parse::<serde_json::Number>().ok(),
    }
}

/// A value of this library as a `serde_json::Value`, one variant for another; a
/// written number that is none becomes null. Nothing is claimed of the conversion
/// by itself; see `json_text`.
#[verifier::external_body]
fn json_into(json: &Json) -> (r: serde_json::Value) {
    match json {
        Json::Null => serde_json::Value::Null,
        Json::Bool(b) => serde_json::Value::Bool(*b),
        Json::Number(n) => number_into(n).map_or(serde_json::Value::Null, serde_json::Value::Number),
        Json::Text(s) => serde_json::Value::String(s.clone()),
        Json::List(items) => serde_json::Value::Array(items.iter().map(json_into).collect()),
        Json::Object(members) => serde_json::Value::Object(
            members.iter().map(|(k, v)| (k.clone(), json_into(v))).collect(),
        ),
    }
}

/// The value that a text spells, or what is wrong with the text.
pub uninterp spec fn spelled_json(text: Seq<char>) -> Result<JsonTree, Seq<char>>;

/// `serde_json::from_str` to a `serde_json::Value`, and the text of its error:
/// functions of the text alone.
#[verifier::external_body]
fn read_json(text: &str) -> (r: Result<Json, String>)
    ensures
        match spelled_json(text@) {
            Ok(value) => r matches Ok(json) && tree(json) == value,
            Err(e) => r matches Err(x) && x@ == e,
        },
{
    serde_json::from_str::<serde_json::Value>(text).map(json_from).map_err(|e| e.to_string())
}

/// Reads the value that a text spells.
pub fn parse_json(text: &str) -> (r: Result<Json, String>)
    ensures
        match spelled_json(text@) {
            Ok(value) => r matches Ok(json) && tree(json) == value,
            Err(e) => r matches Err(x) && x@ == e,
        },
{
    read_json(text)
}

/// How a value is written, without white space.
pub uninterp spec fn written_json(value: JsonTree) -> Seq<char>;

/// `serde_json::Value::to_string`: a function of the value.
#[verifier::external_body]
pub(crate) fn json_text(json: &Json) -> (r: String)
    ensures
        r@ == written_json(tree(*json)),
{
    json_into(json).to_string()
}

/// A number with four places behind the point, where it is a number.
pub uninterp spec fn four_decimals(number: NumberTree) -> Option<Seq<char>>;

/// `serde_json::Number::as_f64`, formatted with four places: a function of the
/// number.
#[verifier::external_body]
pub(crate) fn four_places(number: &JsonNumber) -> (r: Option<String>)
    ensures
        match four_decimals(number@) {
            Some(s) => r matches Some(x) && x@ == s,
            None => r is None,
        },
{
    number_into(number).and_then(|n| n.as_f64()).map(|v| format!("{v:.4}"))
}

// -------------------------------------------------------------------- looking

/// The value of the first member with the name.
pub open spec fn member_from(
    members: Seq<(Seq<char>, JsonTree)>,
    name: Seq<char>,
    i: int,
) -> Option<JsonTree>
    decreases members.len() - i,
{
    if i < 0 || i >= members.len() {
        None
    } else if members[i].0 == name {
        Some(members[i].1)
    } else {
        member_from(members, name, i + 1)
    }
}

/// The member of a value with the name; only objects have members.
pub open spec fn member(value: JsonTree, name: Seq<char>) -> Option<JsonTree> {
    match value {
        JsonTree::Object(members) => member_from(members, name, 0),
        _ => None,
    }
}

/// The member of an optional value.
pub open spec fn member_of(value: Option<JsonTree>, name: Seq<char>) -> Option<JsonTree> {
    match value {
        Some(value) => member(value, name),
        None => None,
    }
}

/// The text of an optional value, where it is one.
pub open spec fn text_of(value: Option<JsonTree>) -> Option<Seq<char>> {
    match value {
        Some(JsonTree::Text(s)) => Some(s),
        _ => None,
    }
}

/// The items of an optional value, where it is a list.
pub open spec fn list_of(value: Option<JsonTree>) -> Option<Seq<JsonTree>> {
    match value {
        Some(JsonTree::List(items)) => Some(items),
        _ => None,
    }
}

/// The whole number that is not negative of an optional value, where it is one.
pub open spec fn u64_of(value: Option<JsonTree>) -> Option<u64> {
    match value {
        Some(JsonTree::Number(NumberTree::Unsigned(n))) => Some(n),
        _ => None,
    }
}

/// The first of two optional values that is there.
pub open spec fn either(first: Option<JsonTree>, second: Option<JsonTree>) -> Option<JsonTree> {
    if first is Some {
        first
    } else {
        second
    }
}

/// The value of an optional reference.
pub open spec fn opt_tree(value: Option<&Json>) -> Option<JsonTree> {
    match value {
        Some(json) => Some(tree(*json)),
        None => None,
    }
}

impl Json {
    /// The member with the name, where this is an object that has it.
    pub fn get(&self, name: &str) -> (r: Option<&Json>)
        ensures
            opt_tree(r) == member(tree(*self), name@),
    {
        match self {
            Json::Object(members) => {
                let ghost all = members_tree(members@);
                proof {
                    lemma_object(*members);
                }
                let mut i: usize = 0;
                while i < members.len()
                    invariant
                        i <= members@.len(),
                        all == members_tree(members@),
                        tree(*self) == JsonTree::Object(all),
                        member_from(all, name@, 0) == member_from(all, name@, i as int),
                    decreases members@.len() - i,
                {
                    let entry: &(String, Json) = &members[i];
                    assert(all[i as int] == (entry.0@, tree(entry.1)));
                    if text::same_text(entry.0.as_str(), name) {
                        return Some(&entry.1);
                    }
                    i = i + 1;
                }
                None
            },
            _ => None,
        }
    }

    /// The text, where this is one.
    pub fn as_str(&self) -> (r: Option<&String>)
        ensures
            match text_of(Some(tree(*self))) {
                Some(s) => r matches Some(x) && x@ == s,
                None => r is None,
            },
    {
        match self {
            Json::Text(s) => Some(s),
            _ => None,
        }
    }

    /// The whole number that is not negative, where this is one.
    pub fn as_u64(&self) -> (r: Option<u64>)
        ensures
            r == u64_of(Some(tree(*self))),
    {
        match self {
            Json::Number(JsonNumber::Unsigned(n)) => Some(*n),
            _ => None,
        }
    }

    /// The items, where this is a list.
    pub fn as_array(&self) -> (r: Option<&Vec<Json>>)
        ensures
            match list_of(Some(tree(*self))) {
                Some(items) => r matches Some(v) && list_tree(v@) == items,
                None => r is None,
            },
    {
        match self {
            Json::List(items) => {
                proof {
                    lemma_list(*items);
                }
                Some(items)
            },
            _ => None,
        }
    }

    /// This value as it is written, without white space.
    pub fn to_text(&self) -> (r: String)
        ensures
            r@ == written_json(tree(*self)),
    {
        json_text(self)
    }

    /// A copy.
    pub fn copy(&self) -> (r: Json)
        ensures
            tree(r) == tree(*self),
        decreases self,
    {
        match self {
            Json::Null => Json::Null,
            Json::Bool(b) => Json::Bool(*b),
            Json::Number(n) => Json::Number(n.copy()),
            Json::Text(s) => Json::Text(s.clone()),
            Json::List(items) => {
                let out: Vec<Json> = copy_items(items);
                proof {
                    lemma_list(*items);
                    lemma_list(out);
                }
                Json::List(out)
            },
            Json::Object(members) => {
                let out: Vec<(String, Json)> = copy_members(members);
                proof {
                    lemma_object(*members);
                    lemma_object(out);
                }
                Json::Object(out)
            },
        }
    }
}

/// A copy of a list.
pub(crate) fn copy_items(items: &Vec<Json>) -> (r: Vec<Json>)
    ensures
        list_tree(r@) == list_tree(items@),
    decreases items,
{
    let mut out: Vec<Json> = Vec::new();
    let mut i: usize = 0;
    while i < items.len()
        invariant
            i <= items@.len(),
            out@.len() == i,
            forall|j: int| 0 <= j < i ==> tree(#[trigger] out@[j]) == tree(items@[j]),
        decreases items@.len() - i,
    {
        assert(decreases_to!(*items => items[i as int]));
        out.push(items[i].copy());
        i = i + 1;
    }
    assert(list_tree(out@) =~= list_tree(items@));
    out
}

/// A copy of the members of an object.
pub(crate) fn copy_members(members: &Vec<(String, Json)>) -> (r: Vec<(String, Json)>)
    ensures
        members_tree(r@) == members_tree(members@),
    decreases members,
{
    let mut out: Vec<(String, Json)> = Vec::new();
    let mut i: usize = 0;
    while i < members.len()
        invariant
            i <= members@.len(),
            out@.len() == i,
            forall|j: int|
                0 <= j < i ==> (#[trigger] out@[j]).0@ == members@[j].0@ && tree(out@[j].1) == tree(
                    members@[j].1,
                ),
        decreases members@.len() - i,
    {
        assert(decreases_to!(*members => members[i as int]));
        let name: String = members[i].0.clone();
        let value: Json = members[i].1.copy();
        out.push((name, value));
        i = i + 1;
    }
    assert(members_tree(out@) =~= members_tree(members@));
    out
}

impl JsonNumber {
    /// A copy.
    pub fn copy(&self) -> (r: JsonNumber)
        ensures
            r@ == self@,
    {
        match self {
            JsonNumber::Unsigned(n) => JsonNumber::Unsigned(*n),
            JsonNumber::Negative(n) => JsonNumber::Negative(*n),
            JsonNumber::Float(s) => JsonNumber::Float(s.clone()),
        }
    }
}

/// The member of an optional value.
pub(crate) fn get_of<'a>(value: Option<&'a Json>, name: &str) -> (r: Option<&'a Json>)
    ensures
        opt_tree(r) == member_of(opt_tree(value), name@),
{
    match value {
        Some(json) => json.get(name),
        None => None,
    }
}

/// The text of an optional value, where it is one.
pub(crate) fn str_of(value: Option<&Json>) -> (r: Option<String>)
    ensures
        match text_of(opt_tree(value)) {
            Some(s) => r matches Some(x) && x@ == s,
            None => r is None,
        },
{
    match value {
        Some(Json::Text(s)) => Some(s.clone()),
        _ => None,
    }
}

/// The items of an optional value, where it is a list.
pub(crate) fn array_of<'a>(value: Option<&'a Json>) -> (r: Option<&'a Vec<Json>>)
    ensures
        match list_of(opt_tree(value)) {
            Some(items) => r matches Some(v) && list_tree(v@) == items,
            None => r is None,
        },
{
    match value {
        Some(json) => json.as_array(),
        None => None,
    }
}

/// The first of two members that is there.
pub(crate) fn get_either<'a>(value: &'a Json, first: &str, second: &str) -> (r: Option<&'a Json>)
    ensures
        opt_tree(r) == either(member(tree(*value), first@), member(tree(*value), second@)),
{
    match value.get(first) {
        Some(json) => Some(json),
        None => value.get(second),
    }
}

// ------------------------------------------------------------------- building

/// A member of an object.
pub(crate) fn entry(name: &str, value: Json) -> (r: (String, Json))
    ensures
        r.0@ == name@,
        r.1 == value,
{
    (name.to_owned(), value)
}

/// A text value.
pub(crate) fn text_json(s: &str) -> (r: Json)
    ensures
        tree(r) == JsonTree::Text(s@),
{
    Json::Text(s.to_owned())
}

/// A whole number as a value.
pub(crate) fn number_json(n: u64) -> (r: Json)
    ensures
        tree(r) == JsonTree::Number(NumberTree::Unsigned(n)),
{
    Json::Number(JsonNumber::Unsigned(n))
}

/// An object.
pub(crate) fn object(members: Vec<(String, Json)>) -> (r: Json)
    ensures
        tree(r) == JsonTree::Object(members_tree(members@)),
{
    proof {
        lemma_object(members);
    }
    Json::Object(members)
}

/// A list.
pub(crate) fn list(items: Vec<Json>) -> (r: Json)
    ensures
        tree(r) == JsonTree::List(list_tree(items@)),
{
    proof {
        lemma_list(items);
    }
    Json::List(items)
}

// ----------------------------------------------------------------------- laws

/// The member with a name is the first one that has it; members of other names do not
/// matter, and only objects have members.
pub proof fn law_first_member_is_found(
    members: Seq<(Seq<char>, JsonTree)>,
    name: Seq<char>,
    value: JsonTree,
    rest: Seq<(Seq<char>, JsonTree)>,
)
    requires
        forall|i: int| 0 <= i < members.len() ==> (#[trigger] members[i]).0 != name,
    ensures
        member(JsonTree::Object(members.push((name, value)) + rest), name) == Some(value),
        member(JsonTree::Object(members), name) is None,
        member(JsonTree::Null, name) is None,
        member(value, name) is Some ==> value is Object,
{
    let all = members.push((name, value)) + rest;
    lemma_member(all, name, 0, members.len() as int);
    lemma_no_member(members, name, 0);
}

proof fn lemma_member(all: Seq<(Seq<char>, JsonTree)>, name: Seq<char>, i: int, n: int)
    requires
        0 <= i <= n < all.len(),
        all[n].0 == name,
        forall|j: int| i <= j < n ==> (#[trigger] all[j]).0 != name,
    ensures
        member_from(all, name, i) == Some(all[n].1),
    decreases n - i,
{
    if i < n {
        assert(all[i].0 != name);
        lemma_member(all, name, i + 1, n);
    }
}

proof fn lemma_no_member(all: Seq<(Seq<char>, JsonTree)>, name: Seq<char>, i: int)
    requires
        0 <= i <= all.len(),
        forall|j: int| 0 <= j < all.len() ==> (#[trigger] all[j]).0 != name,
    ensures
        member_from(all, name, i) is None,
    decreases all.len() - i,
{
    if i < all.len() {
        assert(all[i].0 != name);
        lemma_no_member(all, name, i + 1);
    }
}

/// A value is taken for what it is and nothing else: a text is no number, a number is
/// no text, and of two values the first that is there counts.
pub proof fn law_values_are_what_they_are(
    s: Seq<char>,
    n: u64,
    items: Seq<JsonTree>,
    a: JsonTree,
    b: Option<JsonTree>,
)
    ensures
        text_of(Some(JsonTree::Text(s))) == Some(s),
        u64_of(Some(JsonTree::Number(NumberTree::Unsigned(n)))) == Some(n),
        list_of(Some(JsonTree::List(items))) == Some(items),
        text_of(Some(a)) is Some <==> a is Text,
        u64_of(Some(a)) is Some <==> (a matches JsonTree::Number(m) && m is Unsigned),
        list_of(Some(a)) is Some <==> a is List,
        text_of(None) is None && u64_of(None) is None && list_of(None) is None,
        either(Some(a), b) == Some(a),
        either(None, b) == b,
{
}

} // verus!
