//! JSON documents: their mathematical model, and the operations of `serde_json` on them.

use serde_json::{Map as JsonMap, Value};
use vstd::prelude::*;
use vstd::utf8::encode_utf8;
use crate::text::{
    before, lemma_before_irreflexive, lemma_before_total, lemma_before_transitive, texts,
};

verus! {

/// A JSON document as a mathematical value. A number that is not an integer is a `Float`, told from
/// the others by a code.
#[verifier::ext_equal]
pub ghost enum Json {
    Null,
    Bool(bool),
    Int(int),
    Float(int),
    Text(Seq<char>),
    Array(Seq<Json>),
    Object(Map<Seq<char>, Json>),
}

/// A `serde_json::Value`, seen through [`json`].
#[verifier::external_type_specification]
#[verifier::external_body]
pub struct ExValue(serde_json::Value);

/// A `serde_json::Map`, seen through [`members`].
#[verifier::external_type_specification]
#[verifier::external_body]
#[verifier::reject_recursive_types(K)]
#[verifier::reject_recursive_types(V)]
pub struct ExMap<K, V>(serde_json::Map<K, V>);

/// The document that a value holds.
pub uninterp spec fn json(v: Value) -> Json;

/// The members of an object, by name.
pub uninterp spec fn members(m: JsonMap<String, Value>) -> Map<Seq<char>, Json>;

/// The document that a text spells out, or why it spells out none.
pub uninterp spec fn parsed(s: Seq<char>) -> Result<Json, Seq<char>>;

/// The document that bytes spell out, if they spell out one.
pub uninterp spec fn parsed_bytes(bytes: Seq<u8>) -> Option<Json>;

/// A document spelled out without optional whitespace.
pub uninterp spec fn spelled(j: Json) -> Seq<char>;

/// The object without members.
pub open spec fn no_members() -> Map<Seq<char>, Json> {
    Map::empty()
}

/// The documents that the values hold.
pub open spec fn documents(v: Seq<Value>) -> Seq<Json> {
    v.map_values(|x: Value| json(x))
}

/// The document of an optional value.
pub open spec fn opt_json(v: Option<Value>) -> Option<Json> {
    match v {
        Some(v) => Some(json(v)),
        None => None,
    }
}

/// The members of an optional object.
pub open spec fn opt_members(m: Option<JsonMap<String, Value>>) -> Option<Map<Seq<char>, Json>> {
    match m {
        Some(m) => Some(members(m)),
        None => None,
    }
}

impl Json {
    /// The member of that name, where the document is an object that has it.
    pub open spec fn member(self, name: Seq<char>) -> Option<Json> {
        match self {
            Json::Object(m) => if m.contains_key(name) {
                Some(m[name])
            } else {
                None
            },
            _ => None,
        }
    }

    /// The text, where the document is one.
    pub open spec fn text(self) -> Option<Seq<char>> {
        match self {
            Json::Text(s) => Some(s),
            _ => None,
        }
    }

    /// The integer, where the document is one that an `i64` can hold.
    pub open spec fn integer(self) -> Option<int> {
        match self {
            Json::Int(n) => if i64::MIN <= n <= i64::MAX {
                Some(n)
            } else {
                None
            },
            _ => None,
        }
    }
}

/// Whether the names are those of the members, each once, in ascending order.
pub open spec fn are_names(m: Map<Seq<char>, Json>, names: Seq<Seq<char>>) -> bool {
    &&& forall|i: int, j: int| 0 <= i < j < names.len() ==> before(#[trigger] names[i], #[trigger] names[j])
    &&& forall|i: int| 0 <= i < names.len() ==> m.contains_key(#[trigger] names[i])
    &&& forall|k: Seq<char>| #[trigger] m.contains_key(k) ==> names.contains(k)
}

/// The names of the members in ascending order.
pub open spec fn names(m: Map<Seq<char>, Json>) -> Seq<Seq<char>> {
    choose|names: Seq<Seq<char>>| are_names(m, names)
}

/// Whether a document can be held by a value, has no number that is not an integer, and has arrays
/// and objects that stand at most so deep in each other.
pub open spec fn is_plain_document(j: Json, depth: nat) -> bool
    decreases depth,
{
    match j {
        Json::Null => true,
        Json::Bool(_) => true,
        Json::Int(n) => i64::MIN <= n <= u64::MAX,
        Json::Float(_) => false,
        Json::Text(_) => true,
        Json::Array(items) => depth > 0 && forall|i: int|
            0 <= i < items.len() ==> is_plain_document(#[trigger] items[i], (depth - 1) as nat),
        Json::Object(m) => depth > 0 && m.dom().finite() && forall|k: Seq<char>|
            m.contains_key(k) ==> is_plain_document(#[trigger] m[k], (depth - 1) as nat),
    }
}

/// How deep arrays and objects may stand in each other in a text that is read.
pub open spec fn depth_limit() -> nat {
    127
}

/// Where one is in a text of JSON: within quotation marks or not, behind a backslash there or not, and
/// how deep in arrays and objects one is and was.
pub ghost struct TextDepth {
    pub quoted: bool,
    pub escaped: bool,
    pub depth: int,
    pub deepest: int,
}

/// Where one is behind a text of JSON.
pub open spec fn text_depth(s: Seq<char>) -> TextDepth
    decreases s.len(),
{
    if s.len() == 0 {
        TextDepth { quoted: false, escaped: false, depth: 0, deepest: 0 }
    } else {
        let before = text_depth(s.drop_last());
        let c = s.last();
        if before.quoted {
            TextDepth {
                quoted: before.escaped || c != '"',
                escaped: !before.escaped && c == '\\',
                ..before
            }
        } else if c == '"' {
            TextDepth { quoted: true, ..before }
        } else if c == '[' || c == '{' {
            let depth = before.depth + 1;
            TextDepth {
                depth,
                deepest: if depth > before.deepest {
                    depth
                } else {
                    before.deepest
                },
                ..before
            }
        } else if c == ']' || c == '}' {
            TextDepth { depth: before.depth - 1, ..before }
        } else {
            before
        }
    }
}

/// A document as it is written: spelled out as a whole, as an object whose members stand in some order,
/// or as a text that was given.
pub ghost enum Written {
    Whole(Json),
    Members(Seq<(Seq<char>, Written)>),
    Given(Seq<char>),
}

/// Whether a name is spelled as it is, between quotation marks.
pub open spec fn is_plain_name(name: Seq<char>) -> bool {
    forall|i: int| 0 <= i < name.len() ==> 'a' <= #[trigger] name[i] <= 'z'
}

/// The members of an object as they are written, with commas between them.
pub open spec fn members_text(list: Seq<(Seq<char>, Written)>) -> Seq<char>
    decreases list,
{
    if list.len() == 0 {
        Seq::empty()
    } else {
        let (name, value) = list.last();
        members_text(list.drop_last()) + (if list.len() == 1 {
            "\""@
        } else {
            ",\""@
        }) + name + "\":"@ + value.text()
    }
}

/// The members that are written.
pub open spec fn members_written(list: Seq<(Seq<char>, Written)>) -> Map<Seq<char>, Json>
    decreases list,
{
    if list.len() == 0 {
        no_members()
    } else {
        let (name, value) = list.last();
        members_written(list.drop_last()).insert(name, value.document())
    }
}

impl Written {
    /// The text.
    pub open spec fn text(self) -> Seq<char>
        decreases self,
    {
        match self {
            Written::Whole(j) => spelled(j),
            Written::Members(list) => "{"@ + members_text(list) + "}"@,
            Written::Given(text) => text,
        }
    }

    /// The document.
    pub open spec fn document(self) -> Json
        decreases self,
    {
        match self {
            Written::Whole(j) => j,
            Written::Members(list) => Json::Object(members_written(list)),
            Written::Given(text) => parsed(text)->Ok_0,
        }
    }

    /// Whether the names are spelled as they are, the documents are plain, and a text that was given is
    /// one of JSON that goes at most so deep.
    pub open spec fn is_plain(self, depth: nat) -> bool
        decreases depth,
    {
        match self {
            Written::Whole(j) => is_plain_document(j, depth),
            Written::Members(list) => depth > 0 && forall|i: int|
                0 <= i < list.len() ==> is_plain_name((#[trigger] list[i]).0) && list[i].1.is_plain(
                    (depth - 1) as nat,
                ),
            Written::Given(text) => parsed(text) is Ok && text_depth(text).deepest <= depth,
        }
    }
}

// ---------------------------------------------------------------------------------------------
// Operations of `serde_json`.

/// `Value::clone` gives a value with the same document.
#[verifier::external_body]
pub(crate) fn clone_value(v: &Value) -> (r: Value)
    ensures
        json(r) == json(*v),
{
    v.clone()
}

/// `Map::clone` gives an object with the same members.
#[verifier::external_body]
pub(crate) fn clone_map(m: &JsonMap<String, Value>) -> (r: JsonMap<String, Value>)
    ensures
        members(r) == members(*m),
{
    m.clone()
}

/// `Value::get` with a name looks the member up, and gives nothing for what is no object.
#[verifier::external_body]
pub(crate) fn get<'a>(v: &'a Value, name: &str) -> (r: Option<&'a Value>)
    ensures
        match r {
            Some(x) => json(*v).member(name@) == Some(json(*x)),
            None => json(*v).member(name@) is None,
        },
{
    v.get(name)
}

/// `Value::as_str` gives the text of a JSON string.
#[verifier::external_body]
pub(crate) fn as_str(v: &Value) -> (r: Option<&str>)
    ensures
        match r {
            Some(s) => json(*v) == Json::Text(s@),
            None => !(json(*v) is Text),
        },
{
    v.as_str()
}

/// `Value::as_i64` gives an integer that an `i64` can hold.
#[verifier::external_body]
pub(crate) fn as_i64(v: &Value) -> (r: Option<i64>)
    ensures
        match r {
            Some(n) => json(*v).integer() == Some(n as int),
            None => json(*v).integer() is None,
        },
{
    v.as_i64()
}

/// `Value::as_object` gives the members of a JSON object.
#[verifier::external_body]
pub(crate) fn as_object(v: &Value) -> (r: Option<&JsonMap<String, Value>>)
    ensures
        match r {
            Some(m) => json(*v) == Json::Object(members(*m)),
            None => !(json(*v) is Object),
        },
{
    v.as_object()
}

/// `Value::as_array` gives the items of a JSON array.
#[verifier::external_body]
pub(crate) fn as_array(v: &Value) -> (r: Option<&Vec<Value>>)
    ensures
        match r {
            Some(items) => json(*v) == Json::Array(documents(items@)),
            None => !(json(*v) is Array),
        },
{
    v.as_array()
}

/// `Value::is_null` tells `null` from the rest.
#[verifier::external_body]
pub(crate) fn is_null(v: &Value) -> (r: bool)
    ensures
        r == (json(*v) is Null),
{
    v.is_null()
}

/// `Value::from` on a `String` gives a JSON string.
#[verifier::external_body]
pub(crate) fn text_value(s: String) -> (r: Value)
    ensures
        json(r) == Json::Text(s@),
{
    Value::from(s)
}

/// `Value::from` on an `i64` gives that integer.
#[verifier::external_body]
pub(crate) fn i64_value(n: i64) -> (r: Value)
    ensures
        json(r) == Json::Int(n as int),
{
    Value::from(n)
}

/// `Value::from` on a `u64` gives that integer.
#[verifier::external_body]
pub(crate) fn u64_value(n: u64) -> (r: Value)
    ensures
        json(r) == Json::Int(n as int),
{
    Value::from(n)
}

/// `Value::from` on a `bool` gives that truth value.
#[verifier::external_body]
pub(crate) fn bool_value(b: bool) -> (r: Value)
    ensures
        json(r) == Json::Bool(b),
{
    Value::from(b)
}

/// `Value::default` is `null`.
#[verifier::external_body]
pub(crate) fn null_value() -> (r: Value)
    ensures
        json(r) == Json::Null,
{
    Value::default()
}

/// `Value::from` on a `Vec` of values gives a JSON array of them.
#[verifier::external_body]
pub(crate) fn array_value(v: Vec<Value>) -> (r: Value)
    ensures
        json(r) == Json::Array(documents(v@)),
{
    Value::from(v)
}

/// `Value::from` on a `Map` gives a JSON object with its members.
#[verifier::external_body]
pub(crate) fn object_value(m: JsonMap<String, Value>) -> (r: Value)
    ensures
        json(r) == Json::Object(members(m)),
{
    Value::from(m)
}

/// `Value::as_object_mut` followed by `Map::insert` sets a member of a JSON object.
#[verifier::external_body]
pub(crate) fn set_member(v: &mut Value, name: String, value: Value)
    requires
        json(*old(v)) is Object,
    ensures
        json(*final(v)) == Json::Object(json(*old(v))->Object_0.insert(name@, json(value))),
{
    v.as_object_mut().unwrap().insert(name, value);
}

/// `Map::new` has no members.
#[verifier::external_body]
pub(crate) fn new_map() -> (m: JsonMap<String, Value>)
    ensures
        members(m) == no_members(),
{
    JsonMap::new()
}

/// `Map::is_empty` tells whether there are members.
#[verifier::external_body]
pub(crate) fn is_empty_map(m: &JsonMap<String, Value>) -> (r: bool)
    ensures
        r == (members(*m) == no_members()),
{
    m.is_empty()
}

/// `Map::get` looks a member up.
#[verifier::external_body]
pub(crate) fn map_get<'a>(m: &'a JsonMap<String, Value>, name: &str) -> (r: Option<&'a Value>)
    ensures
        match r {
            Some(x) => members(*m).contains_key(name@) && members(*m)[name@] == json(*x),
            None => !members(*m).contains_key(name@),
        },
{
    m.get(name)
}

/// `Map::insert` sets a member.
#[verifier::external_body]
pub(crate) fn map_insert(m: &mut JsonMap<String, Value>, name: String, value: Value)
    ensures
        members(*final(m)) == members(*old(m)).insert(name@, json(value)),
{
    m.insert(name, value);
}

/// `Map::extend` with another object sets all the members of that object.
#[verifier::external_body]
pub(crate) fn map_extend(m: &mut JsonMap<String, Value>, other: JsonMap<String, Value>)
    ensures
        members(*final(m)) == members(*old(m)).union_prefer_right(members(other)),
{
    m.extend(other);
}

/// `Map::keys` walks the names in the order of a `BTreeMap`: ascending.
#[verifier::external_body]
pub(crate) fn map_keys(m: &JsonMap<String, Value>) -> (r: Vec<String>)
    ensures
        are_names(members(*m), texts(r@)),
{
    m.keys().cloned().collect()
}

/// `serde_json::from_str` to a `Value`: whether a text spells out a document, and which, or the words of
/// the error, is a function of the text.
#[verifier::external_body]
pub(crate) fn parse(s: &str) -> (r: Result<Value, String>)
    ensures
        match r {
            Ok(v) => parsed(s@) == Ok::<_, Seq<char>>(json(v)),
            Err(error) => parsed(s@) == Err::<Json, _>(error@),
        },
{
    serde_json::from_str(s).map_err(|e| e.to_string())
}

/// `serde_json::from_slice` to a `Value`: whether bytes spell out a document, and which, is a function
/// of the bytes. What was spelled out is read back: a plain document, and an object of plain documents
/// whose members stand in any order. A text that is read by itself is read alike as a member. A number
/// that is not an integer may be read as its neighbour, and what stands too deep is not read, so nothing
/// is said of those.
#[verifier::external_body]
pub(crate) fn parse_bytes(bytes: &[u8]) -> (r: Option<Value>)
    ensures
        match r {
            Some(v) => parsed_bytes(bytes@) == Some(json(v)),
            None => parsed_bytes(bytes@) is None,
        },
        forall|w: Written|
            w.is_plain(depth_limit()) && #[trigger] encode_utf8(w.text()) == bytes@ ==> r is Some && json(
                r->0,
            ) == w.document(),
{
    serde_json::from_slice(bytes).ok()
}

/// `Value::to_string` spells a document out; the spelling is a function of the document. That of an
/// object without members is two braces.
#[verifier::external_body]
pub(crate) fn spell(v: &Value) -> (r: String)
    ensures
        r@ == spelled(json(*v)),
        json(*v) == Json::Object(no_members()) ==> r@ == "{}"@,
{
    v.to_string()
}

// ---------------------------------------------------------------------------------------------
// Facts.

/// One more member of an object comes behind the others.
pub proof fn lemma_next_member(list: Seq<(Seq<char>, Written)>, name: Seq<char>, value: Written)
    requires
        list.len() > 0,
    ensures
        "{"@ + members_text(list.push((name, value))) == "{"@ + members_text(list) + (",\""@ + name
            + "\":"@) + value.text(),
        members_written(list.push((name, value))) == members_written(list).insert(
            name,
            value.document(),
        ),
{
    let longer = list.push((name, value));
    assert(longer.drop_last() =~= list);
    assert(longer.last() == (name, value));
    assert(members_text(longer) == members_text(list) + ",\""@ + name + "\":"@ + value.text());
    let before = members_text(list);
    let after = value.text();
    assert("{"@ + (before + ",\""@ + name + "\":"@ + after) =~= "{"@ + before + (",\""@ + name
        + "\":"@) + after);
}

/// An object of one member.
pub proof fn lemma_first_member(name: Seq<char>, value: Written)
    ensures
        "{"@ + members_text(seq![(name, value)]) == ("{"@ + "\""@ + name + "\":"@) + value.text(),
        members_written(seq![(name, value)]) == no_members().insert(name, value.document()),
{
    let list = seq![(name, value)];
    let none = Seq::<(Seq<char>, Written)>::empty();
    assert(list.drop_last() =~= none);
    assert(members_text(none) =~= Seq::<char>::empty());
    assert(members_written(none) == no_members());
    let after = value.text();
    assert("{"@ + (Seq::<char>::empty() + "\""@ + name + "\":"@ + after) =~= ("{"@ + "\""@ + name
        + "\":"@) + after);
}

/// An object of three members.
pub proof fn lemma_three_members(a: (Seq<char>, Written), b: (Seq<char>, Written), c: (Seq<char>, Written))
    ensures
        "{"@ + members_text(seq![a, b, c]) == ("{"@ + "\""@ + a.0 + "\":"@) + a.1.text() + (",\""@
            + b.0 + "\":"@) + b.1.text() + (",\""@ + c.0 + "\":"@) + c.1.text(),
        members_written(seq![a, b, c]) == no_members().insert(a.0, a.1.document()).insert(
            b.0,
            b.1.document(),
        ).insert(c.0, c.1.document()),
{
    lemma_first_member(a.0, a.1);
    assert(seq![(a.0, a.1)] =~= seq![a]);
    lemma_next_member(seq![a], b.0, b.1);
    assert(seq![a].push((b.0, b.1)) =~= seq![a, b]);
    lemma_next_member(seq![a, b], c.0, c.1);
    assert(seq![a, b].push((c.0, c.1)) =~= seq![a, b, c]);
}

/// The names of an object in ascending order are determined by the object.
pub proof fn lemma_names_unique(m: Map<Seq<char>, Json>, a: Seq<Seq<char>>, b: Seq<Seq<char>>)
    requires
        are_names(m, a),
        are_names(m, b),
    ensures
        a == b,
    decreases a.len(),
{
    if a.len() == 0 {
        if b.len() > 0 {
            assert(m.contains_key(b[0]));
            assert(a.contains(b[0]));
        }
        assert(a =~= b);
    } else {
        assert(m.contains_key(a[0]));
        assert(b.contains(a[0]));
        assert(m.contains_key(b[0]));
        assert(a.contains(b[0]));
        let i = choose|i: int| 0 <= i < b.len() && b[i] == a[0];
        let j = choose|j: int| 0 <= j < a.len() && a[j] == b[0];
        if i > 0 {
            assert(before(b[0], b[i]));
            if j > 0 {
                assert(before(a[0], a[j]));
                lemma_before_transitive(a[0], b[0], a[0]);
            }
            lemma_before_irreflexive(a[0]);
        }
        assert(a[0] == b[0]);
        let rest = m.remove(a[0]);
        let ra = a.drop_first();
        let rb = b.drop_first();
        assert(are_names(rest, ra)) by {
            lemma_rest_names(m, a);
        }
        assert(are_names(rest, rb)) by {
            lemma_rest_names(m, b);
        }
        lemma_names_unique(rest, ra, rb);
        assert(a =~= seq![a[0]] + ra);
        assert(b =~= seq![b[0]] + rb);
    }
}

proof fn lemma_rest_names(m: Map<Seq<char>, Json>, a: Seq<Seq<char>>)
    requires
        are_names(m, a),
        a.len() > 0,
    ensures
        are_names(m.remove(a[0]), a.drop_first()),
{
    let rest = m.remove(a[0]);
    let ra = a.drop_first();
    assert forall|i: int| 0 <= i < ra.len() implies rest.contains_key(#[trigger] ra[i]) by {
        assert(ra[i] == a[i + 1]);
        assert(before(a[0], a[i + 1]));
        lemma_before_irreflexive(a[0]);
    }
    assert forall|k: Seq<char>| #[trigger] rest.contains_key(k) implies ra.contains(k) by {
        assert(m.contains_key(k));
        let i = choose|i: int| 0 <= i < a.len() && a[i] == k;
        assert(ra[i - 1] == k);
    }
}

/// Names in ascending order are the names.
pub proof fn lemma_names(m: Map<Seq<char>, Json>, found: Seq<Seq<char>>)
    requires
        are_names(m, found),
    ensures
        names(m) == found,
{
    lemma_names_unique(m, names(m), found);
}

/// The place at which a name belongs among names in ascending order.
spec fn name_place(names: Seq<Seq<char>>, name: Seq<char>) -> int
    decreases names.len(),
{
    if names.len() == 0 || before(names.last(), name) {
        names.len() as int
    } else {
        name_place(names.drop_last(), name)
    }
}

proof fn lemma_name_place(names: Seq<Seq<char>>, name: Seq<char>)
    requires
        forall|i: int, j: int|
            0 <= i < j < names.len() ==> before(#[trigger] names[i], #[trigger] names[j]),
        !names.contains(name),
    ensures
        0 <= name_place(names, name) <= names.len(),
        forall|i: int| 0 <= i < name_place(names, name) ==> before(#[trigger] names[i], name),
        forall|i: int| name_place(names, name) <= i < names.len() ==> before(name, #[trigger] names[i]),
    decreases names.len(),
{
    if names.len() > 0 {
        let last = names.len() - 1;
        if before(names.last(), name) {
            assert forall|i: int| 0 <= i < names.len() implies before(#[trigger] names[i], name) by {
                if i < last {
                    assert(before(names[i], names[last]));
                    lemma_before_transitive(names[i], names[last], name);
                }
            }
        } else {
            assert(names.contains(names[last]));
            lemma_before_total(names.last(), name);
            let fewer = names.drop_last();
            assert forall|i: int, j: int| 0 <= i < j < fewer.len() implies before(
                #[trigger] fewer[i],
                #[trigger] fewer[j],
            ) by {
                assert(before(names[i], names[j]));
            }
            assert(!fewer.contains(name)) by {
                if fewer.contains(name) {
                    let i = choose|i: int| 0 <= i < fewer.len() && fewer[i] == name;
                    assert(names[i] == name);
                }
            }
            lemma_name_place(fewer, name);
            assert forall|i: int| 0 <= i < name_place(names, name) implies before(
                #[trigger] names[i],
                name,
            ) by {
                assert(names[i] == fewer[i]);
            }
            assert forall|i: int| name_place(names, name) <= i < names.len() implies before(
                name,
                #[trigger] names[i],
            ) by {
                if i < last {
                    assert(names[i] == fewer[i]);
                }
            }
        }
    }
}

/// The names of an object can be put in ascending order.
pub proof fn lemma_names_exist(m: Map<Seq<char>, Json>)
    requires
        m.dom().finite(),
    ensures
        are_names(m, names(m)),
    decreases m.dom().len(),
{
    if m.dom().len() == 0 {
        assert(m.dom() =~= Set::empty());
        assert forall|k: Seq<char>| #[trigger] m.contains_key(k) implies Seq::<Seq<char>>::empty().contains(
            k,
        ) by {
            assert(m.dom().contains(k));
        }
        assert(are_names(m, Seq::empty()));
    } else {
        let name = m.dom().choose();
        let fewer = m.remove(name);
        assert(fewer.dom() =~= m.dom().remove(name));
        lemma_names_exist(fewer);
        let others = names(fewer);
        assert(!others.contains(name)) by {
            if others.contains(name) {
                let i = choose|i: int| 0 <= i < others.len() && others[i] == name;
                assert(fewer.contains_key(others[i]));
            }
        }
        lemma_name_place(others, name);
        let p = name_place(others, name);
        let all = others.insert(p, name);
        assert forall|i: int, j: int| 0 <= i < j < all.len() implies before(
            #[trigger] all[i],
            #[trigger] all[j],
        ) by {
            if j < p {
                assert(before(others[i], others[j]));
            } else if j == p {
                assert(before(others[i], name));
            } else if i < p {
                assert(before(others[i], others[j - 1]));
            } else if i == p {
                assert(before(name, others[j - 1]));
            } else {
                assert(before(others[i - 1], others[j - 1]));
            }
        }
        assert forall|i: int| 0 <= i < all.len() implies m.contains_key(#[trigger] all[i]) by {
            if i < p {
                assert(fewer.contains_key(others[i]));
            } else if i > p {
                assert(fewer.contains_key(others[i - 1]));
            }
        }
        assert forall|k: Seq<char>| #[trigger] m.contains_key(k) implies all.contains(k) by {
            if k == name {
                assert(all[p] == k);
            } else {
                assert(fewer.contains_key(k));
                let i = choose|i: int| 0 <= i < others.len() && others[i] == k;
                assert(others.contains(k));
                if i < p {
                    assert(all[i] == k);
                } else {
                    assert(all[i + 1] == k);
                }
            }
        }
        assert(are_names(m, all));
    }
}

} // verus!
