//! A JSON document model, and the page records of the notion export.
use vstd::prelude::*;
use vstd::string::*;

verus! {

/// A JSON value. Object members keep the order in which they were written.
#[derive(Debug)]
pub enum JsonValue {
    Null,
    Bool(bool),
    Str(String),
    Array(Vec<JsonValue>),
    Object(Vec<(String, JsonValue)>),
}

/// `v` is the JSON string `s`.
pub open spec fn is_str(v: JsonValue, s: Seq<char>) -> bool {
    v matches JsonValue::Str(x) && x@ == s
}

/// `v` is `{"type": "text", "text": {"content": content}}`.
pub open spec fn is_text_item(v: JsonValue, content: Seq<char>) -> bool {
    &&& v matches JsonValue::Object(f)
    &&& f@.len() == 2
    &&& f@[0].0@ == "type"@ && is_str(f@[0].1, "text"@)
    &&& f@[1].0@ == "text"@
    &&& f@[1].1 matches JsonValue::Object(g)
    &&& g@.len() == 1
    &&& g@[0].0@ == "content"@ && is_str(g@[0].1, content)
}

/// `v` is the property `{"type": kind, kind: [text item of content]}`.
pub open spec fn is_text_property(v: JsonValue, kind: Seq<char>, content: Seq<char>) -> bool {
    &&& v matches JsonValue::Object(f)
    &&& f@.len() == 2
    &&& f@[0].0@ == "type"@ && is_str(f@[0].1, kind)
    &&& f@[1].0@ == kind
    &&& f@[1].1 matches JsonValue::Array(a)
    &&& a@.len() == 1
    &&& is_text_item(a@[0], content)
}

/// `v` is an object whose members are, in order, the properties named by
/// `entries`: each entry is (member name, property kind, text content).
pub open spec fn is_record(v: JsonValue, entries: Seq<(Seq<char>, Seq<char>, Seq<char>)>) -> bool {
    &&& v matches JsonValue::Object(f)
    &&& f@.len() == entries.len()
    &&& forall|i: int|
        0 <= i < entries.len() ==> {
            &&& (#[trigger] f@[i]).0@ == entries[i].0
            &&& is_text_property(f@[i].1, entries[i].1, entries[i].2)
        }
}

/// `v` is an object with exactly one member named `name`, and that
/// member is the text property `kind` holding `content`.
pub open spec fn text_member(v: JsonValue, name: Seq<char>, kind: Seq<char>, content: Seq<char>) -> bool {
    &&& v matches JsonValue::Object(f)
    &&& exists|i: int|
        {
            &&& 0 <= i < f@.len()
            &&& (#[trigger] f@[i]).0@ == name
            &&& is_text_property(f@[i].1, kind, content)
            &&& forall|j: int| 0 <= j < f@.len() && (#[trigger] f@[j]).0@ == name ==> j == i
        }
}

/// Two names that differ in length or in their first letter differ.
pub proof fn lemma_names_differ(x: Seq<char>, y: Seq<char>)
    requires
        x.len() != y.len() || (x.len() > 0 && y.len() > 0 && x[0] != y[0]),
    ensures
        x != y,
{
}

/// In a record whose member names differ, each entry is the one member of
/// its name, holding that entry's text.
pub proof fn lemma_record_member(v: JsonValue, entries: Seq<(Seq<char>, Seq<char>, Seq<char>)>, k: int)
    requires
        is_record(v, entries),
        0 <= k < entries.len(),
        forall|j: int| 0 <= j < entries.len() && j != k ==> (#[trigger] entries[j]).0 != entries[k].0,
    ensures
        text_member(v, entries[k].0, entries[k].1, entries[k].2),
{
    if let JsonValue::Object(f) = v {
        assert(f@[k].0@ == entries[k].0);
        assert forall|j: int| 0 <= j < f@.len() && (#[trigger] f@[j]).0@ == entries[k].0 implies j == k by {
            assert(f@[j].0@ == entries[j].0);
        }
    }
}

/// Builds `{"type": "text", "text": {"content": content}}`.
pub fn text_item(content: &str) -> (r: JsonValue)
    ensures
        is_text_item(r, content@),
{
    let mut inner: Vec<(String, JsonValue)> = Vec::new();
    inner.push((String::from_str("content"), JsonValue::Str(String::from_str(content))));
    let mut outer: Vec<(String, JsonValue)> = Vec::new();
    outer.push((String::from_str("type"), JsonValue::Str(String::from_str("text"))));
    outer.push((String::from_str("text"), JsonValue::Object(inner)));
    JsonValue::Object(outer)
}

/// Builds the property `{"type": kind, kind: [text item of content]}`.
pub fn text_property(kind: &str, content: &str) -> (r: JsonValue)
    ensures
        is_text_property(r, kind@, content@),
{
    let mut items: Vec<JsonValue> = Vec::new();
    items.push(text_item(content));
    let mut f: Vec<(String, JsonValue)> = Vec::new();
    f.push((String::from_str("type"), JsonValue::Str(String::from_str(kind))));
    f.push((String::from_str(kind), JsonValue::Array(items)));
    JsonValue::Object(f)
}

/// Appends the member `name: text_property(kind, content)` to an object's members.
pub fn push_property(f: &mut Vec<(String, JsonValue)>, name: &str, kind: &str, content: &str)
    ensures
        final(f)@.len() == old(f)@.len() + 1,
        forall|i: int| 0 <= i < old(f)@.len() ==> final(f)@[i] == old(f)@[i],
        final(f)@[old(f)@.len() as int].0@ == name@,
        is_text_property(final(f)@[old(f)@.len() as int].1, kind@, content@),
{
    f.push((String::from_str(name), text_property(kind, content)));
}

} // verus!
