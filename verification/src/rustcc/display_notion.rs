//! Notion export of the news items of a rustcc article.
use vstd::prelude::*;
use vstd::utf8::encode_utf8;
use crate::json::{is_record, lemma_names_differ, lemma_record_member, push_property, text_member, JsonValue};
use crate::rustcc::message::{message_text, Message, MessageView, Messages};
use crate::text::{chars_of, string_of, sub_chars};

verus! {

/// The intro of an item: its text, cut to its first 1990 characters when
/// the text takes more than 2000 bytes in UTF-8.
pub open spec fn intro_text(t: Seq<char>) -> Seq<char> {
    if encode_utf8(t).len() > 2000 && t.len() > 1990 {
        t.take(1990)
    } else {
        t
    }
}

/// The intro is the start of the text: all of it when the text takes at
/// most 2000 bytes, otherwise its first 1990 characters (all of them when
/// it has fewer).
pub proof fn lemma_intro_is_start(t: Seq<char>)
    ensures
        intro_text(t) == t.take(intro_text(t).len() as int),
        encode_utf8(t).len() <= 2000 ==> intro_text(t) == t,
        encode_utf8(t).len() > 2000 ==> intro_text(t).len() == if t.len() > 1990 {
            1990
        } else {
            t.len()
        },
{
    assert(t.take(t.len() as int) == t);
}

/// The notion properties of an item: (member, kind, text), in order.
pub open spec fn message_entries(m: MessageView) -> Seq<(Seq<char>, Seq<char>, Seq<char>)> {
    seq![
        ("Title"@, "title"@, m.title),
        ("Author"@, "rich_text"@, m.author),
        ("Intro"@, "rich_text"@, intro_text(message_text(m))),
        ("Time"@, "rich_text"@, m.time),
        ("Link"@, "rich_text"@, m.link),
    ]
}

/// The members of an item's record: Title the heading, Author the author,
/// Intro the item's intro text, Time the time and Link the link.
pub open spec fn message_members(r: JsonValue, m: MessageView) -> bool {
    &&& text_member(r, "Title"@, "title"@, m.title)
    &&& text_member(r, "Author"@, "rich_text"@, m.author)
    &&& text_member(r, "Intro"@, "rich_text"@, intro_text(message_text(m)))
    &&& text_member(r, "Time"@, "rich_text"@, m.time)
    &&& text_member(r, "Link"@, "rich_text"@, m.link)
}

/// Every record of an item holds each field under the member of the same
/// name, and under no other member of that name.
pub proof fn lemma_message_members(r: JsonValue, m: MessageView)
    requires
        is_record(r, message_entries(m)),
    ensures
        message_members(r, m),
{
    reveal_strlit("Title");
    reveal_strlit("Author");
    reveal_strlit("Intro");
    reveal_strlit("Time");
    reveal_strlit("Link");
    let e = message_entries(m);
    assert forall|j: int, k: int| 0 <= j < 5 && 0 <= k < 5 && j != k implies (#[trigger] e[j]).0 != (#[trigger] e[k]).0 by {
        lemma_names_differ(e[j].0, e[k].0);
    }
    lemma_record_member(r, e, 0);
    lemma_record_member(r, e, 1);
    lemma_record_member(r, e, 2);
    lemma_record_member(r, e, 3);
    lemma_record_member(r, e, 4);
}

/// A suffix of a text takes no more bytes than the whole text.
proof fn lemma_suffix_bytes(t: Seq<char>, i: int)
    requires
        0 <= i <= t.len(),
    ensures
        encode_utf8(t.skip(i)).len() <= encode_utf8(t).len(),
    decreases i,
{
    if i > 0 {
        lemma_suffix_bytes(t, i - 1);
        assert(t.skip(i - 1).drop_first() == t.skip(i));
    } else {
        assert(t.skip(0) == t);
    }
}

/// Whether a text takes more than 2000 bytes in UTF-8.
fn over_2000_bytes(t: &Vec<char>) -> (b: bool)
    ensures
        b == (encode_utf8(t@).len() > 2000),
{
    let mut i: usize = t.len();
    let mut n: usize = 0;
    assert(t@.skip(t.len() as int) == Seq::<char>::empty());
    while i > 0
        invariant
            i <= t.len(),
            n == encode_utf8(t@.skip(i as int)).len(),
            n <= 2000,
        decreases i,
    {
        let c = t[i - 1];
        let v = c as u32;
        proof {
            vstd::utf8::char_is_scalar(c);
            assert(t@.skip(i - 1).drop_first() == t@.skip(i as int));
            assert(t@.skip(i - 1)[0] == c);
        }
        let w: usize = if v < 0x80 {
            1
        } else if v < 0x800 {
            2
        } else if v < 0x10000 {
            3
        } else {
            4
        };
        n = n + w;
        i = i - 1;
        if n > 2000 {
            proof {
                lemma_suffix_bytes(t@, i as int);
            }
            return true;
        }
    }
    assert(t@.skip(0) == t@);
    false
}

/// The intro of an item whose text is `t` (see `intro_text`).
fn intro(t: &Vec<char>) -> (r: Vec<char>)
    ensures
        r@ == intro_text(t@),
{
    if over_2000_bytes(t) && t.len() > 1990 {
        sub_chars(t, 0, 1990)
    } else {
        let r = sub_chars(t, 0, t.len());
        assert(t@.subrange(0, t.len() as int) == t@);
        r
    }
}

/// The notion page record of an item.
pub fn message_json(m: &Message) -> (r: JsonValue)
    ensures
        is_record(r, message_entries(m@)),
        message_members(r, m@),
{
    let text = intro(&chars_of(m.to_string().as_str()));
    let text = string_of(text.as_slice());
    let mut f: Vec<(String, JsonValue)> = Vec::new();
    push_property(&mut f, "Title", "title", m.title.as_str());
    push_property(&mut f, "Author", "rich_text", m.author.as_str());
    push_property(&mut f, "Intro", "rich_text", text.as_str());
    push_property(&mut f, "Time", "rich_text", m.time.as_str());
    push_property(&mut f, "Link", "rich_text", m.link.as_str());
    let r = JsonValue::Object(f);
    assert(r matches JsonValue::Object(g) && g@ == f@);
    proof {
        lemma_message_members(r, m@);
    }
    r
}

/// One notion page record per item, in the order of the items.
pub fn convert_to_json_value(messages: &Messages) -> (r: Vec<JsonValue>)
    ensures
        r.len() == messages.messages.len(),
        forall|i: int|
            0 <= i < r.len() ==> is_record(#[trigger] r@[i], message_entries(messages.messages@[i]@)),
        forall|i: int| 0 <= i < r.len() ==> message_members(#[trigger] r@[i], messages.messages@[i]@),
{
    let mut properties: Vec<JsonValue> = Vec::new();
    let mut i: usize = 0;
    while i < messages.messages.len()
        invariant
            i <= messages.messages.len(),
            properties.len() == i,
            forall|j: int|
                0 <= j < i ==> is_record(#[trigger] properties@[j], message_entries(messages.messages@[j]@)),
            forall|j: int| 0 <= j < i ==> message_members(#[trigger] properties@[j], messages.messages@[j]@),
        decreases messages.messages.len() - i,
    {
        properties.push(message_json(&messages.messages[i]));
        i = i + 1;
    }
    properties
}

} // verus!
