//! News items of a rustcc daily article.
use vstd::prelude::*;
use vstd::string::*;
use crate::text::{chars_of, string_of};

verus! {

/// One news item of a daily article: who wrote the article and when, the
/// item's heading, its paragraphs and its main link.
#[derive(Debug)]
pub struct Message {
    pub author: String,
    pub time: String,
    pub title: String,
    pub contents: Vec<String>,
    pub link: String,
}

/// The texts of a list of strings.
pub open spec fn texts(v: Seq<String>) -> Seq<Seq<char>> {
    v.map_values(|s: String| s@)
}

/// A news item as plain texts.
pub struct MessageView {
    pub author: Seq<char>,
    pub time: Seq<char>,
    pub title: Seq<char>,
    pub contents: Seq<Seq<char>>,
    pub link: Seq<char>,
}

impl View for Message {
    type V = MessageView;

    open spec fn view(&self) -> MessageView {
        MessageView {
            author: self.author@,
            time: self.time@,
            title: self.title@,
            contents: texts(self.contents@),
            link: self.link@,
        }
    }
}

/// An item carries nothing of its own: no heading, no paragraph, no link.
pub open spec fn is_blank(m: MessageView) -> bool {
    m.title.len() == 0 && m.contents.len() == 0 && m.link.len() == 0
}

/// Paragraphs written one after another, each followed by a line break.
pub open spec fn paragraph_lines(s: Seq<Seq<char>>) -> Seq<char>
    decreases s.len(),
{
    if s.len() == 0 {
        Seq::empty()
    } else {
        paragraph_lines(s.drop_last()) + s.last() + seq!['\n']
    }
}

/// The text of an item: its heading on the first line, then one line
/// per paragraph, then its link.
pub open spec fn message_text(m: MessageView) -> Seq<char> {
    m.title + seq!['\n'] + paragraph_lines(m.contents) + m.link
}

impl Message {
    /// The text of the item (see `message_text`).
    pub fn to_string(&self) -> (r: String)
        ensures
            r@ == message_text(self@),
    {
        let ghost paras = texts(self.contents@);
        let mut all = chars_of(self.title.as_str());
        all.push('\n');
        let ghost head = all@;
        let mut i: usize = 0;
        while i < self.contents.len()
            invariant
                i <= self.contents.len(),
                paras == texts(self.contents@),
                all@ == head + paragraph_lines(paras.take(i as int)),
            decreases self.contents.len() - i,
        {
            let mut more = chars_of(self.contents[i].as_str());
            all.append(&mut more);
            all.push('\n');
            assert(paras.take(i + 1).drop_last() == paras.take(i as int));
            assert(paras.take(i + 1).last() == self.contents@[i as int]@);
            i = i + 1;
        }
        assert(paras.take(self.contents.len() as int) == paras);
        let mut tail = chars_of(self.link.as_str());
        all.append(&mut tail);
        string_of(all.as_slice())
    }

    /// An item with every field empty.
    pub fn default() -> (m: Message)
        ensures
            m@.author.len() == 0,
            m@.time.len() == 0,
            m@.title.len() == 0,
            m@.contents.len() == 0,
            m@.link.len() == 0,
    {
        Message {
            author: String::new(),
            time: String::new(),
            title: String::new(),
            contents: Vec::new(),
            link: String::new(),
        }
    }

    /// Whether the item has no heading, no paragraph and no link.
    pub fn is_empty(&self) -> (b: bool)
        ensures
            b == is_blank(self@),
    {
        self.title.as_str().unicode_len() == 0 && self.contents.len() == 0
            && self.link.as_str().unicode_len() == 0
    }
}

/// The news items of one article.
#[derive(Debug)]
pub struct Messages {
    pub messages: Vec<Message>,
}

/// The views of a list of items.
pub open spec fn message_views(v: Seq<Message>) -> Seq<MessageView> {
    v.map_values(|m: Message| m@)
}

impl Messages {
    /// An empty list of items.
    pub fn new() -> (r: Messages)
        ensures
            r.messages@.len() == 0,
    {
        Messages { messages: Vec::new() }
    }

    /// Appends an item.
    pub fn push(&mut self, message: Message)
        ensures
            final(self).messages@ == old(self).messages@.push(message),
    {
        self.messages.push(message);
    }
}

} // verus!
