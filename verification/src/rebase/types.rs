//! The records of the rebase daily API.
use vstd::prelude::*;
use crate::json::{is_record, lemma_names_differ, lemma_record_member, push_property, text_member, JsonValue};

verus! {

/// The descriptive fields of one daily episode.
#[derive(Debug)]
pub struct RebaseDaliyAttribute {
    pub author: String,
    pub episode: String,
    pub introduce: String,
    pub time: String,
    pub title: String,
    pub url: String,
}

/// One daily episode as the API lists it.
#[derive(Debug)]
pub struct RebaseDaliyEpisode {
    pub attributes: RebaseDaliyAttribute,
    pub id: usize,
}

/// The page information of an API answer.
#[derive(Debug)]
pub struct RebaseDaliyPagination {
    pub page: usize,
    pub page_count: usize,
    pub page_size: usize,
    pub total: usize,
}

/// The meta block of an API answer.
#[derive(Debug)]
pub struct RebaseDaliyMeta {
    pub pagination: RebaseDaliyPagination,
}

/// One answer of the rebase daily API: a page of episodes and its meta block.
#[derive(Debug)]
pub struct RebaseDaliy {
    pub data: Vec<RebaseDaliyEpisode>,
    pub meta: RebaseDaliyMeta,
}

/// The notion properties of an episode: (member, kind, text), in order.
pub open spec fn episode_entries(a: RebaseDaliyAttribute) -> Seq<(Seq<char>, Seq<char>, Seq<char>)> {
    seq![
        ("Title"@, "title"@, a.title@),
        ("Author"@, "rich_text"@, a.author@),
        ("Intro"@, "rich_text"@, a.introduce@),
        ("Episode"@, "rich_text"@, a.episode@),
        ("Time"@, "rich_text"@, a.time@),
        ("Link"@, "rich_text"@, a.url@),
    ]
}

/// The members of an episode's record carry the attribute of the same
/// name: Title the title, Author the author, Intro the introduction,
/// Episode the episode, Time the day and Link the address.
pub open spec fn episode_members(r: JsonValue, a: RebaseDaliyAttribute) -> bool {
    &&& text_member(r, "Title"@, "title"@, a.title@)
    &&& text_member(r, "Author"@, "rich_text"@, a.author@)
    &&& text_member(r, "Intro"@, "rich_text"@, a.introduce@)
    &&& text_member(r, "Episode"@, "rich_text"@, a.episode@)
    &&& text_member(r, "Time"@, "rich_text"@, a.time@)
    &&& text_member(r, "Link"@, "rich_text"@, a.url@)
}

/// Every record of an episode holds each attribute under the member of
/// the same name, and under no other member of that name.
pub proof fn lemma_episode_members(r: JsonValue, a: RebaseDaliyAttribute)
    requires
        is_record(r, episode_entries(a)),
    ensures
        episode_members(r, a),
{
    reveal_strlit("Title");
    reveal_strlit("Author");
    reveal_strlit("Intro");
    reveal_strlit("Episode");
    reveal_strlit("Time");
    reveal_strlit("Link");
    let e = episode_entries(a);
    assert forall|j: int, k: int| 0 <= j < 6 && 0 <= k < 6 && j != k implies (#[trigger] e[j]).0 != (#[trigger] e[k]).0 by {
        lemma_names_differ(e[j].0, e[k].0);
    }
    lemma_record_member(r, e, 0);
    lemma_record_member(r, e, 1);
    lemma_record_member(r, e, 2);
    lemma_record_member(r, e, 3);
    lemma_record_member(r, e, 4);
    lemma_record_member(r, e, 5);
}

/// The notion page record of an episode.
pub fn episode_json(a: &RebaseDaliyAttribute) -> (r: JsonValue)
    ensures
        is_record(r, episode_entries(*a)),
        episode_members(r, *a),
{
    let mut f: Vec<(String, JsonValue)> = Vec::new();
    push_property(&mut f, "Title", "title", a.title.as_str());
    push_property(&mut f, "Author", "rich_text", a.author.as_str());
    push_property(&mut f, "Intro", "rich_text", a.introduce.as_str());
    push_property(&mut f, "Episode", "rich_text", a.episode.as_str());
    push_property(&mut f, "Time", "rich_text", a.time.as_str());
    push_property(&mut f, "Link", "rich_text", a.url.as_str());
    let r = JsonValue::Object(f);
    assert(r matches JsonValue::Object(g) && g@ == f@);
    proof {
        lemma_episode_members(r, *a);
    }
    r
}

impl RebaseDaliy {
    /// One notion page record per episode, in the order of the episodes.
    pub fn convert_to_json_value(&self) -> (r: Vec<JsonValue>)
        ensures
            r.len() == self.data.len(),
            forall|i: int|
                0 <= i < r.len() ==> is_record(#[trigger] r@[i], episode_entries(self.data@[i].attributes)),
            forall|i: int| 0 <= i < r.len() ==> episode_members(#[trigger] r@[i], self.data@[i].attributes),
    {
        let mut properties: Vec<JsonValue> = Vec::new();
        let mut i: usize = 0;
        while i < self.data.len()
            invariant
                i <= self.data.len(),
                properties.len() == i,
                forall|j: int|
                    0 <= j < i ==> is_record(#[trigger] properties@[j], episode_entries(self.data@[j].attributes)),
                forall|j: int| 0 <= j < i ==> episode_members(#[trigger] properties@[j], self.data@[j].attributes),
            decreases self.data.len() - i,
        {
            properties.push(episode_json(&self.data[i].attributes));
            i = i + 1;
        }
        properties
    }

    /// The total number of episodes that the API reports.
    pub fn total_count(&self) -> (r: usize)
        ensures
            r == self.meta.pagination.total,
    {
        self.meta.pagination.total
    }
}

} // verus!
