//! The stored news record, built from a rebase episode or a rustcc item.
use vstd::prelude::*;
use vstd::string::*;
use crate::clock::{parse_utc, utc_instant_of, utc_now, UtcTime};
use crate::digest::{is_lower_hex, sha256_digest, sha256_hex};
use crate::errors::Error;
use crate::rebase::types::RebaseDaliyEpisode;
use crate::rustcc::message::{texts, Message};
use crate::tag::Tag;
use crate::text::{chars_of, replace_all, replace_char, string_of};

verus! {

/// A news record as it is stored: the source id, a fingerprint of its
/// text, its descriptive fields, its day and its tags.
#[derive(Debug)]
pub struct RebaseDaliy {
    pub id: usize,
    pub hash: String,
    pub author: String,
    pub episode: String,
    pub introduce: String,
    pub time: UtcTime,
    pub title: String,
    pub url: String,
    pub tag: Vec<Tag>,
}

/// The timestamp text of midnight UTC on a day written `YYYY-MM-DD`.
pub open spec fn midnight_text(day: Seq<char>) -> Seq<char> {
    day + "T00:00:00.000Z"@
}

/// The instant of midnight on `day`, or `now` where that text does not
/// read as an instant.
pub open spec fn day_or(day: Seq<char>, now: UtcTime) -> UtcTime {
    match utc_instant_of(midnight_text(day)) {
        Some(p) => UtcTime { secs: p.0, nanos: p.1 },
        None => now,
    }
}

/// The texts of `s`, one after another.
pub open spec fn concat_texts(s: Seq<Seq<char>>) -> Seq<char>
    decreases s.len(),
{
    if s.len() == 0 {
        Seq::empty()
    } else {
        concat_texts(s.drop_last()) + s.last()
    }
}

/// A fingerprint text: 64 lowercase hexadecimal digits.
pub open spec fn is_hex_digest(h: Seq<char>) -> bool {
    h.len() == 64 && forall|i: int| 0 <= i < 64 ==> is_lower_hex(#[trigger] h[i])
}

/// The record fields that do not depend on the clock, for an episode.
pub open spec fn from_episode_fields(r: RebaseDaliy, e: RebaseDaliyEpisode) -> bool {
    let a = e.attributes;
    &&& r.id == e.id
    &&& r.hash@ == sha256_hex(a.title@ + a.introduce@ + a.author@)
    &&& is_hex_digest(r.hash@)
    &&& r.author@ == a.author@
    &&& r.episode@ == a.episode@
    &&& r.introduce@ == a.introduce@
    &&& r.title@ == a.title@
    &&& r.url@ == a.url@
    &&& r.tag@ == seq![Tag::Rebase]
}

/// The record fields that do not depend on the clock, for a rustcc item.
pub open spec fn from_message_fields(r: RebaseDaliy, m: Message) -> bool {
    &&& r.id == 0
    &&& r.hash@ == sha256_hex(m.title@ + m.time@ + m.author@)
    &&& is_hex_digest(r.hash@)
    &&& r.author@ == m.author@
    &&& r.episode@ == "rustcc"@
    &&& r.introduce@ == replace_char(concat_texts(texts(m.contents@)), '\n', ' ')
    &&& r.title@ == m.title@
    &&& r.url@ == m.link@
    &&& r.tag@ == seq![Tag::Rust]
}

/// Reads midnight of `day`, falling back to `now`.
fn day_start(day: &String, now: UtcTime) -> (t: UtcTime)
    ensures
        t == day_or(day@, now),
{
    let mut text = String::from_str(day.as_str());
    text.append("T00:00:00.000Z");
    match parse_utc(text.as_str()) {
        Some(t) => t,
        None => now,
    }
}

/// The fingerprint of three texts written one after another.
fn fingerprint(a: &String, b: &String, c: &String) -> (h: String)
    ensures
        h@ == sha256_hex(a@ + b@ + c@),
        is_hex_digest(h@),
{
    let mut input = String::new();
    input.append(a.as_str());
    input.append(b.as_str());
    input.append(c.as_str());
    sha256_digest(input.as_str())
}

/// All texts of `v`, one after another, with line breaks turned into spaces.
fn joined_contents(v: &Vec<String>) -> (r: String)
    ensures
        r@ == replace_char(concat_texts(texts(v@)), '\n', ' '),
{
    let mut all: Vec<char> = Vec::new();
    let mut i: usize = 0;
    while i < v.len()
        invariant
            i <= v.len(),
            all@ == concat_texts(texts(v@).take(i as int)),
        decreases v.len() - i,
    {
        let mut more = chars_of(v[i].as_str());
        assert(texts(v@).take(i + 1).drop_last() == texts(v@).take(i as int));
        all.append(&mut more);
        i = i + 1;
    }
    assert(texts(v@).take(v.len() as int) == texts(v@));
    string_of(replace_all(&all, '\n', ' ').as_slice())
}

impl RebaseDaliy {
    /// The record of an episode, with `now` standing for the day when the
    /// episode's day does not read as a date.
    pub fn from_episode_at(episode: RebaseDaliyEpisode, now: UtcTime) -> (r: RebaseDaliy)
        ensures
            from_episode_fields(r, episode),
            r.time == day_or(episode.attributes.time@, now),
    {
        let a = episode.attributes;
        let time = day_start(&a.time, now);
        let hash = fingerprint(&a.title, &a.introduce, &a.author);
        let mut tag: Vec<Tag> = Vec::new();
        tag.push(Tag::Rebase);
        RebaseDaliy {
            id: episode.id,
            hash,
            author: a.author,
            episode: a.episode,
            introduce: a.introduce,
            time,
            title: a.title,
            url: a.url,
            tag,
        }
    }

    /// The record of an episode. The conversion always succeeds; where the
    /// episode's day does not read as a date the current time stands for it.
    pub fn try_from(episode: RebaseDaliyEpisode) -> (r: Result<RebaseDaliy, Error>)
        ensures
            r matches Ok(d) && from_episode_fields(d, episode) && (utc_instant_of(
                midnight_text(episode.attributes.time@),
            ) matches Some(p) ==> d.time == UtcTime { secs: p.0, nanos: p.1 }),
    {
        let now = utc_now();
        Ok(Self::from_episode_at(episode, now))
    }

    /// The record of a rustcc item, with `now` standing for the day when
    /// the item's time does not read as a date.
    pub fn from_message_at(value: Message, now: UtcTime) -> (r: RebaseDaliy)
        ensures
            from_message_fields(r, value),
            r.time == day_or(value.time@, now),
    {
        let time = day_start(&value.time, now);
        let hash = fingerprint(&value.title, &value.time, &value.author);
        let introduce = joined_contents(&value.contents);
        let mut tag: Vec<Tag> = Vec::new();
        tag.push(Tag::Rust);
        RebaseDaliy {
            id: 0,
            hash,
            author: value.author,
            episode: String::from_str("rustcc"),
            introduce,
            time,
            title: value.title,
            url: value.link,
            tag,
        }
    }

    /// The record of a rustcc item. The conversion always succeeds; where
    /// the item's time does not read as a date the current time stands for it.
    pub fn try_from_message(value: Message) -> (r: Result<RebaseDaliy, Error>)
        ensures
            r matches Ok(d) && from_message_fields(d, value) && (utc_instant_of(
                midnight_text(value.time@),
            ) matches Some(p) ==> d.time == UtcTime { secs: p.0, nanos: p.1 }),
    {
        let now = utc_now();
        Ok(Self::from_message_at(value, now))
    }
}

/// Two episodes with the same title, introduction and author get the same
/// fingerprint, whatever their other fields; this is what lets the loader
/// skip an episode that is already stored.
pub proof fn lemma_same_text_same_hash(e1: RebaseDaliyEpisode, e2: RebaseDaliyEpisode, r1: RebaseDaliy, r2: RebaseDaliy)
    requires
        from_episode_fields(r1, e1),
        from_episode_fields(r2, e2),
        e1.attributes.title@ == e2.attributes.title@,
        e1.attributes.introduce@ == e2.attributes.introduce@,
        e1.attributes.author@ == e2.attributes.author@,
    ensures
        r1.hash@ == r2.hash@,
{
}

/// The record of an episode copies each attribute into the field of the
/// same name (author, episode, introduction, title, address) and the id,
/// is tagged `Rebase`, and is fingerprinted by the title, introduction and
/// author written one after another.
pub proof fn lemma_episode_record_fields(r: RebaseDaliy, e: RebaseDaliyEpisode)
    requires
        from_episode_fields(r, e),
    ensures
        r.id == e.id,
        r.author@ == e.attributes.author@,
        r.episode@ == e.attributes.episode@,
        r.introduce@ == e.attributes.introduce@,
        r.title@ == e.attributes.title@,
        r.url@ == e.attributes.url@,
        r.tag@ == seq![Tag::Rebase],
        r.hash@ == sha256_hex(e.attributes.title@ + e.attributes.introduce@ + e.attributes.author@),
        r.hash@.len() == 64,
{
}

/// The record of a rustcc item keeps its author, title and link, has id 0
/// and episode `rustcc`, is tagged `Rust`, introduces the item by its
/// paragraphs written one after another with line breaks turned into
/// spaces, and is fingerprinted by the title, time and author.
pub proof fn lemma_message_record_fields(r: RebaseDaliy, m: Message)
    requires
        from_message_fields(r, m),
    ensures
        r.id == 0,
        r.author@ == m.author@,
        r.title@ == m.title@,
        r.url@ == m.link@,
        r.episode@ == "rustcc"@,
        r.introduce@ == replace_char(concat_texts(texts(m.contents@)), '\n', ' '),
        r.tag@ == seq![Tag::Rust],
        r.hash@ == sha256_hex(m.title@ + m.time@ + m.author@),
        r.hash@.len() == 64,
{
}

/// A record of an item holds no line break in its introduction, and as
/// many characters as the item's paragraphs together.
pub proof fn lemma_message_intro_shape(r: RebaseDaliy, m: Message)
    requires
        from_message_fields(r, m),
    ensures
        !r.introduce@.contains('\n'),
        r.introduce@.len() == concat_texts(texts(m.contents@)).len(),
{
    let c = concat_texts(texts(m.contents@));
    assert(r.introduce@ == replace_char(c, '\n', ' '));
    if r.introduce@.contains('\n') {
        let i = choose|i: int| 0 <= i < r.introduce@.len() && r.introduce@[i] == '\n';
        assert(r.introduce@[i] == (if c[i] == '\n' { ' ' } else { c[i] }));
    }
}

} // verus!
