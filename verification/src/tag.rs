//! Topic tags of news items, and how tags are read from a keyword reply.
use vstd::prelude::*;
use vstd::string::*;
use std::collections::HashMap;
use crate::errors::Error;
use crate::text::{
    chars_of, remove_all, remove_char, same_text, split_at_char, split_char, trim, trim_ws, views,
};

verus! {

/// A topic tag attached to a news item.
#[derive(Debug, Clone, Copy, PartialEq, Eq, Hash, Structural)]
pub enum Tag {
    BlockChain,
    Rust,
    Rebase,
    Daily,
    Other,
}

/// The tag that a keyword names: the four known keywords, anything else `Other`.
pub open spec fn tag_of(s: Seq<char>) -> Tag {
    if s == "blockchain"@ {
        Tag::BlockChain
    } else if s == "rust"@ {
        Tag::Rust
    } else if s == "rebase"@ {
        Tag::Rebase
    } else if s == "daily"@ {
        Tag::Daily
    } else {
        Tag::Other
    }
}

/// The name of a tag: its variant's name.
pub open spec fn tag_name(t: Tag) -> Seq<char> {
    match t {
        Tag::BlockChain => "BlockChain"@,
        Tag::Rust => "Rust"@,
        Tag::Rebase => "Rebase"@,
        Tag::Daily => "Daily"@,
        Tag::Other => "Other"@,
    }
}

impl Tag {
    /// Reads a tag from a keyword. Every keyword is accepted; unknown ones
    /// give `Tag::Other`.
    pub fn try_from(value: &str) -> (r: Result<Tag, Error>)
        ensures
            r == Ok::<Tag, Error>(tag_of(value@)),
    {
        let v = chars_of(value);
        Ok(Self::from_chars(&v))
    }

    /// The tag that a keyword, given as characters, names.
    pub fn from_chars(v: &Vec<char>) -> (t: Tag)
        ensures
            t == tag_of(v@),
    {
        if same_text(v, &chars_of("blockchain")) {
            Tag::BlockChain
        } else if same_text(v, &chars_of("rust")) {
            Tag::Rust
        } else if same_text(v, &chars_of("rebase")) {
            Tag::Rebase
        } else if same_text(v, &chars_of("daily")) {
            Tag::Daily
        } else {
            Tag::Other
        }
    }

    /// The name of the tag, as it is stored and served.
    pub fn name(&self) -> (r: String)
        ensures
            r@ == tag_name(*self),
    {
        match self {
            Tag::BlockChain => String::from_str("BlockChain"),
            Tag::Rust => String::from_str("Rust"),
            Tag::Rebase => String::from_str("Rebase"),
            Tag::Daily => String::from_str("Daily"),
            Tag::Other => String::from_str("Other"),
        }
    }

    /// The position of the tag among all tags.
    pub open spec fn index_spec(self) -> nat {
        match self {
            Tag::BlockChain => 0,
            Tag::Rust => 1,
            Tag::Rebase => 2,
            Tag::Daily => 3,
            Tag::Other => 4,
        }
    }
}

/// The tag at a position among all tags.
pub open spec fn tag_at(k: nat) -> Tag {
    if k == 0 {
        Tag::BlockChain
    } else if k == 1 {
        Tag::Rust
    } else if k == 2 {
        Tag::Rebase
    } else if k == 3 {
        Tag::Daily
    } else {
        Tag::Other
    }
}

fn tag_index(t: Tag) -> (k: usize)
    ensures
        k == t.index_spec(),
        k < 5,
        tag_at(k as nat) == t,
{
    match t {
        Tag::BlockChain => 0,
        Tag::Rust => 1,
        Tag::Rebase => 2,
        Tag::Daily => 3,
        Tag::Other => 4,
    }
}

fn tag_at_exec(k: usize) -> (t: Tag)
    requires
        k < 5,
    ensures
        t == tag_at(k as nat),
        t.index_spec() == k,
{
    if k == 0 {
        Tag::BlockChain
    } else if k == 1 {
        Tag::Rust
    } else if k == 2 {
        Tag::Rebase
    } else if k == 3 {
        Tag::Daily
    } else {
        Tag::Other
    }
}

/// `c` in lower case, for the ASCII letters.
pub open spec fn ascii_lower(c: char) -> char {
    if 'A' <= c && c <= 'Z' {
        ((c as u32) + 32) as char
    } else {
        c
    }
}

/// `s` in lower case, for the ASCII letters.
pub open spec fn lower_text(s: Seq<char>) -> Seq<char> {
    s.map_values(|c: char| ascii_lower(c))
}

/// The keyword of each known tag is its name in lower case: reading the
/// lower-case name of a tag gives the tag back, and a keyword that names a
/// known tag is the lower-case name of that tag.
pub proof fn lemma_keyword_is_lower_name(t: Tag, s: Seq<char>)
    ensures
        tag_of(lower_text(tag_name(t))) == t,
        tag_of(s) != Tag::Other ==> s == lower_text(tag_name(tag_of(s))),
{
    reveal_strlit("blockchain");
    reveal_strlit("rust");
    reveal_strlit("rebase");
    reveal_strlit("daily");
    reveal_strlit("BlockChain");
    reveal_strlit("Rust");
    reveal_strlit("Rebase");
    reveal_strlit("Daily");
    reveal_strlit("Other");
    assert(lower_text("BlockChain"@) =~= "blockchain"@);
    assert(lower_text("Rust"@) =~= "rust"@);
    assert(lower_text("Rebase"@) =~= "rebase"@);
    assert(lower_text("Daily"@) =~= "daily"@);
    let other = lower_text("Other"@);
    assert(other.len() == 5 && other[0] == 'o');
    assert(other != "blockchain"@ && other != "rust"@ && other != "rebase"@ && other != "daily"@);
}

/// The tags that one keyword reply names: the reply is split at commas,
/// each piece loses its dots and surrounding whitespace and is read as a
/// tag; an empty reply adds one more `Other` in front.
pub open spec fn reply_tags(reply: Seq<char>) -> Seq<Tag> {
    let lead = if reply.len() == 0 { seq![Tag::Other] } else { Seq::<Tag>::empty() };
    lead + split_char(reply, ',').map_values(|p: Seq<char>| tag_of(trim_ws(remove_char(p, '.'))))
}

/// The tags that a keyword reply names (see `reply_tags`).
pub fn tags_from_reply(reply: &str) -> (r: Vec<Tag>)
    ensures
        r@ == reply_tags(reply@),
{
    let text = chars_of(reply);
    let mut r: Vec<Tag> = Vec::new();
    if text.len() == 0 {
        r.push(Tag::Other);
    }
    let ghost lead = r@;
    let pieces = split_at_char(&text, ',');
    let ghost want = split_char(text@, ',').map_values(
        |p: Seq<char>| tag_of(trim_ws(remove_char(p, '.'))),
    );
    let mut i: usize = 0;
    while i < pieces.len()
        invariant
            i <= pieces.len(),
            views(pieces@) == split_char(text@, ','),
            want.len() == pieces.len(),
            want == split_char(text@, ',').map_values(
                |p: Seq<char>| tag_of(trim_ws(remove_char(p, '.'))),
            ),
            r@ == lead + want.take(i as int),
        decreases pieces.len() - i,
    {
        let cleaned = trim(&remove_all(&pieces[i], '.'));
        let t = Tag::from_chars(&cleaned);
        assert(views(pieces@)[i as int] == pieces@[i as int]@);
        assert(want[i as int] == t);
        r.push(t);
        assert(want.take(i + 1) == want.take(i as int).push(t));
        i = i + 1;
    }
    assert(want.take(want.len() as int) == want);
    r
}

/// A reply made of two non-empty parts joined by a comma names the tags
/// of the first part, then those of the second.
pub proof fn lemma_reply_joined(a: Seq<char>, b: Seq<char>)
    requires
        a.len() > 0,
        b.len() > 0,
    ensures
        reply_tags(a + seq![','] + b) == reply_tags(a) + reply_tags(b),
{
    crate::text::lemma_split_joined(a, b, ',');
    let f = |p: Seq<char>| tag_of(trim_ws(remove_char(p, '.')));
    let sa = split_char(a, ',');
    let sb = split_char(b, ',');
    assert((sa + sb).map_values(f) == sa.map_values(f) + sb.map_values(f));
    assert(Seq::<Tag>::empty() + sa.map_values(f) == sa.map_values(f));
    assert(Seq::<Tag>::empty() + sb.map_values(f) == sb.map_values(f));
    assert(Seq::<Tag>::empty() + (sa + sb).map_values(f) == (sa + sb).map_values(f));
}

/// The tags named by all replies, in order.
pub open spec fn replies_tags(replies: Seq<Seq<char>>) -> Seq<Tag>
    decreases replies.len(),
{
    if replies.len() == 0 {
        Seq::<Tag>::empty()
    } else {
        replies_tags(replies.drop_last()) + reply_tags(replies.last())
    }
}

/// The tags named by a list of keyword replies, one reply after another.
pub fn tags_from_replies(replies: &Vec<String>) -> (r: Vec<Tag>)
    ensures
        r@ == replies_tags(replies@.map_values(|s: String| s@)),
{
    let ghost all = replies@.map_values(|s: String| s@);
    let mut r: Vec<Tag> = Vec::new();
    let mut i: usize = 0;
    while i < replies.len()
        invariant
            i <= replies.len(),
            all == replies@.map_values(|s: String| s@),
            r@ == replies_tags(all.take(i as int)),
        decreases replies.len() - i,
    {
        let mut more = tags_from_reply(replies[i].as_str());
        assert(all.take(i + 1).drop_last() == all.take(i as int));
        r.append(&mut more);
        i = i + 1;
    }
    assert(all.take(replies.len() as int) == all);
    r
}

/// How often `t` occurs in `s`.
pub open spec fn count(s: Seq<Tag>, t: Tag) -> nat
    decreases s.len(),
{
    if s.len() == 0 {
        0
    } else {
        count(s.drop_last(), t) + if s.last() == t { 1nat } else { 0nat }
    }
}

/// Whether `t` is kept when tags gathered over `rounds` rounds are
/// reduced: a tag is kept when it was seen more than `rounds` times; when
/// no tag qualifies, those seen at least `rounds` times are kept.
pub open spec fn keeps(found: Seq<Tag>, rounds: nat, t: Tag) -> bool {
    let strict = exists|u: Tag| count(found, u) >= 1 && count(found, u) - 1 >= rounds;
    if strict {
        count(found, t) >= 1 && count(found, t) - 1 >= rounds
    } else {
        count(found, t) >= 1 && count(found, t) - 1 >= rounds - 1
    }
}

/// The two tiers of tag selection, in terms of how often each tag was
/// found: when some tag (of any kind, `Other` included) was found more
/// than `rounds` times, exactly the tags found more than `rounds` times are
/// kept; when none was, the tags found at least once and at least `rounds`
/// times are kept.
pub proof fn lemma_keeps_tiers(found: Seq<Tag>, rounds: nat, t: Tag)
    ensures
        (exists|u: Tag| count(found, u) > rounds) ==> (keeps(found, rounds, t) <==> count(found, t) > rounds),
        !(exists|u: Tag| count(found, u) > rounds) ==> (keeps(found, rounds, t) <==> (count(found, t) >= 1
            && count(found, t) >= rounds)),
{
    if exists|u: Tag| count(found, u) > rounds {
        let u = choose|u: Tag| count(found, u) > rounds;
        assert(count(found, u) >= 1 && count(found, u) - 1 >= rounds);
    }
}

proof fn lemma_count_bound(s: Seq<Tag>, t: Tag)
    ensures
        count(s, t) <= s.len(),
    decreases s.len(),
{
    if s.len() > 0 {
        lemma_count_bound(s.drop_last(), t);
    }
}

/// What the counter holds for the tag at position `k` after the tags of
/// `s` were counted: nothing for a tag not seen, one less than the number
/// of times it was seen otherwise.
pub open spec fn holds_count(m: Map<usize, usize>, s: Seq<Tag>, k: int) -> bool {
    &&& (m.contains_key(k as usize) <==> count(s, tag_at(k as nat)) >= 1)
    &&& (m.contains_key(k as usize) ==> m[k as usize] + 1 == count(s, tag_at(k as nat)))
}

/// What the counter holds for the tag at position `k`.
fn stored_count(seen: &HashMap<usize, usize>, k: usize) -> (r: Option<usize>)
    ensures
        match r {
            Some(v) => seen@.contains_key(k) && seen@[k] == v,
            None => !seen@.contains_key(k),
        },
{
    broadcast use vstd::std_specs::hash::group_hash_axioms;
    match seen.get(&k) {
        Some(v) => Some(*v),
        None => None,
    }
}

/// Reduces the tags gathered over `loop_index` keyword rounds to those
/// that recur: each distinct tag at most once, kept as `keeps` says.
pub fn select_frequent_tags(found: &Vec<Tag>, loop_index: usize) -> (r: Vec<Tag>)
    ensures
        forall|t: Tag| r@.contains(t) <==> keeps(found@, loop_index as nat, t),
        forall|i: int, j: int| 0 <= i < j < r.len() ==> r@[i] != r@[j],
        (exists|u: Tag| count(found@, u) > loop_index) ==> forall|t: Tag|
            r@.contains(t) <==> count(found@, t) > loop_index,
        !(exists|u: Tag| count(found@, u) > loop_index) ==> forall|t: Tag|
            r@.contains(t) <==> (count(found@, t) >= 1 && count(found@, t) >= loop_index),
{
    broadcast use vstd::std_specs::hash::group_hash_axioms;
    let mut seen: HashMap<usize, usize> = HashMap::new();
    let mut i: usize = 0;
    while i < found.len()
        invariant
            i <= found.len(),
            forall|k: int| 0 <= k < 5 ==> #[trigger] holds_count(seen@, found@.take(i as int), k),
        decreases found.len() - i,
    {
        let t = found[i];
        let m = tag_index(t);
        proof {
            lemma_count_bound(found@.take(i as int), t);
            assert(found@.take(i + 1).drop_last() == found@.take(i as int));
            assert(holds_count(seen@, found@.take(i as int), m as int));
        }
        let ghost old_seen = seen@;
        match stored_count(&seen, m) {
            Some(v) => {
                seen.insert(m, v + 1);
            },
            None => {
                seen.insert(m, 0);
            },
        }
        assert forall|k: int| 0 <= k < 5 implies #[trigger] holds_count(seen@, found@.take(i + 1), k) by {
            assert(holds_count(old_seen, found@.take(i as int), k));
            if k != m {
                assert(tag_at(k as nat) != t);
                assert(seen@.contains_key(k as usize) == old_seen.contains_key(k as usize));
            }
        }
        i = i + 1;
    }
    assert(found@.take(found.len() as int) == found@);
    let mut strict = false;
    let mut m: usize = 0;
    while m < 5
        invariant
            m <= 5,
            forall|k: int| 0 <= k < 5 ==> #[trigger] holds_count(seen@, found@, k),
            strict == exists|q: int|
                0 <= q < m && #[trigger] count(found@, tag_at(q as nat)) >= 1 && count(found@, tag_at(q as nat))
                    - 1 >= loop_index,
        decreases 5 - m,
    {
        assert(holds_count(seen@, found@, m as int));
        match stored_count(&seen, m) {
            Some(v) => {
                if v >= loop_index {
                    strict = true;
                }
            },
            None => {},
        }
        m = m + 1;
    }
    proof {
        assert(strict == exists|u: Tag| count(found@, u) >= 1 && count(found@, u) - 1 >= loop_index) by {
            if exists|u: Tag| count(found@, u) >= 1 && count(found@, u) - 1 >= loop_index {
                let u = choose|u: Tag| count(found@, u) >= 1 && count(found@, u) - 1 >= loop_index;
                assert(tag_at(u.index_spec()) == u);
                let q = u.index_spec() as int;
                assert(0 <= q < 5 && count(found@, tag_at(q as nat)) >= 1);
            }
        }
    }
    let mut r: Vec<Tag> = Vec::new();
    let mut q: usize = 0;
    while q < 5
        invariant
            q <= 5,
            forall|k: int| 0 <= k < 5 ==> #[trigger] holds_count(seen@, found@, k),
            strict == exists|u: Tag| count(found@, u) >= 1 && count(found@, u) - 1 >= loop_index,
            forall|t: Tag| r@.contains(t) <==> (t.index_spec() < q && keeps(found@, loop_index as nat, t)),
            forall|a: int| 0 <= a < r.len() ==> (#[trigger] r@[a]).index_spec() < q,
            forall|a: int, b: int| 0 <= a < b < r.len() ==> r@[a].index_spec() < r@[b].index_spec(),
        decreases 5 - q,
    {
        assert(holds_count(seen@, found@, q as int));
        let take = match stored_count(&seen, q) {
            Some(v) => if strict {
                v >= loop_index
            } else {
                loop_index == 0 || v >= loop_index - 1
            },
            None => false,
        };
        let t = tag_at_exec(q);
        assert(take == keeps(found@, loop_index as nat, t));
        let ghost before = r@;
        if take {
            r.push(t);
        }
        assert forall|u: Tag| r@.contains(u) <==> (u.index_spec() < q + 1 && keeps(found@, loop_index as nat, u)) by {
            if u.index_spec() == q {
                assert(u == t);
                if take {
                    assert(r@[r.len() - 1] == u);
                }
            }
            if before.contains(u) {
                let a = choose|a: int| 0 <= a < before.len() && before[a] == u;
                assert(r@[a] == u);
            }
            if r@.contains(u) && u != t {
                let a = choose|a: int| 0 <= a < r.len() && r@[a] == u;
                assert(before[a] == u);
            }
        }
        q = q + 1;
    }
    proof {
        assert forall|t: Tag| t.index_spec() < 5 by {}
        if exists|u: Tag| count(found@, u) > loop_index {
            assert forall|t: Tag| r@.contains(t) <==> count(found@, t) > loop_index by {
                lemma_keeps_tiers(found@, loop_index as nat, t);
            }
        } else {
            assert forall|t: Tag| r@.contains(t) <==> (count(found@, t) >= 1 && count(found@, t) >= loop_index) by {
                lemma_keeps_tiers(found@, loop_index as nat, t);
            }
        }
    }
    r
}

} // verus!
