//! What the news page computes from the served items.
use vstd::prelude::*;
use crate::clock::{format_listing_time, listing_text, listing_time_text, UtcTime};
use crate::text::{chars_of, string_of, trim_prefix, trim_prefix_all};

verus! {

/// The host part shown next to a link: the address without its leading
/// `https://`, then without `http://`, then without `www.` (each removed
/// as often as it repeats).
pub open spec fn shown_host(url: Seq<char>) -> Seq<char> {
    trim_prefix_all(trim_prefix_all(trim_prefix_all(url, "https://"@), "http://"@), "www."@)
}

/// The host part shown next to a link (see `shown_host`).
pub fn hostname_of(url: &str) -> (r: String)
    ensures
        r@ == shown_host(url@),
{
    let u = chars_of(url);
    let a = trim_prefix(&u, &chars_of("https://"));
    let b = trim_prefix(&a, &chars_of("http://"));
    let c = trim_prefix(&b, &chars_of("www."));
    string_of(c.as_slice())
}

/// Once a prefix has been trimmed, the text no longer starts with it.
pub proof fn lemma_trimmed_prefix_gone(s: Seq<char>, pat: Seq<char>)
    requires
        pat.len() > 0,
    ensures
        !(pat.len() <= trim_prefix_all(s, pat).len() && trim_prefix_all(s, pat).take(pat.len() as int) == pat),
        trim_prefix_all(trim_prefix_all(s, pat), pat) == trim_prefix_all(s, pat),
    decreases s.len(),
{
    if pat.len() <= s.len() && s.take(pat.len() as int) == pat {
        lemma_trimmed_prefix_gone(s.skip(pat.len() as int), pat);
    }
}

/// The first `count` ids of a list; `count` must not exceed its length.
pub fn first_ids(ids: &Vec<i32>, count: usize) -> (r: Vec<i32>)
    requires
        count <= ids.len(),
    ensures
        r@ == ids@.take(count as int),
{
    let mut r: Vec<i32> = Vec::new();
    let mut i: usize = 0;
    while i < count
        invariant
            i <= count <= ids.len(),
            r@ == ids@.take(i as int),
        decreases count - i,
    {
        r.push(ids[i]);
        assert(ids@.take(i + 1) == ids@.take(i as int).push(ids@[i as int]));
        i = i + 1;
    }
    r
}

/// The time of an item as the news listing shows it: `%D %l:%M %p` in
/// UTC (see `listing_text`); `None` where the instant cannot be written.
pub fn listing_time(time: &UtcTime) -> (r: Option<String>)
    ensures
        match r {
            Some(s) => listing_time_text(time.secs, time.nanos) == Some(s@) && s@ == listing_text(time.secs),
            None => listing_time_text(time.secs, time.nanos) is None,
        },
{
    format_listing_time(*time)
}

} // verus!
