//! The items served by the query endpoints, and their short display form.
use vstd::prelude::*;
use vstd::string::*;
use crate::clock::UtcTime;

verus! {

/// A stored news record as the query endpoints return it.
#[derive(Debug)]
pub struct ListAllItemsResponse {
    pub id: i32,
    pub hash: String,
    pub author: String,
    pub episode: String,
    pub introduce: String,
    pub time: UtcTime,
    pub title: String,
    pub url: String,
}

/// The short form of a news item: title, introduction and link.
#[derive(Debug)]
pub struct SimpleDisplay {
    pub title: String,
    pub introduce: String,
    pub url: String,
}

/// The one-line rendering of a short item.
pub open spec fn display_line(title: Seq<char>, introduce: Seq<char>, url: Seq<char>) -> Seq<char> {
    "🌟🌟🌟"@ + title + ","@ + introduce + " LINK:「"@ + url + "」🐧🐧🐧"@
}

impl SimpleDisplay {
    /// The short form of a served item.
    pub fn from(item: ListAllItemsResponse) -> (r: SimpleDisplay)
        ensures
            r.title@ == item.title@,
            r.introduce@ == item.introduce@,
            r.url@ == item.url@,
    {
        SimpleDisplay { title: item.title, introduce: item.introduce, url: item.url }
    }

    /// The one-line rendering: `🌟🌟🌟{title},{introduce} LINK:「{url}」🐧🐧🐧`.
    pub fn to_string(&self) -> (r: String)
        ensures
            r@ == display_line(self.title@, self.introduce@, self.url@),
    {
        let mut r = String::from_str("🌟🌟🌟");
        r.append(self.title.as_str());
        r.append(",");
        r.append(self.introduce.as_str());
        r.append(" LINK:「");
        r.append(self.url.as_str());
        r.append("」🐧🐧🐧");
        r
    }
}

} // verus!
