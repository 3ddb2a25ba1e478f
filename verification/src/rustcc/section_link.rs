//! Section pages of the rustcc daily and the article links on them.
use vstd::prelude::*;
use vstd::string::*;
use crate::rustcc::article::{Article, ArticleList};
use crate::scrape::{element_views, html_selection, select_elements, ElementData};
use crate::text::{
    chars_of, decimal, format_decimal, parse_decimal, parse_usize_spec, starts_with, string_of,
    trim_prefix, trim_prefix_all,
};

verus! {

/// The id of the daily section on rustcc.
pub open spec fn section_id_text() -> Seq<char> {
    "f4703117-7e6b-4caf-aa22-a3ad3db6898f"@
}

/// The address of a section page, up to its page number.
pub open spec fn section_page_prefix() -> Seq<char> {
    "https://rustcc.cn/section?id=f4703117-7e6b-4caf-aa22-a3ad3db6898f&current_page="@
}

/// The link prefix that section page links carry on a section page.
pub open spec fn section_href_prefix() -> Seq<char> {
    "/section?id=f4703117-7e6b-4caf-aa22-a3ad3db6898f&current_page="@
}

/// A numbered page of the daily section.
#[derive(Debug, Clone, Copy, PartialEq, Eq, Structural)]
pub struct SectionLink {
    pub id: usize,
}

impl SectionLink {
    /// The address of the page.
    pub fn to_string(&self) -> (r: String)
        ensures
            r@ == section_page_prefix() + decimal(self.id as nat),
    {
        let mut r = String::from_str(
            "https://rustcc.cn/section?id=f4703117-7e6b-4caf-aa22-a3ad3db6898f&current_page=",
        );
        let digits = format_decimal(self.id);
        r.append(string_of(digits.as_slice()).as_str());
        r
    }
}

/// The pages of the daily section found on a section page.
#[derive(Debug)]
pub struct SectionLinkList {
    pub section_id: String,
    pub section_link_list: Vec<SectionLink>,
}

/// The address lines of a list of pages, each followed by a line break.
pub open spec fn link_lines(v: Seq<SectionLink>) -> Seq<char>
    decreases v.len(),
{
    if v.len() == 0 {
        Seq::empty()
    } else {
        link_lines(v.drop_last()) + section_page_prefix() + decimal(v.last().id as nat) + "\n"@
    }
}

impl SectionLinkList {
    /// Appends a page.
    pub fn push(&mut self, section_link: SectionLink)
        ensures
            final(self).section_link_list@ == old(self).section_link_list@.push(section_link),
            final(self).section_id == old(self).section_id,
    {
        self.section_link_list.push(section_link);
    }

    /// The number of pages.
    pub fn total(&self) -> (r: usize)
        ensures
            r == self.section_link_list.len(),
    {
        self.section_link_list.len()
    }

    /// The section id on a line of its own, then the address of every page
    /// on a line of its own.
    pub fn to_string(&self) -> (r: String)
        ensures
            r@ == self.section_id@ + "\n"@ + link_lines(self.section_link_list@),
    {
        let mut r = String::from_str(self.section_id.as_str());
        r.append("\n");
        let ghost head = r@;
        let mut i: usize = 0;
        while i < self.section_link_list.len()
            invariant
                i <= self.section_link_list.len(),
                r@ == head + link_lines(self.section_link_list@.take(i as int)),
            decreases self.section_link_list.len() - i,
        {
            let line = self.section_link_list[i].to_string();
            r.append(line.as_str());
            r.append("\n");
            assert(self.section_link_list@.take(i + 1).drop_last() == self.section_link_list@.take(i as int));
            i = i + 1;
        }
        assert(self.section_link_list@.take(self.section_link_list.len() as int) == self.section_link_list@);
        r
    }
}

/// Adding a page to a list adds one to its count and keeps the pages
/// before it.
pub proof fn lemma_push_then_total(before: SectionLinkList, after: SectionLinkList, link: SectionLink)
    requires
        after.section_link_list@ == before.section_link_list@.push(link),
    ensures
        after.section_link_list@.len() == before.section_link_list@.len() + 1,
        after.section_link_list@.last() == link,
        after.section_link_list@.drop_last() == before.section_link_list@,
{
    assert(after.section_link_list@.drop_last() == before.section_link_list@);
}

/// Why a section page could not be read.
#[derive(Debug, Clone, Copy, PartialEq, Eq, Structural)]
pub enum LinkError {
    /// A page link whose page number is not a number.
    InvalidPageNumber,
}

/// The link of an anchor, the empty text where it has none.
pub open spec fn href_of(e: (Seq<char>, Seq<char>, Seq<char>, Option<Seq<char>>)) -> Seq<char> {
    match e.3 {
        Some(h) => h,
        None => Seq::empty(),
    }
}

/// The page numbers linked from the anchors of a section page, in order:
/// every anchor whose link starts with `/section` names a page, whose
/// number is what remains after the section page prefix; `None` where one
/// of them is not a number.
pub open spec fn section_numbers(anchors: Seq<(Seq<char>, Seq<char>, Seq<char>, Option<Seq<char>>)>) -> Option<Seq<usize>>
    decreases anchors.len(),
{
    if anchors.len() == 0 {
        Some(Seq::empty())
    } else {
        match section_numbers(anchors.drop_last()) {
            None => None,
            Some(ids) => {
                let h = href_of(anchors.last());
                if is_section_href(h) {
                    match parse_usize_spec(trim_prefix_all(h, section_href_prefix())) {
                        Some(n) => Some(ids.push(n)),
                        None => None,
                    }
                } else {
                    Some(ids)
                }
            },
        }
    }
}

/// The link of an anchor, the empty text where it has none.
fn href_chars(e: &ElementData) -> (r: Vec<char>)
    ensures
        r@ == href_of(crate::scrape::element_view(*e)),
{
    match &e.attr {
        Some(h) => chars_of(h.as_str()),
        None => Vec::new(),
    }
}

/// The pages linked from the anchors of a section page.
pub fn section_links_from_anchors(anchors: &Vec<ElementData>) -> (r: Result<SectionLinkList, LinkError>)
    ensures
        match section_numbers(element_views(anchors@)) {
            Some(ids) => r matches Ok(l) && l.section_id@ == section_id_text()
                && l.section_link_list@.map_values(|s: SectionLink| s.id) == ids,
            None => r == Err::<SectionLinkList, LinkError>(LinkError::InvalidPageNumber),
        },
{
    let mut links = SectionLinkList {
        section_id: String::from_str("f4703117-7e6b-4caf-aa22-a3ad3db6898f"),
        section_link_list: Vec::new(),
    };
    let ghost all = element_views(anchors@);
    let section = chars_of("/section");
    let prefix = chars_of("/section?id=f4703117-7e6b-4caf-aa22-a3ad3db6898f&current_page=");
    let mut i: usize = 0;
    while i < anchors.len()
        invariant
            i <= anchors.len(),
            all == element_views(anchors@),
            section@ == "/section"@,
            prefix@ == section_href_prefix(),
            links.section_id@ == section_id_text(),
            section_numbers(all.take(i as int)) == Some(
                links.section_link_list@.map_values(|s: SectionLink| s.id),
            ),
        decreases anchors.len() - i,
    {
        assert(all.take(i + 1).drop_last() == all.take(i as int));
        assert(all.take(i + 1).last() == crate::scrape::element_view(anchors@[i as int]));
        let href = href_chars(&anchors[i]);
        if starts_with(&href, &section) {
            match parse_decimal(&trim_prefix(&href, &prefix)) {
                Some(id) => {
                    let ghost before = links.section_link_list@;
                    links.push(SectionLink { id });
                    assert(links.section_link_list@.map_values(|s: SectionLink| s.id) == before.map_values(
                        |s: SectionLink| s.id,
                    ).push(id));
                },
                None => {
                    proof {
                        lemma_section_numbers_stuck(all, i as int + 1);
                    }
                    return Err(LinkError::InvalidPageNumber);
                },
            }
        }
        i = i + 1;
    }
    assert(all.take(anchors.len() as int) == all);
    Ok(links)
}

/// Once a prefix of the anchors fails, every longer prefix fails.
proof fn lemma_section_numbers_stuck(all: Seq<(Seq<char>, Seq<char>, Seq<char>, Option<Seq<char>>)>, k: int)
    requires
        0 <= k <= all.len(),
        section_numbers(all.take(k)) is None,
    ensures
        section_numbers(all) is None,
    decreases all.len() - k,
{
    if k < all.len() {
        assert(all.take(k + 1).drop_last() == all.take(k));
        lemma_section_numbers_stuck(all, k + 1);
    } else {
        assert(all.take(k) == all);
    }
}

/// The pages of the daily section linked from a section page. `None`
/// where the anchor selector is rejected.
pub fn section_links_from_page(html: &str) -> (r: Option<Result<SectionLinkList, LinkError>>)
    ensures
        match html_selection(html@, "a"@, "href"@) {
            None => r is None,
            Some(anchors) => r matches Some(res) && match section_numbers(anchors) {
                Some(ids) => res matches Ok(l) && l.section_id@ == section_id_text()
                    && l.section_link_list@.map_values(|s: SectionLink| s.id) == ids,
                None => res == Err::<SectionLinkList, LinkError>(LinkError::InvalidPageNumber),
            },
        },
{
    match select_elements(html, "a", "href") {
        Some(anchors) => Some(section_links_from_anchors(&anchors)),
        None => None,
    }
}

/// Every page address names its page: reading back the page number after
/// the prefix gives the number the address was made from.
pub proof fn lemma_page_address_roundtrip(link: SectionLink)
    ensures
        parse_usize_spec((section_page_prefix() + decimal(link.id as nat)).skip(
            section_page_prefix().len() as int,
        )) == Some(link.id),
{
    crate::text::lemma_decimal_roundtrip(link.id);
    assert((section_page_prefix() + decimal(link.id as nat)).skip(section_page_prefix().len() as int)
        == decimal(link.id as nat));
}

/// The site that the links of a page are written relative to.
pub open spec fn site() -> Seq<char> {
    "https://rustcc.cn"@
}

/// Whether a link names a page of a section.
pub open spec fn is_section_href(h: Seq<char>) -> bool {
    h.len() >= "/section"@.len() && h.take("/section"@.len() as int) == "/section"@
}

/// The page numbers read from the first `i` anchors of a page whose only
/// section link is at `k` and names `link`.
proof fn lemma_section_numbers_prefix(
    anchors: Seq<(Seq<char>, Seq<char>, Seq<char>, Option<Seq<char>>)>,
    k: int,
    link: SectionLink,
    i: int,
)
    requires
        0 <= k < anchors.len(),
        0 <= i <= anchors.len(),
        href_of(anchors[k]) == section_href_prefix() + decimal(link.id as nat),
        forall|j: int| 0 <= j < anchors.len() && j != k ==> !is_section_href(#[trigger] href_of(anchors[j])),
    ensures
        section_numbers(anchors.take(i)) == if i <= k {
            Some(Seq::<usize>::empty())
        } else {
            Some(seq![link.id])
        },
    decreases i,
{
    if i == 0 {
        assert(anchors.take(0) == Seq::<(Seq<char>, Seq<char>, Seq<char>, Option<Seq<char>>)>::empty());
    } else {
        lemma_section_numbers_prefix(anchors, k, link, i - 1);
        assert(anchors.take(i).drop_last() == anchors.take(i - 1));
        assert(anchors.take(i).last() == anchors[i - 1]);
        if i - 1 == k {
            reveal_strlit("/section");
            reveal_strlit("/section?id=f4703117-7e6b-4caf-aa22-a3ad3db6898f&current_page=");
            let p = section_href_prefix();
            let d = decimal(link.id as nat);
            let h = p + d;
            crate::text::lemma_decimal_digits(link.id as nat);
            crate::text::lemma_decimal_roundtrip(link.id);
            assert(h.take("/section"@.len() as int) == "/section"@);
            assert(h.take(p.len() as int) == p);
            assert(h.skip(p.len() as int) == d);
            assert(crate::text::is_digit(d[0]));
            assert(p[0] == '/');
            assert(!(p.len() <= d.len() && d.take(p.len() as int) == p)) by {
                if p.len() <= d.len() && d.take(p.len() as int) == p {
                    assert(d.take(p.len() as int)[0] == d[0]);
                }
            }
            assert(trim_prefix_all(d, p) == d);
            assert(trim_prefix_all(h, p) == d);
            assert(Seq::<usize>::empty().push(link.id) == seq![link.id]);
        } else {
            assert(!is_section_href(href_of(anchors[i - 1])));
        }
    }
}

/// A section page whose only section link is the address of `link` with
/// the site left off lists exactly that page.
pub proof fn lemma_section_link_roundtrip(
    anchors: Seq<(Seq<char>, Seq<char>, Seq<char>, Option<Seq<char>>)>,
    k: int,
    link: SectionLink,
)
    requires
        0 <= k < anchors.len(),
        section_page_prefix() + decimal(link.id as nat) == site() + href_of(anchors[k]),
        forall|j: int| 0 <= j < anchors.len() && j != k ==> !is_section_href(#[trigger] href_of(anchors[j])),
    ensures
        section_numbers(anchors) == Some(seq![link.id]),
{
    reveal_strlit("https://rustcc.cn");
    reveal_strlit("https://rustcc.cn/section?id=f4703117-7e6b-4caf-aa22-a3ad3db6898f&current_page=");
    reveal_strlit("/section?id=f4703117-7e6b-4caf-aa22-a3ad3db6898f&current_page=");
    let h = href_of(anchors[k]);
    assert(section_page_prefix() == site() + section_href_prefix());
    assert((site() + h).skip(site().len() as int) == h);
    assert((site() + section_href_prefix() + decimal(link.id as nat)).skip(site().len() as int)
        == section_href_prefix() + decimal(link.id as nat));
    lemma_section_numbers_prefix(anchors, k, link, anchors.len() as int);
    assert(anchors.take(anchors.len() as int) == anchors);
}

/// The articles linked from the anchors of a section page: every anchor
/// whose link starts with `/article` names an article, with the link
/// after the `/article?id=` prefix and the anchor's text as title.
pub open spec fn article_entries(anchors: Seq<(Seq<char>, Seq<char>, Seq<char>, Option<Seq<char>>)>) -> Seq<(Seq<char>, Seq<char>)>
    decreases anchors.len(),
{
    if anchors.len() == 0 {
        Seq::empty()
    } else {
        let rest = article_entries(anchors.drop_last());
        let h = href_of(anchors.last());
        if h.len() >= "/article"@.len() && h.take("/article"@.len() as int) == "/article"@ {
            rest.push((trim_prefix_all(h, "/article?id="@), anchors.last().1))
        } else {
            rest
        }
    }
}

/// The (link, title) of each article of a list.
pub open spec fn article_pairs(v: Seq<Article>) -> Seq<(Seq<char>, Seq<char>)> {
    v.map_values(|a: Article| (a.link@, a.title@))
}

/// The articles linked from the anchors of a section page.
pub fn articles_from_anchors(anchors: &Vec<ElementData>) -> (r: ArticleList)
    ensures
        article_pairs(r.article_list@) == article_entries(element_views(anchors@)),
{
    let mut list = ArticleList { article_list: Vec::new() };
    let ghost all = element_views(anchors@);
    let article = chars_of("/article");
    let prefix = chars_of("/article?id=");
    let mut i: usize = 0;
    while i < anchors.len()
        invariant
            i <= anchors.len(),
            all == element_views(anchors@),
            article@ == "/article"@,
            prefix@ == "/article?id="@,
            article_pairs(list.article_list@) == article_entries(all.take(i as int)),
        decreases anchors.len() - i,
    {
        assert(all.take(i + 1).drop_last() == all.take(i as int));
        assert(all.take(i + 1).last() == crate::scrape::element_view(anchors@[i as int]));
        let href = href_chars(&anchors[i]);
        if starts_with(&href, &article) {
            let link = string_of(trim_prefix(&href, &prefix).as_slice());
            let title = String::from_str(anchors[i].text.as_str());
            let ghost before = list.article_list@;
            let a = Article { link, title };
            let ghost av = (a.link@, a.title@);
            list.push(a);
            assert(article_pairs(list.article_list@) == article_pairs(before).push(av));
        }
        i = i + 1;
    }
    assert(all.take(anchors.len() as int) == all);
    list
}

/// The articles linked from a section page. `None` where the anchor
/// selector is rejected.
pub fn articles_from_page(html: &str) -> (r: Option<ArticleList>)
    ensures
        match html_selection(html@, "a"@, "href"@) {
            None => r is None,
            Some(anchors) => r matches Some(l) && article_pairs(l.article_list@) == article_entries(anchors),
        },
{
    match select_elements(html, "a", "href") {
        Some(anchors) => Some(articles_from_anchors(&anchors)),
        None => None,
    }
}

/// The articles read from the first `i` anchors include the article of
/// anchor `k` once `i` is past it.
proof fn lemma_article_entries_prefix(
    anchors: Seq<(Seq<char>, Seq<char>, Seq<char>, Option<Seq<char>>)>,
    k: int,
    x: Seq<char>,
    i: int,
)
    requires
        0 <= k < i <= anchors.len(),
        href_of(anchors[k]) == "/article?id="@ + x,
        !(x.len() >= "/article?id="@.len() && x.take("/article?id="@.len() as int) == "/article?id="@),
    ensures
        article_entries(anchors.take(i)).contains((x, anchors[k].1)),
    decreases i,
{
    assert(anchors.take(i).drop_last() == anchors.take(i - 1));
    assert(anchors.take(i).last() == anchors[i - 1]);
    if i - 1 == k {
        reveal_strlit("/article");
        reveal_strlit("/article?id=");
        let q = "/article?id="@;
        let h = q + x;
        assert(h.take("/article"@.len() as int) == "/article"@);
        assert(h.take(q.len() as int) == q);
        assert(h.skip(q.len() as int) == x);
        assert(trim_prefix_all(x, q) == x);
        assert(trim_prefix_all(h, q) == x);
        let r = article_entries(anchors.take(i));
        assert(r[r.len() - 1] == (x, anchors[k].1));
    } else {
        lemma_article_entries_prefix(anchors, k, x, i - 1);
        let before = article_entries(anchors.take(i - 1));
        let r = article_entries(anchors.take(i));
        let j = choose|j: int| 0 <= j < before.len() && before[j] == (x, anchors[k].1);
        assert(r[j] == before[j]);
    }
}

/// An anchor linking to `/article?id=` followed by `x` names an article
/// with link `x`, whose address is the site followed by that anchor's link.
pub proof fn lemma_article_link_roundtrip(
    anchors: Seq<(Seq<char>, Seq<char>, Seq<char>, Option<Seq<char>>)>,
    k: int,
    x: Seq<char>,
)
    requires
        0 <= k < anchors.len(),
        href_of(anchors[k]) == "/article?id="@ + x,
        !(x.len() >= "/article?id="@.len() && x.take("/article?id="@.len() as int) == "/article?id="@),
    ensures
        article_entries(anchors).contains((x, anchors[k].1)),
        "https://rustcc.cn/article?id="@ + x == site() + href_of(anchors[k]),
{
    reveal_strlit("https://rustcc.cn");
    reveal_strlit("https://rustcc.cn/article?id=");
    reveal_strlit("/article?id=");
    lemma_article_entries_prefix(anchors, k, x, anchors.len() as int);
    assert(anchors.take(anchors.len() as int) == anchors);
    assert("https://rustcc.cn/article?id="@ == site() + "/article?id="@);
}

} // verus!
