//! Reading the news items out of a rustcc daily article page.
use vstd::prelude::*;
use vstd::string::*;
use crate::rustcc::message::{is_blank, message_views, texts, Message, MessageView, Messages};
use crate::scrape::{
    element_view, element_views, html_selection, html_selection_in_first, select_elements,
    select_in_first, ElementData,
};
use crate::text::{
    chars_of, contains, contains_char, contains_seq, remove_all, remove_char, split_at_char,
    split_char, string_of, trim, trim_prefix, trim_prefix_all, trim_ws, views,
};

verus! {

/// The plain view of a selected element: (name, text, inner HTML, attribute).
pub type ElementView = (Seq<char>, Seq<char>, Seq<char>, Option<Seq<char>>);

/// The non-empty lines of a header, each without surrounding whitespace.
pub open spec fn header_lines(pieces: Seq<Seq<char>>) -> Seq<Seq<char>>
    decreases pieces.len(),
{
    if pieces.len() == 0 {
        Seq::empty()
    } else {
        let rest = header_lines(pieces.drop_last());
        let line = trim_ws(pieces.last());
        if line.len() > 0 {
            rest.push(line)
        } else {
            rest
        }
    }
}

/// A new item of the article, with no heading, paragraph or link yet.
pub open spec fn fresh(author: Seq<char>, time: Seq<char>, title: Seq<char>) -> MessageView {
    MessageView { author, time, title, contents: Seq::empty(), link: Seq::empty() }
}

/// `m` with one more paragraph.
pub open spec fn with_content(m: MessageView, c: Seq<char>) -> MessageView {
    MessageView { author: m.author, time: m.time, title: m.title, contents: m.contents.push(c), link: m.link }
}

/// `m` with its link replaced.
pub open spec fn with_link(m: MessageView, l: Seq<char>) -> MessageView {
    MessageView { author: m.author, time: m.time, title: m.title, contents: m.contents, link: l }
}

/// Element names that open a new item.
pub open spec fn is_heading(name: Seq<char>) -> bool {
    contains_seq(name, "h3"@) || contains_seq(name, "h2"@) || contains_seq(name, "h1"@)
}

/// Paragraphs that are subscription boilerplate and are left out.
pub open spec fn is_boilerplate_paragraph(c: Seq<char>) -> bool {
    ||| contains_seq(c, "From 日报小组"@)
    ||| contains_seq(c, "社区学习交流"@)
    ||| contains_seq(c, "Telgram Channel"@)
    ||| contains_seq(c, "阿里云语雀订阅"@)
    ||| contains_seq(c, "Steemit"@)
    ||| contains_seq(c, "日报订阅"@)
    ||| contains_seq(c, "独立日报订阅"@)
}

/// Lists that are community boilerplate and are left out.
pub open spec fn is_boilerplate_list(c: Seq<char>) -> bool {
    contains_seq(c, "Rust.cc 论坛"@) || contains_seq(c, "微信公众号"@)
}

/// How one element of the article body changes the items read so far
/// (the finished ones and the open one). `None` where the page cannot be
/// read: a paragraph whose first anchor has no link.
pub open spec fn step(done: Seq<MessageView>, cur: MessageView, e: ElementView) -> Option<(Seq<MessageView>, MessageView)> {
    let name = e.0;
    if is_heading(name) {
        Some((done.push(cur), fresh(cur.author, cur.time, e.1)))
    } else if name.contains('p') {
        let content = remove_char(e.1, '\n');
        let cur1 = if is_boilerplate_paragraph(content) { cur } else { with_content(cur, content) };
        match html_selection(e.2, "a"@, "href"@) {
            None => None,
            Some(links) => if links.len() == 0 {
                Some((done, cur1))
            } else {
                match links[0].3 {
                    None => None,
                    Some(h) => {
                        let l = remove_char(h, '\n');
                        if !contains_seq(content, l) {
                            Some((done, with_content(cur1, l)))
                        } else {
                            Some((done, with_link(cur1, l)))
                        }
                    },
                }
            },
        }
    } else if contains_seq(name, "ul"@) {
        if is_boilerplate_list(e.1) {
            Some((done, cur))
        } else {
            Some((done, with_content(cur, e.1)))
        }
    } else {
        Some((done, cur))
    }
}

/// The items read from the elements of the article body, in order.
pub open spec fn fold_items(items: Seq<ElementView>, author: Seq<char>, time: Seq<char>) -> Option<(Seq<MessageView>, MessageView)>
    decreases items.len(),
{
    if items.len() == 0 {
        Some((Seq::empty(), fresh(author, time, Seq::empty())))
    } else {
        match fold_items(items.drop_last(), author, time) {
            None => None,
            Some(p) => step(p.0, p.1, items.last()),
        }
    }
}

/// An element of the article body that is subscription boilerplate: a
/// paragraph without any anchor whose text (line breaks removed) is a
/// boilerplate paragraph, or a list whose text is a boilerplate list.
pub open spec fn is_boilerplate_element(e: ElementView) -> bool {
    ||| {
        &&& e.0 == seq!['p']
        &&& is_boilerplate_paragraph(remove_char(e.1, '\n'))
        &&& html_selection(e.2, "a"@, "href"@) == Some(Seq::<ElementView>::empty())
    }
    ||| e.0 == seq!['u', 'l'] && is_boilerplate_list(e.1)
}

/// An element of the article body that reads as nothing: a boilerplate
/// element, or an anchor (such as one inside a boilerplate list).
pub open spec fn is_quiet_element(e: ElementView) -> bool {
    is_boilerplate_element(e) || e.0 == seq!['a']
}

/// A quiet element leaves the items read so far as they are.
pub proof fn lemma_quiet_step(done: Seq<MessageView>, cur: MessageView, e: ElementView)
    requires
        is_quiet_element(e),
    ensures
        step(done, cur, e) == Some((done, cur)),
{
    reveal_strlit("h1");
    reveal_strlit("h2");
    reveal_strlit("h3");
    reveal_strlit("ul");
    let name = e.0;
    if name == seq!['p'] && is_boilerplate_element(e) {
        assert(name[0] == 'p');
        assert(name.contains('p'));
    } else if name == seq!['a'] {
        assert(!name.contains('p')) by {
            if name.contains('p') {
                let i = choose|i: int| 0 <= i < name.len() && name[i] == 'p';
                assert(i == 0);
            }
        }
    } else {
        assert(name.subrange(0, 0 + "ul"@.len() as int) == "ul"@);
        assert(!name.contains('p')) by {
            if name.contains('p') {
                let i = choose|i: int| 0 <= i < name.len() && name[i] == 'p';
                assert(i == 0 || i == 1);
            }
        }
        assert(!contains_seq(name, "h1"@)) by {
            if contains_seq(name, "h1"@) {
                let i = choose|i: int| 0 <= i <= name.len() - 2 && #[trigger] name.subrange(i, i + 2) == "h1"@;
                assert(name.subrange(i, i + 2)[0] == name[0]);
            }
        }
        assert(!contains_seq(name, "h2"@)) by {
            if contains_seq(name, "h2"@) {
                let i = choose|i: int| 0 <= i <= name.len() - 2 && #[trigger] name.subrange(i, i + 2) == "h2"@;
                assert(name.subrange(i, i + 2)[0] == name[0]);
            }
        }
        assert(!contains_seq(name, "h3"@)) by {
            if contains_seq(name, "h3"@) {
                let i = choose|i: int| 0 <= i <= name.len() - 2 && #[trigger] name.subrange(i, i + 2) == "h3"@;
                assert(name.subrange(i, i + 2)[0] == name[0]);
            }
        }
    }
}

/// Inserting a quiet element anywhere among the elements of an article
/// body leaves what is read from them unchanged.
pub proof fn lemma_boilerplate_ignored(
    items: Seq<ElementView>,
    k: int,
    b: ElementView,
    author: Seq<char>,
    time: Seq<char>,
)
    requires
        0 <= k <= items.len(),
        is_quiet_element(b),
    ensures
        fold_items(items.insert(k, b), author, time) == fold_items(items, author, time),
    decreases items.len(),
{
    let more = items.insert(k, b);
    if k == items.len() {
        assert(more.drop_last() == items);
        assert(more.last() == b);
        if let Some(p) = fold_items(items, author, time) {
            lemma_quiet_step(p.0, p.1, b);
        }
    } else {
        assert(more.drop_last() == items.drop_last().insert(k, b));
        assert(more.last() == items.last());
        lemma_boilerplate_ignored(items.drop_last(), k, b, author, time);
    }
}

/// Inserting a run of quiet elements anywhere among the elements of an
/// article body leaves what is read from them unchanged.
pub proof fn lemma_quiet_run_ignored(
    items: Seq<ElementView>,
    k: int,
    extra: Seq<ElementView>,
    author: Seq<char>,
    time: Seq<char>,
)
    requires
        0 <= k <= items.len(),
        forall|i: int| 0 <= i < extra.len() ==> is_quiet_element(#[trigger] extra[i]),
    ensures
        fold_items(items.take(k) + extra + items.skip(k), author, time) == fold_items(items, author, time),
    decreases extra.len(),
{
    if extra.len() == 0 {
        assert(items.take(k) + extra + items.skip(k) == items);
    } else {
        let shorter = items.take(k) + extra.drop_last() + items.skip(k);
        lemma_quiet_run_ignored(items, k, extra.drop_last(), author, time);
        let pos = k + extra.len() - 1;
        assert(shorter.insert(pos, extra.last()) == items.take(k) + extra + items.skip(k));
        assert(is_quiet_element(extra[extra.len() - 1]));
        lemma_boilerplate_ignored(shorter, pos, extra.last(), author, time);
    }
}

/// Two article pages with the same header, whose bodies differ by a run
/// of boilerplate elements and the anchors inside them, give the same
/// news items.
pub proof fn lemma_boilerplate_page(
    body1: Seq<char>,
    body2: Seq<char>,
    items: Seq<ElementView>,
    k: int,
    extra: Seq<ElementView>,
)
    requires
        html_selection(body2, "p.vice-title"@, ""@) == html_selection(body1, "p.vice-title"@, ""@),
        html_selection_in_first(body1, "div.detail-body"@, "h1,h2,h3,p,ul,a"@, ""@) == Some(Some(items)),
        html_selection_in_first(body2, "div.detail-body"@, "h1,h2,h3,p,ul,a"@, ""@) == Some(
            Some(items.take(k) + extra + items.skip(k)),
        ),
        0 <= k <= items.len(),
        forall|i: int| 0 <= i < extra.len() ==> is_quiet_element(#[trigger] extra[i]),
    ensures
        article_page(body2) == article_page(body1),
{
    if let Some(v) = html_selection(body1, "p.vice-title"@, ""@) {
        if v.len() > 0 {
            let lines = header_lines(split_char(v[0].1, '\n'));
            if lines.len() >= 2 {
                let author = lines[0];
                let time = trim_ws(trim_prefix_all(lines[1], "发表于"@));
                lemma_quiet_run_ignored(items, k, extra, author, time);
            }
        }
    }
}

/// The items that carry something of their own.
pub open spec fn non_blank(s: Seq<MessageView>) -> Seq<MessageView>
    decreases s.len(),
{
    if s.len() == 0 {
        s
    } else if is_blank(s.last()) {
        non_blank(s.drop_last())
    } else {
        non_blank(s.drop_last()).push(s.last())
    }
}

/// Every item that survives the final filter carries a heading, a
/// paragraph or a link, and the filter keeps every such item.
pub proof fn lemma_non_blank_items(s: Seq<MessageView>)
    ensures
        forall|i: int| 0 <= i < non_blank(s).len() ==> !is_blank(#[trigger] non_blank(s)[i]),
        forall|i: int| 0 <= i < s.len() && !is_blank(#[trigger] s[i]) ==> non_blank(s).contains(s[i]),
        non_blank(s).len() <= s.len(),
    decreases s.len(),
{
    if s.len() > 0 {
        lemma_non_blank_items(s.drop_last());
        let r = non_blank(s.drop_last());
        assert forall|i: int| 0 <= i < s.len() && !is_blank(#[trigger] s[i]) implies non_blank(s).contains(s[i]) by {
            if i < s.len() - 1 {
                assert(s.drop_last()[i] == s[i]);
                assert(r.contains(s[i]));
                let j = choose|j: int| 0 <= j < r.len() && r[j] == s[i];
                if !is_blank(s.last()) {
                    assert(non_blank(s)[j] == s[i]);
                }
            } else {
                assert(non_blank(s)[non_blank(s).len() - 1] == s.last());
            }
        }
    }
}

/// The news items of an article page. The author and time come from the
/// first two non-empty lines of the `p.vice-title` header (the time
/// without its `发表于` prefix); the items from the headings, paragraphs
/// and lists of the first `div.detail-body`. `None` where the page cannot
/// be read: no header, fewer than two header lines, a paragraph anchor
/// without link, or a rejected selector.
pub open spec fn article_page(body: Seq<char>) -> Option<Seq<MessageView>> {
    match html_selection(body, "p.vice-title"@, ""@) {
        None => None,
        Some(v) => if v.len() == 0 {
            None
        } else {
            let lines = header_lines(split_char(v[0].1, '\n'));
            if lines.len() < 2 {
                None
            } else {
                let author = lines[0];
                let time = trim_ws(trim_prefix_all(lines[1], "发表于"@));
                match html_selection_in_first(body, "div.detail-body"@, "h1,h2,h3,p,ul,a"@, ""@) {
                    None => None,
                    Some(None) => Some(Seq::empty()),
                    Some(Some(items)) => match fold_items(items, author, time) {
                        None => None,
                        Some(p) => Some(non_blank(p.0.push(p.1))),
                    },
                }
            }
        },
    }
}

/// A paragraph without anchors that mentions one of the subscription
/// channels of the daily (its group, the community exchange, the Telegram
/// channel, the Yuque, Steemit or daily subscriptions) reads as nothing,
/// and so does a list that mentions the forum or the WeChat account.
pub proof fn lemma_subscription_elements_quiet(e: ElementView)
    ensures
        ({
            let c = remove_char(e.1, '\n');
            &&& e.0 == seq!['p']
            &&& html_selection(e.2, "a"@, "href"@) == Some(Seq::<ElementView>::empty())
            &&& (contains_seq(c, "From 日报小组"@) || contains_seq(c, "社区学习交流"@) || contains_seq(
                c,
                "Telgram Channel"@,
            ) || contains_seq(c, "阿里云语雀订阅"@) || contains_seq(c, "Steemit"@) || contains_seq(c, "日报订阅"@)
                || contains_seq(c, "独立日报订阅"@))
        }) ==> is_quiet_element(e),
        (e.0 == seq!['u', 'l'] && (contains_seq(e.1, "Rust.cc 论坛"@) || contains_seq(e.1, "微信公众号"@)))
            ==> is_quiet_element(e),
{
}

/// The header lines of an article are its pieces, each trimmed, with the
/// empty ones left out, in order.
pub proof fn lemma_header_lines_filter(pieces: Seq<Seq<char>>)
    ensures
        header_lines(pieces) == pieces.map_values(|p: Seq<char>| trim_ws(p)).filter(|l: Seq<char>| l.len() > 0),
    decreases pieces.len(),
{
    reveal(Seq::filter);
    if pieces.len() > 0 {
        lemma_header_lines_filter(pieces.drop_last());
        let f = |p: Seq<char>| trim_ws(p);
        assert(pieces.map_values(f).drop_last() == pieces.drop_last().map_values(f));
    }
}

/// The item of one section of an article body: a heading followed by one
/// paragraph.
pub open spec fn section_item(author: Seq<char>, time: Seq<char>, title: Seq<char>, para: Seq<char>) -> MessageView {
    MessageView { author, time, title, contents: seq![remove_char(para, '\n')], link: Seq::empty() }
}

/// The items of a body of sections, one per heading, in order.
pub open spec fn section_items(
    author: Seq<char>,
    time: Seq<char>,
    titles: Seq<Seq<char>>,
    paras: Seq<Seq<char>>,
) -> Seq<MessageView> {
    Seq::new(titles.len(), |i: int| section_item(author, time, titles[i], paras[i]))
}

/// `items` is an article body made of sections: the `i`-th is an `h1`,
/// `h2` or `h3` heading whose text is `titles[i]`, followed by a paragraph
/// whose text is `paras[i]`, without anchors and not boilerplate.
pub open spec fn is_sectioned_body(items: Seq<ElementView>, titles: Seq<Seq<char>>, paras: Seq<Seq<char>>) -> bool {
    &&& titles.len() == paras.len()
    &&& items.len() == 2 * titles.len()
    &&& forall|i: int|
        #![trigger titles[i]]
        0 <= i < titles.len() ==> {
            &&& (items[2 * i].0 == "h1"@ || items[2 * i].0 == "h2"@ || items[2 * i].0 == "h3"@)
            &&& items[2 * i].1 == titles[i]
            &&& items[2 * i + 1].0 == seq!['p']
            &&& items[2 * i + 1].1 == paras[i]
            &&& html_selection(items[2 * i + 1].2, "a"@, "href"@) == Some(Seq::<ElementView>::empty())
            &&& !is_boilerplate_paragraph(remove_char(paras[i], '\n'))
        }
}

/// What the first `j` sections of a sectioned body read as: the finished
/// items are the leading empty item and the first `j - 1` sections, the
/// open item is the `j`-th section.
proof fn lemma_sections_prefix(
    items: Seq<ElementView>,
    titles: Seq<Seq<char>>,
    paras: Seq<Seq<char>>,
    author: Seq<char>,
    time: Seq<char>,
    j: int,
)
    requires
        is_sectioned_body(items, titles, paras),
        0 <= j <= titles.len(),
    ensures
        ({
            let all = seq![fresh(author, time, Seq::empty())] + section_items(author, time, titles, paras);
            fold_items(items.take(2 * j), author, time) == Some((all.take(j), all[j]))
        }),
    decreases j,
{
    let all = seq![fresh(author, time, Seq::empty())] + section_items(author, time, titles, paras);
    if j == 0 {
        assert(items.take(0) == Seq::<ElementView>::empty());
        assert(all.take(0) == Seq::<MessageView>::empty());
    } else {
        let k = j - 1;
        lemma_sections_prefix(items, titles, paras, author, time, k);
        reveal_strlit("h1");
        reveal_strlit("h2");
        reveal_strlit("h3");
        reveal_strlit("ul");
        assert(titles[k] == titles[k]);
        let h = items[2 * k];
        let p = items[2 * k + 1];
        assert(items.take(2 * k + 1).drop_last() == items.take(2 * k));
        assert(items.take(2 * k + 1).last() == h);
        assert(items.take(2 * k + 2).drop_last() == items.take(2 * k + 1));
        assert(items.take(2 * k + 2).last() == p);
        assert(2 * j == 2 * k + 2);
        // the heading closes the open item and opens the next section
        assert(is_heading(h.0)) by {
            if h.0 == "h1"@ {
                assert(h.0.subrange(0, 0 + "h1"@.len() as int) == "h1"@);
            } else if h.0 == "h2"@ {
                assert(h.0.subrange(0, 0 + "h2"@.len() as int) == "h2"@);
            } else {
                assert(h.0.subrange(0, 0 + "h3"@.len() as int) == "h3"@);
            }
        }
        assert(all[k].author == author && all[k].time == time);
        assert(all.take(k).push(all[k]) == all.take(j));
        let opened = fresh(author, time, titles[k]);
        assert(fold_items(items.take(2 * k + 1), author, time) == Some((all.take(j), opened)));
        // the paragraph adds its text to the open section
        assert(p.0[0] == 'p');
        assert(p.0.contains('p'));
        assert(!is_heading(p.0));
        let c = remove_char(p.1, '\n');
        assert(with_content(opened, c) == all[j]) by {
            assert(opened.contents.push(c) == seq![c]);
        }
    }
}

/// Items with a leading item that carries nothing, followed by items that
/// all carry something, keep exactly the latter.
proof fn lemma_non_blank_after_blank(b: MessageView, s: Seq<MessageView>)
    requires
        is_blank(b),
        forall|i: int| 0 <= i < s.len() ==> !is_blank(#[trigger] s[i]),
    ensures
        non_blank(seq![b] + s) == s,
    decreases s.len(),
{
    let x = seq![b] + s;
    if s.len() == 0 {
        assert(x.drop_last() == Seq::<MessageView>::empty());
        assert(x.last() == b);
        assert(non_blank(Seq::<MessageView>::empty()) == Seq::<MessageView>::empty());
        assert(non_blank(x) == non_blank(x.drop_last()));
    } else {
        assert(x.drop_last() == seq![b] + s.drop_last());
        assert(x.last() == s.last());
        assert(!is_blank(s[s.len() - 1]));
        lemma_non_blank_after_blank(b, s.drop_last());
        assert(non_blank(x) == non_blank(x.drop_last()).push(x.last()));
        assert(s.drop_last().push(s.last()) == s);
    }
}

/// Every heading of an article body opens an item of its own: a body of
/// sections, each a heading followed by a paragraph, reads as one item
/// per heading, in order, titled with the heading's text and holding
/// exactly the paragraph after it.
pub proof fn lemma_sections_read(
    items: Seq<ElementView>,
    titles: Seq<Seq<char>>,
    paras: Seq<Seq<char>>,
    author: Seq<char>,
    time: Seq<char>,
)
    requires
        is_sectioned_body(items, titles, paras),
    ensures
        fold_items(items, author, time) matches Some(p) && non_blank(p.0.push(p.1)) == section_items(
            author,
            time,
            titles,
            paras,
        ),
{
    let n = titles.len() as int;
    lemma_sections_prefix(items, titles, paras, author, time, n);
    assert(items.take(2 * n) == items);
    let secs = section_items(author, time, titles, paras);
    let all = seq![fresh(author, time, Seq::empty())] + secs;
    assert(all.take(n).push(all[n]) == all);
    assert forall|i: int| 0 <= i < secs.len() implies !is_blank(#[trigger] secs[i]) by {
        assert(secs[i].contents.len() == 1);
    }
    lemma_non_blank_after_blank(fresh(author, time, Seq::empty()), secs);
}

/// An article page whose body is made of sections reads as one item per
/// heading, in order, each with the page's author and time, titled with
/// its heading's text and holding exactly the paragraph after it.
pub proof fn lemma_sectioned_page(
    body: Seq<char>,
    items: Seq<ElementView>,
    titles: Seq<Seq<char>>,
    paras: Seq<Seq<char>>,
    author: Seq<char>,
    time: Seq<char>,
)
    requires
        html_selection(body, "p.vice-title"@, ""@) matches Some(v) && v.len() > 0 && {
            let lines = header_lines(split_char(v[0].1, '\n'));
            &&& lines.len() >= 2
            &&& lines[0] == author
            &&& trim_ws(trim_prefix_all(lines[1], "发表于"@)) == time
        },
        html_selection_in_first(body, "div.detail-body"@, "h1,h2,h3,p,ul,a"@, ""@) == Some(Some(items)),
        is_sectioned_body(items, titles, paras),
    ensures
        article_page(body) == Some(section_items(author, time, titles, paras)),
{
    lemma_sections_read(items, titles, paras, author, time);
}

/// The non-empty trimmed lines of a header text.
fn header_lines_exec(text: &Vec<char>) -> (r: Vec<Vec<char>>)
    ensures
        views(r@) == header_lines(split_char(text@, '\n')),
{
    let pieces = split_at_char(text, '\n');
    let ghost all = views(pieces@);
    let mut r: Vec<Vec<char>> = Vec::new();
    let mut i: usize = 0;
    while i < pieces.len()
        invariant
            i <= pieces.len(),
            all == views(pieces@),
            all == split_char(text@, '\n'),
            views(r@) == header_lines(all.take(i as int)),
        decreases pieces.len() - i,
    {
        assert(all.take(i + 1).drop_last() == all.take(i as int));
        assert(all.take(i + 1).last() == pieces@[i as int]@);
        let line = trim(&pieces[i]);
        if line.len() > 0 {
            let ghost before = r@;
            r.push(line);
            assert(views(r@) == views(before).push(line@));
        }
        i = i + 1;
    }
    assert(all.take(pieces.len() as int) == all);
    r
}

fn is_boilerplate_paragraph_exec(c: &Vec<char>) -> (b: bool)
    ensures
        b == is_boilerplate_paragraph(c@),
{
    contains(c, &chars_of("From 日报小组")) || contains(c, &chars_of("社区学习交流")) || contains(
        c,
        &chars_of("Telgram Channel"),
    ) || contains(c, &chars_of("阿里云语雀订阅")) || contains(c, &chars_of("Steemit")) || contains(
        c,
        &chars_of("日报订阅"),
    ) || contains(c, &chars_of("独立日报订阅"))
}

fn is_boilerplate_list_exec(c: &Vec<char>) -> (b: bool)
    ensures
        b == is_boilerplate_list(c@),
{
    contains(c, &chars_of("Rust.cc 论坛")) || contains(c, &chars_of("微信公众号"))
}

/// A new item with the given author, time and heading.
fn fresh_message(author: &String, time: &String, title: String) -> (m: Message)
    ensures
        m@ == fresh(author@, time@, title@),
{
    let m = Message { author: author.clone(), time: time.clone(), title, contents: Vec::new(), link: String::new() };
    assert(texts(m.contents@) =~= Seq::<Seq<char>>::empty());
    m
}

/// Adds a paragraph to an item.
fn add_content(m: &mut Message, c: &Vec<char>)
    ensures
        final(m)@ == with_content(old(m)@, c@),
{
    let s = string_of(c.as_slice());
    let ghost before = m.contents@;
    m.contents.push(s);
    assert(texts(m.contents@) == texts(before).push(c@));
}

proof fn lemma_fold_stuck(items: Seq<ElementView>, author: Seq<char>, time: Seq<char>, k: int)
    requires
        0 <= k <= items.len(),
        fold_items(items.take(k), author, time) is None,
    ensures
        fold_items(items, author, time) is None,
    decreases items.len() - k,
{
    if k < items.len() {
        assert(items.take(k + 1).drop_last() == items.take(k));
        lemma_fold_stuck(items, author, time, k + 1);
    } else {
        assert(items.take(k) == items);
    }
}

/// The items read from the elements of an article body, the open item last.
fn read_items(items: &Vec<ElementData>, author: &String, time: &String) -> (r: Option<Vec<Message>>)
    ensures
        match fold_items(element_views(items@), author@, time@) {
            None => r is None,
            Some(p) => r matches Some(v) && message_views(v@) == p.0.push(p.1),
        },
{
    let ghost all = element_views(items@);
    let mut done: Vec<Message> = Vec::new();
    let mut cur = fresh_message(author, time, String::new());
    assert(all.take(0) == Seq::<ElementView>::empty());
    let h1 = chars_of("h1");
    let h2 = chars_of("h2");
    let h3 = chars_of("h3");
    let ul = chars_of("ul");
    let mut i: usize = 0;
    while i < items.len()
        invariant
            i <= items.len(),
            all == element_views(items@),
            h1@ == "h1"@,
            h2@ == "h2"@,
            h3@ == "h3"@,
            ul@ == "ul"@,
            cur@.author == author@,
            cur@.time == time@,
            fold_items(all.take(i as int), author@, time@) == Some((message_views(done@), cur@)),
        decreases items.len() - i,
    {
        assert(all.take(i + 1).drop_last() == all.take(i as int));
        assert(all.take(i + 1).last() == element_view(items@[i as int]));
        let e = &items[i];
        let name = chars_of(e.name.as_str());
        if contains(&name, &h3) || contains(&name, &h2) || contains(&name, &h1) {
            let next = fresh_message(author, time, String::from_str(e.text.as_str()));
            let finished = cur;
            let ghost before = done@;
            done.push(finished);
            assert(message_views(done@) == message_views(before).push(finished@));
            cur = next;
        } else if contains_char(&name, 'p') {
            let content = remove_all(&chars_of(e.text.as_str()), '\n');
            if !is_boilerplate_paragraph_exec(&content) {
                add_content(&mut cur, &content);
            }
            match select_elements(e.inner_html.as_str(), "a", "href") {
                None => {
                    proof {
                        lemma_fold_stuck(all, author@, time@, i + 1);
                    }
                    return None;
                },
                Some(links) => {
                    if links.len() > 0 {
                        assert(element_views(links@)[0] == element_view(links@[0]));
                        match &links[0].attr {
                            None => {
                                proof {
                                    lemma_fold_stuck(all, author@, time@, i + 1);
                                }
                                return None;
                            },
                            Some(h) => {
                                let l = remove_all(&chars_of(h.as_str()), '\n');
                                if !contains(&content, &l) {
                                    add_content(&mut cur, &l);
                                } else {
                                    cur.link = string_of(l.as_slice());
                                }
                            },
                        }
                    }
                },
            }
        } else if contains(&name, &ul) {
            let content = chars_of(e.text.as_str());
            if !is_boilerplate_list_exec(&content) {
                add_content(&mut cur, &content);
            }
        }
        i = i + 1;
    }
    assert(all.take(items.len() as int) == all);
    let ghost before = done@;
    let last = cur;
    done.push(last);
    assert(message_views(done@) == message_views(before).push(last@));
    Some(done)
}

/// The items that carry something of their own, in order.
fn keep_non_blank(v: Vec<Message>) -> (r: Messages)
    ensures
        message_views(r.messages@) == non_blank(message_views(v@)),
{
    let ghost all = message_views(v@);
    let mut rest = v;
    let mut out = Messages::new();
    let ghost mut seen: Seq<MessageView> = Seq::empty();
    while rest.len() > 0
        invariant
            all == seen + message_views(rest@),
            message_views(out.messages@) == non_blank(seen),
        decreases rest.len(),
    {
        let m = rest.remove(0);
        let ghost mv = m@;
        let ghost before = out.messages@;
        if !m.is_empty() {
            out.push(m);
            assert(message_views(out.messages@) == message_views(before).push(mv));
        }
        proof {
            assert(seen.push(mv).drop_last() == seen);
            seen = seen.push(mv);
        }
    }
    assert(seen == all);
    out
}

/// The news items of an article page (see `article_page`); `None` exactly
/// where the page cannot be read.
fn read_article_page(body: &str) -> (r: Option<Messages>)
    ensures
        match article_page(body@) {
            None => r is None,
            Some(ms) => r matches Some(m) && message_views(m.messages@) == ms,
        },
{
    let vice = match select_elements(body, "p.vice-title", "") {
        Some(v) => v,
        None => return None,
    };
    if vice.len() == 0 {
        return None;
    }
    assert(element_views(vice@)[0] == element_view(vice@[0]));
    let lines = header_lines_exec(&chars_of(vice[0].text.as_str()));
    if lines.len() < 2 {
        return None;
    }
    assert(views(lines@)[0] == lines@[0]@ && views(lines@)[1] == lines@[1]@);
    let author = string_of(lines[0].as_slice());
    let time = string_of(trim(&trim_prefix(&lines[1], &chars_of("发表于"))).as_slice());
    match select_in_first(body, "div.detail-body", "h1,h2,h3,p,ul,a", "") {
        None => None,
        Some(None) => {
            let m = Messages::new();
            assert(message_views(m.messages@) =~= Seq::<MessageView>::empty());
            Some(m)
        },
        Some(Some(items)) => match read_items(&items, &author, &time) {
            None => None,
            Some(v) => Some(keep_non_blank(v)),
        },
    }
}

/// The news items of a readable article page (see `article_page`): the
/// page has a header with at least two non-empty lines, and every
/// paragraph's first anchor carries a link.
pub fn messages_from_article_page(body: &str) -> (r: Messages)
    requires
        article_page(body@) is Some,
    ensures
        message_views(r.messages@) == article_page(body@)->0,
{
    match read_article_page(body) {
        Some(m) => m,
        None => {
            proof {
                assert(false);
            }
            Messages::new()
        },
    }
}

/// The news items of an article page, after checking that the page is
/// readable; `None` exactly where it is not (see `article_page`).
pub fn try_messages_from_article_page(body: &str) -> (r: Option<Messages>)
    ensures
        match article_page(body@) {
            None => r is None,
            Some(ms) => r matches Some(m) && message_views(m.messages@) == ms,
        },
{
    if read_article_page(body).is_some() {
        Some(messages_from_article_page(body))
    } else {
        None
    }
}

} // verus!
