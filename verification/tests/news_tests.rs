use all_in_one_news::aion::rebase_daily::RebaseDaliy;
use all_in_one_news::aion::response::{ListAllItemsResponse, SimpleDisplay};
use all_in_one_news::clock::UtcTime;
use all_in_one_news::errors::Error;
use all_in_one_news::json::JsonValue;
use all_in_one_news::rebase::display_notion::convert_to_json_value;
use all_in_one_news::rebase::episodes::{collect_episodes, episode_ids, sort_by_id};
use all_in_one_news::rebase::types::{
    RebaseDaliy as RebasePage, RebaseDaliyAttribute, RebaseDaliyEpisode, RebaseDaliyMeta,
    RebaseDaliyPagination,
};
use all_in_one_news::routes::query::{item_ids, simple_displays, ListAllItemsQuery};
use all_in_one_news::routes::rebase::{distinct_authors, list_authors_response};
use all_in_one_news::rustcc::article::{Article, ArticleList};
use all_in_one_news::rustcc::article_page::{messages_from_article_page, try_messages_from_article_page};
use all_in_one_news::rustcc::display_notion::convert_to_json_value as messages_json;
use all_in_one_news::rustcc::message::{Message, Messages};
use all_in_one_news::rustcc::section_link::{
    articles_from_page, section_links_from_page, LinkError, SectionLink, SectionLinkList,
};
use all_in_one_news::tag::{select_frequent_tags, tags_from_replies, tags_from_reply, Tag};
use all_in_one_news::tasks::partition_tasks;
use all_in_one_news::text::{
    chars_of, contains, format_decimal, less_than, parse_decimal, remove_all, replace_all,
    split_at_char, string_of, trim, trim_prefix,
};
use all_in_one_news::web::{first_ids, hostname_of, listing_time};

fn s(x: &str) -> String {
    x.to_string()
}

fn attribute(title: &str) -> RebaseDaliyAttribute {
    RebaseDaliyAttribute {
        author: s("Qizhou"),
        episode: s("#1315"),
        introduce: s("PeerDAS，一个简单的数据可用采样方法。通过复用已有的P2P网络来实现数据可用采样。"),
        time: s("2023-09-12"),
        title: s(title),
        url: s("https://ethresear.ch/t/peerdas-a-simpler-das-approach-using-battle-tested-p2p-components/16541"),
    }
}

fn fix_rebase_daily_episode() -> RebaseDaliyEpisode {
    RebaseDaliyEpisode {
        attributes: attribute("PeerDAS – a simpler DAS approach using battle-tested p2p components"),
        id: 4366,
    }
}

fn episode(id: usize, title: &str) -> RebaseDaliyEpisode {
    RebaseDaliyEpisode { attributes: attribute(title), id }
}

fn page(data: Vec<RebaseDaliyEpisode>, total: usize) -> RebasePage {
    RebasePage {
        data,
        meta: RebaseDaliyMeta {
            pagination: RebaseDaliyPagination { page: 1, page_count: 1, page_size: 1, total },
        },
    }
}

#[test]
fn test_time_parse() {
    let time = "2023-09-12T00:00:00.000Z";
    let time = time.parse::<chrono::DateTime<chrono::Utc>>().unwrap();
    println!("{:?}", time);
    let daily = RebaseDaliy::try_from(fix_rebase_daily_episode()).unwrap();
    assert_eq!(daily.time, UtcTime { secs: time.timestamp(), nanos: 0 });
}

#[test]
fn test_rebase_daily_episode_to_rebase_daily() {
    let episode = fix_rebase_daily_episode();
    let daily = RebaseDaliy::try_from(episode).unwrap();
    println!("{:#?}", daily);
    assert_eq!(daily.id, 4366);
    assert_eq!(daily.author, "Qizhou");
    assert_eq!(daily.episode, "#1315");
    assert_eq!(daily.title, "PeerDAS – a simpler DAS approach using battle-tested p2p components");
    assert_eq!(daily.time, UtcTime { secs: 1694476800, nanos: 0 });
    assert_eq!(daily.tag, vec![Tag::Rebase]);
    let e = fix_rebase_daily_episode().attributes;
    let expected = sha256::digest(format!("{}{}{}", e.title, e.introduce, e.author));
    assert_eq!(daily.hash, expected);
    assert_eq!(daily.hash.len(), 64);
}

#[test]
fn record_time_falls_back_to_now() {
    let mut e = fix_rebase_daily_episode();
    e.attributes.time = s("not a day");
    let now = UtcTime { secs: 42, nanos: 7 };
    let daily = RebaseDaliy::from_episode_at(e, now);
    assert_eq!(daily.time, now);
    let good = RebaseDaliy::from_episode_at(fix_rebase_daily_episode(), now);
    assert_eq!(good.time, UtcTime { secs: 1694476800, nanos: 0 });
}

#[test]
fn same_text_gives_same_hash() {
    let a = RebaseDaliy::try_from(episode(1, "t")).unwrap();
    let mut other = episode(2, "t");
    other.attributes.url = s("https://elsewhere");
    other.attributes.episode = s("#2");
    let b = RebaseDaliy::try_from(other).unwrap();
    assert_eq!(a.hash, b.hash);
    let c = RebaseDaliy::try_from(episode(1, "u")).unwrap();
    assert_ne!(a.hash, c.hash);
}

#[test]
fn record_from_rustcc_item() {
    let m = Message {
        author: s("Alice"),
        time: s("2023-09-09"),
        title: s("Bevy"),
        contents: vec![s("line one\nline two"), s("\nmore")],
        link: s("https://bevy.org"),
    };
    let r = RebaseDaliy::try_from_message(m).unwrap();
    assert_eq!(r.id, 0);
    assert_eq!(r.episode, "rustcc");
    assert_eq!(r.introduce, "line one line two more");
    assert_eq!(r.url, "https://bevy.org");
    assert_eq!(r.tag, vec![Tag::Rust]);
    assert_eq!(r.hash, sha256::digest("Bevy2023-09-09Alice"));
    assert_eq!(r.time, UtcTime { secs: 1694217600, nanos: 0 });
}

#[test]
fn tag_keywords() {
    assert_eq!(Tag::try_from("blockchain"), Ok(Tag::BlockChain));
    assert_eq!(Tag::try_from("rust"), Ok(Tag::Rust));
    assert_eq!(Tag::try_from("rebase"), Ok(Tag::Rebase));
    assert_eq!(Tag::try_from("daily"), Ok(Tag::Daily));
    assert_eq!(Tag::try_from("Rust"), Ok(Tag::Other));
    assert_eq!(Tag::try_from(""), Ok(Tag::Other));
    assert_eq!(Tag::BlockChain.name(), "BlockChain");
    assert_eq!(Tag::Other.name(), "Other");
}

#[test]
fn tags_of_replies() {
    assert_eq!(tags_from_reply("rust, blockchain., daily"), vec![Tag::Rust, Tag::BlockChain, Tag::Daily]);
    assert_eq!(tags_from_reply("Rust,web"), vec![Tag::Other, Tag::Other]);
    assert_eq!(tags_from_reply(""), vec![Tag::Other, Tag::Other]);
    assert_eq!(tags_from_reply(" .r.e.b.a.s.e. "), vec![Tag::Rebase]);
    assert_eq!(
        tags_from_replies(&vec![s("rust"), s(""), s("daily,rust")]),
        vec![Tag::Rust, Tag::Other, Tag::Other, Tag::Daily, Tag::Rust]
    );
}

#[test]
fn frequent_tags() {
    let found = vec![Tag::Rust, Tag::Rust, Tag::Daily, Tag::Rust, Tag::Daily];
    assert_eq!(select_frequent_tags(&found, 2), vec![Tag::Rust]);
    // no tag recurs more than the number of rounds: fall back to at least as often
    let found = vec![Tag::Rust, Tag::Rust, Tag::Daily];
    assert_eq!(select_frequent_tags(&found, 2), vec![Tag::Rust]);
    let found = vec![Tag::Rust, Tag::Daily];
    assert_eq!(select_frequent_tags(&found, 2), Vec::<Tag>::new());
    assert_eq!(select_frequent_tags(&vec![], 3), Vec::<Tag>::new());
    let mut both = select_frequent_tags(&vec![Tag::Daily, Tag::Other, Tag::Other, Tag::Daily], 1);
    both.sort_by_key(|t| t.name());
    assert_eq!(both, vec![Tag::Daily, Tag::Other]);
}

#[test]
fn task_partition() {
    assert_eq!(partition_tasks(66, 4), vec![(0, 15), (16, 31), (32, 47), (48, 65)]);
    assert_eq!(partition_tasks(5, 1), vec![(0, 4)]);
    assert_eq!(partition_tasks(3, 3), vec![(0, 0), (1, 1), (2, 2)]);
    let r = partition_tasks(1000, 7);
    assert_eq!(r[0].0, 0);
    assert_eq!(r[6].1, 999);
    for w in r.windows(2) {
        assert_eq!(w[1].0, w[0].1 + 1);
    }
}

#[test]
fn decimal_text() {
    assert_eq!(string_of(&format_decimal(0)), "0");
    assert_eq!(string_of(&format_decimal(4372)), "4372");
    assert_eq!(parse_decimal(&chars_of("66")), Some(66));
    assert_eq!(parse_decimal(&chars_of("+7")), Some(7));
    assert_eq!(parse_decimal(&chars_of("+")), None);
    assert_eq!(parse_decimal(&chars_of("")), None);
    assert_eq!(parse_decimal(&chars_of("-1")), None);
    assert_eq!(parse_decimal(&chars_of("12a")), None);
    assert_eq!(parse_decimal(&chars_of("18446744073709551615")), Some(18446744073709551615usize));
    assert_eq!(parse_decimal(&chars_of("18446744073709551616")), None);
    for n in [0usize, 9, 10, 99, 100, 123456789, usize::MAX] {
        assert_eq!(parse_decimal(&format_decimal(n)), Some(n));
        assert_eq!(string_of(&format_decimal(n)), n.to_string());
    }
}

#[test]
fn text_helpers() {
    assert_eq!(string_of(&trim(&chars_of("\u{3000} a b \n"))), "a b");
    assert_eq!(string_of(&trim_prefix(&chars_of("abababc"), &chars_of("ab"))), "c");
    assert_eq!(string_of(&remove_all(&chars_of("a.b.c"), '.')), "abc");
    assert_eq!(string_of(&replace_all(&chars_of("a\nb"), '\n', ' ')), "a b");
    let parts: Vec<String> = split_at_char(&chars_of(",a,,b"), ',').iter().map(|p| string_of(p)).collect();
    assert_eq!(parts, vec![s(""), s("a"), s(""), s("b")]);
    assert!(contains(&chars_of("hello world"), &chars_of("o w")));
    assert!(!contains(&chars_of("hello"), &chars_of("hellos")));
    assert!(less_than(&chars_of("abc"), &chars_of("abd")));
    assert!(less_than(&chars_of("ab"), &chars_of("abc")));
    assert!(!less_than(&chars_of("b"), &chars_of("abc")));
}

#[test]
fn notion_pages_of_rebase_answer() {
    let answer = page(vec![episode(1, "one"), episode(2, "two")], 9);
    assert_eq!(answer.total_count(), 9);
    let values = convert_to_json_value(&answer);
    assert_eq!(values.len(), 2);
    match &values[1] {
        JsonValue::Object(f) => {
            let names: Vec<&str> = f.iter().map(|(k, _)| k.as_str()).collect();
            assert_eq!(names, vec!["Title", "Author", "Intro", "Episode", "Time", "Link"]);
            match &f[0].1 {
                JsonValue::Object(p) => {
                    assert_eq!(p[0].0, "type");
                    assert!(matches!(&p[0].1, JsonValue::Str(t) if t == "title"));
                    assert_eq!(p[1].0, "title");
                    match &p[1].1 {
                        JsonValue::Array(items) => match &items[0] {
                            JsonValue::Object(item) => {
                                assert!(matches!(&item[0].1, JsonValue::Str(t) if t == "text"));
                                match &item[1].1 {
                                    JsonValue::Object(c) => {
                                        assert_eq!(c[0].0, "content");
                                        assert!(matches!(&c[0].1, JsonValue::Str(t) if t == "two"));
                                    }
                                    _ => panic!("text is not an object"),
                                }
                            }
                            _ => panic!("item is not an object"),
                        },
                        _ => panic!("title is not an array"),
                    }
                }
                _ => panic!("property is not an object"),
            }
            match &f[4].1 {
                JsonValue::Object(p) => {
                    assert!(matches!(&p[0].1, JsonValue::Str(t) if t == "rich_text"));
                    assert_eq!(p[1].0, "rich_text");
                }
                _ => panic!("property is not an object"),
            }
        }
        _ => panic!("page is not an object"),
    }
}

#[test]
fn episodes_sorted_stably_by_id() {
    let v = vec![episode(3, "a"), episode(1, "b"), episode(3, "c"), episode(2, "d"), episode(1, "e")];
    let sorted = sort_by_id(v);
    let got: Vec<(usize, String)> = sorted.iter().map(|e| (e.id, e.attributes.title.clone())).collect();
    assert_eq!(
        got,
        vec![(1, s("b")), (1, s("e")), (2, s("d")), (3, s("a")), (3, s("c"))]
    );
    assert_eq!(episode_ids(&sorted), vec![1, 1, 2, 3, 3]);
}

#[test]
fn episodes_of_answers() {
    let pages = vec![page(vec![episode(5, "x"), episode(2, "y")], 3), page(vec![], 3), page(vec![episode(4, "z")], 3)];
    let all = collect_episodes(pages);
    assert_eq!(episode_ids(&all), vec![2, 4, 5]);
}

const SECTION_PAGE: &str = r#"<html><body>
<a href="/section?id=f4703117-7e6b-4caf-aa22-a3ad3db6898f&amp;current_page=2">2</a>
<a href="/article?id=abc-1">Title A</a>
<a>no link</a>
<a href="/other">x</a>
<a href="/section?id=f4703117-7e6b-4caf-aa22-a3ad3db6898f&amp;current_page=3">3</a>
</body></html>"#;

#[test]
fn section_page_links() {
    let list = section_links_from_page(SECTION_PAGE).unwrap().unwrap();
    assert_eq!(list.section_id, "f4703117-7e6b-4caf-aa22-a3ad3db6898f");
    assert_eq!(list.section_link_list, vec![SectionLink { id: 2 }, SectionLink { id: 3 }]);
    assert_eq!(list.total(), 2);
    let bad = r#"<a href="/section?id=other">x</a>"#;
    assert_eq!(section_links_from_page(bad).unwrap().err(), Some(LinkError::InvalidPageNumber));
    let articles = articles_from_page(SECTION_PAGE).unwrap();
    assert_eq!(articles.article_list.len(), 1);
    assert_eq!(articles.article_list[0].link, "abc-1");
    assert_eq!(articles.article_list[0].title(), "Title A");
}

#[test]
fn section_link_text() {
    let link = SectionLink { id: 12 };
    assert_eq!(
        link.to_string(),
        "https://rustcc.cn/section?id=f4703117-7e6b-4caf-aa22-a3ad3db6898f&current_page=12"
    );
    let mut list = SectionLinkList { section_id: s("sec"), section_link_list: vec![] };
    assert_eq!(list.total(), 0);
    list.push(SectionLink { id: 1 });
    list.push(SectionLink { id: 20 });
    assert_eq!(list.total(), 2);
    assert_eq!(
        list.to_string(),
        "sec\nhttps://rustcc.cn/section?id=f4703117-7e6b-4caf-aa22-a3ad3db6898f&current_page=1\nhttps://rustcc.cn/section?id=f4703117-7e6b-4caf-aa22-a3ad3db6898f&current_page=20\n"
    );
}

#[test]
fn article_text() {
    let article = Article { link: s("1ad7d23c-2392-4cce-9dc7-4bebcb3d51a5"), title: s("【Rust日报】2023-09-09") };
    assert_eq!(article.title(), "【Rust日报】2023-09-09");
    assert_eq!(article.to_string(), "https://rustcc.cn/article?id=1ad7d23c-2392-4cce-9dc7-4bebcb3d51a5");
    let mut list = ArticleList { article_list: vec![] };
    list.push(article);
    assert_eq!(list.article_list.len(), 1);
}

const ARTICLE_PAGE: &str = r#"<html><body>
<p class="vice-title">
  Alice
  发表于 2023-09-09 10:00
</p>
<div class="detail-body">
<p>Intro text <a href="https://x.io">https://x.io</a></p>
<h2>First</h2>
<p>Para one</p>
<p>See <a href="https://y.io">here</a></p>
<ul><li>item</li></ul>
<ul><li>微信公众号</li></ul>
<p>日报订阅 stuff</p>
</div>
</body></html>"#;

#[test]
fn article_page_items() {
    let ms = messages_from_article_page(ARTICLE_PAGE).messages;
    assert_eq!(ms.len(), 2);
    assert_eq!(ms[0].author, "Alice");
    assert_eq!(ms[0].time, "2023-09-09 10:00");
    assert_eq!(ms[0].title, "");
    assert_eq!(ms[0].contents, vec![s("Intro text https://x.io")]);
    assert_eq!(ms[0].link, "https://x.io");
    assert_eq!(ms[1].title, "First");
    assert_eq!(ms[1].contents, vec![s("Para one"), s("See here"), s("https://y.io"), s("item")]);
    assert_eq!(ms[1].link, "");
    assert_eq!(ms[1].author, "Alice");
}

#[test]
fn article_page_unreadable() {
    // no header
    assert!(try_messages_from_article_page("<p>x</p>").is_none());
    // a single header line
    assert!(try_messages_from_article_page(r#"<p class="vice-title">Alice</p>"#).is_none());
    // a paragraph anchor without link
    let page = r#"<p class="vice-title">A
B</p><div class="detail-body"><p>x <a>y</a></p></div>"#;
    assert!(try_messages_from_article_page(page).is_none());
    // no body: no items
    let page = r#"<p class="vice-title">A
B</p>"#;
    assert_eq!(messages_from_article_page(page).messages.len(), 0);
}

#[test]
fn blank_items_are_dropped() {
    let m = Message::default();
    assert!(m.is_empty());
    let page = r#"<p class="vice-title">A
B</p><div class="detail-body"><h1>T</h1></div>"#;
    let ms = messages_from_article_page(page).messages;
    assert_eq!(ms.len(), 1);
    assert_eq!(ms[0].title, "T");
}

#[test]
fn authors_distinct_and_sorted() {
    let authors = vec![s("bob\n"), s("alice"), s("bob "), s("\ncarol"), s("alice")];
    assert_eq!(distinct_authors(&authors), Some(vec![s("\ncarol"), s("alice"), s("bob ")]));
    let r = list_authors_response(&vec![]).unwrap();
    assert!(r.author.is_empty());
}

fn item(id: i32, title: &str) -> ListAllItemsResponse {
    ListAllItemsResponse {
        id,
        hash: s("h"),
        author: s("a"),
        episode: s("e"),
        introduce: s("intro"),
        time: UtcTime { secs: 0, nanos: 0 },
        title: s(title),
        url: s("https://u"),
    }
}

#[test]
fn served_items() {
    let items = vec![item(7, "x"), item(3, "y")];
    assert_eq!(item_ids(&items), vec![7, 3]);
    let shown = simple_displays(items);
    assert_eq!(shown.len(), 2);
    assert_eq!(shown[1].title, "y");
    assert_eq!(shown[0].to_string(), "🌟🌟🌟x,intro LINK:「https://u」🐧🐧🐧");
    let d = SimpleDisplay::from(item(1, "t"));
    assert_eq!(d.url, "https://u");
}

#[test]
fn paging_window() {
    let q = ListAllItemsQuery::new(3, 20);
    assert_eq!(q.offset_limit(), (60, 20));
    assert_eq!(q.page(), 3);
    assert_eq!(q.per_page(), 20);
}

#[test]
fn shown_hosts() {
    assert_eq!(hostname_of("https://www.rust-lang.org/learn"), "rust-lang.org/learn");
    assert_eq!(hostname_of("http://example.com"), "example.com");
    assert_eq!(hostname_of("ftp://x"), "ftp://x");
    assert_eq!(first_ids(&vec![4, 5, 6], 2), vec![4, 5]);
}

#[test]
fn error_text() {
    assert_eq!(Error::Dummy.message(), "dummy error");
}

#[test]
fn trimmed_prefix_is_gone() {
    let once = trim_prefix(&chars_of("https://https://a.b"), &chars_of("https://"));
    assert_eq!(string_of(&once), "a.b");
    let twice = trim_prefix(&once, &chars_of("https://"));
    assert_eq!(once, twice);
    assert_eq!(hostname_of("https://http://www.www.x"), "x");
}

#[test]
fn page_address_reads_back() {
    for id in [0usize, 7, 66, 4372] {
        let address = SectionLink { id }.to_string();
        let number = address.trim_start_matches(
            "https://rustcc.cn/section?id=f4703117-7e6b-4caf-aa22-a3ad3db6898f&current_page=",
        );
        assert_eq!(parse_decimal(&chars_of(number)), Some(id));
    }
}

fn property_text(v: &JsonValue, name: &str) -> String {
    match v {
        JsonValue::Object(f) => {
            let (_, p) = f.iter().find(|(k, _)| k == name).expect("member");
            match p {
                JsonValue::Object(p) => match &p[1].1 {
                    JsonValue::Array(items) => match &items[0] {
                        JsonValue::Object(item) => match &item[1].1 {
                            JsonValue::Object(c) => match &c[0].1 {
                                JsonValue::Str(t) => t.clone(),
                                _ => panic!("content is not a string"),
                            },
                            _ => panic!("text is not an object"),
                        },
                        _ => panic!("item is not an object"),
                    },
                    _ => panic!("property is not an array"),
                },
                _ => panic!("property is not an object"),
            }
        }
        _ => panic!("record is not an object"),
    }
}

fn news_item(title: &str, contents: Vec<String>, link: &str) -> Message {
    Message { author: s("Alice"), time: s("2023-09-09"), title: s(title), contents, link: s(link) }
}

#[test]
fn item_text() {
    let m = news_item("Head", vec![s("one"), s("two")], "https://x.io");
    assert_eq!(m.to_string(), "Head\none\ntwo\nhttps://x.io");
    assert_eq!(Message::default().to_string(), "\n");
}

#[test]
fn notion_pages_of_rustcc_items() {
    let short = news_item("Head", vec![s("one")], "https://x.io");
    // 2500 one-byte characters: over 2000 bytes, so the intro is cut to 1990 characters
    let long = news_item("Long", vec!["a".repeat(2500)], "");
    // 700 three-byte characters: over 2000 bytes but under 1990 characters, kept whole
    let mid = news_item("Mid", vec!["漢".repeat(700)], "");
    let mut ms = Messages::new();
    ms.push(short);
    ms.push(long);
    ms.push(mid);
    let values = messages_json(&ms);
    assert_eq!(values.len(), 3);
    match &values[0] {
        JsonValue::Object(f) => {
            let names: Vec<&str> = f.iter().map(|(k, _)| k.as_str()).collect();
            assert_eq!(names, vec!["Title", "Author", "Intro", "Time", "Link"]);
        }
        _ => panic!("record is not an object"),
    }
    assert_eq!(property_text(&values[0], "Title"), "Head");
    assert_eq!(property_text(&values[0], "Author"), "Alice");
    assert_eq!(property_text(&values[0], "Time"), "2023-09-09");
    assert_eq!(property_text(&values[0], "Link"), "https://x.io");
    assert_eq!(property_text(&values[0], "Intro"), "Head\none\nhttps://x.io");
    let intro = property_text(&values[1], "Intro");
    assert_eq!(intro.chars().count(), 1990);
    assert!(intro.starts_with("Long\naa"));
    assert_eq!(property_text(&values[2], "Intro").chars().count(), 3 + 1 + 700 + 1);
}

#[test]
fn boilerplate_leaves_items_alone() {
    let with_boilerplate = ARTICLE_PAGE.replace(
        "<h2>First</h2>",
        "<p>From 日报小组 someone</p>\n<h2>First</h2>\n<ul><li>Rust.cc 论坛</li></ul>",
    );
    let a = messages_from_article_page(ARTICLE_PAGE).messages;
    let b = messages_from_article_page(&with_boilerplate).messages;
    assert_eq!(a.len(), b.len());
    for (x, y) in a.iter().zip(b.iter()) {
        assert_eq!(x.title, y.title);
        assert_eq!(x.contents, y.contents);
        assert_eq!(x.link, y.link);
    }
}

#[test]
fn record_hash_is_hex_digest() {
    let d = RebaseDaliy::try_from(episode(4366, "t")).unwrap();
    assert_eq!(d.hash.len(), 64);
    assert!(d.hash.chars().all(|c| c.is_ascii_digit() || ('a'..='f').contains(&c)));
    let m = RebaseDaliy::try_from_message(news_item("Head", vec![s("one")], "")).unwrap();
    assert_eq!(m.hash.len(), 64);
    assert!(m.hash.chars().all(|c| c.is_ascii_digit() || ('a'..='f').contains(&c)));
}

#[test]
fn listing_times() {
    let midnight = UtcTime { secs: 1694476800, nanos: 0 };
    assert_eq!(listing_time(&midnight).unwrap(), "09/12/23 12:00 AM");
    let afternoon = UtcTime { secs: 1694476800 + 13 * 3600 + 5 * 60, nanos: 0 };
    assert_eq!(listing_time(&afternoon).unwrap(), "09/12/23  1:05 PM");
    let noon = UtcTime { secs: 1694476800 + 12 * 3600 + 59 * 60, nanos: 0 };
    assert_eq!(listing_time(&noon).unwrap(), "09/12/23 12:59 PM");
    assert!(listing_time(&UtcTime { secs: i64::MAX, nanos: 0 }).is_none());
    // a leap day, the day before the epoch, and a date before 1900
    assert_eq!(listing_time(&UtcTime { secs: 1709208000, nanos: 0 }).unwrap(), "02/29/24 12:00 PM");
    assert_eq!(listing_time(&UtcTime { secs: -60, nanos: 0 }).unwrap(), "12/31/69 11:59 PM");
    assert_eq!(listing_time(&UtcTime { secs: -2208988800 - 86400, nanos: 0 }).unwrap(), "12/31/99 12:00 AM");
    assert_eq!(listing_time(&UtcTime { secs: 951782400, nanos: 0 }).unwrap(), "02/29/00 12:00 AM");
}

#[test]
fn section_address_reads_back() {
    let link = SectionLink { id: 42 };
    let url = link.to_string();
    let href = url.strip_prefix("https://rustcc.cn").unwrap();
    let page = format!(r#"<a href="/article?id=x">x</a><a href="{}">next</a><a href="https://y.io">y</a>"#, href);
    let list = section_links_from_page(&page).unwrap().unwrap();
    assert_eq!(list.section_link_list, vec![SectionLink { id: 42 }]);
}

#[test]
fn article_address_reads_back() {
    let page = r#"<a href="/section?id=f4703117-7e6b-4caf-aa22-a3ad3db6898f&current_page=2">2</a><a href="/article?id=abc-123">Daily</a>"#;
    let list = articles_from_page(page).unwrap();
    let art = list.article_list.iter().find(|a| a.link == "abc-123").unwrap();
    assert_eq!(art.title, "Daily");
    assert_eq!(art.to_string(), "https://rustcc.cn/article?id=abc-123");
}

#[test]
fn boilerplate_list_with_anchors_is_dropped() {
    let with_list = ARTICLE_PAGE.replace(
        "<h2>First</h2>",
        "<h2>First</h2>\n<ul><li><a href=\"https://rustcc.cn\">Rust.cc 论坛</a></li><li><a href=\"https://w.io\">微信公众号</a></li></ul>",
    );
    let a = messages_from_article_page(ARTICLE_PAGE).messages;
    let b = messages_from_article_page(&with_list).messages;
    assert_eq!(a.len(), b.len());
    for (x, y) in a.iter().zip(b.iter()) {
        assert_eq!(x.title, y.title);
        assert_eq!(x.contents, y.contents);
        assert_eq!(x.link, y.link);
    }
}
