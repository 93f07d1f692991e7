use twir_bot::markup::{Markup, NodeData, RawNode};
use twir_bot::parsers::{
    links_from_html_list, parse_article, parse_article_date, parse_article_markup,
    parse_community_updates, parse_crate_of_week, parse_updates_from_core, ArticleError,
    ParseCommunityUpdatesError, ParseCrateOfWeekError, ParseDateError, ParseUpdatesError,
};
use twir_bot::types::{Link, LinkFromNodeError};

struct Page {
    nodes: Vec<RawNode>,
}

impl Page {
    fn new() -> Page {
        Page { nodes: Vec::new() }
    }

    fn el(&mut self, parent: Option<usize>, name: &str, attrs: &[(&str, &str)]) -> usize {
        self.nodes.push(RawNode {
            parent,
            data: NodeData::Element {
                name: name.to_string(),
                attrs: attrs.iter().map(|(k, v)| (k.to_string(), v.to_string())).collect(),
            },
        });
        self.nodes.len() - 1
    }

    fn text(&mut self, parent: usize, content: &str) -> usize {
        self.nodes.push(RawNode {
            parent: Some(parent),
            data: NodeData::Text { content: content.to_string() },
        });
        self.nodes.len() - 1
    }

    fn heading(&mut self, parent: usize, tag: &str, title: &str) {
        let h = self.el(Some(parent), tag, &[]);
        self.text(h, title);
    }

    fn item(&mut self, list: usize, href: &str, title: &str) {
        let li = self.el(Some(list), "li", &[]);
        let a = self.el(Some(li), "a", &[("href", href)]);
        self.text(a, title);
        self.text(li, ". [discuss]");
    }

    fn done(self) -> Markup {
        Markup::new(self.nodes)
    }
}

struct Parts {
    date: bool,
    crate_heading: bool,
    crate_anchor: bool,
    community: bool,
    core: bool,
}

const ALL: Parts =
    Parts { date: true, crate_heading: true, crate_anchor: true, community: true, core: true };

/// An issue page; returns it and the index of its article element.
fn issue(parts: Parts) -> (Markup, usize) {
    let mut p = Page::new();
    let html = p.el(None, "html", &[]);
    let body = p.el(Some(html), "body", &[]);
    if parts.date {
        let span = p.el(Some(body), "span", &[("class", "time-prefix")]);
        p.text(span, "  Oct 19 2026 ");
    }
    let article = p.el(Some(body), "article", &[("class", "post-content entry")]);
    if parts.crate_heading {
        p.heading(article, "h2", " Crate of the Week ");
    }
    let para = p.el(Some(article), "p", &[]);
    p.text(para, "This week's crate is ");
    if parts.crate_anchor {
        let a = p.el(Some(para), "a", &[("href", "https://github.com/foo/bar")]);
        p.text(a, "bar");
    }
    p.text(para, ", a <tool>.");
    let later = p.el(Some(article), "p", &[]);
    let a = p.el(Some(later), "a", &[("href", "https://other.org")]);
    p.text(a, "other");

    if parts.community {
        p.heading(article, "h2", "Updates from Rust Community");
    } else {
        p.heading(article, "h2", "News");
    }
    p.heading(article, "h3", "Official");
    let ul = p.el(Some(article), "ul", &[]);
    p.item(ul, "https://blog.rust-lang.org/2026/10/19/x.html", "Announcing X");
    p.heading(article, "h3", "Empty");
    let ul = p.el(Some(article), "ul", &[]);
    let li = p.el(Some(ul), "li", &[]);
    p.text(li, "no link here");
    p.heading(article, "h3", "Missing list");
    p.heading(article, "h3", "Tools & Tips");
    let ul = p.el(Some(article), "ul", &[]);
    p.item(ul, "https://medium.com/@bob/post-1", "Post one");
    p.item(ul, "https://github.com/a/b", "Tool <two>");

    if parts.core {
        p.heading(article, "h2", "Updates from the Rust Project");
        let empty = p.el(Some(article), "ul", &[]);
        p.text(empty, " ");
        let ul = p.el(Some(article), "ul", &[]);
        p.item(ul, "https://github.com/rust-lang/rust/pull/1", "Merged one");
        let ignored = p.el(Some(article), "ul", &[]);
        p.item(ignored, "https://github.com/rust-lang/rust/pull/2", "Second list");
    }
    p.heading(article, "h2", "Upcoming Events");
    let ul = p.el(Some(article), "ul", &[]);
    p.item(ul, "https://events.org/e", "An event");
    (p.done(), article)
}

#[test]
fn full_issue_is_extracted() {
    let (doc, _) = issue(ALL);
    let article = match parse_article_markup(&doc, "https://this-week-in-rust.org/blog/1", 570) {
        Ok(a) => a,
        Err(e) => panic!("unexpected error {:?}", e),
    };
    assert_eq!(article.id, 570);
    assert_eq!(article.date, "Oct 19 2026");
    assert_eq!(
        article.head(),
        "<b>This week in Rust #570</b> — oct 19 2026\n\nhttps://this-week-in-rust.org/blog/1"
    );
    assert_eq!(
        article.crate_of_week(),
        "<b>Crate of the week:</b> <a href=\"https://github.com/foo/bar\">bar</a>\n\n\
         This week's crate is bar, a &lt;tool&gt;.\n"
    );
    assert_eq!(
        article.community_updates(),
        "<b>Updates from Rust Community</b>\n\
         \n<b>Official</b>\nAnnouncing X\n\
         <a href=\"https://blog.rust-lang.org/2026/10/19/x.html\">blog.rust-lang.org</a>\n\
         \n<b>Tools &amp; Tips</b>\nPost one\n<a href=\"https://medium.com/@bob/post-1\">medium.com/@bob</a>\n\
         \nTool &lt;two&gt;\n<a href=\"https://github.com/a/b\">a/b</a>\n"
    );
    assert_eq!(
        article.core_updates(),
        "<b>Updates from core</b>\n\nMerged one\n\
         <a href=\"https://github.com/rust-lang/rust/pull/1\">rust-lang/rust/pull/1</a>\n"
    );
}

#[test]
fn extraction_is_deterministic() {
    let (a, _) = issue(ALL);
    let (b, _) = issue(ALL);
    let a = parse_article_markup(&a, "u", 3).unwrap();
    let b = parse_article_markup(&b, "u", 3).unwrap();
    assert_eq!(a.head(), b.head());
    assert_eq!(a.community_updates(), b.community_updates());
    assert_eq!(a.crate_of_week(), b.crate_of_week());
    assert_eq!(a.core_updates(), b.core_updates());
}

#[test]
fn empty_subsections_are_left_out() {
    let (doc, article) = issue(ALL);
    let community = parse_community_updates(&doc, article).unwrap();
    let names: Vec<&str> = community.updates.iter().map(|g| g.name.as_str()).collect();
    assert_eq!(names, vec!["Official", "Tools &amp; Tips"]);
    assert!(community.updates.iter().all(|g| !g.links.is_empty()));
}

#[test]
fn crate_without_anchor_is_link_not_found() {
    let (doc, article) = issue(Parts { crate_anchor: false, ..ALL });
    assert_eq!(
        parse_crate_of_week(&doc, article).unwrap_err(),
        ParseCrateOfWeekError::LinkNotFound
    );
    assert_eq!(
        parse_article_markup(&doc, "u", 1).unwrap_err(),
        ArticleError::CrateOfWeek(ParseCrateOfWeekError::LinkNotFound)
    );
}

#[test]
fn crate_without_heading_is_paragraph_not_found() {
    let (doc, article) = issue(Parts { crate_heading: false, ..ALL });
    assert_eq!(
        parse_crate_of_week(&doc, article).unwrap_err(),
        ParseCrateOfWeekError::ParagraphNotFound
    );
}

#[test]
fn crate_takes_first_paragraph() {
    let (doc, article) = issue(ALL);
    let c = parse_crate_of_week(&doc, article).unwrap();
    assert_eq!(c.name, "bar");
    assert_eq!(c.link, "https://github.com/foo/bar");
}

#[test]
fn missing_core_list_is_not_found() {
    let (doc, article) = issue(Parts { core: false, ..ALL });
    assert_eq!(parse_updates_from_core(&doc, article).unwrap_err(), ParseUpdatesError::NotFound);
    assert_eq!(
        parse_article_markup(&doc, "u", 1).unwrap_err(),
        ArticleError::Core(ParseUpdatesError::NotFound)
    );
}

#[test]
fn core_takes_first_non_empty_list() {
    let (doc, article) = issue(ALL);
    let links = parse_updates_from_core(&doc, article).unwrap();
    assert_eq!(links.len(), 1);
    assert_eq!(links[0].render(), "Merged one\n<a href=\"https://github.com/rust-lang/rust/pull/1\">rust-lang/rust/pull/1</a>\n");
}

#[test]
fn missing_date_is_time_not_found() {
    let (doc, _) = issue(Parts { date: false, ..ALL });
    assert_eq!(parse_article_date(&doc).unwrap_err(), ParseDateError::TimeNotFound);
    assert_eq!(
        parse_article_markup(&doc, "u", 1).unwrap_err(),
        ArticleError::Date(ParseDateError::TimeNotFound)
    );
}

#[test]
fn missing_article_is_structure_not_found() {
    let mut p = Page::new();
    let body = p.el(None, "body", &[]);
    let span = p.el(Some(body), "span", &[("class", "time-prefix")]);
    p.text(span, "Oct 1");
    let doc = p.done();
    assert_eq!(
        parse_article_markup(&doc, "u", 1).unwrap_err(),
        ArticleError::Structure(ParseCommunityUpdatesError::NotFound)
    );
}

#[test]
fn list_item_errors() {
    let mut p = Page::new();
    let ul = p.el(None, "ul", &[]);
    let bare = p.el(Some(ul), "li", &[]);
    p.text(bare, "plain");
    let nohref = p.el(Some(ul), "li", &[]);
    let a = p.el(Some(nohref), "a", &[("title", "x")]);
    p.text(a, "anchor");
    p.item(ul, "https://x.org/y", "good");
    let doc = p.done();
    assert_eq!(Link::from_node(&doc, bare).unwrap_err(), LinkFromNodeError::NextNotFound);
    assert_eq!(Link::from_node(&doc, nohref).unwrap_err(), LinkFromNodeError::HrefNotFound);
    let links = links_from_html_list(&doc, ul);
    assert_eq!(links.len(), 1);
    assert_eq!(links[0].render(), "good\n<a href=\"https://x.org/y\">x.org</a>\n");
}

#[test]
fn real_markup_is_parsed() {
    let html = "<html><body><span class=\"time-prefix\">Oct 5 2026</span>\
        <article class=\"post-content\">\
        <h2>Crate of the Week</h2><p>This week: <a href=\"https://crates.io/crates/x\">x</a> rocks.</p>\
        <h2>Updates from Rust Community</h2><h3>Official</h3>\
        <ul><li><a href=\"https://blog.rust-lang.org/a.html\">News</a>. [discuss]</li></ul>\
        <h2>Updates from the Rust Project</h2>\
        <ul><li><a href=\"https://github.com/rust-lang/rust/pull/7\">Fix it</a></li></ul>\
        </article></body></html>";
    let article = parse_article(html, "https://this-week-in-rust.org/blog/5", 5).unwrap();
    assert_eq!(article.head(), "<b>This week in Rust #5</b> — oct 5 2026\n\nhttps://this-week-in-rust.org/blog/5");
    assert_eq!(
        article.crate_of_week(),
        "<b>Crate of the week:</b> <a href=\"https://crates.io/crates/x\">x</a>\n\nThis week: x rocks.\n"
    );
    assert_eq!(
        article.community_updates(),
        "<b>Updates from Rust Community</b>\n\n<b>Official</b>\nNews\n<a href=\"https://blog.rust-lang.org/a.html\">blog.rust-lang.org</a>\n"
    );
    assert_eq!(
        article.core_updates(),
        "<b>Updates from core</b>\n\nFix it\n<a href=\"https://github.com/rust-lang/rust/pull/7\">rust-lang/rust/pull/7</a>\n"
    );
}

#[test]
fn missing_community_heading_is_structure_not_found() {
    let (doc, article) = issue(Parts { community: false, ..ALL });
    assert_eq!(
        parse_community_updates(&doc, article).unwrap_err(),
        ParseCommunityUpdatesError::NotFound
    );
    assert_eq!(
        parse_article_markup(&doc, "u", 1).unwrap_err(),
        ArticleError::Structure(ParseCommunityUpdatesError::NotFound)
    );
}

#[test]
fn community_heading_without_groups_is_empty() {
    let mut p = Page::new();
    let article = p.el(None, "article", &[("class", "post-content")]);
    p.heading(article, "h2", "Updates from Rust Community");
    p.heading(article, "h3", "Official");
    let doc = p.done();
    let community = parse_community_updates(&doc, article).unwrap();
    assert!(community.updates.is_empty());
    assert_eq!(community.render(), "<b>Updates from Rust Community</b>\n");
}

#[test]
fn crate_heading_followed_by_heading_is_paragraph_not_found() {
    let mut p = Page::new();
    let article = p.el(None, "article", &[("class", "post-content")]);
    p.heading(article, "h2", "Crate of the Week");
    p.heading(article, "h2", "Call for Participation");
    let para = p.el(Some(article), "p", &[]);
    let a = p.el(Some(para), "a", &[("href", "https://x.org")]);
    p.text(a, "x");
    let doc = p.done();
    assert_eq!(
        parse_crate_of_week(&doc, article).unwrap_err(),
        ParseCrateOfWeekError::ParagraphNotFound
    );
}

#[test]
fn only_trailing_marker_is_stripped() {
    let mut p = Page::new();
    let ul = p.el(None, "ul", &[]);
    let li = p.el(Some(ul), "li", &[]);
    let a = p.el(Some(li), "a", &[("href", "https://x.org/y")]);
    p.text(a, "Why. [discuss] matters");
    p.text(li, ". [discuss]");
    let doc = p.done();
    let link = Link::from_node(&doc, li).unwrap();
    assert_eq!(link.render(), "Why. [discuss] matters\n<a href=\"https://x.org/y\">x.org</a>\n");
}
