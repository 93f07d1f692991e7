use twir_bot::batch::{parse_watermark, Batch, Step};
use twir_bot::bot::Bot;
use twir_bot::markup::{Markup, NodeData, RawNode};
use twir_bot::parsers::{parse_home_page, IssueRef, ParseHomeError};
use twir_bot::text::{last_word, parse_i32};

fn element(parent: Option<usize>, name: &str, class: Option<&str>, href: Option<&str>) -> RawNode {
    let mut attrs = Vec::new();
    if let Some(c) = class {
        attrs.push(("class".to_string(), c.to_string()));
    }
    if let Some(h) = href {
        attrs.push(("href".to_string(), h.to_string()));
    }
    RawNode { parent, data: NodeData::Element { name: name.to_string(), attrs } }
}

fn text(parent: usize, content: &str) -> RawNode {
    RawNode { parent: Some(parent), data: NodeData::Text { content: content.to_string() } }
}

/// An index page listing `titles` with their targets, newest first, and one
/// anchor outside any post title.
fn index(entries: &[(&str, Option<&str>)]) -> Markup {
    let mut nodes = vec![element(None, "body", None, None)];
    let nav = nodes.len();
    nodes.push(element(Some(0), "a", None, Some("/about")));
    nodes.push(text(nav, "About 99"));
    for (title, href) in entries {
        let h = nodes.len();
        nodes.push(element(Some(0), "h2", Some("post-title entry"), None));
        let a = nodes.len();
        nodes.push(element(Some(h), "a", None, *href));
        nodes.push(text(a, title));
    }
    Markup::new(nodes)
}

fn issue_ref(id: i32, url: &str) -> IssueRef {
    IssueRef { id, url: url.to_string() }
}

#[test]
fn home_page_keeps_newer_in_page_order() {
    let doc = index(&[
        ("This Week in Rust 12", Some("/12")),
        ("This Week in Rust 11", Some("/11")),
        ("This Week in Rust 10", Some("/10")),
    ]);
    let fresh = parse_home_page(&doc, 10).unwrap();
    assert_eq!(fresh, vec![issue_ref(12, "/12"), issue_ref(11, "/11")]);
    assert_eq!(parse_home_page(&doc, 0).unwrap().len(), 3);
    assert_eq!(parse_home_page(&doc, 12).unwrap(), vec![]);
}

#[test]
fn home_page_errors() {
    let doc = index(&[("This Week in Rust 12", Some("/12")), ("This Week in Rust", Some("/x"))]);
    assert_eq!(parse_home_page(&doc, 0).unwrap_err(), ParseHomeError::NoLastOfSplit);
    let doc = index(&[("This Week in Rust 12", None)]);
    assert_eq!(parse_home_page(&doc, 0).unwrap_err(), ParseHomeError::NoHref);
    let doc = index(&[("This Week in Rust 12 ", Some("/12"))]);
    assert_eq!(parse_home_page(&doc, 0).unwrap(), vec![issue_ref(12, "/12")]);
}

#[test]
fn last_word_and_numbers() {
    assert_eq!(last_word("This Week in Rust 570"), "570");
    assert_eq!(last_word("  a\tb  \n"), "b");
    assert_eq!(last_word("   "), "");
    assert_eq!(parse_i32("570"), Some(570));
    assert_eq!(parse_i32("+5"), Some(5));
    assert_eq!(parse_i32("-2147483648"), Some(i32::MIN));
    assert_eq!(parse_i32("2147483647"), Some(i32::MAX));
    assert_eq!(parse_i32("2147483648"), None);
    assert_eq!(parse_i32("99999999999999999999"), None);
    assert_eq!(parse_i32("-"), None);
    assert_eq!(parse_i32(""), None);
    assert_eq!(parse_i32("12a"), None);
}

#[test]
fn watermark_text() {
    assert_eq!(parse_watermark("42\n"), 42);
    assert_eq!(parse_watermark(""), 0);
    assert_eq!(parse_watermark("not a number"), 0);
}

fn expect_deliver(step: Step, id: i32) {
    match step {
        Step::Deliver(issue) => assert_eq!(issue.id, id),
        other => panic!("expected delivery of {}, got {:?}", id, other),
    }
}

#[test]
fn failure_keeps_watermark() {
    let doc = index(&[
        ("This Week in Rust 12", Some("/12")),
        ("This Week in Rust 11", Some("/11")),
        ("This Week in Rust 10", Some("/10")),
    ]);
    let fresh = parse_home_page(&doc, 10).unwrap();
    let mut batch = Batch::new(10, fresh);
    expect_deliver(batch.next_step(), 11);
    batch.delivered();
    expect_deliver(batch.next_step(), 12);
    batch.failed();
    assert!(matches!(batch.next_step(), Step::Stop));
}

#[test]
fn success_saves_highest() {
    let mut batch = Batch::new(10, vec![issue_ref(12, "/12"), issue_ref(11, "/11")]);
    expect_deliver(batch.next_step(), 11);
    batch.delivered();
    expect_deliver(batch.next_step(), 12);
    batch.delivered();
    assert!(matches!(batch.next_step(), Step::Save(12)));
}

#[test]
fn empty_batch_stops() {
    let batch = Batch::new(7, vec![]);
    assert!(matches!(batch.next_step(), Step::Stop));
}

#[test]
fn bot_method_url() {
    let bot = Bot::new("SECRET-REDACTED".to_string());
    assert_eq!(
        bot.method_url("sendMessage"),
        "https://api.telegram.org/botSECRET-REDACTED/sendMessage"
    );
}
