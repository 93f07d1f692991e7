use twir_bot::types::{
    short_label, CommunityUpdates, CoreUpdates, CrateOfWeek, Link, LinksList, NamedLinksList,
};

#[test]
fn link_fmt() {
    let link = Link::new("FOO".to_string(), "BAR".to_string());

    assert_eq!(link.render(), "BAR\n<a href=\"FOO\">FOO</a>\n".to_string());
}

#[test]
fn links_fmt() {
    let links = LinksList::new(vec![
        Link::new("linkA".to_string(), "textA".to_string()),
        Link::new("linkB".to_string(), "textB".to_string()),
        Link::new("linkC".to_string(), "textC".to_string()),
    ]);

    let expected = "textA\n<a href=\"linkA\">linkA</a>\n\n\
                    textB\n<a href=\"linkB\">linkB</a>\n\n\
                    textC\n<a href=\"linkC\">linkC</a>\n"
        .to_string();

    assert_eq!(links.render(), expected);
}

#[test]
fn label_github_keeps_path() {
    assert_eq!(short_label("https://github.com/foo/bar/pull/1"), "foo/bar/pull/1");
    assert_eq!(short_label("http://github.com/rust-lang/rust"), "rust-lang/rust");
}

#[test]
fn label_medium_keeps_first_segment() {
    assert_eq!(
        short_label("https://medium.com/@alice/some-post-title-abc123"),
        "medium.com/@alice"
    );
    assert_eq!(short_label("https://medium.com/@alice/a/b/c"), "medium.com/@alice");
    assert_eq!(short_label("https://medium.com"), "medium.com");
}

#[test]
fn label_other_hosts_are_bare() {
    assert_eq!(short_label("https://example.com/blog/post.html"), "example.com");
    assert_eq!(short_label("http://example.org/"), "example.org");
    assert_eq!(short_label("https://blog.example.net/a.htm"), "blog.example.net");
    assert_eq!(short_label("example.html"), "example");
    assert_eq!(short_label("https://www.github.com/x/y"), "www.github.com");
}

#[test]
fn link_is_escaped_when_made() {
    let link = Link::new("https://example.com/?a=1&b=2".to_string(), "<T>".to_string());
    assert_eq!(
        link.render(),
        "&lt;T&gt;\n<a href=\"https://example.com/?a=1&amp;b=2\">example.com</a>\n"
    );
}

#[test]
fn subtitle_of_empty_list_is_nothing() {
    let empty = LinksList::new(vec![]);
    assert!(empty.is_empty());
    assert_eq!(empty.fmt_with_subtitle("Official"), "");
    let one = LinksList::new(vec![Link::new("https://a.org/x".to_string(), "A".to_string())]);
    assert_eq!(
        one.fmt_with_subtitle("Official"),
        "\n<b>Official</b>\nA\n<a href=\"https://a.org/x\">a.org</a>\n"
    );
}

#[test]
fn community_without_groups_is_the_title() {
    let c = CommunityUpdates { updates: vec![] };
    assert_eq!(c.render(), "<b>Updates from Rust Community</b>\n");
    let c = CommunityUpdates {
        updates: vec![NamedLinksList { name: "Empty".to_string(), links: LinksList::new(vec![]) }],
    };
    assert_eq!(c.render(), "<b>Updates from Rust Community</b>\n");
}

#[test]
fn community_groups_in_order() {
    let c = CommunityUpdates {
        updates: vec![
            NamedLinksList {
                name: "Official".to_string(),
                links: LinksList::new(vec![Link::new("https://a.org/1".to_string(), "A".to_string())]),
            },
            NamedLinksList {
                name: "Newsletters".to_string(),
                links: LinksList::new(vec![Link::new("https://b.org/2".to_string(), "B".to_string())]),
            },
        ],
    };
    assert_eq!(
        c.render(),
        "<b>Updates from Rust Community</b>\n\
         \n<b>Official</b>\nA\n<a href=\"https://a.org/1\">a.org</a>\n\
         \n<b>Newsletters</b>\nB\n<a href=\"https://b.org/2\">b.org</a>\n"
    );
}

#[test]
fn crate_of_week_block() {
    let c = CrateOfWeek {
        name: "serde".to_string(),
        text: "serde is great".to_string(),
        link: "https://crates.io/crates/serde".to_string(),
    };
    assert_eq!(
        c.render(),
        "<b>Crate of the week:</b> <a href=\"https://crates.io/crates/serde\">serde</a>\n\nserde is great\n"
    );
}

#[test]
fn core_block() {
    let core = CoreUpdates::new(vec![Link::new("https://github.com/rust-lang/rust/pull/9".to_string(), "Fix".to_string())]);
    assert_eq!(
        core.render(),
        "<b>Updates from core</b>\n\nFix\n<a href=\"https://github.com/rust-lang/rust/pull/9\">rust-lang/rust/pull/9</a>\n"
    );
    assert_eq!(CoreUpdates::new(vec![]).render(), "<b>Updates from core</b>\n\n");
}
