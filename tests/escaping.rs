use twir_bot::html::escape;

#[test]
fn escape_all() {
    assert_eq!(escape("foo-bar".to_string()), "foo-bar".to_string());
    assert_eq!(escape("foo\"bar".to_string()), "foo&quot;bar".to_string());
    assert_eq!(
        escape("<foo\"bar".to_string()),
        "&lt;foo&quot;bar".to_string()
    );
    assert_eq!(
        escape("<foo\"bar>".to_string()),
        "&lt;foo&quot;bar&gt;".to_string()
    );
    assert_eq!(
        escape("<&foo\"bar>".to_string()),
        "&lt;&amp;foo&quot;bar&gt;".to_string()
    );
}

#[test]
fn escape_plain_text_twice_is_unchanged() {
    let once = escape("Announcing Rust 1.80".to_string());
    assert_eq!(once, "Announcing Rust 1.80");
    assert_eq!(escape(once.clone()), once);
}

#[test]
fn escape_ampersand_comes_first() {
    assert_eq!(escape("a & <b>".to_string()), "a &amp; &lt;b&gt;");
    // Escaped text that holds an entity is escaped again on a second pass.
    assert_eq!(escape("&amp;".to_string()), "&amp;amp;");
}

#[test]
fn escape_empty() {
    assert_eq!(escape(String::new()), "");
}
