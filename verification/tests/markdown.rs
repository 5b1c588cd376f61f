use ssg::markdown::{markdown_to_html, RenderOptions};

#[test]
fn renders_headings_and_lists() {
    let md = "\nhello\n=====\n\n* alpha\n* beta\n";
    assert_eq!(
        markdown_to_html(md, RenderOptions::empty()),
        "<h1>hello</h1>\n<ul>\n<li>alpha</li>\n<li>beta</li>\n</ul>\n"
    );
}

#[test]
fn strikethrough_follows_the_option() {
    assert_eq!(markdown_to_html("~~gone~~", RenderOptions::site()), "<p><del>gone</del></p>\n");
    assert_eq!(markdown_to_html("~~gone~~", RenderOptions::empty()), "<p>~~gone~~</p>\n");
}

#[test]
fn tables_follow_the_option() {
    let md = "a|b\n-|-\n1|2\n";
    let mut options = RenderOptions::empty();
    assert!(!markdown_to_html(md, options).contains("<table>"));
    options.tables = true;
    assert!(markdown_to_html(md, options).contains("<table>"));
}

#[test]
fn tasklists_and_footnotes_follow_the_options() {
    let mut options = RenderOptions::empty();
    assert!(!markdown_to_html("- [x] done\n", options).contains("checkbox"));
    options.tasklists = true;
    assert!(markdown_to_html("- [x] done\n", options).contains("checkbox"));
    let md = "text[^1]\n\n[^1]: note\n";
    assert!(!markdown_to_html(md, RenderOptions::empty()).contains("footnote-definition"));
    let mut options = RenderOptions::empty();
    options.footnotes = true;
    assert!(markdown_to_html(md, options).contains("footnote-definition"));
}

#[test]
fn site_options_enable_strikethrough_only() {
    let site = RenderOptions::site();
    assert!(site.strikethrough);
    assert!(!site.tables && !site.footnotes && !site.tasklists);
    assert_eq!(
        RenderOptions::empty(),
        RenderOptions { tables: false, footnotes: false, strikethrough: false, tasklists: false }
    );
}

#[test]
fn empty_text_renders_to_nothing() {
    assert_eq!(markdown_to_html("", RenderOptions::site()), "");
}

#[test]
fn body_with_delimiter_line_is_rendered_as_text() {
    let html = markdown_to_html("\nfirst\n\n+++\n\nlast", RenderOptions::site());
    assert_eq!(html, "<p>first</p>\n<p>+++</p>\n<p>last</p>\n");
}
