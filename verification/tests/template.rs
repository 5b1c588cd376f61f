use ssg::template::create_index_html;

fn lines(items: &[&str]) -> Vec<String> {
    items.iter().map(|s| s.to_string()).collect()
}

#[test]
fn placeholder_line_is_replaced_and_others_trimmed() {
    let template = lines(&["<html>", "  <body>  ", "\t{{POST_LIST}}", "  </body>", "</html>"]);
    assert_eq!(create_index_html(&template, "<p>list</p>"), "<html><body><p>list</p></body></html>");
}

#[test]
fn placeholder_line_is_replaced_as_a_whole() {
    let template = lines(&["<ul>{{POST_LIST}}</ul>"]);
    assert_eq!(create_index_html(&template, "X"), "X");
}

#[test]
fn every_placeholder_line_is_replaced() {
    let template = lines(&["{{POST_LIST}}", "-", "{{POST_LIST}}{{POST_LIST}}"]);
    assert_eq!(create_index_html(&template, "ab"), "ab-ab");
}

#[test]
fn template_without_placeholder_is_only_trimmed() {
    let template = lines(&[" a ", "", "   ", "b c", "{{POST_LIST}", "{POST_LIST}}"]);
    assert_eq!(create_index_html(&template, "unused"), "ab c{{POST_LIST}{POST_LIST}}");
}

#[test]
fn empty_template_gives_empty_page() {
    assert_eq!(create_index_html(&Vec::new(), "list"), "");
}

#[test]
fn fragment_is_not_trimmed() {
    let template = lines(&["{{POST_LIST}}"]);
    assert_eq!(create_index_html(&template, "  spaced  "), "  spaced  ");
    assert_eq!(create_index_html(&template, ""), "");
}
