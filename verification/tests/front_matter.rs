use ssg::front_matter::{is_delimiter_line, parse_markdown};

fn lines(items: &[&str]) -> Vec<String> {
    items.iter().map(|s| s.to_string()).collect()
}

#[test]
fn splits_well_formed_file() {
    let input = lines(&["+++", "title = \"A\"", "date = \"2020\"", "+++", "body", "more"]);
    let (metadata, body) = parse_markdown(&input);
    assert_eq!(metadata, "\ntitle = \"A\"\ndate = \"2020\"");
    assert_eq!(body, "\nbody\nmore");
}

#[test]
fn empty_file_gives_two_empty_blocks() {
    let (metadata, body) = parse_markdown(&Vec::new());
    assert_eq!(metadata, "");
    assert_eq!(body, "");
}

#[test]
fn later_delimiter_is_body_text() {
    let input = lines(&["+++", "a", "+++", "x", "+++", "y", "+++"]);
    let (metadata, body) = parse_markdown(&input);
    assert_eq!(metadata, "\na");
    assert_eq!(body, "\nx\n+++\ny\n+++");
}

#[test]
fn file_without_delimiter_is_all_metadata() {
    let input = lines(&["one", "two"]);
    let (metadata, body) = parse_markdown(&input);
    assert_eq!(metadata, "\none\ntwo");
    assert_eq!(body, "");
}

#[test]
fn file_with_one_delimiter_has_no_body() {
    let input = lines(&["before", "+++", "after"]);
    let (metadata, body) = parse_markdown(&input);
    assert_eq!(metadata, "\nbefore\nafter");
    assert_eq!(body, "");
}

#[test]
fn preamble_goes_to_metadata() {
    let input = lines(&["preamble", "+++", "key", "+++", "text"]);
    let (metadata, body) = parse_markdown(&input);
    assert_eq!(metadata, "\npreamble\nkey");
    assert_eq!(body, "\ntext");
}

#[test]
fn second_delimiter_as_last_line_gives_empty_body() {
    let input = lines(&["+++", "key", "+++"]);
    let (metadata, body) = parse_markdown(&input);
    assert_eq!(metadata, "\nkey");
    assert_eq!(body, "");
}

#[test]
fn empty_lines_are_kept() {
    let input = lines(&["+++", "", "k", "+++", "", "b", ""]);
    let (metadata, body) = parse_markdown(&input);
    assert_eq!(metadata, "\n\nk");
    assert_eq!(body, "\n\nb\n");
}

#[test]
fn delimiter_must_be_exact() {
    assert!(is_delimiter_line("+++"));
    assert!(!is_delimiter_line(" +++"));
    assert!(!is_delimiter_line("+++ "));
    assert!(!is_delimiter_line("++"));
    assert!(!is_delimiter_line("++++"));
    assert!(!is_delimiter_line(""));
    assert!(!is_delimiter_line("---"));
    assert!(!is_delimiter_line("+\u{e9}+"));
    let input = lines(&[" +++", "a", "+++ ", "b"]);
    let (metadata, body) = parse_markdown(&input);
    assert_eq!(metadata, "\n +++\na\n+++ \nb");
    assert_eq!(body, "");
}

#[test]
fn split_then_recombined_is_the_file() {
    let input = lines(&["+++", "title = \"T\"", "x = 1", "+++", "# Head", "", "text"]);
    let (metadata, body) = parse_markdown(&input);
    let again = format!("\n+++{}\n+++{}", metadata, body);
    let mut whole = String::new();
    for line in &input {
        whole.push('\n');
        whole.push_str(line);
    }
    assert_eq!(again, whole);
    let relined: Vec<String> = again[1..].split('\n').map(|s| s.to_string()).collect();
    assert_eq!(relined, input);
    let (metadata_again, body_again) = parse_markdown(&relined);
    assert_eq!(metadata_again, metadata);
    assert_eq!(body_again, body);
}
