use ssg::metadata::{derive_url, underscore_spaces, Metadata, MetadataInvalid, RequiredKey};

const FULL: &str = "\ntitle = \"Hello World\"\ndate = \"2020-01-02\"\n\n[meta]\nkeywords = \"a, b\"\ndescription = \"First post\"";

fn table(pairs: Vec<(&str, toml::Value)>) -> toml::Value {
    let mut map = toml::value::Table::new();
    for (key, value) in pairs {
        map.insert(key.to_string(), value);
    }
    toml::Value::Table(map)
}

fn text(s: &str) -> toml::Value {
    toml::Value::String(s.to_string())
}

#[test]
fn decodes_all_fields() {
    let m = Metadata::new(FULL).unwrap();
    assert_eq!(m.title, "Hello World");
    assert_eq!(m.date, "2020-01-02");
    assert_eq!(m.keywords, "a, b");
    assert_eq!(m.description, "First post");
    assert_eq!(m.url, "hello_world");
}

#[test]
fn derived_url_of_hello_world() {
    assert_eq!(derive_url("Hello World"), "hello_world");
}

#[test]
fn derived_url_lowers_and_underscores() {
    assert_eq!(derive_url(""), "");
    assert_eq!(derive_url("a  b"), "a__b");
    assert_eq!(derive_url(" Lead"), "_lead");
    assert_eq!(derive_url("\u{c9}t\u{c9} 2020"), "\u{e9}t\u{e9}_2020");
    assert_eq!(derive_url("Tab\tStays"), "tab\tstays");
    assert_eq!(derive_url("A_B-C"), "a_b-c");
}

#[test]
fn underscore_spaces_keeps_case() {
    assert_eq!(underscore_spaces("Hello World"), "Hello_World");
    assert_eq!(underscore_spaces("   "), "___");
    assert_eq!(underscore_spaces("none"), "none");
    assert_eq!(underscore_spaces("\u{a0} x"), "\u{a0}_x");
}

#[test]
fn decoding_twice_gives_equal_records() {
    let a = Metadata::new(FULL).unwrap();
    let b = Metadata::new(FULL).unwrap();
    assert_eq!(a.url, b.url);
    assert_eq!(a.date, b.date);
    assert_eq!(a.title, b.title);
    assert_eq!(a.keywords, b.keywords);
    assert_eq!(a.description, b.description);
    let bad = "title = \"x\"";
    assert!(matches!(Metadata::new(bad), Err(MetadataInvalid::Missing(RequiredKey::Date))));
    assert!(matches!(Metadata::new(bad), Err(MetadataInvalid::Missing(RequiredKey::Date))));
}

#[test]
fn missing_date_is_named() {
    let r = Metadata::new("title = \"t\"\n[meta]\nkeywords = \"k\"\ndescription = \"d\"");
    assert!(matches!(r, Err(MetadataInvalid::Missing(RequiredKey::Date))));
}

#[test]
fn missing_title_is_named() {
    let r = Metadata::new("date = \"d\"\n[meta]\nkeywords = \"k\"\ndescription = \"d\"");
    assert!(matches!(r, Err(MetadataInvalid::Missing(RequiredKey::Title))));
}

#[test]
fn missing_meta_is_named() {
    let r = Metadata::new("date = \"d\"\ntitle = \"t\"");
    assert!(matches!(r, Err(MetadataInvalid::Missing(RequiredKey::Meta))));
}

#[test]
fn missing_keywords_is_named() {
    let r = Metadata::new("date = \"d\"\ntitle = \"t\"\n[meta]\ndescription = \"d\"");
    assert!(matches!(r, Err(MetadataInvalid::Missing(RequiredKey::Keywords))));
}

#[test]
fn missing_description_is_named() {
    let r = Metadata::new("date = \"d\"\ntitle = \"t\"\n[meta]\nkeywords = \"k\"");
    assert!(matches!(r, Err(MetadataInvalid::Missing(RequiredKey::Description))));
}

#[test]
fn first_missing_key_wins() {
    let r = Metadata::new("");
    assert!(matches!(r, Err(MetadataInvalid::Missing(RequiredKey::Date))));
    let r = Metadata::new("date = \"d\"");
    assert!(matches!(r, Err(MetadataInvalid::Missing(RequiredKey::Title))));
}

#[test]
fn value_that_is_no_string_is_malformed() {
    let r = Metadata::new("date = 2020\ntitle = \"t\"\n[meta]\nkeywords = \"k\"\ndescription = \"d\"");
    assert!(matches!(r, Err(MetadataInvalid::Malformed(RequiredKey::Date))));
    let r = Metadata::new("date = \"d\"\ntitle = true\n[meta]\nkeywords = \"k\"\ndescription = \"d\"");
    assert!(matches!(r, Err(MetadataInvalid::Malformed(RequiredKey::Title))));
    let r = Metadata::new("date = \"d\"\ntitle = \"t\"\n[meta]\nkeywords = [\"k\"]\ndescription = \"d\"");
    assert!(matches!(r, Err(MetadataInvalid::Malformed(RequiredKey::Keywords))));
    let r = Metadata::new("date = \"d\"\ntitle = \"t\"\n[meta]\nkeywords = \"k\"\ndescription = 1.5");
    assert!(matches!(r, Err(MetadataInvalid::Malformed(RequiredKey::Description))));
    let r = Metadata::new("date = 1979-05-27T07:32:00Z\ntitle = \"t\"");
    assert!(matches!(r, Err(MetadataInvalid::Malformed(RequiredKey::Date))));
}

#[test]
fn meta_that_is_no_section_has_no_keys() {
    let r = Metadata::new("date = \"d\"\ntitle = \"t\"\nmeta = \"flat\"");
    assert!(matches!(r, Err(MetadataInvalid::Missing(RequiredKey::Keywords))));
}

#[test]
fn text_that_is_no_document_is_a_syntax_error() {
    let r = Metadata::new("title = ");
    match r {
        Err(MetadataInvalid::Syntax(message)) => assert!(!message.is_empty()),
        _ => panic!("expected a syntax error"),
    }
    assert!(matches!(Metadata::new("\n+++\nx"), Err(MetadataInvalid::Syntax(_))));
    assert!(matches!(Metadata::new("a = 1\na = 2"), Err(MetadataInvalid::Syntax(_))));
}

#[test]
fn extra_keys_are_ignored() {
    let r = Metadata::new("date = \"d\"\ntitle = \"t\"\nextra = 1\n[meta]\nkeywords = \"k\"\ndescription = \"e\"\nog_url = \"u\"\n[other]\nx = 1");
    let m = r.unwrap();
    assert_eq!(m.date, "d");
    assert_eq!(m.description, "e");
    assert_eq!(m.url, "t");
}

#[test]
fn decodes_a_built_value() {
    let doc = table(vec![
        ("date", text("2021")),
        ("title", text("Built By Hand")),
        ("meta", table(vec![("keywords", text("k")), ("description", text("d"))])),
    ]);
    let m = Metadata::from_value(&doc).unwrap();
    assert_eq!(m.date, "2021");
    assert_eq!(m.title, "Built By Hand");
    assert_eq!(m.keywords, "k");
    assert_eq!(m.description, "d");
    assert_eq!(m.url, "built_by_hand");
}

#[test]
fn refuses_built_values() {
    let doc = table(vec![("date", text("d")), ("title", toml::Value::Integer(3))]);
    assert!(matches!(Metadata::from_value(&doc), Err(MetadataInvalid::Malformed(RequiredKey::Title))));
    let doc = table(vec![
        ("date", text("d")),
        ("title", text("t")),
        ("meta", table(vec![("keywords", text("k")), ("description", table(vec![]))])),
    ]);
    assert!(matches!(
        Metadata::from_value(&doc),
        Err(MetadataInvalid::Malformed(RequiredKey::Description))
    ));
    assert!(matches!(
        Metadata::from_value(&text("just a string")),
        Err(MetadataInvalid::Missing(RequiredKey::Date))
    ));
    let doc = toml::Value::Array(vec![text("date")]);
    assert!(matches!(Metadata::from_value(&doc), Err(MetadataInvalid::Missing(RequiredKey::Date))));
}

#[test]
fn head_tags_are_exact() {
    let m = Metadata {
        url: "u".to_string(),
        date: "2020".to_string(),
        title: "T".to_string(),
        keywords: "k1, k2".to_string(),
        description: "D".to_string(),
    };
    assert_eq!(
        m.genrate_head_tags(),
        "<title>T</title>\n<meta name=\"description\" content=\"D\">\n<meta name=\"keywords\" content=\"k1, k2\">\n<meta name=\"og:url\" content=\"u\">\n<meta name=\"og:title\" content=\"T\">\n<meta name=\"og:description\" content=\"D\">\n<meta name=\"twitter:title\" content=\"T\">\n<meta name=\"twitter:description\" content=\"D\">"
    );
}

#[test]
fn head_tags_do_not_escape() {
    let m = Metadata {
        url: String::new(),
        date: String::new(),
        title: "<b>\"x\"</b>".to_string(),
        keywords: String::new(),
        description: String::new(),
    };
    let tags = m.genrate_head_tags();
    assert!(tags.starts_with("<title><b>\"x\"</b></title>\n"));
    assert!(tags.contains("<meta name=\"og:url\" content=\"\">"));
}

#[test]
fn key_names() {
    assert_eq!(RequiredKey::Date.name(), "date");
    assert_eq!(RequiredKey::Title.name(), "title");
    assert_eq!(RequiredKey::Meta.name(), "meta");
    assert_eq!(RequiredKey::Keywords.name(), "meta.keywords");
    assert_eq!(RequiredKey::Description.name(), "meta.description");
}

#[test]
fn refusals_describe_themselves() {
    assert_eq!(MetadataInvalid::Missing(RequiredKey::Keywords).describe(), "missing key `meta.keywords`");
    assert_eq!(MetadataInvalid::Malformed(RequiredKey::Date).describe(), "key `date` is not a string");
    assert_eq!(
        MetadataInvalid::Syntax("boom".to_string()).describe(),
        "metadata is not valid TOML: boom"
    );
}
