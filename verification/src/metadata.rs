//! The metadata record of a content file and its decoding from the keyed
//! document of the metadata block.
//!
//! The block must hold the string keys `date` and `title` and, in a section
//! `meta`, the string keys `keywords` and `description`. The record's `url`
//! is derived from the title: lower case, each space replaced by `_`.

use vstd::prelude::*;
use vstd::string::*;
use crate::document::{child_of, parse_document, syntax_message, text_of};
use crate::document::{toml_document, value_content, NodeView};
use crate::text::push_char;

verus! {

/// The metadata of one content file.
#[derive(Debug)]
pub struct Metadata {
    pub url: String,
    pub date: String,
    pub title: String,
    pub keywords: String,
    pub description: String,
}

/// A metadata record as the contracts see it.
pub struct MetadataView {
    pub url: Seq<char>,
    pub date: Seq<char>,
    pub title: Seq<char>,
    pub keywords: Seq<char>,
    pub description: Seq<char>,
}

impl View for Metadata {
    type V = MetadataView;

    open spec fn view(&self) -> MetadataView {
        MetadataView {
            url: self.url@,
            date: self.date@,
            title: self.title@,
            keywords: self.keywords@,
            description: self.description@,
        }
    }
}

/// The keys that a metadata block must hold, in the order in which they are
/// looked up.
#[derive(Debug, Clone, Copy, PartialEq, Eq, Structural)]
pub enum RequiredKey {
    Date,
    Title,
    Meta,
    Keywords,
    Description,
}

/// Why a metadata block was refused.
#[derive(Debug)]
pub enum MetadataInvalid {
    /// The block is no TOML document; the parser's message.
    Syntax(String),
    /// The key is absent.
    Missing(RequiredKey),
    /// The key is there, but its value is no string.
    Malformed(RequiredKey),
}

/// A refusal as the contracts see it: which kind, and at which key.
pub enum Defect {
    Syntax,
    Missing(RequiredKey),
    Malformed(RequiredKey),
}

impl View for MetadataInvalid {
    type V = Defect;

    open spec fn view(&self) -> Defect {
        match self {
            MetadataInvalid::Syntax(_) => Defect::Syntax,
            MetadataInvalid::Missing(key) => Defect::Missing(*key),
            MetadataInvalid::Malformed(key) => Defect::Malformed(*key),
        }
    }
}

/// The result of a decoding as the contracts see it.
pub open spec fn outcome(r: Result<Metadata, MetadataInvalid>) -> Result<MetadataView, Defect> {
    match r {
        Ok(metadata) => Ok(metadata@),
        Err(invalid) => Err(invalid@),
    }
}

/// What a refusal says of itself.
pub open spec fn description_of(invalid: MetadataInvalid) -> Seq<char> {
    match invalid {
        MetadataInvalid::Syntax(message) => "metadata is not valid TOML: "@ + message@,
        MetadataInvalid::Missing(key) => "missing key `"@ + key_name(key) + "`"@,
        MetadataInvalid::Malformed(key) => "key `"@ + key_name(key) + "` is not a string"@,
    }
}

/// The dotted name of a required key.
pub open spec fn key_name(key: RequiredKey) -> Seq<char> {
    match key {
        RequiredKey::Date => "date"@,
        RequiredKey::Title => "title"@,
        RequiredKey::Meta => "meta"@,
        RequiredKey::Keywords => "meta.keywords"@,
        RequiredKey::Description => "meta.description"@,
    }
}

/// The value that a document holds for a required key, if any. The keys of
/// the `meta` section are absent where `meta` is absent or is no table.
pub open spec fn key_value(doc: NodeView, key: RequiredKey) -> Option<NodeView> {
    match key {
        RequiredKey::Date => doc.child("date"@),
        RequiredKey::Title => doc.child("title"@),
        RequiredKey::Meta => doc.child("meta"@),
        RequiredKey::Keywords => match doc.child("meta"@) {
            Some(meta) => meta.child("keywords"@),
            None => None,
        },
        RequiredKey::Description => match doc.child("meta"@) {
            Some(meta) => meta.child("description"@),
            None => None,
        },
    }
}

/// What is wrong with a document at one required key, if anything: the key
/// is missing, or it is not `meta` and its value is no string.
pub open spec fn key_defect(doc: NodeView, key: RequiredKey) -> Option<Defect> {
    match key_value(doc, key) {
        None => Some(Defect::Missing(key)),
        Some(value) => if key != RequiredKey::Meta && !(value is Text) {
            Some(Defect::Malformed(key))
        } else {
            None
        },
    }
}

/// The first thing wrong with a document, in the order of the keys.
pub open spec fn first_defect(doc: NodeView) -> Option<Defect> {
    if key_defect(doc, RequiredKey::Date) is Some {
        key_defect(doc, RequiredKey::Date)
    } else if key_defect(doc, RequiredKey::Title) is Some {
        key_defect(doc, RequiredKey::Title)
    } else if key_defect(doc, RequiredKey::Meta) is Some {
        key_defect(doc, RequiredKey::Meta)
    } else if key_defect(doc, RequiredKey::Keywords) is Some {
        key_defect(doc, RequiredKey::Keywords)
    } else {
        key_defect(doc, RequiredKey::Description)
    }
}

/// The string that a document holds for a required key.
pub open spec fn key_text(doc: NodeView, key: RequiredKey) -> Seq<char>
    recommends
        key_value(doc, key) matches Some(value) && value is Text,
{
    key_value(doc, key)->Some_0->Text_0
}

/// The lower-case form of a text, as `str::to_lowercase` gives it.
pub uninterp spec fn lowercase_of(text: Seq<char>) -> Seq<char>;

/// `text` with each space replaced by an underscore.
pub open spec fn underscored(text: Seq<char>) -> Seq<char> {
    text.map_values(
        |c: char|
            if c == ' ' {
                '_'
            } else {
                c
            },
    )
}

/// The URL derived from a title.
pub open spec fn derived_url(title: Seq<char>) -> Seq<char> {
    underscored(lowercase_of(title))
}

/// What a document decodes to: the record of its four strings, with the URL
/// derived from the title, where nothing is wrong with it; else the first
/// defect.
pub open spec fn decoded(doc: NodeView) -> Result<MetadataView, Defect> {
    match first_defect(doc) {
        Some(defect) => Err(defect),
        None => Ok(
            MetadataView {
                url: derived_url(key_text(doc, RequiredKey::Title)),
                date: key_text(doc, RequiredKey::Date),
                title: key_text(doc, RequiredKey::Title),
                keywords: key_text(doc, RequiredKey::Keywords),
                description: key_text(doc, RequiredKey::Description),
            },
        ),
    }
}

/// What the text of a metadata block decodes to: a syntax defect where the
/// text is no TOML document, else what the document decodes to.
pub open spec fn decoded_text(text: Seq<char>) -> Result<MetadataView, Defect> {
    match toml_document(text) {
        None => Err(Defect::Syntax),
        Some(doc) => decoded(doc),
    }
}

/// The place of a key in the order of the lookups.
pub open spec fn key_rank(key: RequiredKey) -> int {
    match key {
        RequiredKey::Date => 0,
        RequiredKey::Title => 1,
        RequiredKey::Meta => 2,
        RequiredKey::Keywords => 3,
        RequiredKey::Description => 4,
    }
}

/// Decoding is a function of the text: any two results that meet the
/// contract of `Metadata::new` for one text are the same record, or the
/// same kind of refusal at the same key.
pub proof fn lemma_decoding_repeatable(
    text: Seq<char>,
    first: Result<Metadata, MetadataInvalid>,
    second: Result<Metadata, MetadataInvalid>,
)
    requires
        outcome(first) == decoded_text(text),
        outcome(second) == decoded_text(text),
    ensures
        outcome(first) == outcome(second),
        first is Ok <==> second is Ok,
        first matches Ok(a) ==> second matches Ok(b) && a@ == b@,
{
}

/// A document that lacks a required key is refused. The refusal names that
/// key, unless something is wrong at a key that is looked up before it.
pub proof fn lemma_missing_key_refused(doc: NodeView, key: RequiredKey)
    requires
        key_value(doc, key) is None,
    ensures
        decoded(doc) is Err,
        (forall|earlier: RequiredKey|
            key_rank(earlier) < key_rank(key) ==> key_defect(doc, earlier) is None) ==> decoded(
            doc,
        ) == Err::<MetadataView, Defect>(Defect::Missing(key)),
{
    assert(key_defect(doc, key) == Some(Defect::Missing(key)));
    if forall|earlier: RequiredKey|
        key_rank(earlier) < key_rank(key) ==> key_defect(doc, earlier) is None {
        lemma_first_defect_at(doc, key);
    }
}

/// A document in which a required key holds something other than a string
/// is refused. The refusal names that key, unless something is wrong at a
/// key that is looked up before it.
pub proof fn lemma_malformed_key_refused(doc: NodeView, key: RequiredKey)
    requires
        key != RequiredKey::Meta,
        key_value(doc, key) matches Some(value) && !(value is Text),
    ensures
        decoded(doc) is Err,
        (forall|earlier: RequiredKey|
            key_rank(earlier) < key_rank(key) ==> key_defect(doc, earlier) is None) ==> decoded(
            doc,
        ) == Err::<MetadataView, Defect>(Defect::Malformed(key)),
{
    assert(key_defect(doc, key) == Some(Defect::Malformed(key)));
    if forall|earlier: RequiredKey|
        key_rank(earlier) < key_rank(key) ==> key_defect(doc, earlier) is None {
        lemma_first_defect_at(doc, key);
    }
}

/// The first defect is the defect at the first key that has one.
proof fn lemma_first_defect_at(doc: NodeView, key: RequiredKey)
    requires
        key_defect(doc, key) is Some,
        forall|earlier: RequiredKey|
            key_rank(earlier) < key_rank(key) ==> key_defect(doc, earlier) is None,
    ensures
        first_defect(doc) == key_defect(doc, key),
{
    assert(key_rank(RequiredKey::Date) == 0);
    assert(key_rank(RequiredKey::Title) == 1);
    assert(key_rank(RequiredKey::Meta) == 2);
    assert(key_rank(RequiredKey::Keywords) == 3);
    assert(key_rank(RequiredKey::Description) == 4);
}

/// A record is never partial: a document decodes to a record exactly when
/// nothing is wrong at any required key, and then every field of the record
/// is the string that the document holds under its key.
pub proof fn lemma_record_complete(doc: NodeView)
    ensures
        decoded(doc) is Ok <==> forall|key: RequiredKey| key_defect(doc, key) is None,
        decoded(doc) matches Ok(m) ==> {
            &&& key_value(doc, RequiredKey::Date) == Some(NodeView::Text(m.date))
            &&& key_value(doc, RequiredKey::Title) == Some(NodeView::Text(m.title))
            &&& key_value(doc, RequiredKey::Meta) is Some
            &&& key_value(doc, RequiredKey::Keywords) == Some(NodeView::Text(m.keywords))
            &&& key_value(doc, RequiredKey::Description) == Some(NodeView::Text(m.description))
            &&& m.url == derived_url(m.title)
        },
        decoded(doc) matches Err(defect) ==> exists|key: RequiredKey|
            key_defect(doc, key) == Some(defect),
{
    if decoded(doc) is Ok {
        assert forall|key: RequiredKey| key_defect(doc, key) is None by {
            match key {
                RequiredKey::Date => {},
                RequiredKey::Title => {},
                RequiredKey::Meta => {},
                RequiredKey::Keywords => {},
                RequiredKey::Description => {},
            }
        }
    } else {
        let defect = decoded(doc)->Err_0;
        if key_defect(doc, RequiredKey::Date) is Some {
            assert(key_defect(doc, RequiredKey::Date) == Some(defect));
        } else if key_defect(doc, RequiredKey::Title) is Some {
            assert(key_defect(doc, RequiredKey::Title) == Some(defect));
        } else if key_defect(doc, RequiredKey::Meta) is Some {
            assert(key_defect(doc, RequiredKey::Meta) == Some(defect));
        } else if key_defect(doc, RequiredKey::Keywords) is Some {
            assert(key_defect(doc, RequiredKey::Keywords) == Some(defect));
        } else {
            assert(key_defect(doc, RequiredKey::Description) == Some(defect));
        }
    }
}

/// One `meta` element of the head of a page.
pub open spec fn meta_tag(name: Seq<char>, content: Seq<char>) -> Seq<char> {
    "<meta name=\""@ + name + "\" content=\""@ + content + "\">"@
}

/// The head tags of a page: the title element, then one `meta` element per
/// line for description, keywords, `og:url`, `og:title`, `og:description`,
/// `twitter:title` and `twitter:description`.
pub open spec fn head_tags(m: MetadataView) -> Seq<char> {
    "<title>"@ + m.title + "</title>"@
        + "\n"@ + meta_tag("description"@, m.description)
        + "\n"@ + meta_tag("keywords"@, m.keywords)
        + "\n"@ + meta_tag("og:url"@, m.url)
        + "\n"@ + meta_tag("og:title"@, m.title)
        + "\n"@ + meta_tag("og:description"@, m.description)
        + "\n"@ + meta_tag("twitter:title"@, m.title)
        + "\n"@ + meta_tag("twitter:description"@, m.description)
}

/// `str::to_lowercase` of std: the lower-case form of `text` by the Unicode
/// case mapping, a function of the text alone.
#[verifier::external_body]
pub(crate) fn lowercase(text: &str) -> (r: String)
    ensures
        r@ == lowercase_of(text@),
{
    text.to_lowercase()
}

/// `text` with each space replaced by an underscore.
pub fn underscore_spaces(text: &str) -> (r: String)
    ensures
        r@ == underscored(text@),
{
    let mut out = String::new();
    for c in it: text.chars()
        invariant
            it.seq() == text@,
            out@ == underscored(text@.take(it.index() as int)),
    {
        proof {
            let i = it.index() as int;
            assert(underscored(text@.take(i + 1)) =~= underscored(text@.take(i)).push(
                if c == ' ' {
                    '_'
                } else {
                    c
                },
            ));
        }
        if c == ' ' {
            push_char(&mut out, '_');
        } else {
            push_char(&mut out, c);
        }
    }
    assert(text@.take(text@.len() as int) =~= text@);
    out
}

/// The URL derived from a title: lower case, each space replaced by `_`.
pub fn derive_url(title: &str) -> (r: String)
    ensures
        r@ == derived_url(title@),
{
    let lowered = lowercase(title);
    underscore_spaces(lowered.as_str())
}

/// Appends one `meta` element, preceded by a line feed, to `out`.
fn push_meta_tag(out: &mut String, name: &str, content: &str)
    ensures
        final(out)@ == old(out)@ + "\n"@ + meta_tag(name@, content@),
{
    out.append("\n");
    out.append("<meta name=\"");
    out.append(name);
    out.append("\" content=\"");
    out.append(content);
    out.append("\">");
    assert(out@ =~= old(out)@ + "\n"@ + meta_tag(name@, content@));
}

/// The string under `key` in the table `table`, or what is wrong there.
fn required_text(table: &toml::Value, key: &str, which: RequiredKey) -> (r: Result<
    String,
    MetadataInvalid,
>)
    ensures
        match value_content(*table).child(key@) {
            None => r matches Err(e) && e@ == Defect::Missing(which),
            Some(NodeView::Text(text)) => r matches Ok(s) && s@ == text,
            Some(_) => r matches Err(e) && e@ == Defect::Malformed(which),
        },
{
    match child_of(table, key) {
        None => Err(MetadataInvalid::Missing(which)),
        Some(value) => match text_of(value) {
            Some(text) => Ok(String::from_str(text)),
            None => Err(MetadataInvalid::Malformed(which)),
        },
    }
}

impl RequiredKey {
    /// The dotted name of the key.
    pub fn name(&self) -> (r: &'static str)
        ensures
            r@ == key_name(*self),
    {
        match self {
            RequiredKey::Date => "date",
            RequiredKey::Title => "title",
            RequiredKey::Meta => "meta",
            RequiredKey::Keywords => "meta.keywords",
            RequiredKey::Description => "meta.description",
        }
    }
}

impl MetadataInvalid {
    /// The refusal in words, with the name of the key or the parser's
    /// message.
    pub fn describe(&self) -> (r: String)
        ensures
            r@ == description_of(*self),
    {
        match self {
            MetadataInvalid::Syntax(message) => {
                let mut out = String::from_str("metadata is not valid TOML: ");
                out.append(message.as_str());
                out
            },
            MetadataInvalid::Missing(key) => {
                let mut out = String::from_str("missing key `");
                out.append(key.name());
                out.append("`");
                out
            },
            MetadataInvalid::Malformed(key) => {
                let mut out = String::from_str("key `");
                out.append(key.name());
                out.append("` is not a string");
                out
            },
        }
    }
}

impl Metadata {
    /// Decodes the text of a metadata block. The text is read as a TOML
    /// document; where it is none, the result is a syntax error that
    /// carries the parser's message; else it is what the document decodes
    /// to.
    pub fn new(metadata_string: &str) -> (r: Result<Metadata, MetadataInvalid>)
        ensures
            outcome(r) == decoded_text(metadata_string@),
    {
        match parse_document(metadata_string) {
            Ok(value) => Metadata::from_value(&value),
            Err(error) => Err(MetadataInvalid::Syntax(syntax_message(&error))),
        }
    }

    /// Decodes a parsed document: the record where every required key holds
    /// a string, else the first defect in the order `date`, `title`, `meta`,
    /// `meta.keywords`, `meta.description`.
    pub fn from_value(value: &toml::Value) -> (r: Result<Metadata, MetadataInvalid>)
        ensures
            outcome(r) == decoded(value_content(*value)),
    {
        let date = match required_text(value, "date", RequiredKey::Date) {
            Ok(text) => text,
            Err(invalid) => { return Err(invalid); },
        };
        let title = match required_text(value, "title", RequiredKey::Title) {
            Ok(text) => text,
            Err(invalid) => { return Err(invalid); },
        };
        let meta = match child_of(value, "meta") {
            Some(meta) => meta,
            None => { return Err(MetadataInvalid::Missing(RequiredKey::Meta)); },
        };
        let keywords = match required_text(meta, "keywords", RequiredKey::Keywords) {
            Ok(text) => text,
            Err(invalid) => { return Err(invalid); },
        };
        let description = match required_text(meta, "description", RequiredKey::Description) {
            Ok(text) => text,
            Err(invalid) => { return Err(invalid); },
        };
        let url = derive_url(title.as_str());
        Ok(Metadata { url, date, title, keywords, description })
    }

    /// The head tags of the page of this entry.
    pub fn genrate_head_tags(&self) -> (r: String)
        ensures
            r@ == head_tags(self@),
    {
        let mut out = String::new();
        out.append("<title>");
        out.append(self.title.as_str());
        out.append("</title>");
        push_meta_tag(&mut out, "description", self.description.as_str());
        push_meta_tag(&mut out, "keywords", self.keywords.as_str());
        push_meta_tag(&mut out, "og:url", self.url.as_str());
        push_meta_tag(&mut out, "og:title", self.title.as_str());
        push_meta_tag(&mut out, "og:description", self.description.as_str());
        push_meta_tag(&mut out, "twitter:title", self.title.as_str());
        push_meta_tag(&mut out, "twitter:description", self.description.as_str());
        assert(out@ =~= head_tags(self@));
        out
    }
}

} // verus!
