//! The keyed document that a metadata block decodes to, as the `toml` crate
//! parses it, and the model of it that the contracts speak of.

use vstd::prelude::*;

verus! {

/// What a TOML value holds, as far as this library reads it: a string, a
/// table of values by key, or anything else.
pub enum NodeView {
    Text(Seq<char>),
    Table(Map<Seq<char>, NodeView>),
    Other,
}

impl NodeView {
    /// The value under `key`, where this is a table that has the key.
    pub open spec fn child(self, key: Seq<char>) -> Option<NodeView> {
        match self {
            NodeView::Table(entries) if entries.contains_key(key) => Some(entries[key]),
            _ => None,
        }
    }
}

/// `toml::Value`, a parsed TOML value, taken as it is: the library reads it
/// through `child_of` and `text_of` only.
#[verifier::external_type_specification]
#[verifier::external_body]
pub struct ExValue(toml::Value);

/// `toml::de::Error`, the parser's refusal of a text, taken as it is.
#[verifier::external_type_specification]
#[verifier::external_body]
pub struct ExSyntaxError(toml::de::Error);

/// What `value` holds.
pub uninterp spec fn value_content(value: toml::Value) -> NodeView;

/// What `text` holds when read as a TOML document, or `None` where it is not
/// one.
pub uninterp spec fn toml_document(text: Seq<char>) -> Option<NodeView>;

/// `toml::from_str`, reading a whole document into a `toml::Value`: the
/// outcome is a function of the text alone; a failure means that the text is
/// no TOML document. The parser follows nested arrays and inline tables by
/// recursion, so how deep a document may nest is a matter of stack space.
#[verifier::external_body]
pub(crate) fn parse_document(text: &str) -> (r: Result<toml::Value, toml::de::Error>)
    ensures
        match r {
            Ok(value) => toml_document(text@) == Some(value_content(value)),
            Err(_) => toml_document(text@) is None,
        },
{
    toml::from_str::<toml::Value>(text)
}

/// `toml::Value::get` with a string key: the value under `key` where `value`
/// is a table that has the key, `None` otherwise.
#[verifier::external_body]
pub(crate) fn child_of<'a>(value: &'a toml::Value, key: &str) -> (r: Option<&'a toml::Value>)
    ensures
        match r {
            Some(child) => value_content(*value).child(key@) == Some(value_content(*child)),
            None => value_content(*value).child(key@) is None,
        },
{
    value.get(key)
}

/// `toml::Value::as_str`: the string where `value` is one, `None` otherwise.
#[verifier::external_body]
pub(crate) fn text_of<'a>(value: &'a toml::Value) -> (r: Option<&'a str>)
    ensures
        match r {
            Some(text) => value_content(*value) == NodeView::Text(text@),
            None => !(value_content(*value) is Text),
        },
{
    value.as_str()
}

/// `ToString::to_string` on a `toml::de::Error`: the error as its `Display`
/// impl words it. Nothing is claimed of the wording.
#[verifier::external_body]
pub(crate) fn syntax_message(error: &toml::de::Error) -> (r: String) {
    error.to_string()
}

} // verus!
