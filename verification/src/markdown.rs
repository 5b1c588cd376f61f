//! Rendering the body of a content file to HTML with `pulldown_cmark`.

use vstd::prelude::*;

verus! {

/// The extensions to CommonMark that a rendering may enable.
#[derive(Debug, Clone, Copy, PartialEq, Eq, Structural)]
pub struct RenderOptions {
    pub tables: bool,
    pub footnotes: bool,
    pub strikethrough: bool,
    pub tasklists: bool,
}

/// The HTML that `pulldown_cmark` renders for a markdown text under the
/// given options.
pub uninterp spec fn rendered_html(md: Seq<char>, options: RenderOptions) -> Seq<char>;

/// `pulldown_cmark::Parser::new_ext` and `pulldown_cmark::html::push_html`
/// into an empty string, with the option flags set as `options` says: the
/// result is a function of the text and the options alone.
#[verifier::external_body]
fn render(md: &str, options: RenderOptions) -> (r: String)
    ensures
        r@ == rendered_html(md@, options),
{
    let mut flags = pulldown_cmark::Options::empty();
    flags.set(pulldown_cmark::Options::ENABLE_TABLES, options.tables);
    flags.set(pulldown_cmark::Options::ENABLE_FOOTNOTES, options.footnotes);
    flags.set(pulldown_cmark::Options::ENABLE_STRIKETHROUGH, options.strikethrough);
    flags.set(pulldown_cmark::Options::ENABLE_TASKLISTS, options.tasklists);
    let mut html_output = String::new();
    pulldown_cmark::html::push_html(&mut html_output, pulldown_cmark::Parser::new_ext(md, flags));
    html_output
}

impl RenderOptions {
    /// No extension enabled.
    pub fn empty() -> (r: RenderOptions)
        ensures
            r == (RenderOptions {
                tables: false,
                footnotes: false,
                strikethrough: false,
                tasklists: false,
            }),
    {
        RenderOptions { tables: false, footnotes: false, strikethrough: false, tasklists: false }
    }

    /// The options of a site build: strikethrough, and nothing else.
    pub fn site() -> (r: RenderOptions)
        ensures
            r == (RenderOptions {
                tables: false,
                footnotes: false,
                strikethrough: true,
                tasklists: false,
            }),
    {
        RenderOptions { tables: false, footnotes: false, strikethrough: true, tasklists: false }
    }
}

/// The HTML of the markdown text `md` under `options`.
pub fn markdown_to_html(md: &str, options: RenderOptions) -> (r: String)
    ensures
        r@ == rendered_html(md@, options),
{
    render(md, options)
}

} // verus!
