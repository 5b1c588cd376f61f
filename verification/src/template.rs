//! Composing the index page from the lines of its template and the listing.

use vstd::prelude::*;
use vstd::string::*;
use crate::text::{contains, contains_text, trim_text, trimmed};

verus! {

/// The token that marks where the listing goes.
pub open spec fn placeholder() -> Seq<char> {
    "{{POST_LIST}}"@
}

/// What one template line contributes: the fragment where the line holds
/// the placeholder, else the line without the white space around it.
pub open spec fn composed_line(line: Seq<char>, fragment: Seq<char>) -> Seq<char> {
    if contains(line, placeholder()) {
        fragment
    } else {
        trimmed(line)
    }
}

/// The page: what the lines contribute, one after the other, with nothing
/// in between.
pub open spec fn composed(lines: Seq<Seq<char>>, fragment: Seq<char>) -> Seq<char> {
    lines.map_values(|line: Seq<char>| composed_line(line, fragment)).flatten()
}

/// One more line at the end adds what it contributes at the end.
pub proof fn lemma_composed_push(lines: Seq<Seq<char>>, line: Seq<char>, fragment: Seq<char>)
    ensures
        composed(lines.push(line), fragment) == composed(lines, fragment) + composed_line(
            line,
            fragment,
        ),
{
    let f = |l: Seq<char>| composed_line(l, fragment);
    assert(lines.push(line).map_values(f) =~= lines.map_values(f).push(
        composed_line(line, fragment),
    ));
    lines.map_values(f).lemma_flatten_push(composed_line(line, fragment));
}

/// The index page for the template `lines` and the listing
/// `post_list_html`: every line that holds the placeholder is replaced as a
/// whole by the listing, every other line is copied without the white space
/// around it.
pub fn create_index_html(lines: &Vec<String>, post_list_html: &str) -> (r: String)
    ensures
        r@ == composed(lines.deep_view(), post_list_html@),
{
    let ghost all = lines.deep_view();
    let mut html = String::new();
    let mut i: usize = 0;
    proof {
        assert(all.take(0).map_values(|l: Seq<char>| composed_line(l, post_list_html@)).len()
            == 0);
    }
    while i < lines.len()
        invariant
            i <= lines.len(),
            all == lines.deep_view(),
            all.len() == lines.len(),
            html@ == composed(all.take(i as int), post_list_html@),
        decreases lines.len() - i,
    {
        let line = lines[i].as_str();
        proof {
            assert(all[i as int] == line@);
            assert(all.take(i + 1) =~= all.take(i as int).push(line@));
            lemma_composed_push(all.take(i as int), line@, post_list_html@);
        }
        if contains_text(line, "{{POST_LIST}}") {
            html.append(post_list_html);
        } else {
            html.append(trim_text(line));
        }
        i += 1;
    }
    assert(all.take(i as int) =~= all);
    html
}

} // verus!
