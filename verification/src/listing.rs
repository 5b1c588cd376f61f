//! The listing of all entries: one fragment per entry, in the order given.

use vstd::prelude::*;
use vstd::string::*;
use crate::metadata::{Metadata, MetadataView};
use crate::text::{strip_prefix_text, without_prefix};

verus! {

/// The base URL of the site, which links in the listing leave out.
pub open spec fn site_root() -> Seq<char> {
    "https://ratnasambhav.github.io/"@
}

/// The fragment of one entry: a link to the entry that holds its title and
/// its description as headings, followed by its date. No text of the entry
/// is escaped.
pub open spec fn entry_fragment(m: MetadataView) -> Seq<char> {
    "<div><a href="@ + without_prefix(m.url, site_root()) + " title="@ + m.title + "><h2>"@
        + m.title + "</h2><h3>"@ + m.description + "</h3></a><span>"@ + m.date
        + "</span></div>"@
}

/// The listing of `entries`: their fragments, one after the other.
pub open spec fn listing(entries: Seq<MetadataView>) -> Seq<char> {
    entries.map_values(|m: MetadataView| entry_fragment(m)).flatten()
}

/// The records of a list as the contracts see them.
pub open spec fn views(list: Seq<Metadata>) -> Seq<MetadataView> {
    list.map_values(|m: Metadata| m@)
}

/// The listing of no entries is the empty text.
pub proof fn lemma_listing_empty()
    ensures
        listing(Seq::empty()) == Seq::<char>::empty(),
{
    assert(Seq::<MetadataView>::empty().map_values(|m: MetadataView| entry_fragment(m)).len()
        == 0);
}

/// The listing of one entry is its fragment.
pub proof fn lemma_listing_single(entry: MetadataView)
    ensures
        listing(seq![entry]) == entry_fragment(entry),
{
    let fragments = seq![entry].map_values(|m: MetadataView| entry_fragment(m));
    assert(fragments =~= seq![entry_fragment(entry)]);
    fragments.lemma_flatten_singleton();
}

/// One more entry at the end adds its fragment at the end.
pub proof fn lemma_listing_push(entries: Seq<MetadataView>, entry: MetadataView)
    ensures
        listing(entries.push(entry)) == listing(entries) + entry_fragment(entry),
{
    let f = |m: MetadataView| entry_fragment(m);
    assert(entries.push(entry).map_values(f) =~= entries.map_values(f).push(
        entry_fragment(entry),
    ));
    entries.map_values(f).lemma_flatten_push(entry_fragment(entry));
}

/// The listing keeps the order of the entries and drops none: the listing
/// of two lists, one after the other, is the listing of the first followed
/// by the listing of the second.
pub proof fn lemma_listing_concat(first: Seq<MetadataView>, second: Seq<MetadataView>)
    ensures
        listing(first + second) == listing(first) + listing(second),
{
    let f = |m: MetadataView| entry_fragment(m);
    assert((first + second).map_values(f) =~= first.map_values(f) + second.map_values(f));
    vstd::seq_lib::lemma_flatten_concat(first.map_values(f), second.map_values(f));
}

/// `url` without the base URL of the site in front.
pub fn relative_url<'a>(url: &'a str) -> (r: &'a str)
    ensures
        r@ == without_prefix(url@, site_root()),
{
    strip_prefix_text(url, "https://ratnasambhav.github.io/")
}

/// Appends the fragment of `metadata` to `out`.
fn push_entry(out: &mut String, metadata: &Metadata)
    ensures
        final(out)@ == old(out)@ + entry_fragment(metadata@),
{
    out.append("<div><a href=");
    out.append(relative_url(metadata.url.as_str()));
    out.append(" title=");
    out.append(metadata.title.as_str());
    out.append("><h2>");
    out.append(metadata.title.as_str());
    out.append("</h2><h3>");
    out.append(metadata.description.as_str());
    out.append("</h3></a><span>");
    out.append(metadata.date.as_str());
    out.append("</span></div>");
    assert(out@ =~= old(out)@ + entry_fragment(metadata@));
}

/// The listing of `metadata_list` as HTML: the fragments of its entries in
/// the order given; the empty text for no entries.
pub fn generate_post_list_html(metadata_list: &Vec<Metadata>) -> (r: String)
    ensures
        r@ == listing(views(metadata_list@)),
{
    let ghost entries = views(metadata_list@);
    let mut out = String::new();
    let mut i: usize = 0;
    proof {
        lemma_listing_empty();
        assert(entries.take(0) =~= Seq::<MetadataView>::empty());
    }
    while i < metadata_list.len()
        invariant
            i <= metadata_list.len(),
            entries == views(metadata_list@),
            out@ == listing(entries.take(i as int)),
        decreases metadata_list.len() - i,
    {
        proof {
            assert(entries.take(i + 1) =~= entries.take(i as int).push(metadata_list@[i as int]@));
            lemma_listing_push(entries.take(i as int), metadata_list@[i as int]@);
        }
        push_entry(&mut out, &metadata_list[i]);
        i += 1;
    }
    assert(entries.take(i as int) =~= entries);
    out
}

} // verus!
