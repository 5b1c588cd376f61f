//! One generation pass over content files that are already in memory: which
//! entries count, what each contributes, and the index page that results.

use vstd::prelude::*;
use vstd::string::*;
use crate::front_matter::{metadata_text, parse_markdown};
use crate::listing::{generate_post_list_html, listing, views};
use crate::metadata::{decoded_text, outcome, Defect, Metadata, MetadataInvalid, MetadataView};
use crate::template::{composed, create_index_html};

verus! {

/// One entry of the content directory: the extension of its name, if it has
/// one, and its lines.
#[derive(Debug)]
pub struct ContentFile {
    pub extension: Option<String>,
    pub lines: Vec<String>,
}

/// A directory entry as the contracts see it.
pub struct ContentFileView {
    pub extension: Option<Seq<char>>,
    pub lines: Seq<Seq<char>>,
}

impl View for ContentFile {
    type V = ContentFileView;

    open spec fn view(&self) -> ContentFileView {
        ContentFileView {
            extension: match self.extension {
                Some(extension) => Some(extension@),
                None => None,
            },
            lines: self.lines.deep_view(),
        }
    }
}

/// What a directory entry is, by the extension of its name.
#[derive(Debug, Clone, Copy, PartialEq, Eq, Structural)]
pub enum EntryKind {
    /// A content file: it is read and decoded.
    Content,
    /// Another file: it is passed over.
    Skipped,
    /// A name without extension: the pass fails.
    Unrecognized,
}

/// Why a generation pass failed, and at which entry, counted from 0.
#[derive(Debug)]
pub enum SiteError {
    /// The entry has no extension.
    UnrecognizedEntry { file: usize },
    /// The metadata block of the entry was refused.
    MetadataInvalid { file: usize, reason: MetadataInvalid },
}

/// A failure as the contracts see it.
pub enum SiteFault {
    UnrecognizedEntry { file: int },
    MetadataInvalid { file: int, defect: Defect },
}

impl View for SiteError {
    type V = SiteFault;

    open spec fn view(&self) -> SiteFault {
        match self {
            SiteError::UnrecognizedEntry { file } => SiteFault::UnrecognizedEntry {
                file: *file as int,
            },
            SiteError::MetadataInvalid { file, reason } => SiteFault::MetadataInvalid {
                file: *file as int,
                defect: reason@,
            },
        }
    }
}

/// The extension of content files.
pub open spec fn content_extension() -> Seq<char> {
    "md"@
}

/// What an entry with the given extension is.
pub open spec fn kind_of(extension: Option<Seq<char>>) -> EntryKind {
    match extension {
        None => EntryKind::Unrecognized,
        Some(e) => if e == content_extension() {
            EntryKind::Content
        } else {
            EntryKind::Skipped
        },
    }
}

/// What the lines of a content file decode to: the decoding of their
/// metadata text.
pub open spec fn content_of(lines: Seq<Seq<char>>) -> Result<MetadataView, Defect> {
    decoded_text(metadata_text(lines))
}

/// The records of the content files among `files`, in their order, or the
/// failure at the first entry that is unrecognized or whose metadata is
/// refused.
pub open spec fn collected(files: Seq<ContentFileView>) -> Result<Seq<MetadataView>, SiteFault>
    decreases files.len(),
{
    if files.len() == 0 {
        Ok(Seq::empty())
    } else {
        let file = files.len() - 1;
        match collected(files.drop_last()) {
            Err(fault) => Err(fault),
            Ok(entries) => match kind_of(files.last().extension) {
                EntryKind::Unrecognized => Err(SiteFault::UnrecognizedEntry { file }),
                EntryKind::Skipped => Ok(entries),
                EntryKind::Content => match content_of(files.last().lines) {
                    Ok(entry) => Ok(entries.push(entry)),
                    Err(defect) => Err(SiteFault::MetadataInvalid { file, defect }),
                },
            },
        }
    }
}

/// The index page of a pass: the template composed with the listing of the
/// collected records, or the failure of the collection.
pub open spec fn site_index(files: Seq<ContentFileView>, template: Seq<Seq<char>>) -> Result<
    Seq<char>,
    SiteFault,
> {
    match collected(files) {
        Ok(entries) => Ok(composed(template, listing(entries))),
        Err(fault) => Err(fault),
    }
}

/// The directory entries of a list as the contracts see them.
pub open spec fn file_views(files: Seq<ContentFile>) -> Seq<ContentFileView> {
    files.map_values(|f: ContentFile| f@)
}

/// The result of a pass as the contracts see it.
pub open spec fn pass_outcome(r: Result<String, SiteError>) -> Result<Seq<char>, SiteFault> {
    match r {
        Ok(html) => Ok(html@),
        Err(error) => Err(error@),
    }
}

/// Tells what an entry is from the extension of its name.
pub fn classify_entry(extension: Option<&str>) -> (r: EntryKind)
    ensures
        r == kind_of(
            match extension {
                Some(e) => Some(e@),
                None => None,
            },
        ),
{
    match extension {
        None => EntryKind::Unrecognized,
        Some(e) => {
            proof {
                reveal_strlit("md");
            }
            if e.unicode_len() == 2 && e.get_char(0) == 'm' && e.get_char(1) == 'd' {
                assert(e@ =~= "md"@);
                EntryKind::Content
            } else {
                EntryKind::Skipped
            }
        },
    }
}

/// Decodes the metadata of a content file from its lines.
pub fn read_content(lines: &Vec<String>) -> (r: Result<Metadata, MetadataInvalid>)
    ensures
        outcome(r) == content_of(lines.deep_view()),
{
    let (metadata, _) = parse_markdown(lines);
    Metadata::new(metadata.as_str())
}

/// The index page for the records `entries` and the template `template`.
pub fn render_index(entries: &Vec<Metadata>, template: &Vec<String>) -> (r: String)
    ensures
        r@ == composed(template.deep_view(), listing(views(entries@))),
{
    let post_list_html = generate_post_list_html(entries);
    create_index_html(template, post_list_html.as_str())
}

/// One generation pass: collects the records of the content files among
/// `files`, in their order, and composes the index page from `template`.
/// The pass fails at the first entry that has no extension or whose
/// metadata is refused.
pub fn run(files: &Vec<ContentFile>, template: &Vec<String>) -> (r: Result<String, SiteError>)
    ensures
        pass_outcome(r) == site_index(file_views(files@), template.deep_view()),
{
    let ghost all = file_views(files@);
    let mut metadata_list: Vec<Metadata> = Vec::new();
    let mut i: usize = 0;
    assert(all.take(0) =~= Seq::<ContentFileView>::empty());
    assert(views(metadata_list@) =~= Seq::<MetadataView>::empty());
    while i < files.len()
        invariant
            i <= files.len(),
            all == file_views(files@),
            collected(all.take(i as int)) == Ok::<Seq<MetadataView>, SiteFault>(
                views(metadata_list@),
            ),
        decreases files.len() - i,
    {
        let file = &files[i];
        proof {
            assert(all.take(i + 1).drop_last() =~= all.take(i as int));
            assert(all.take(i + 1).last() == file@);
        }
        let extension = match &file.extension {
            Some(e) => Some(e.as_str()),
            None => None,
        };
        match classify_entry(extension) {
            EntryKind::Unrecognized => {
                proof {
                    lemma_collected_fails(all, i + 1);
                }
                return Err(SiteError::UnrecognizedEntry { file: i });
            },
            EntryKind::Skipped => {},
            EntryKind::Content => match read_content(&file.lines) {
                Ok(metadata) => {
                    proof {
                        assert(views(metadata_list@.push(metadata)) =~= views(
                            metadata_list@,
                        ).push(metadata@));
                    }
                    metadata_list.push(metadata);
                },
                Err(reason) => {
                    proof {
                        lemma_collected_fails(all, i + 1);
                    }
                    return Err(SiteError::MetadataInvalid { file: i, reason });
                },
            },
        }
        i += 1;
    }
    assert(all.take(i as int) =~= all);
    Ok(render_index(&metadata_list, template))
}

/// A failure among the first `n` entries is the failure of the whole list.
pub proof fn lemma_collected_fails(files: Seq<ContentFileView>, n: int)
    requires
        0 <= n <= files.len(),
        collected(files.take(n)) is Err,
    ensures
        collected(files) == collected(files.take(n)),
    decreases files.len() - n,
{
    if n == files.len() {
        assert(files.take(n) =~= files);
    } else {
        assert(files.drop_last().take(n) =~= files.take(n));
        lemma_collected_fails(files.drop_last(), n);
    }
}

} // verus!
