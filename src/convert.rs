//! Conversion of one Markdown document into a rendered HTML body and a title.
//!
//! Parsing and rendering are CommonMark's and come from comrak. What this
//! module decides for itself is which heading gives the page its title.

use comrak::nodes::NodeValue;
use vstd::prelude::*;
use vstd::utf8::{decode_utf8, valid_utf8};

verus! {

/// The first child of a heading node, as far as title extraction reads it.
pub enum Inline {
    /// A plain-text node with its literal bytes.
    Text(Vec<u8>),
    /// A node of any other kind (emphasis, code, a link, ...).
    Other,
    /// The heading has no children.
    Missing,
}

/// A top-level block of a parsed document, as far as title extraction reads it.
pub enum Block {
    /// A heading with its level and its first child.
    Heading(u32, Inline),
    /// A block of any other kind.
    Other,
}

/// How the title of a document was obtained.
#[derive(Clone, Copy, Debug, PartialEq, Eq, Structural)]
pub enum TitleStatus {
    /// A level-1 heading starting with plain text gave the title.
    Found,
    /// The first level-1 heading does not start with plain text.
    NotText,
    /// The first level-1 heading is empty.
    Empty,
    /// No top-level heading of level 1 exists.
    Missing,
}

/// The result of converting one document.
pub struct FileData {
    pub html_content: String,
    pub title: String,
    pub title_status: TitleStatus,
}

/// The top-level blocks that comrak's parser produces for a source text.
pub uninterp spec fn outline_of(text: Seq<char>) -> Seq<Block>;

/// The HTML that comrak renders for a source text, or `None` where rendering fails.
pub uninterp spec fn rendered_html(text: Seq<char>) -> Option<Seq<char>>;

/// The title taken from the first child of a level-1 heading.
pub open spec fn heading_title(first: Inline) -> (Seq<char>, TitleStatus) {
    match first {
        Inline::Text(b) => (
            if valid_utf8(b@) { decode_utf8(b@) } else { Seq::<char>::empty() },
            TitleStatus::Found,
        ),
        Inline::Other => (Seq::<char>::empty(), TitleStatus::NotText),
        Inline::Missing => (Seq::<char>::empty(), TitleStatus::Empty),
    }
}

/// Whether a block is a heading of level exactly 1.
pub open spec fn is_title_heading(b: Block) -> bool {
    b is Heading && b->Heading_0 == 1
}

/// The title of a document with the given top-level blocks: read from the
/// first level-1 heading in document order, empty where there is none.
pub open spec fn title_of(blocks: Seq<Block>) -> (Seq<char>, TitleStatus)
    decreases blocks.len(),
{
    if blocks.len() == 0 {
        (Seq::<char>::empty(), TitleStatus::Missing)
    } else if is_title_heading(blocks[0]) {
        heading_title(blocks[0]->Heading_1)
    } else {
        title_of(blocks.skip(1))
    }
}

/// A document none of whose top-level blocks is a level-1 heading has the
/// empty title, and the diagnostic for a missing title.
pub proof fn lemma_no_title_heading(blocks: Seq<Block>)
    requires
        forall|i: int| 0 <= i < blocks.len() ==> !is_title_heading(#[trigger] blocks[i]),
    ensures
        title_of(blocks) == (Seq::<char>::empty(), TitleStatus::Missing),
    decreases blocks.len(),
{
    if blocks.len() > 0 {
        assert(!is_title_heading(blocks[0]));
        assert forall|i: int| 0 <= i < blocks.skip(1).len() implies !is_title_heading(
            #[trigger] blocks.skip(1)[i]) by {
            assert(blocks.skip(1)[i] == blocks[i + 1]);
        }
        lemma_no_title_heading(blocks.skip(1));
    }
}

/// Relies on `std::str::from_utf8`: it accepts exactly the well-formed UTF-8
/// byte sequences and decodes them.
#[verifier::external_body]
fn decode_bytes(b: &Vec<u8>) -> (r: Option<String>)
    ensures
        r is Some <==> valid_utf8(b@),
        r matches Some(s) ==> s@ == decode_utf8(b@),
{
    std::str::from_utf8(b).ok().map(|s| s.to_owned())
}

/// Relies on `comrak::parse_document` with default options: the kind of each
/// top-level child of the document root, and the first child of each heading.
#[verifier::external_body]
fn parse_outline(text: &str) -> (r: Vec<Block>)
    ensures
        r@ == outline_of(text@),
{
    let arena = comrak::Arena::new();
    let root = comrak::parse_document(&arena, text, &comrak::ComrakOptions::default());
    root.children().map(|n| match &n.data.borrow().value {
        NodeValue::Heading(h) => Block::Heading(h.level, match n.first_child() {
            Some(c) => match &c.data.borrow().value {
                NodeValue::Text(t) => Inline::Text(t.clone()),
                _ => Inline::Other,
            },
            None => Inline::Missing,
        }),
        _ => Block::Other,
    }).collect()
}

/// Relies on `comrak::parse_document` and `comrak::format_html` with default
/// options: the HTML rendering of a source text, `None` where it fails.
#[verifier::external_body]
fn render_html(text: &str) -> (r: Option<String>)
    ensures
        r matches Some(h) ==> rendered_html(text@) == Some(h@),
        r is None ==> rendered_html(text@) is None,
{
    let arena = comrak::Arena::new();
    let options = comrak::ComrakOptions::default();
    let root = comrak::parse_document(&arena, text, &options);
    let mut out = Vec::new();
    comrak::format_html(root, &options, &mut out).ok()?;
    String::from_utf8(out).ok()
}

/// Extracts the title from a document's top-level blocks: the literal text
/// that starts the first level-1 heading, or the empty string.
pub fn title_from_blocks(blocks: &Vec<Block>) -> (r: (String, TitleStatus))
    ensures
        (r.0@, r.1) == title_of(blocks@),
{
    let mut i: usize = 0;
    assert(blocks@.skip(0) =~= blocks@);
    while i < blocks.len()
        invariant
            i <= blocks@.len(),
            title_of(blocks@) == title_of(blocks@.skip(i as int)),
        decreases blocks@.len() - i,
    {
        assert(blocks@.skip(i as int).skip(1) =~= blocks@.skip(i + 1));
        match &blocks[i] {
            Block::Heading(level, first) => {
                if *level == 1 {
                    return match first {
                        Inline::Text(b) => match decode_bytes(b) {
                            Some(s) => (s, TitleStatus::Found),
                            None => (String::new(), TitleStatus::Found),
                        },
                        Inline::Other => (String::new(), TitleStatus::NotText),
                        Inline::Missing => (String::new(), TitleStatus::Empty),
                    };
                }
            },
            Block::Other => {},
        }
        i += 1;
    }
    (String::new(), TitleStatus::Missing)
}

/// Combines a document's top-level blocks and its rendering into the
/// converted document; a failed rendering is a conversion error.
pub fn file_data_from(blocks: &Vec<Block>, html: Option<String>) -> (r: Result<FileData, String>)
    ensures
        html is None <==> r is Err,
        r matches Ok(d) ==> html == Some(d.html_content) && (d.title@, d.title_status) == title_of(blocks@),
        r matches Err(e) ==> e@ == "Could not format html."@,
{
    match html {
        Some(h) => {
            let (title, title_status) = title_from_blocks(blocks);
            Ok(FileData { html_content: h, title, title_status })
        },
        None => Err(String::from_str("Could not format html.")),
    }
}

/// Converts Markdown source text into its HTML body and its title.
pub fn md_to_file_data(content: &str) -> (r: Result<FileData, String>)
    ensures
        rendered_html(content@) is None <==> r is Err,
        r matches Ok(d) ==> rendered_html(content@) == Some(d.html_content@)
            && (d.title@, d.title_status) == title_of(outline_of(content@)),
        r matches Err(e) ==> e@ == "Could not format html."@,
{
    let blocks = parse_outline(content);
    let html = render_html(content);
    file_data_from(&blocks, html)
}

} // verus!
