//! One page of the site from its source, and what a run writes.

use crate::convert::{md_to_file_data, outline_of, rendered_html, title_of, TitleStatus};
use crate::paths::{all_absolute, outside_message, page_destination, page_target, GenericError, Opt};
use crate::template::{assemble, page_text};
use vstd::prelude::*;

verus! {

/// A page ready to be written.
pub struct Page {
    pub destination: String,
    pub content: String,
    pub title_status: TitleStatus,
}

/// Why a page could not be built.
pub enum PageError {
    /// The source lies outside the input root: the run must stop.
    Mapping(GenericError),
    /// The source could not be rendered: the page is skipped.
    Conversion(String),
}

/// The destination and the text of the page for one source, or `None`
/// where it has none.
pub open spec fn page_for(
    cfg: Opt,
    source: Seq<char>,
    content: Seq<char>,
    header: Seq<char>,
    footer: Seq<char>,
) -> Option<(Seq<char>, Seq<char>)> {
    match (page_target(cfg, source), rendered_html(content)) {
        (Some(d), Some(h)) => Some((d, page_text(header, footer, title_of(outline_of(content)).0, h))),
        _ => None,
    }
}

/// The files that a run writes for the given sources (path and text of
/// each), in order; a source without a page writes nothing.
pub open spec fn site_writes(
    cfg: Opt,
    sources: Seq<(Seq<char>, Seq<char>)>,
    header: Seq<char>,
    footer: Seq<char>,
) -> Seq<(Seq<char>, Seq<char>)>
    decreases sources.len(),
{
    if sources.len() == 0 {
        Seq::empty()
    } else {
        let rest = site_writes(cfg, sources.drop_last(), header, footer);
        match page_for(cfg, sources.last().0, sources.last().1, header, footer) {
            Some(w) => rest.push(w),
            None => rest,
        }
    }
}

/// A tree of files, from path to content, after the given writes in order.
pub open spec fn apply_writes(
    tree: Map<Seq<char>, Seq<char>>,
    ws: Seq<(Seq<char>, Seq<char>)>,
) -> Map<Seq<char>, Seq<char>>
    decreases ws.len(),
{
    if ws.len() == 0 {
        tree
    } else {
        apply_writes(tree, ws.drop_last()).insert(ws.last().0, ws.last().1)
    }
}

/// The content that the last write to `path` leaves, where one writes it.
pub open spec fn last_write(ws: Seq<(Seq<char>, Seq<char>)>, path: Seq<char>) -> Option<Seq<char>>
    decreases ws.len(),
{
    if ws.len() == 0 {
        None
    } else if ws.last().0 == path {
        Some(ws.last().1)
    } else {
        last_write(ws.drop_last(), path)
    }
}

/// After a sequence of writes, a path holds what was last written to it,
/// and otherwise what it held before.
pub proof fn lemma_apply_writes(tree: Map<Seq<char>, Seq<char>>, ws: Seq<(Seq<char>, Seq<char>)>, path: Seq<char>)
    ensures
        apply_writes(tree, ws).contains_key(path) == (last_write(ws, path) is Some || tree.contains_key(path)),
        last_write(ws, path) matches Some(v) ==> apply_writes(tree, ws)[path] == v,
        last_write(ws, path) is None && tree.contains_key(path) ==> apply_writes(tree, ws)[path] == tree[path],
    decreases ws.len(),
{
    if ws.len() > 0 {
        lemma_apply_writes(tree, ws.drop_last(), path);
    }
}

/// Running the generator a second time over an unchanged source tree, into
/// the output tree that the first run left, changes no file.
pub proof fn lemma_rebuild_identical(
    cfg: Opt,
    sources: Seq<(Seq<char>, Seq<char>)>,
    header: Seq<char>,
    footer: Seq<char>,
    tree: Map<Seq<char>, Seq<char>>,
)
    ensures
        apply_writes(apply_writes(tree, site_writes(cfg, sources, header, footer)),
            site_writes(cfg, sources, header, footer))
            == apply_writes(tree, site_writes(cfg, sources, header, footer)),
{
    let ws = site_writes(cfg, sources, header, footer);
    let once = apply_writes(tree, ws);
    let twice = apply_writes(once, ws);
    assert forall|p: Seq<char>| #[trigger] twice.contains_key(p) == once.contains_key(p)
        && (once.contains_key(p) ==> twice[p] == once[p]) by {
        lemma_apply_writes(tree, ws, p);
        lemma_apply_writes(once, ws, p);
    }
    assert(twice =~= once);
}

/// Builds the page for the source at `source` with text `content`: its
/// destination below the output root and its full text.
pub fn build_page(
    parameters: &Opt,
    source: &String,
    content: &str,
    header: &str,
    footer: &str,
) -> (r: Result<Page, PageError>)
    requires
        all_absolute(*parameters, source@),
    ensures
        r matches Ok(p) ==> page_for(*parameters, source@, content@, header@, footer@)
            == Some((p.destination@, p.content@))
            && p.title_status == title_of(outline_of(content@)).1,
        r matches Err(PageError::Mapping(e)) ==> page_target(*parameters, source@) is None
            && e.message@ == outside_message(),
        r matches Err(PageError::Conversion(_)) ==> page_target(*parameters, source@) is Some
            && rendered_html(content@) is None,
{
    let destination = match page_destination(parameters, source) {
        Ok(d) => d,
        Err(e) => return Err(PageError::Mapping(e)),
    };
    let data = match md_to_file_data(content) {
        Ok(d) => d,
        Err(e) => return Err(PageError::Conversion(e)),
    };
    let text = assemble(header, footer, &data);
    Ok(Page { destination, content: text, title_status: data.title_status })
}

} // verus!
