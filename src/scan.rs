//! Discovery of Markdown sources under the input root.
//!
//! The walk is driven from outside: the caller takes the next directory to
//! list, reads it, and hands the listing back. A directory is entered at
//! most once, so that links forming a cycle end the walk all the same.

use crate::paths::{extension, is_markdown};
use crate::text::same_text;
use vstd::prelude::*;

verus! {

/// One entry of a directory listing: its canonical path and whether it is
/// a directory.
pub struct DirEntry {
    pub path: String,
    pub is_dir: bool,
}

impl View for DirEntry {
    type V = (Seq<char>, bool);

    open spec fn view(&self) -> (Seq<char>, bool) {
        (self.path@, self.is_dir)
    }
}

/// The state of a walk, as sequences of paths.
pub struct ScanModel {
    /// Directories found and not listed yet, the next one last.
    pub pending: Seq<Seq<char>>,
    /// Directories found so far, listed or not.
    pub seen: Seq<Seq<char>>,
    /// Markdown files found so far, in the order found.
    pub found: Seq<Seq<char>>,
}

/// The state after one entry of a listing: a directory not seen before is
/// queued, a Markdown file not found before is recorded, anything else is
/// passed over.
pub open spec fn after_entry(s: ScanModel, e: (Seq<char>, bool)) -> ScanModel {
    if e.1 {
        if s.seen.contains(e.0) {
            s
        } else {
            ScanModel { pending: s.pending.push(e.0), seen: s.seen.push(e.0), found: s.found }
        }
    } else if extension(e.0) == Some("md"@) && !s.found.contains(e.0) {
        ScanModel { found: s.found.push(e.0), ..s }
    } else {
        s
    }
}

/// The state after a whole listing, taken in order.
pub open spec fn after_listing(s: ScanModel, es: Seq<(Seq<char>, bool)>) -> ScanModel
    decreases es.len(),
{
    if es.len() == 0 {
        s
    } else {
        after_entry(after_listing(s, es.drop_last()), es.last())
    }
}

/// Whether `paths` holds `p`.
fn holds_path(paths: &Vec<String>, p: &String) -> (r: bool)
    ensures
        r == paths@.map_values(|q: String| q@).contains(p@),
{
    let ghost view = paths@.map_values(|q: String| q@);
    let mut i: usize = 0;
    while i < paths.len()
        invariant
            i <= paths@.len(),
            view == paths@.map_values(|q: String| q@),
            forall|k: int| 0 <= k < i ==> view[k] != p@,
        decreases paths@.len() - i,
    {
        if same_text(paths[i].as_str(), p.as_str()) {
            assert(view[i as int] == p@);
            return true;
        }
        i += 1;
    }
    false
}

/// The Markdown files among the entries of a listing.
pub open spec fn markdown_entries(es: Seq<(Seq<char>, bool)>) -> Set<Seq<char>>
    decreases es.len(),
{
    if es.len() == 0 {
        Set::empty()
    } else if !es.last().1 && extension(es.last().0) == Some("md"@) {
        markdown_entries(es.drop_last()).insert(es.last().0)
    } else {
        markdown_entries(es.drop_last())
    }
}

/// Taking in a listing adds to the files found exactly the Markdown files
/// that it holds: no other path, none left out.
pub proof fn lemma_listing_adds_markdown_files(s: ScanModel, es: Seq<(Seq<char>, bool)>)
    ensures
        after_listing(s, es).found.to_set() == s.found.to_set().union(markdown_entries(es)),
    decreases es.len(),
{
    if es.len() > 0 {
        let prev = after_listing(s, es.drop_last());
        lemma_listing_adds_markdown_files(s, es.drop_last());
        let e = es.last();
        if !e.1 && extension(e.0) == Some("md"@) {
            if prev.found.contains(e.0) {
                assert(prev.found.to_set().contains(e.0));
            } else {
                prev.found.lemma_push_to_set_commute(e.0);
            }
        }
        assert(after_listing(s, es).found.to_set() =~= s.found.to_set().union(markdown_entries(es)));
    } else {
        assert(s.found.to_set().union(Set::empty()) =~= s.found.to_set());
    }
}

/// A walk over a directory tree.
pub struct Scanner {
    pending: Vec<String>,
    seen: Vec<String>,
    found: Vec<String>,
}

impl View for Scanner {
    type V = ScanModel;

    closed spec fn view(&self) -> ScanModel {
        ScanModel {
            pending: self.pending@.map_values(|p: String| p@),
            seen: self.seen@.map_values(|p: String| p@),
            found: self.found@.map_values(|p: String| p@),
        }
    }
}

impl Scanner {
    /// Every queued directory has been seen, no directory is seen twice, and
    /// every file found is a Markdown source, found once.
    pub open spec fn wf(&self) -> bool {
        &&& forall|i: int| 0 <= i < self@.pending.len() ==> self@.seen.contains(#[trigger] self@.pending[i])
        &&& self@.seen.no_duplicates()
        &&& forall|i: int| 0 <= i < self@.found.len() ==> extension(#[trigger] self@.found[i]) == Some("md"@)
        &&& self@.found.no_duplicates()
    }

    /// Starts a walk at `root`, which is the first directory to list.
    pub fn new(root: String) -> (r: Scanner)
        ensures
            r.wf(),
            r@.pending == seq![root@],
            r@.seen == seq![root@],
            r@.found == Seq::<Seq<char>>::empty(),
    {
        let r = Scanner { pending: vec![root.clone()], seen: vec![root], found: Vec::new() };
        assert(r@.pending =~= seq![root@]);
        assert(r@.seen =~= seq![root@]);
        assert(r@.found =~= Seq::<Seq<char>>::empty());
        r
    }

    /// Takes the next directory to list, or `None` when the walk is over.
    pub fn next_dir(&mut self) -> (r: Option<String>)
        requires
            old(self).wf(),
        ensures
            final(self).wf(),
            old(self)@.pending.len() == 0 ==> r is None && final(self)@ == old(self)@,
            old(self)@.pending.len() > 0 ==> (r matches Some(d) && d@ == old(self)@.pending.last()
                && final(self)@ == (ScanModel { pending: old(self)@.pending.drop_last(), ..old(self)@ })),
    {
        let r = self.pending.pop();
        proof {
            if old(self)@.pending.len() > 0 {
                assert(self@.pending =~= old(self)@.pending.drop_last());
                assert forall|i: int| 0 <= i < self@.pending.len() implies self@.seen.contains(
                    #[trigger] self@.pending[i]) by {
                    assert(self@.pending[i] == old(self)@.pending[i]);
                }
            } else {
                assert(self@.pending =~= old(self)@.pending);
            }
        }
        r
    }

    /// Takes in the listing of a directory.
    pub fn add_listing(&mut self, entries: &Vec<DirEntry>)
        requires
            old(self).wf(),
        ensures
            final(self).wf(),
            final(self)@ == after_listing(old(self)@, entries@.map_values(|e: DirEntry| e@)),
    {
        let ghost es = entries@.map_values(|e: DirEntry| e@);
        let mut i: usize = 0;
        assert(es.take(0) =~= Seq::<(Seq<char>, bool)>::empty());
        while i < entries.len()
            invariant
                self.wf(),
                i <= entries@.len(),
                es == entries@.map_values(|e: DirEntry| e@),
                self@ == after_listing(old(self)@, es.take(i as int)),
            decreases entries@.len() - i,
        {
            let e = &entries[i];
            assert(es.take(i + 1).drop_last() =~= es.take(i as int));
            let ghost before = self@;
            if e.is_dir {
                if !holds_path(&self.seen, &e.path) {
                    self.pending.push(e.path.clone());
                    self.seen.push(e.path.clone());
                    assert(self@.pending =~= before.pending.push(e.path@));
                    assert(self@.seen =~= before.seen.push(e.path@));
                    assert(self.wf()) by {
                        assert forall|k: int| 0 <= k < self@.pending.len() implies self@.seen.contains(
                            #[trigger] self@.pending[k]) by {
                            if k < before.pending.len() {
                                assert(before.seen.contains(before.pending[k]));
                                let w = choose|w: int| 0 <= w < before.seen.len() && before.seen[w] == before.pending[k];
                                assert(self@.seen[w] == before.seen[w]);
                            } else {
                                assert(self@.seen[before.seen.len() as int] == e.path@);
                            }
                        }
                    }
                }
            } else if is_markdown(e.path.as_str()) && !holds_path(&self.found, &e.path) {
                self.found.push(e.path.clone());
                assert(self@.found =~= before.found.push(e.path@));
                assert(self@.found.no_duplicates()) by {
                    assert forall|a: int, b: int| 0 <= a < b < self@.found.len() implies self@.found[a]
                        != self@.found[b] by {
                        if b == before.found.len() {
                            assert(self@.found[a] == before.found[a]);
                        } else {
                            assert(self@.found[a] == before.found[a] && self@.found[b] == before.found[b]);
                        }
                    }
                }
            }
            assert(self@ == after_entry(before, es[i as int]));
            i += 1;
        }
        assert(es.take(i as int) =~= es);
    }

    /// The Markdown files found so far.
    pub fn files(&self) -> (r: &Vec<String>)
        ensures
            r@.map_values(|p: String| p@) == self@.found,
    {
        &self.found
    }
}

} // verus!
