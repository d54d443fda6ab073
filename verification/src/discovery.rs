//! Finding the descriptor files below a base directory, as a machine
//! that asks for the content of one directory at a time.
//!
//! Paths are lists of names below the base directory; the base itself is
//! the empty list.

use vstd::prelude::*;
use crate::metadata::{descriptor_name, is_descriptor_name};
use crate::text::{copy_strings, views};

verus! {

/// What kind of thing a directory holds under a name.
#[derive(Clone, Copy, Debug, PartialEq, Eq, Structural)]
pub enum LocalKind {
    File,
    Directory,
    /// Neither a file nor a directory, such as a symbolic link.
    Other,
}

/// One entry of a local directory.
#[derive(Debug, PartialEq, Eq)]
pub struct LocalEntry {
    pub name: String,
    pub kind: LocalKind,
}

/// The mathematical value of [`LocalEntry`].
pub struct LocalEntryView {
    pub name: Seq<char>,
    pub kind: LocalKind,
}

impl View for LocalEntry {
    type V = LocalEntryView;

    open spec fn view(&self) -> LocalEntryView {
        LocalEntryView { name: self.name@, kind: self.kind }
    }
}

/// The entries of a directory, each by its view.
pub open spec fn local_views(entries: Seq<LocalEntry>) -> Seq<LocalEntryView> {
    Seq::new(entries.len(), |i: int| entries[i]@)
}

/// A list of paths, each as the texts of its names.
pub open spec fn paths(items: Seq<Vec<String>>) -> Seq<Seq<Seq<char>>> {
    Seq::new(items.len(), |i: int| views(items[i]@))
}

/// Whether an entry is a descriptor file: a file of the fixed name.
pub open spec fn is_descriptor(e: LocalEntryView) -> bool {
    e.kind == LocalKind::File && e.name == descriptor_name()
}

/// Whether an entry is a directory.
pub open spec fn is_directory(e: LocalEntryView) -> bool {
    e.kind == LocalKind::Directory
}

/// The paths of the descriptor files among the entries of `dir`, in the
/// order of the entries.
pub open spec fn descriptors_in(dir: Seq<Seq<char>>, entries: Seq<LocalEntryView>) -> Seq<
    Seq<Seq<char>>,
> {
    entries.filter(|e: LocalEntryView| is_descriptor(e)).map_values(
        |e: LocalEntryView| dir.push(e.name),
    )
}

/// The paths of the directories among the entries of `dir`, in the order
/// of the entries.
pub open spec fn directories_in(dir: Seq<Seq<char>>, entries: Seq<LocalEntryView>) -> Seq<
    Seq<Seq<char>>,
> {
    entries.filter(|e: LocalEntryView| is_directory(e)).map_values(
        |e: LocalEntryView| dir.push(e.name),
    )
}

/// A search between two requests: the directories still to look into,
/// and the descriptor files found so far.
#[derive(Debug, PartialEq, Eq)]
pub struct Discovery {
    pub pending: Vec<Vec<String>>,
    pub found: Vec<Vec<String>>,
}

/// The mathematical value of [`Discovery`].
pub struct DiscoveryView {
    pub pending: Seq<Seq<Seq<char>>>,
    pub found: Seq<Seq<Seq<char>>>,
}

impl View for Discovery {
    type V = DiscoveryView;

    open spec fn view(&self) -> DiscoveryView {
        DiscoveryView { pending: paths(self.pending@), found: paths(self.found@) }
    }
}

/// A search that waits for the entries of the directory `dir`.
#[derive(Debug, PartialEq, Eq)]
pub struct DirectoryRequest {
    pub search: Discovery,
    pub dir: Vec<String>,
}

/// The mathematical value of [`DirectoryRequest`].
pub struct DirectoryRequestView {
    pub search: DiscoveryView,
    pub dir: Seq<Seq<char>>,
}

impl View for DirectoryRequest {
    type V = DirectoryRequestView;

    open spec fn view(&self) -> DirectoryRequestView {
        DirectoryRequestView { search: self.search@, dir: views(self.dir@) }
    }
}

/// What a search does next.
#[derive(Debug, PartialEq, Eq)]
pub enum DiscoveryStep {
    Visit(DirectoryRequest),
    /// Every directory was looked into; these are the descriptor files.
    Finished(Vec<Vec<String>>),
}

/// The mathematical value of [`DiscoveryStep`].
pub enum DiscoveryStepView {
    Visit(DirectoryRequestView),
    Finished(Seq<Seq<Seq<char>>>),
}

impl View for DiscoveryStep {
    type V = DiscoveryStepView;

    open spec fn view(&self) -> DiscoveryStepView {
        match self {
            DiscoveryStep::Visit(r) => DiscoveryStepView::Visit(r@),
            DiscoveryStep::Finished(found) => DiscoveryStepView::Finished(paths(found@)),
        }
    }
}

/// The next step of a search: the directory noted last is looked into
/// next, and the search ends when none is left.
pub open spec fn next_visit(s: DiscoveryView) -> DiscoveryStepView {
    if s.pending.len() == 0 {
        DiscoveryStepView::Finished(s.found)
    } else {
        DiscoveryStepView::Visit(
            DirectoryRequestView {
                search: DiscoveryView { pending: s.pending.drop_last(), found: s.found },
                dir: s.pending.last(),
            },
        )
    }
}

/// The search after the directory of `at` was seen to hold `entries`:
/// its descriptor files are found, its directories are still to look into.
pub open spec fn visited(at: DirectoryRequestView, entries: Seq<LocalEntryView>) -> DiscoveryView {
    DiscoveryView {
        pending: at.search.pending + directories_in(at.dir, entries),
        found: at.search.found + descriptors_in(at.dir, entries),
    }
}

impl Discovery {
    /// Begins a search below the base directory: the base itself is the
    /// first directory to look into.
    pub fn begin() -> (out: DirectoryRequest)
        ensures
            out@ == (DirectoryRequestView {
                search: DiscoveryView {
                    pending: Seq::<Seq<Seq<char>>>::empty(),
                    found: Seq::<Seq<Seq<char>>>::empty(),
                },
                dir: Seq::<Seq<char>>::empty(),
            }),
    {
        let out = DirectoryRequest {
            search: Discovery { pending: Vec::new(), found: Vec::new() },
            dir: Vec::new(),
        };
        proof {
            assert(out@.search.pending =~= Seq::<Seq<Seq<char>>>::empty());
            assert(out@.search.found =~= Seq::<Seq<Seq<char>>>::empty());
            assert(out@.dir =~= Seq::<Seq<char>>::empty());
        }
        out
    }

    /// Decides the next step of the search.
    pub fn advance(self) -> (out: DiscoveryStep)
        ensures
            out@ == next_visit(self@),
    {
        let ghost before = self@;
        let Discovery { mut pending, found } = self;
        match pending.pop() {
            Some(dir) => {
                proof {
                    assert(paths(pending@) =~= before.pending.drop_last());
                }
                DiscoveryStep::Visit(
                    DirectoryRequest { search: Discovery { pending, found }, dir },
                )
            },
            None => DiscoveryStep::Finished(found),
        }
    }
}

/// The path of the entry `name` of the directory `dir`.
pub fn path_below(dir: &Vec<String>, name: &str) -> (out: Vec<String>)
    ensures
        views(out@) == views(dir@).push(name@),
{
    let mut out = copy_strings(dir);
    out.push(String::from_str(name));
    proof {
        assert(views(out@) =~= views(dir@).push(name@));
    }
    out
}

impl DirectoryRequest {
    /// Takes the entries of the directory: each descriptor file among
    /// them is found, each directory is noted to be looked into, and
    /// everything else is passed over.
    pub fn listed(self, entries: &Vec<LocalEntry>) -> (out: Discovery)
        ensures
            out@ == visited(self@, local_views(entries@)),
    {
        let ghost at = self@;
        let ghost all = local_views(entries@);
        let DirectoryRequest { search, dir } = self;
        let Discovery { mut pending, mut found } = search;
        let mut i: usize = 0;
        proof {
            assert(all.subrange(0, 0) =~= Seq::<LocalEntryView>::empty());
            assert(paths(pending@) =~= at.search.pending + directories_in(
                at.dir,
                all.subrange(0, 0),
            ));
            assert(paths(found@) =~= at.search.found + descriptors_in(
                at.dir,
                all.subrange(0, 0),
            ));
        }
        while i < entries.len()
            invariant
                i <= entries.len(),
                all == local_views(entries@),
                at.dir == views(dir@),
                paths(pending@) == at.search.pending + directories_in(
                    at.dir,
                    all.subrange(0, i as int),
                ),
                paths(found@) == at.search.found + descriptors_in(
                    at.dir,
                    all.subrange(0, i as int),
                ),
            decreases entries.len() - i,
        {
            let ghost pending_before = paths(pending@);
            let ghost found_before = paths(found@);
            let ghost seen = all.subrange(0, i as int);
            let ghost e = entries@[i as int]@;
            proof {
                let next = all.subrange(0, i + 1);
                assert(next.drop_last() =~= seen);
                assert(next.last() == e);
                reveal(Seq::filter);
            }
            match entries[i].kind {
                LocalKind::Directory => {
                    pending.push(path_below(&dir, entries[i].name.as_str()));
                    proof {
                        assert(paths(pending@) =~= pending_before.push(at.dir.push(e.name)));
                        assert(directories_in(at.dir, all.subrange(0, i + 1)) =~= directories_in(
                            at.dir,
                            seen,
                        ).push(at.dir.push(e.name)));
                    }
                },
                LocalKind::File => {
                    if is_descriptor_name(entries[i].name.as_str()) {
                        found.push(path_below(&dir, entries[i].name.as_str()));
                        proof {
                            assert(paths(found@) =~= found_before.push(at.dir.push(e.name)));
                            assert(descriptors_in(at.dir, all.subrange(0, i + 1))
                                =~= descriptors_in(at.dir, seen).push(at.dir.push(e.name)));
                        }
                    }
                },
                LocalKind::Other => {},
            }
            i = i + 1;
        }
        proof {
            assert(all.subrange(0, i as int) =~= all);
        }
        Discovery { pending, found }
    }
}

/// One more entry adds its path to the descriptor files if it is one,
/// and to the directories if it is one; else it changes nothing.
pub proof fn lemma_one_more_entry(
    dir: Seq<Seq<char>>,
    entries: Seq<LocalEntryView>,
    e: LocalEntryView,
)
    ensures
        descriptors_in(dir, entries.push(e)) == if is_descriptor(e) {
            descriptors_in(dir, entries).push(dir.push(e.name))
        } else {
            descriptors_in(dir, entries)
        },
        directories_in(dir, entries.push(e)) == if is_directory(e) {
            directories_in(dir, entries).push(dir.push(e.name))
        } else {
            directories_in(dir, entries)
        },
{
    reveal(Seq::filter);
    let more = entries.push(e);
    assert(more.drop_last() =~= entries);
    assert(more.last() == e);
    if is_descriptor(e) {
        assert(descriptors_in(dir, more) =~= descriptors_in(dir, entries).push(dir.push(e.name)));
    } else {
        assert(descriptors_in(dir, more) =~= descriptors_in(dir, entries));
    }
    if is_directory(e) {
        assert(directories_in(dir, more) =~= directories_in(dir, entries).push(dir.push(e.name)));
    } else {
        assert(directories_in(dir, more) =~= directories_in(dir, entries));
    }
}

/// What a directory adds to the descriptor files found is its own
/// descriptor file and nothing else: every path found in it is the
/// directory's path with the descriptor file's name, and one is found
/// exactly when an entry is a file of that name, whatever lies beside it.
pub proof fn lemma_only_descriptors_are_found(dir: Seq<Seq<char>>, entries: Seq<LocalEntryView>)
    ensures
        forall|i: int|
            0 <= i < descriptors_in(dir, entries).len() ==> #[trigger] descriptors_in(
                dir,
                entries,
            )[i] == dir.push(descriptor_name()),
        descriptors_in(dir, entries).len() > 0 <==> exists|i: int|
            0 <= i < entries.len() && is_descriptor(#[trigger] entries[i]),
{
    let pred = |e: LocalEntryView| is_descriptor(e);
    let kept = entries.filter(pred);
    assert forall|i: int| 0 <= i < descriptors_in(dir, entries).len() implies #[trigger] descriptors_in(
        dir,
        entries,
    )[i] == dir.push(descriptor_name()) by {
        entries.lemma_filter_pred(pred, i);
        assert(descriptors_in(dir, entries)[i] == dir.push(kept[i].name));
    }
    if kept.len() > 0 {
        entries.lemma_filter_pred(pred, 0);
        entries.lemma_filter_contains_rev(pred, kept[0]);
        assert(kept.contains(kept[0]));
        let i = choose|i: int| 0 <= i < entries.len() && entries[i] == kept[0];
        assert(is_descriptor(entries[i]));
    }
    if exists|i: int| 0 <= i < entries.len() && is_descriptor(#[trigger] entries[i]) {
        let i = choose|i: int| 0 <= i < entries.len() && is_descriptor(#[trigger] entries[i]);
        entries.lemma_filter_contains(pred, i);
    }
}

} // verus!
