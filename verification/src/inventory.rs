//! The descriptor files of a whole local tree, said once over the tree,
//! and the proof that a search finds exactly these.
//!
//! The tree is a model: the directories as the file system would list
//! them, each directory with the tree below it. A search that is given
//! the entries of each directory it asks for ends with the descriptor
//! files of the tree, each once, whatever else lies beside them.

use vstd::prelude::*;
use crate::discovery::{
    descriptors_in, directories_in, is_directory, lemma_one_more_entry, next_visit, visited,
    DirectoryRequestView, DiscoveryStepView, DiscoveryView, LocalEntryView,
};

verus! {

/// One entry of a local directory with what lies below it. The children
/// count only where the entry is a directory.
pub struct LocalTree {
    pub entry: LocalEntryView,
    pub children: Seq<LocalTree>,
}

/// A directory of the tree: its path and what it holds.
pub struct TreeDir {
    pub dir: Seq<Seq<char>>,
    pub folder: Seq<LocalTree>,
}

/// A search that looks into one directory of the tree, with the
/// directories noted for later and the descriptor files found so far.
pub struct TreeSearch {
    pub visiting: TreeDir,
    pub pending: Seq<TreeDir>,
    pub found: Seq<Seq<Seq<char>>>,
}

/// The entries that the file system gives of a directory.
pub open spec fn local_listing(folder: Seq<LocalTree>) -> Seq<LocalEntryView> {
    Seq::new(folder.len(), |i: int| folder[i].entry)
}

/// The descriptor files of the tree below `dir`: those that `dir` holds
/// itself, then those of its subdirectories.
pub open spec fn descriptors_below(dir: Seq<Seq<char>>, folder: Seq<LocalTree>) -> Seq<
    Seq<Seq<char>>,
>
    decreases folder, 1int,
{
    descriptors_in(dir, local_listing(folder)) + deeper_descriptors(dir, folder)
}

/// The descriptor files of the subdirectories of `dir`, the last
/// subdirectory first.
pub open spec fn deeper_descriptors(dir: Seq<Seq<char>>, folder: Seq<LocalTree>) -> Seq<
    Seq<Seq<char>>,
>
    decreases folder, 0int,
{
    if folder.len() == 0 {
        Seq::empty()
    } else {
        tree_descriptors(dir, folder.last()) + deeper_descriptors(dir, folder.drop_last())
    }
}

/// The descriptor files below one entry of `dir`: none unless it is a
/// directory.
pub open spec fn tree_descriptors(dir: Seq<Seq<char>>, tree: LocalTree) -> Seq<Seq<Seq<char>>>
    decreases tree, 0int,
{
    if is_directory(tree.entry) {
        descriptors_below(dir.push(tree.entry.name), tree.children)
    } else {
        Seq::empty()
    }
}

/// How many directories lie below a directory that holds `folder`.
pub open spec fn directories_below(folder: Seq<LocalTree>) -> nat
    decreases folder, 0int,
{
    if folder.len() == 0 {
        0
    } else {
        tree_directories(folder.last()) + directories_below(folder.drop_last())
    }
}

/// How many directories one entry stands for: itself and those below
/// it, if it is a directory.
pub open spec fn tree_directories(tree: LocalTree) -> nat
    decreases tree, 0int,
{
    if is_directory(tree.entry) {
        1 + directories_below(tree.children)
    } else {
        0
    }
}

/// The subdirectories of `dir`, in the order of its entries.
pub open spec fn subdirectories(dir: Seq<Seq<char>>, folder: Seq<LocalTree>) -> Seq<TreeDir> {
    folder.filter(|t: LocalTree| is_directory(t.entry)).map_values(
        |t: LocalTree| TreeDir { dir: dir.push(t.entry.name), folder: t.children },
    )
}

/// The paths of directories.
pub open spec fn dirs(items: Seq<TreeDir>) -> Seq<Seq<Seq<char>>> {
    Seq::new(items.len(), |i: int| items[i].dir)
}

/// The descriptor files below the directories noted for later, the
/// directory noted last first.
pub open spec fn pending_descriptors(pending: Seq<TreeDir>) -> Seq<Seq<Seq<char>>>
    decreases pending.len(),
{
    if pending.len() == 0 {
        Seq::empty()
    } else {
        descriptors_below(pending.last().dir, pending.last().folder) + pending_descriptors(
            pending.drop_last(),
        )
    }
}

/// How many directories the noted ones stand for.
pub open spec fn pending_directories(pending: Seq<TreeDir>) -> nat
    decreases pending.len(),
{
    if pending.len() == 0 {
        0
    } else {
        1 + directories_below(pending.last().folder) + pending_directories(pending.drop_last())
    }
}

/// What the search asks for.
pub open spec fn request_of(s: TreeSearch) -> DirectoryRequestView {
    DirectoryRequestView {
        search: DiscoveryView { pending: dirs(s.pending), found: s.found },
        dir: s.visiting.dir,
    }
}

/// What the search ends with: what it has found, what the directory it
/// looks into holds below it, and what the noted directories hold.
pub open spec fn outcome(s: TreeSearch) -> Seq<Seq<Seq<char>>> {
    s.found + descriptors_below(s.visiting.dir, s.visiting.folder) + pending_descriptors(
        s.pending,
    )
}

/// The step that the search takes once it is given the entries of the
/// directory it looks into.
pub open spec fn step_of(s: TreeSearch) -> DiscoveryStepView {
    next_visit(visited(request_of(s), local_listing(s.visiting.folder)))
}

/// The search after that step, if it goes on: it looks into the
/// directory noted last.
pub open spec fn after_visit(s: TreeSearch) -> Option<TreeSearch> {
    let noted = s.pending + subdirectories(s.visiting.dir, s.visiting.folder);
    if noted.len() == 0 {
        None
    } else {
        Some(
            TreeSearch {
                visiting: noted.last(),
                pending: noted.drop_last(),
                found: s.found + descriptors_in(s.visiting.dir, local_listing(s.visiting.folder)),
            },
        )
    }
}

/// What a search ends with when each directory it asks for is answered
/// with its entries, as long as `fuel` lasts.
pub open spec fn search_result(s: TreeSearch, fuel: nat) -> Option<Seq<Seq<Seq<char>>>>
    decreases fuel,
{
    match step_of(s) {
        DiscoveryStepView::Finished(found) => Some(found),
        DiscoveryStepView::Visit(_) => match after_visit(s) {
            Some(next) => if fuel == 0 {
                None
            } else {
                search_result(next, (fuel - 1) as nat)
            },
            None => None,
        },
    }
}

/// The subdirectories of a directory grow with its last entry, if that
/// is a directory.
proof fn lemma_subdirectories_last(dir: Seq<Seq<char>>, folder: Seq<LocalTree>)
    requires
        folder.len() > 0,
    ensures
        is_directory(folder.last().entry) ==> subdirectories(dir, folder) == subdirectories(
            dir,
            folder.drop_last(),
        ).push(
            TreeDir { dir: dir.push(folder.last().entry.name), folder: folder.last().children },
        ),
        !is_directory(folder.last().entry) ==> subdirectories(dir, folder) == subdirectories(
            dir,
            folder.drop_last(),
        ),
{
    reveal(Seq::filter);
    if is_directory(folder.last().entry) {
        assert(subdirectories(dir, folder) =~= subdirectories(dir, folder.drop_last()).push(
            TreeDir { dir: dir.push(folder.last().entry.name), folder: folder.last().children },
        ));
    } else {
        assert(subdirectories(dir, folder) =~= subdirectories(dir, folder.drop_last()));
    }
}

/// The paths of the subdirectories are the directories among the
/// entries.
proof fn lemma_subdirectory_paths(dir: Seq<Seq<char>>, folder: Seq<LocalTree>)
    ensures
        dirs(subdirectories(dir, folder)) == directories_in(dir, local_listing(folder)),
    decreases folder.len(),
{
    if folder.len() == 0 {
        reveal(Seq::filter);
        assert(local_listing(folder) =~= Seq::<LocalEntryView>::empty());
        assert(dirs(subdirectories(dir, folder)) =~= directories_in(dir, local_listing(folder)));
    } else {
        let shorter = folder.drop_last();
        let last = folder.last();
        lemma_subdirectory_paths(dir, shorter);
        lemma_subdirectories_last(dir, folder);
        assert(local_listing(folder) =~= local_listing(shorter).push(last.entry));
        lemma_one_more_entry(dir, local_listing(shorter), last.entry);
        if is_directory(last.entry) {
            assert(dirs(subdirectories(dir, folder)) =~= dirs(subdirectories(dir, shorter)).push(
                dir.push(last.entry.name),
            ));
        }
    }
}

/// A directory noted last is looked into first: what lies below it
/// comes before what lies below the others.
proof fn lemma_noted_last(pending: Seq<TreeDir>, noted: TreeDir)
    ensures
        pending_descriptors(pending.push(noted)) == descriptors_below(noted.dir, noted.folder)
            + pending_descriptors(pending),
        pending_directories(pending.push(noted)) == 1 + directories_below(noted.folder)
            + pending_directories(pending),
{
    let all = pending.push(noted);
    assert(all.drop_last() =~= pending);
    assert(all.last() == noted);
}

/// Noting the subdirectories of a directory adds what lies below them,
/// in descriptor files and in directories.
proof fn lemma_noting_subdirectories(
    dir: Seq<Seq<char>>,
    folder: Seq<LocalTree>,
    pending: Seq<TreeDir>,
)
    ensures
        pending_descriptors(pending + subdirectories(dir, folder)) == deeper_descriptors(
            dir,
            folder,
        ) + pending_descriptors(pending),
        pending_directories(pending + subdirectories(dir, folder)) == directories_below(folder)
            + pending_directories(pending),
    decreases folder.len(),
{
    if folder.len() == 0 {
        reveal(Seq::filter);
        assert(subdirectories(dir, folder) =~= Seq::<TreeDir>::empty());
        assert(pending + subdirectories(dir, folder) =~= pending);
        assert(deeper_descriptors(dir, folder) =~= Seq::<Seq<Seq<char>>>::empty());
        assert(deeper_descriptors(dir, folder) + pending_descriptors(pending)
            =~= pending_descriptors(pending));
        assert(directories_below(folder) == 0);
    } else {
        let shorter = folder.drop_last();
        let last = folder.last();
        lemma_noting_subdirectories(dir, shorter, pending);
        lemma_subdirectories_last(dir, folder);
        let before = pending + subdirectories(dir, shorter);
        assert(deeper_descriptors(dir, folder) == tree_descriptors(dir, last)
            + deeper_descriptors(dir, shorter));
        assert(directories_below(folder) == tree_directories(last) + directories_below(shorter));
        if is_directory(last.entry) {
            let noted = TreeDir { dir: dir.push(last.entry.name), folder: last.children };
            let all = pending + subdirectories(dir, folder);
            assert(all =~= before.push(noted));
            lemma_noted_last(before, noted);
            assert(tree_descriptors(dir, last) == descriptors_below(noted.dir, noted.folder));
            assert(tree_directories(last) == 1 + directories_below(noted.folder));
            assert(pending_descriptors(all) =~= deeper_descriptors(dir, folder)
                + pending_descriptors(pending));
        } else {
            assert(tree_descriptors(dir, last) =~= Seq::<Seq<Seq<char>>>::empty());
            assert(tree_directories(last) == 0);
            assert(deeper_descriptors(dir, folder) =~= deeper_descriptors(dir, shorter));
        }
    }
}

/// One visit of a search keeps what the search ends with. Where no
/// directory is left, the search is finished with exactly that; else it
/// goes on, in the directory noted last, towards the same end and with
/// one directory less before it.
pub proof fn lemma_visit_keeps_outcome(s: TreeSearch)
    ensures
        match after_visit(s) {
            None => step_of(s) == DiscoveryStepView::Finished(outcome(s)),
            Some(next) => {
                &&& step_of(s) == DiscoveryStepView::Visit(request_of(next))
                &&& outcome(next) == outcome(s)
                &&& directories_below(next.visiting.folder) + pending_directories(next.pending)
                    + 1 == directories_below(s.visiting.folder) + pending_directories(s.pending)
            },
        },
{
    let dir = s.visiting.dir;
    let folder = s.visiting.folder;
    let noted = s.pending + subdirectories(dir, folder);
    let found = s.found + descriptors_in(dir, local_listing(folder));
    let seen = visited(request_of(s), local_listing(folder));
    lemma_subdirectory_paths(dir, folder);
    lemma_noting_subdirectories(dir, folder, s.pending);
    assert(seen.pending =~= dirs(noted));
    assert(seen.found == found);
    if noted.len() == 0 {
        assert(s.pending =~= Seq::<TreeDir>::empty());
        assert(deeper_descriptors(dir, folder) =~= Seq::<Seq<Seq<char>>>::empty());
        assert(outcome(s) =~= found);
    } else {
        let next = after_visit(s)->0;
        assert(dirs(noted).drop_last() =~= dirs(noted.drop_last()));
        assert(noted =~= noted.drop_last().push(noted.last()));
        lemma_noted_last(noted.drop_last(), noted.last());
        let here = descriptors_in(dir, local_listing(folder));
        let deeper = deeper_descriptors(dir, folder);
        let later = pending_descriptors(s.pending);
        assert(descriptors_below(dir, folder) == here + deeper);
        assert(pending_descriptors(noted) == deeper + later);
        assert(pending_descriptors(noted) == descriptors_below(
            next.visiting.dir,
            next.visiting.folder,
        ) + pending_descriptors(next.pending));
        assert(outcome(next) == (s.found + here) + descriptors_below(
            next.visiting.dir,
            next.visiting.folder,
        ) + pending_descriptors(next.pending));
        assert(outcome(next) =~= (s.found + here) + pending_descriptors(noted));
        assert(outcome(s) =~= (s.found + here) + (deeper + later));
    }
}

/// A search finds what the tree holds: with fuel for every directory
/// that is left, it ends, and with the descriptor files that it had
/// found, those below the directory it looks into, and those below the
/// directories noted for later.
pub proof fn lemma_search_finds_outcome(s: TreeSearch, fuel: nat)
    requires
        fuel >= directories_below(s.visiting.folder) + pending_directories(s.pending),
    ensures
        search_result(s, fuel) == Some(outcome(s)),
    decreases fuel,
{
    lemma_visit_keeps_outcome(s);
    match after_visit(s) {
        None => {},
        Some(next) => {
            lemma_search_finds_outcome(next, (fuel - 1) as nat);
        },
    }
}

/// A search below a base directory finds exactly the descriptor files
/// of the tree below it: those at any depth, each once, and nothing else.
pub proof fn lemma_discovery_finds_all(base: Seq<LocalTree>, fuel: nat)
    requires
        fuel >= directories_below(base),
    ensures
        ({
            let begun = TreeSearch {
                visiting: TreeDir { dir: Seq::<Seq<char>>::empty(), folder: base },
                pending: Seq::<TreeDir>::empty(),
                found: Seq::<Seq<Seq<char>>>::empty(),
            };
            &&& request_of(begun) == (DirectoryRequestView {
                search: DiscoveryView {
                    pending: Seq::<Seq<Seq<char>>>::empty(),
                    found: Seq::<Seq<Seq<char>>>::empty(),
                },
                dir: Seq::<Seq<char>>::empty(),
            })
            &&& search_result(begun, fuel) == Some(
                descriptors_below(Seq::<Seq<char>>::empty(), base),
            )
        }),
{
    let begun = TreeSearch {
        visiting: TreeDir { dir: Seq::<Seq<char>>::empty(), folder: base },
        pending: Seq::<TreeDir>::empty(),
        found: Seq::<Seq<Seq<char>>>::empty(),
    };
    assert(dirs(begun.pending) =~= Seq::<Seq<Seq<char>>>::empty());
    assert(outcome(begun) =~= descriptors_below(Seq::<Seq<char>>::empty(), base));
    lemma_search_finds_outcome(begun, fuel);
}

} // verus!
