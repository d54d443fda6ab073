//! What resolving a remote folder amounts to, said once over the whole
//! tree, and the proof that a walk does exactly that.
//!
//! The tree is a model: the folders as the service would list them, each
//! directory with the tree below it. The plan of a folder is the list of
//! requests that its resolution makes, in order. The walk, answered
//! faithfully and with success, makes the requests of the plan, one by
//! one, and ends when the plan is used up.

use vstd::prelude::*;
use crate::link::CoordinatesView;
use crate::remote::{child_of, EntryKind, RemoteEntryView};
use crate::resolver::{entered, next_step, past_first, FrameView, ListingView, StepView};

verus! {

/// One entry of a remote folder with what lies below it. The children
/// count only where the entry is a directory.
pub struct RemoteTree {
    pub entry: RemoteEntryView,
    pub children: Seq<RemoteTree>,
}

/// A request of a walk, without the walk.
pub enum RequestView {
    /// The folder at `coords` is listed, and is the local folder `local`.
    List { coords: CoordinatesView, local: Seq<Seq<char>> },
    /// `url` is fetched and written to the file `name` in `local`.
    Fetch { local: Seq<Seq<char>>, name: Seq<char>, url: Seq<char> },
}

/// A folder that is being walked, with the trees of the entries that are
/// still to come.
pub struct TreeFrame {
    pub coords: CoordinatesView,
    pub local: Seq<Seq<char>>,
    pub rest: Seq<RemoteTree>,
}

/// The listing that the service gives of a folder.
pub open spec fn listing(folder: Seq<RemoteTree>) -> Seq<RemoteEntryView> {
    Seq::new(folder.len(), |i: int| folder[i].entry)
}

/// The requests that resolve one entry of the folder at `coords`: a
/// file with a download address is fetched; a directory is listed as the
/// child of the folder and resolved entry by entry; anything else asks
/// for nothing.
pub open spec fn entry_plan(
    coords: CoordinatesView,
    local: Seq<Seq<char>>,
    tree: RemoteTree,
) -> Seq<RequestView>
    decreases tree,
{
    match tree.entry.kind {
        EntryKind::File => match tree.entry.download_url {
            Some(url) => seq![RequestView::Fetch { local, name: tree.entry.name, url }],
            None => Seq::empty(),
        },
        EntryKind::Directory => {
            let child = child_of(coords, tree.entry.name);
            let below = local.push(tree.entry.name);
            seq![RequestView::List { coords: child, local: below }] + entries_plan(
                child,
                below,
                tree.children,
            )
        },
        EntryKind::Other => Seq::empty(),
    }
}

/// The requests that resolve the entries of the folder at `coords`, in
/// the order of the listing.
pub open spec fn entries_plan(
    coords: CoordinatesView,
    local: Seq<Seq<char>>,
    folder: Seq<RemoteTree>,
) -> Seq<RequestView>
    decreases folder,
{
    if folder.len() == 0 {
        Seq::empty()
    } else {
        entry_plan(coords, local, folder[0]) + entries_plan(coords, local, folder.skip(1))
    }
}

/// The requests that resolve the folder at `coords` into `local`: its
/// own listing, then its entries.
pub open spec fn folder_plan(
    coords: CoordinatesView,
    local: Seq<Seq<char>>,
    folder: Seq<RemoteTree>,
) -> Seq<RequestView> {
    seq![RequestView::List { coords, local }] + entries_plan(coords, local, folder)
}

/// What the walk knows of a frame: the entries, not the trees below.
pub open spec fn frame_of(f: TreeFrame) -> FrameView {
    FrameView { coords: f.coords, local: f.local, rest: listing(f.rest) }
}

/// What the walk knows of its frames.
pub open spec fn frames_of(frames: Seq<TreeFrame>) -> Seq<FrameView> {
    Seq::new(frames.len(), |i: int| frame_of(frames[i]))
}

/// The requests that are still to be made when these folders are being
/// walked, the innermost last.
pub open spec fn remaining_plan(frames: Seq<TreeFrame>) -> Seq<RequestView>
    decreases frames.len(),
{
    if frames.len() == 0 {
        Seq::empty()
    } else {
        entries_plan(frames.last().coords, frames.last().local, frames.last().rest)
            + remaining_plan(frames.drop_last())
    }
}

/// How many entries the innermost folder has left.
pub open spec fn innermost_trees(frames: Seq<TreeFrame>) -> nat {
    if frames.len() == 0 {
        0
    } else {
        frames.last().rest.len()
    }
}

/// `frames` with the first entry of the innermost folder dealt with.
pub open spec fn past_first_tree(frames: Seq<TreeFrame>) -> Seq<TreeFrame> {
    let top = frames.last();
    frames.drop_last().push(TreeFrame { rest: top.rest.skip(1), ..top })
}

/// The folders that are being walked once the next request is answered
/// with success, a listing with the entries of the directory asked for.
pub open spec fn after_request(frames: Seq<TreeFrame>) -> Seq<TreeFrame>
    decreases frames.len(), innermost_trees(frames),
{
    if frames.len() == 0 {
        frames
    } else if frames.last().rest.len() == 0 {
        after_request(frames.drop_last())
    } else {
        let top = frames.last();
        let tree = top.rest[0];
        let past = past_first_tree(frames);
        match tree.entry.kind {
            EntryKind::File => match tree.entry.download_url {
                Some(_) => past,
                None => after_request(past),
            },
            EntryKind::Directory => past.push(
                TreeFrame {
                    coords: child_of(top.coords, tree.entry.name),
                    local: top.local.push(tree.entry.name),
                    rest: tree.children,
                },
            ),
            EntryKind::Other => after_request(past),
        }
    }
}

/// The request that a step makes.
pub open spec fn request_of(step: StepView) -> Option<RequestView> {
    match step {
        StepView::List(r) => Some(RequestView::List { coords: r.coords, local: r.local }),
        StepView::Fetch(r) => Some(
            RequestView::Fetch { local: r.local, name: r.name, url: r.url },
        ),
        StepView::Finished => None,
    }
}

/// The requests that a walk makes from these folders on, as long as
/// `fuel` lasts: each is the request of the walk's next step.
pub open spec fn walk_requests(frames: Seq<TreeFrame>, fuel: nat) -> Seq<RequestView>
    decreases fuel,
{
    if fuel == 0 {
        Seq::empty()
    } else {
        match request_of(next_step(frames_of(frames))) {
            Some(request) => seq![request] + walk_requests(
                after_request(frames),
                (fuel - 1) as nat,
            ),
            None => Seq::empty(),
        }
    }
}

/// The walk's view of frames commutes with leaving a folder and with
/// dealing with an entry.
proof fn lemma_frames_of_steps(frames: Seq<TreeFrame>)
    requires
        frames.len() > 0,
    ensures
        frames_of(frames.drop_last()) == frames_of(frames).drop_last(),
        frames_of(frames).last() == frame_of(frames.last()),
        frames.last().rest.len() > 0 ==> frames_of(past_first_tree(frames)) == past_first(
            frames_of(frames),
        ),
{
    assert(frames_of(frames.drop_last()) =~= frames_of(frames).drop_last());
    if frames.last().rest.len() > 0 {
        let top = frames.last();
        assert(listing(top.rest.skip(1)) =~= listing(top.rest).skip(1));
        assert(frames_of(past_first_tree(frames)) =~= past_first(frames_of(frames)));
    }
}

/// The plan that remains splits into the plan of the first entry of the
/// innermost folder and the plan that remains behind it.
proof fn lemma_remaining_plan_splits(frames: Seq<TreeFrame>)
    requires
        frames.len() > 0,
        frames.last().rest.len() > 0,
    ensures
        remaining_plan(frames) == entry_plan(
            frames.last().coords,
            frames.last().local,
            frames.last().rest[0],
        ) + remaining_plan(past_first_tree(frames)),
{
    let top = frames.last();
    let past = past_first_tree(frames);
    assert(past.drop_last() =~= frames.drop_last());
    assert(past.last().rest == top.rest.skip(1));
    assert(remaining_plan(frames) =~= entry_plan(top.coords, top.local, top.rest[0])
        + remaining_plan(past));
}

/// One step of a walk follows the plan: the walk is finished exactly
/// when no request remains; else its request is the first that remains,
/// and once that is answered the rest of the plan remains. The walk that
/// the step hands on is the walk's view of the folders then being walked,
/// for a listing after the folder is entered with the directory's entries.
pub proof fn lemma_step_follows_plan(frames: Seq<TreeFrame>)
    ensures
        match next_step(frames_of(frames)) {
            StepView::Finished => remaining_plan(frames) == Seq::<RequestView>::empty(),
            StepView::Fetch(r) => {
                &&& remaining_plan(frames) == seq![
                    RequestView::Fetch { local: r.local, name: r.name, url: r.url },
                ] + remaining_plan(after_request(frames))
                &&& frames_of(after_request(frames)) == r.walk
            },
            StepView::List(r) => {
                &&& remaining_plan(frames) == seq![
                    RequestView::List { coords: r.coords, local: r.local },
                ] + remaining_plan(after_request(frames))
                &&& after_request(frames).len() > 0
                &&& frames_of(after_request(frames)) == entered(
                    r,
                    listing(after_request(frames).last().rest),
                )
            },
        },
    decreases frames.len(), innermost_trees(frames),
{
    if frames.len() == 0 {
    } else {
        lemma_frames_of_steps(frames);
        let top = frames.last();
        if top.rest.len() == 0 {
            lemma_step_follows_plan(frames.drop_last());
            assert(remaining_plan(frames) =~= remaining_plan(frames.drop_last()));
        } else {
            lemma_remaining_plan_splits(frames);
            let tree = top.rest[0];
            let past = past_first_tree(frames);
            assert(frames_of(frames).last().rest[0] == tree.entry);
            match tree.entry.kind {
                EntryKind::File => match tree.entry.download_url {
                    Some(url) => {},
                    None => {
                        lemma_step_follows_plan(past);
                        assert(remaining_plan(frames) =~= remaining_plan(past));
                    },
                },
                EntryKind::Directory => {
                    let child = child_of(top.coords, tree.entry.name);
                    let below = top.local.push(tree.entry.name);
                    let inner = TreeFrame { coords: child, local: below, rest: tree.children };
                    let next = past.push(inner);
                    assert(next.drop_last() =~= past);
                    assert(remaining_plan(next) == entries_plan(child, below, tree.children)
                        + remaining_plan(past));
                    assert(remaining_plan(frames) =~= seq![
                        RequestView::List { coords: child, local: below },
                    ] + remaining_plan(next));
                    assert(frames_of(next) =~= frames_of(past).push(frame_of(inner)));
                },
                EntryKind::Other => {
                    lemma_step_follows_plan(past);
                    assert(remaining_plan(frames) =~= remaining_plan(past));
                },
            }
        }
    }
}

/// A walk makes the requests of the plan: with fuel for every request
/// that remains, the requests of the walk's steps are the plan that
/// remains, and no others.
pub proof fn lemma_walk_follows_plan(frames: Seq<TreeFrame>, fuel: nat)
    requires
        fuel > remaining_plan(frames).len(),
    ensures
        walk_requests(frames, fuel) == remaining_plan(frames),
    decreases fuel,
{
    lemma_step_follows_plan(frames);
    match next_step(frames_of(frames)) {
        StepView::Finished => {},
        StepView::Fetch(r) => {
            lemma_walk_follows_plan(after_request(frames), (fuel - 1) as nat);
        },
        StepView::List(r) => {
            lemma_walk_follows_plan(after_request(frames), (fuel - 1) as nat);
        },
    }
}

/// Resolving a folder makes the requests of its plan: the folder's own
/// listing first, and after it is entered with its entries, what the
/// walk asks for is the plan of these entries.
pub proof fn lemma_resolution_follows_plan(
    coords: CoordinatesView,
    folder: Seq<RemoteTree>,
    fuel: nat,
)
    requires
        fuel > entries_plan(coords, Seq::<Seq<char>>::empty(), folder).len(),
    ensures
        ({
            let local = Seq::<Seq<char>>::empty();
            let begun = ListingView { walk: Seq::<FrameView>::empty(), coords, local };
            let frames = seq![TreeFrame { coords, local, rest: folder }];
            &&& frames_of(frames) == entered(begun, listing(folder))
            &&& seq![RequestView::List { coords, local }] + walk_requests(frames, fuel)
                == folder_plan(coords, local, folder)
        }),
{
    let local = Seq::<Seq<char>>::empty();
    let begun = ListingView { walk: Seq::<FrameView>::empty(), coords, local };
    let frames = seq![TreeFrame { coords, local, rest: folder }];
    assert(frames_of(frames) =~= entered(begun, listing(folder)));
    assert(frames.drop_last() =~= Seq::<TreeFrame>::empty());
    assert(remaining_plan(frames.drop_last()) =~= Seq::<RequestView>::empty());
    assert(frames.last().rest == folder);
    assert(remaining_plan(frames) =~= entries_plan(coords, local, folder));
    lemma_walk_follows_plan(frames, fuel);
}

} // verus!
