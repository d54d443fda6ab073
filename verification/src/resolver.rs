//! The walk over a remote folder, as a machine that asks for one answer
//! at a time. A driver performs each request and hands the answer back;
//! the machine decides what comes next and in which order.
//!
//! The walk goes depth first, and through each listing in the order in
//! which the service gave it: a subfolder is walked to its end before the
//! entry after it is looked at.

use vstd::prelude::*;
use crate::link::{Coordinates, CoordinatesView};
use crate::remote::{
    check_file_status, check_listing_status, child_of, decode_listing, entry_views, file_verdict,
    listing_address, listing_in, listing_verdict, EntryKind, RemoteEntry, RemoteEntryView,
    ResolveError,
};
use crate::text::{copy_strings, views};

verus! {

/// A folder that is being walked: where it is, remote and local, and
/// which of its entries are still to come.
#[derive(Debug, PartialEq, Eq)]
pub struct Frame {
    pub coords: Coordinates,
    /// The local folder, as names below the target directory.
    pub local: Vec<String>,
    pub entries: Vec<RemoteEntry>,
    /// How many of `entries` have been dealt with.
    pub cursor: usize,
}

/// The mathematical value of [`Frame`]: the entries dealt with are gone.
pub struct FrameView {
    pub coords: CoordinatesView,
    pub local: Seq<Seq<char>>,
    pub rest: Seq<RemoteEntryView>,
}

impl View for Frame {
    type V = FrameView;

    open spec fn view(&self) -> FrameView {
        FrameView {
            coords: self.coords@,
            local: views(self.local@),
            rest: if self.cursor <= self.entries.len() {
                entry_views(self.entries@).skip(self.cursor as int)
            } else {
                Seq::empty()
            },
        }
    }
}

/// The frames of a walk, each by its view.
pub open spec fn frame_views(frames: Seq<Frame>) -> Seq<FrameView> {
    Seq::new(frames.len(), |i: int| frames[i]@)
}

/// A walk between two requests: the folders entered and not yet left,
/// the innermost last.
#[derive(Debug, PartialEq, Eq)]
pub struct Resolver {
    pub frames: Vec<Frame>,
}

impl View for Resolver {
    type V = Seq<FrameView>;

    open spec fn view(&self) -> Seq<FrameView> {
        frame_views(self.frames@)
    }
}

/// A walk that waits for the listing of a folder. The driver makes sure
/// that the local folder exists, and asks the service for the listing.
#[derive(Debug, PartialEq, Eq)]
pub struct ListingRequest {
    pub walk: Resolver,
    pub coords: Coordinates,
    pub local: Vec<String>,
}

/// The mathematical value of [`ListingRequest`] and of [`ListingReply`].
pub struct ListingView {
    pub walk: Seq<FrameView>,
    pub coords: CoordinatesView,
    pub local: Seq<Seq<char>>,
}

impl View for ListingRequest {
    type V = ListingView;

    open spec fn view(&self) -> ListingView {
        ListingView { walk: self.walk@, coords: self.coords@, local: views(self.local@) }
    }
}

/// A walk whose listing was answered with success, and whose body is to
/// be read.
#[derive(Debug, PartialEq, Eq)]
pub struct ListingReply {
    pub walk: Resolver,
    pub coords: Coordinates,
    pub local: Vec<String>,
}

impl View for ListingReply {
    type V = ListingView;

    open spec fn view(&self) -> ListingView {
        ListingView { walk: self.walk@, coords: self.coords@, local: views(self.local@) }
    }
}

/// A walk that waits for the content of a file. The driver fetches `url`.
#[derive(Debug, PartialEq, Eq)]
pub struct FileRequest {
    pub walk: Resolver,
    pub local: Vec<String>,
    pub name: String,
    pub url: String,
}

/// The mathematical value of [`FileRequest`].
pub struct FileRequestView {
    pub walk: Seq<FrameView>,
    pub local: Seq<Seq<char>>,
    pub name: Seq<char>,
    pub url: Seq<char>,
}

impl View for FileRequest {
    type V = FileRequestView;

    open spec fn view(&self) -> FileRequestView {
        FileRequestView {
            walk: self.walk@,
            local: views(self.local@),
            name: self.name@,
            url: self.url@,
        }
    }
}

/// A walk whose file was answered with success. The driver writes the
/// bytes it got to the file `name` in the folder `local`, over any file
/// that is there.
#[derive(Debug, PartialEq, Eq)]
pub struct FileReply {
    pub walk: Resolver,
    pub local: Vec<String>,
    pub name: String,
}

/// The mathematical value of [`FileReply`].
pub struct FileReplyView {
    pub walk: Seq<FrameView>,
    pub local: Seq<Seq<char>>,
    pub name: Seq<char>,
}

impl View for FileReply {
    type V = FileReplyView;

    open spec fn view(&self) -> FileReplyView {
        FileReplyView { walk: self.walk@, local: views(self.local@), name: self.name@ }
    }
}

/// What a walk does next.
#[derive(Debug, PartialEq, Eq)]
pub enum Step {
    List(ListingRequest),
    Fetch(FileRequest),
    /// Every folder was walked to its end.
    Finished,
}

/// The mathematical value of [`Step`].
pub enum StepView {
    List(ListingView),
    Fetch(FileRequestView),
    Finished,
}

impl View for Step {
    type V = StepView;

    open spec fn view(&self) -> StepView {
        match self {
            Step::List(r) => StepView::List(r@),
            Step::Fetch(r) => StepView::Fetch(r@),
            Step::Finished => StepView::Finished,
        }
    }
}

/// How many entries the innermost folder has left.
pub open spec fn innermost_rest(frames: Seq<FrameView>) -> nat {
    if frames.len() == 0 {
        0
    } else {
        frames.last().rest.len()
    }
}

/// `frames` with the first entry of the innermost folder dealt with.
pub open spec fn past_first(frames: Seq<FrameView>) -> Seq<FrameView> {
    let top = frames.last();
    frames.drop_last().push(FrameView { rest: top.rest.skip(1), ..top })
}

/// The next step of a walk.
///
/// A folder without entries left is left. Else the first entry of the
/// innermost folder is dealt with: a file with a download address is
/// fetched into that folder, a directory is entered as the child of
/// that folder, and anything else is passed over.
pub open spec fn next_step(frames: Seq<FrameView>) -> StepView
    decreases frames.len(), innermost_rest(frames),
{
    if frames.len() == 0 {
        StepView::Finished
    } else if frames.last().rest.len() == 0 {
        next_step(frames.drop_last())
    } else {
        let top = frames.last();
        let entry = top.rest[0];
        let walk = past_first(frames);
        match entry.kind {
            EntryKind::File => match entry.download_url {
                Some(url) => StepView::Fetch(
                    FileRequestView { walk, local: top.local, name: entry.name, url },
                ),
                None => next_step(walk),
            },
            EntryKind::Directory => StepView::List(
                ListingView {
                    walk,
                    coords: child_of(top.coords, entry.name),
                    local: top.local.push(entry.name),
                },
            ),
            EntryKind::Other => next_step(walk),
        }
    }
}

/// The walk after the folder of `at` was entered with `entries`.
pub open spec fn entered(at: ListingView, entries: Seq<RemoteEntryView>) -> Seq<FrameView> {
    at.walk.push(FrameView { coords: at.coords, local: at.local, rest: entries })
}

impl Resolver {
    /// Begins the walk of the folder at `coords` into the target
    /// directory: the first thing asked for is the folder's own listing.
    pub fn begin(coords: Coordinates) -> (out: ListingRequest)
        ensures
            out@ == (ListingView {
                walk: Seq::<FrameView>::empty(),
                coords: coords@,
                local: Seq::<Seq<char>>::empty(),
            }),
    {
        let out = ListingRequest {
            walk: Resolver { frames: Vec::new() },
            coords,
            local: Vec::new(),
        };
        proof {
            assert(out@.walk =~= Seq::<FrameView>::empty());
            assert(out@.local =~= Seq::<Seq<char>>::empty());
        }
        out
    }

    /// Decides the next step of the walk.
    pub fn advance(self) -> (out: Step)
        ensures
            out@ == next_step(self@),
    {
        let ghost start = self@;
        let mut frames = self.frames;
        loop
            invariant
                start == self@,
                next_step(frame_views(frames@)) == next_step(start),
            decreases frames.len(), innermost_rest(frame_views(frames@)),
        {
            let ghost before = frame_views(frames@);
            let top = frames.pop();
            proof {
                assert(frames@.len() < before.len() ==> frame_views(frames@) =~= before.drop_last());
            }
            match top {
                None => {
                    return Step::Finished;
                },
                Some(frame) => {
                    assert(frame@ == before.last());
                    let Frame { coords, local, entries, cursor } = frame;
                    if cursor < entries.len() {
                        let ghost entry = entries@[cursor as int]@;
                        assert(entry == before.last().rest[0]);
                        let kind = entries[cursor].kind;
                        let source: Option<String> = match (kind, &entries[cursor].download_url) {
                            (EntryKind::File, Some(u)) => Some(u.clone()),
                            _ => None,
                        };
                        let is_directory = match kind {
                            EntryKind::Directory => true,
                            _ => false,
                        };
                        let next = cursor + 1;
                        if let Some(url) = source {
                            let name = entries[cursor].name.clone();
                            let target = copy_strings(&local);
                            frames.push(Frame { coords, local, entries, cursor: next });
                            proof {
                                lemma_moved_on(before, frame_views(frames@));
                            }
                            return Step::Fetch(
                                FileRequest { walk: Resolver { frames }, local: target, name, url },
                            );
                        } else if is_directory {
                            let child = coords.child(entries[cursor].name.as_str());
                            let mut target = copy_strings(&local);
                            target.push(entries[cursor].name.clone());
                            proof {
                                assert(views(target@) =~= views(local@).push(entry.name));
                            }
                            frames.push(Frame { coords, local, entries, cursor: next });
                            proof {
                                lemma_moved_on(before, frame_views(frames@));
                            }
                            return Step::List(
                                ListingRequest {
                                    walk: Resolver { frames },
                                    coords: child,
                                    local: target,
                                },
                            );
                        } else {
                            frames.push(Frame { coords, local, entries, cursor: next });
                            proof {
                                lemma_moved_on(before, frame_views(frames@));
                            }
                        }
                    }
                },
            }
        }
    }
}

/// A walk whose innermost frame alone changed, by one entry dealt with,
/// is the walk past its first entry.
proof fn lemma_moved_on(before: Seq<FrameView>, after: Seq<FrameView>)
    requires
        before.len() > 0,
        before.last().rest.len() > 0,
        after.len() == before.len(),
        forall|i: int| 0 <= i < before.len() - 1 ==> after[i] == before[i],
        after.last().coords == before.last().coords,
        after.last().local == before.last().local,
        after.last().rest =~= before.last().rest.skip(1),
    ensures
        after == past_first(before),
{
    assert(after =~= past_first(before));
}

impl ListingRequest {
    /// The address at which the listing is asked for.
    pub fn address(&self) -> (out: String)
        ensures
            out@ == listing_address(self@.coords),
    {
        self.coords.listing_address()
    }

    /// Takes the status of the listing's answer. On success the body is
    /// to be read; 403 ends the walk as rate limited, and any other
    /// status ends it as a failed listing.
    pub fn answered(self, status: u16) -> (out: Result<ListingReply, ResolveError>)
        ensures
            match listing_verdict(status) {
                Some(e) => out matches Err(got) && got@ == e,
                None => out matches Ok(reply) && reply@ == self@,
            },
    {
        match check_listing_status(status) {
            Ok(()) => Ok(ListingReply { walk: self.walk, coords: self.coords, local: self.local }),
            Err(e) => Err(e),
        }
    }
}

impl ListingReply {
    /// Enters the folder with the entries of its listing.
    pub fn entered(self, entries: Vec<RemoteEntry>) -> (out: Resolver)
        ensures
            out@ == entered(self@, entry_views(entries@)),
    {
        let ghost at = self@;
        let ghost rest = entry_views(entries@);
        let mut frames = self.walk.frames;
        let frame = Frame { coords: self.coords, local: self.local, entries, cursor: 0 };
        proof {
            assert(frame@.rest =~= rest);
        }
        frames.push(frame);
        proof {
            assert(frame_views(frames@) =~= entered(at, rest));
        }
        Resolver { frames }
    }

    /// Reads the body of the listing's answer and enters the folder.
    ///
    /// Ends the walk with `MalformedListing` where the body holds no
    /// listing.
    pub fn read(self, body: &[u8]) -> (out: Result<Resolver, ResolveError>)
        ensures
            match listing_in(body@) {
                Some(entries) => out matches Ok(walk) && walk@ == entered(self@, entries),
                None => out matches Err(e) && e@
                    == crate::remote::ResolveErrorView::MalformedListing,
            },
    {
        match decode_listing(body) {
            Ok(entries) => Ok(self.entered(entries)),
            Err(e) => Err(e),
        }
    }
}

impl FileRequest {
    /// Takes the status of the file's answer. On success the bytes are to
    /// be written; any other status ends the walk.
    pub fn answered(self, status: u16) -> (out: Result<FileReply, ResolveError>)
        ensures
            match file_verdict(self@.name, status) {
                Some(e) => out matches Err(got) && got@ == e,
                None => out matches Ok(reply) && reply@ == (FileReplyView {
                    walk: self@.walk,
                    local: self@.local,
                    name: self@.name,
                }),
            },
    {
        match check_file_status(self.name.as_str(), status) {
            Ok(()) => Ok(FileReply { walk: self.walk, local: self.local, name: self.name }),
            Err(e) => Err(e),
        }
    }
}

impl FileReply {
    /// The walk goes on once the file is written.
    pub fn written(self) -> (out: Resolver)
        ensures
            out@ == self@.walk,
    {
        self.walk
    }
}

/// A file entry with a download address is fetched next: from that
/// address, into the folder that holds the entry, under the entry's name;
/// the walk then goes on behind that entry.
pub proof fn lemma_file_is_fetched(frames: Seq<FrameView>)
    requires
        frames.len() > 0,
        frames.last().rest.len() > 0,
        frames.last().rest[0].kind == EntryKind::File,
        frames.last().rest[0].download_url is Some,
    ensures
        next_step(frames) == StepView::Fetch(
            FileRequestView {
                walk: past_first(frames),
                local: frames.last().local,
                name: frames.last().rest[0].name,
                url: frames.last().rest[0].download_url->0,
            },
        ),
{
}

/// A directory entry is entered next: as the local folder of the same
/// name below the folder that holds the entry, and at the remote path
/// that is the parent's path, a slash and the name, or the name alone
/// where the parent is the repository root.
pub proof fn lemma_directory_is_entered(frames: Seq<FrameView>)
    requires
        frames.len() > 0,
        frames.last().rest.len() > 0,
        frames.last().rest[0].kind == EntryKind::Directory,
    ensures
        ({
            let top = frames.last();
            let name = top.rest[0].name;
            &&& next_step(frames) matches StepView::List(request)
            &&& request.walk == past_first(frames)
            &&& request.local == top.local.push(name)
            &&& request.coords.owner == top.coords.owner
            &&& request.coords.repo == top.coords.repo
            &&& request.coords.reference == top.coords.reference
            &&& top.coords.path.len() == 0 ==> request.coords.path == name
            &&& top.coords.path.len() > 0 ==> request.coords.path == top.coords.path + "/"@
                + name
        }),
{
}

/// An entry that is neither a directory nor a file with a download
/// address has no effect: the walk goes on as if it were not there.
pub proof fn lemma_other_entry_is_passed_over(frames: Seq<FrameView>)
    requires
        frames.len() > 0,
        frames.last().rest.len() > 0,
        frames.last().rest[0].kind != EntryKind::Directory,
        frames.last().rest[0].kind == EntryKind::File ==> frames.last().rest[0].download_url
            is None,
    ensures
        next_step(frames) == next_step(past_first(frames)),
{
}

/// A folder whose entries are all dealt with is left: the walk goes on
/// in the folder that it was entered from, and ends with the outermost.
pub proof fn lemma_finished_folder_is_left(frames: Seq<FrameView>)
    requires
        frames.len() > 0,
        frames.last().rest.len() == 0,
    ensures
        next_step(frames) == next_step(frames.drop_last()),
        frames.len() == 1 ==> next_step(frames) == StepView::Finished,
{
    if frames.len() == 1 {
        assert(frames.drop_last().len() == 0);
    }
}

} // verus!
