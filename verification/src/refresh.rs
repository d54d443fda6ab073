//! Refreshing the downloaded folders below a base directory, one
//! descriptor after the other, as a machine that a driver carries through
//! the reading, the probing and the clearing.
//!
//! A folder that is gone on the remote side is skipped, and the run goes
//! on with the next descriptor. A rate limit, or any other failure, ends
//! the run: the value that would give the next descriptor is not handed
//! back.

use vstd::prelude::*;
use crate::discovery::{local_views, paths, LocalEntry, LocalEntryView, LocalKind};
use crate::metadata::{
    decoded, descriptor_name, is_descriptor_name, located, Descriptor, DescriptorView,
    MetadataError,
};
use crate::remote::{
    check_listing_status, is_success, listing_address, listing_verdict, ResolveError,
    ResolveErrorView,
};
use crate::resolver::{FrameView, ListingRequest, ListingView, Resolver};
use crate::text::{copy_strings, views};

verus! {

/// A run between two descriptors: the descriptor files found, and how
/// many of them have been dealt with.
#[derive(Debug, PartialEq, Eq)]
pub struct RefreshRun {
    pub files: Vec<Vec<String>>,
    pub cursor: usize,
}

/// The mathematical value of [`RefreshRun`]: the descriptor files that
/// are still to be dealt with, in order.
pub struct RefreshRunView {
    pub remaining: Seq<Seq<Seq<char>>>,
}

impl View for RefreshRun {
    type V = RefreshRunView;

    open spec fn view(&self) -> RefreshRunView {
        RefreshRunView {
            remaining: if self.cursor <= self.files.len() {
                paths(self.files@).skip(self.cursor as int)
            } else {
                Seq::empty()
            },
        }
    }
}

/// A run that waits for the text of the descriptor file `file`.
#[derive(Debug, PartialEq, Eq)]
pub struct DescriptorRequest {
    pub run: RefreshRun,
    pub file: Vec<String>,
}

/// The mathematical value of [`DescriptorRequest`].
pub struct DescriptorRequestView {
    pub run: RefreshRunView,
    pub file: Seq<Seq<char>>,
}

impl View for DescriptorRequest {
    type V = DescriptorRequestView;

    open spec fn view(&self) -> DescriptorRequestView {
        DescriptorRequestView { run: self.run@, file: views(self.file@) }
    }
}

/// A run that waits for the answer to the listing of a described folder:
/// is it still there, and may it be listed?
#[derive(Debug, PartialEq, Eq)]
pub struct Probe {
    pub run: RefreshRun,
    /// The folder that holds the descriptor file.
    pub folder: Vec<String>,
    pub descriptor: Descriptor,
}

/// The mathematical value of [`Probe`] and of [`Clearing`].
pub struct ProbeView {
    pub run: RefreshRunView,
    pub folder: Seq<Seq<char>>,
    pub descriptor: DescriptorView,
}

impl View for Probe {
    type V = ProbeView;

    open spec fn view(&self) -> ProbeView {
        ProbeView { run: self.run@, folder: views(self.folder@), descriptor: self.descriptor@ }
    }
}

/// A run whose probe succeeded: the folder is to be emptied, all but its
/// descriptor file, and then walked anew.
#[derive(Debug, PartialEq, Eq)]
pub struct Clearing {
    pub run: RefreshRun,
    pub folder: Vec<String>,
    pub descriptor: Descriptor,
}

impl View for Clearing {
    type V = ProbeView;

    open spec fn view(&self) -> ProbeView {
        ProbeView { run: self.run@, folder: views(self.folder@), descriptor: self.descriptor@ }
    }
}

/// What a run does next.
#[derive(Debug, PartialEq, Eq)]
pub enum RefreshStep {
    Read(DescriptorRequest),
    /// Every descriptor was dealt with.
    Finished,
}

/// The mathematical value of [`RefreshStep`].
pub enum RefreshStepView {
    Read(DescriptorRequestView),
    Finished,
}

impl View for RefreshStep {
    type V = RefreshStepView;

    open spec fn view(&self) -> RefreshStepView {
        match self {
            RefreshStep::Read(r) => RefreshStepView::Read(r@),
            RefreshStep::Finished => RefreshStepView::Finished,
        }
    }
}

/// What the answer to a probe means for the run.
#[derive(Debug, PartialEq, Eq)]
pub enum ProbeOutcome {
    /// The folder is there: it is cleared and walked anew.
    Refresh(Clearing),
    /// The folder is gone: nothing is touched, the run goes on.
    Skipped(RefreshRun),
    /// The run ends here.
    Aborted(ResolveError),
}

/// The mathematical value of [`ProbeOutcome`].
pub enum ProbeOutcomeView {
    Refresh(ProbeView),
    Skipped(RefreshRunView),
    Aborted(ResolveErrorView),
}

impl View for ProbeOutcome {
    type V = ProbeOutcomeView;

    open spec fn view(&self) -> ProbeOutcomeView {
        match self {
            ProbeOutcome::Refresh(c) => ProbeOutcomeView::Refresh(c@),
            ProbeOutcome::Skipped(r) => ProbeOutcomeView::Skipped(r@),
            ProbeOutcome::Aborted(e) => ProbeOutcomeView::Aborted(e@),
        }
    }
}

/// One thing to remove from a folder that is cleared.
#[derive(Debug, PartialEq, Eq)]
pub enum Removal {
    /// A single file, or whatever is no directory.
    File(String),
    /// A directory with all that is in it.
    Tree(String),
}

/// The mathematical value of [`Removal`].
pub enum RemovalView {
    File(Seq<char>),
    Tree(Seq<char>),
}

impl View for Removal {
    type V = RemovalView;

    open spec fn view(&self) -> RemovalView {
        match self {
            Removal::File(n) => RemovalView::File(n@),
            Removal::Tree(n) => RemovalView::Tree(n@),
        }
    }
}

/// The removals of a plan, each by its view.
pub open spec fn removal_views(items: Seq<Removal>) -> Seq<RemovalView> {
    Seq::new(items.len(), |i: int| items[i]@)
}

/// The folder that holds the file at `file`.
pub open spec fn folder_of(file: Seq<Seq<char>>) -> Seq<Seq<char>> {
    if file.len() == 0 {
        file
    } else {
        file.drop_last()
    }
}

/// The next step of a run: the first of the remaining descriptors is
/// read, and the run ends when none remains.
pub open spec fn next_descriptor(run: RefreshRunView) -> RefreshStepView {
    if run.remaining.len() == 0 {
        RefreshStepView::Finished
    } else {
        RefreshStepView::Read(
            DescriptorRequestView {
                run: RefreshRunView { remaining: run.remaining.skip(1) },
                file: run.remaining[0],
            },
        )
    }
}

/// What the status of a probe's answer means: 404 skips the descriptor,
/// 403 and every other status outside 200 to 299 end the run, and a
/// success has the folder refreshed.
pub open spec fn probe_outcome(at: ProbeView, status: u16) -> ProbeOutcomeView {
    if status == 404 {
        ProbeOutcomeView::Skipped(at.run)
    } else {
        match listing_verdict(status) {
            Some(e) => ProbeOutcomeView::Aborted(e),
            None => ProbeOutcomeView::Refresh(at),
        }
    }
}

/// Whether an entry is removed when its folder is cleared: all but the
/// descriptor file.
pub open spec fn is_cleared(e: LocalEntryView) -> bool {
    e.name != descriptor_name()
}

/// How an entry is removed.
pub open spec fn removal_of(e: LocalEntryView) -> RemovalView {
    if e.kind == LocalKind::Directory {
        RemovalView::Tree(e.name)
    } else {
        RemovalView::File(e.name)
    }
}

/// What is removed from a folder with these entries, in their order.
pub open spec fn removals_of(entries: Seq<LocalEntryView>) -> Seq<RemovalView> {
    entries.filter(|e: LocalEntryView| is_cleared(e)).map_values(
        |e: LocalEntryView| removal_of(e),
    )
}

/// The walk that repopulates the folder of `at`.
pub open spec fn repopulation(at: ProbeView) -> ListingView {
    ListingView {
        walk: Seq::<FrameView>::empty(),
        coords: located(at.descriptor),
        local: Seq::<Seq<char>>::empty(),
    }
}

/// The folder that holds the file at `file`.
pub fn containing_folder(file: &Vec<String>) -> (out: Vec<String>)
    ensures
        views(out@) == folder_of(views(file@)),
{
    let mut out = copy_strings(file);
    out.pop();
    proof {
        assert(views(out@) =~= folder_of(views(file@)));
    }
    out
}

impl RefreshRun {
    /// A run over the descriptor files `files`, in their order.
    pub fn new(files: Vec<Vec<String>>) -> (out: RefreshRun)
        ensures
            out@.remaining == paths(files@),
    {
        let out = RefreshRun { files, cursor: 0 };
        proof {
            assert(out@.remaining =~= paths(files@));
        }
        out
    }

    /// Whether nothing is left to refresh.
    pub fn is_done(&self) -> (out: bool)
        ensures
            out == (self@.remaining.len() == 0),
    {
        self.cursor >= self.files.len()
    }

    /// Decides the next step of the run.
    pub fn advance(self) -> (out: RefreshStep)
        ensures
            out@ == next_descriptor(self@),
    {
        if self.cursor < self.files.len() {
            let file = copy_strings(&self.files[self.cursor]);
            let run = RefreshRun { files: self.files, cursor: self.cursor + 1 };
            proof {
                assert(run@.remaining =~= self@.remaining.skip(1));
            }
            RefreshStep::Read(DescriptorRequest { run, file })
        } else {
            RefreshStep::Finished
        }
    }
}

impl DescriptorRequest {
    /// Takes the text of the descriptor file and makes the probe of the
    /// folder it describes.
    ///
    /// Ends the run with `CorruptMetadata` where the text holds no
    /// descriptor.
    pub fn loaded(self, text: &str) -> (out: Result<Probe, MetadataError>)
        ensures
            match decoded(text@) {
                Some(d) => out matches Ok(probe) && probe@ == (ProbeView {
                    run: self@.run,
                    folder: folder_of(self@.file),
                    descriptor: d,
                }),
                None => out == Err::<Probe, MetadataError>(MetadataError::CorruptMetadata),
            },
    {
        match Descriptor::decode(text) {
            Ok(descriptor) => {
                let folder = containing_folder(&self.file);
                Ok(Probe { run: self.run, folder, descriptor })
            },
            Err(e) => Err(e),
        }
    }
}

impl Probe {
    /// The address that is probed: the listing of the described folder.
    pub fn address(&self) -> (out: String)
        ensures
            out@ == listing_address(located(self@.descriptor)),
    {
        self.descriptor.coordinates().listing_address()
    }

    /// Takes the status of the probe's answer.
    pub fn answered(self, status: u16) -> (out: ProbeOutcome)
        ensures
            out@ == probe_outcome(self@, status),
    {
        if status == 404 {
            ProbeOutcome::Skipped(self.run)
        } else {
            match check_listing_status(status) {
                Err(e) => ProbeOutcome::Aborted(e),
                Ok(()) => ProbeOutcome::Refresh(
                    Clearing { run: self.run, folder: self.folder, descriptor: self.descriptor },
                ),
            }
        }
    }
}

/// What to remove from a folder with these entries so that only its
/// descriptor file is left.
pub fn plan_removals(entries: &Vec<LocalEntry>) -> (out: Vec<Removal>)
    ensures
        removal_views(out@) == removals_of(local_views(entries@)),
{
    let ghost all = local_views(entries@);
    let mut out: Vec<Removal> = Vec::new();
    let mut i: usize = 0;
    proof {
        assert(all.subrange(0, 0) =~= Seq::<LocalEntryView>::empty());
        assert(removal_views(out@) =~= removals_of(all.subrange(0, 0)));
    }
    while i < entries.len()
        invariant
            i <= entries.len(),
            all == local_views(entries@),
            removal_views(out@) == removals_of(all.subrange(0, i as int)),
        decreases entries.len() - i,
    {
        let ghost before = removal_views(out@);
        let ghost seen = all.subrange(0, i as int);
        let ghost e = entries@[i as int]@;
        proof {
            let next = all.subrange(0, i + 1);
            assert(next.drop_last() =~= seen);
            assert(next.last() == e);
            reveal(Seq::filter);
        }
        if !is_descriptor_name(entries[i].name.as_str()) {
            let name = entries[i].name.clone();
            let removal = match entries[i].kind {
                LocalKind::Directory => Removal::Tree(name),
                _ => Removal::File(name),
            };
            out.push(removal);
            proof {
                assert(removal_views(out@) =~= before.push(removal_of(e)));
                assert(removals_of(all.subrange(0, i + 1)) =~= removals_of(seen).push(
                    removal_of(e),
                ));
            }
        }
        i = i + 1;
    }
    proof {
        assert(all.subrange(0, i as int) =~= all);
    }
    out
}

impl Clearing {
    /// Once the folder is cleared: the walk that repopulates it from the
    /// descriptor's coordinates, and the run that goes on after it.
    pub fn cleared(self) -> (out: (ListingRequest, RefreshRun))
        ensures
            out.0@ == repopulation(self@),
            out.1@ == self@.run,
    {
        let request = Resolver::begin(self.descriptor.coordinates());
        (request, self.run)
    }
}

/// A probe answered with 404 skips its descriptor and nothing else: no
/// removal is planned, no error is raised, and the descriptors that
/// remained are still the ones that the run goes on with.
pub proof fn lemma_absent_folder_is_skipped(at: ProbeView)
    ensures
        probe_outcome(at, 404) == ProbeOutcomeView::Skipped(at.run),
        at.run.remaining.len() > 0 ==> next_descriptor(at.run) is Read && next_descriptor(
            at.run,
        )->Read_0.file == at.run.remaining[0],
{
}

/// A probe answered with 403 ends the run as rate limited: the outcome
/// holds no run, so none of the remaining descriptors is reached.
pub proof fn lemma_rate_limit_ends_run(at: ProbeView)
    ensures
        probe_outcome(at, 403) == ProbeOutcomeView::Aborted(ResolveErrorView::RateLimited),
{
}

/// Every status is judged in exactly one way: 404 skips, a success
/// refreshes, and everything else ends the run.
pub proof fn lemma_probe_outcomes(at: ProbeView, status: u16)
    ensures
        probe_outcome(at, status) is Skipped <==> status == 404,
        probe_outcome(at, status) is Refresh <==> 200 <= status < 300,
        probe_outcome(at, status) is Aborted <==> status != 404 && !(200 <= status < 300),
        status != 403 && status != 404 && !(200 <= status < 300) ==> probe_outcome(at, status)
            == ProbeOutcomeView::Aborted(ResolveErrorView::RemoteListingFailed(status)),
{
}

/// A run over no descriptors is finished at once: nothing is read and
/// nothing is probed.
pub proof fn lemma_empty_run_is_finished(run: RefreshRunView)
    ensures
        run.remaining.len() == 0 <==> next_descriptor(run) is Finished,
{
}

/// What became of a descriptor in a run.
pub enum Fate {
    /// Its folder was cleared and walked anew.
    Refreshed,
    /// Its folder is gone on the remote side; nothing was touched.
    Skipped,
    /// Its probe ended the run.
    Failed(ResolveErrorView),
}

/// The fates of the descriptors of a run, in order, as far as the run
/// gets: the descriptor files hold `descriptors`, the probes are answered
/// with `statuses`, one each, and every walk succeeds.
pub open spec fn course(
    run: RefreshRunView,
    descriptors: Seq<DescriptorView>,
    statuses: Seq<u16>,
) -> Seq<Fate>
    decreases run.remaining.len(),
{
    match next_descriptor(run) {
        RefreshStepView::Finished => Seq::empty(),
        RefreshStepView::Read(request) => {
            let at = ProbeView {
                run: request.run,
                folder: folder_of(request.file),
                descriptor: descriptors[0],
            };
            match probe_outcome(at, statuses[0]) {
                ProbeOutcomeView::Skipped(rest) => seq![Fate::Skipped] + course(
                    rest,
                    descriptors.skip(1),
                    statuses.skip(1),
                ),
                ProbeOutcomeView::Refresh(cleared) => seq![Fate::Refreshed] + course(
                    cleared.run,
                    descriptors.skip(1),
                    statuses.skip(1),
                ),
                ProbeOutcomeView::Aborted(e) => seq![Fate::Failed(e)],
            }
        },
    }
}

/// Whether a run gets as far as the descriptor at `index`: every probe
/// before it was answered with 404 or with a success.
pub open spec fn reaches(statuses: Seq<u16>, index: int) -> bool {
    forall|j: int| 0 <= j < index ==> statuses[j] == 404 || is_success(#[trigger] statuses[j])
}

/// What a probe's status makes of its descriptor.
pub open spec fn fate_of(status: u16) -> Fate {
    if status == 404 {
        Fate::Skipped
    } else {
        match listing_verdict(status) {
            Some(e) => Fate::Failed(e),
            None => Fate::Refreshed,
        }
    }
}

/// A run deals with its descriptors in order. Each one that it reaches
/// meets the fate that its probe's status gives it; after a skip or a
/// refresh the next one is reached; after a failure none is.
pub proof fn lemma_course_of_a_run(
    run: RefreshRunView,
    descriptors: Seq<DescriptorView>,
    statuses: Seq<u16>,
    index: int,
)
    requires
        descriptors.len() == run.remaining.len(),
        statuses.len() == run.remaining.len(),
        0 <= index < statuses.len(),
    ensures
        reaches(statuses, index) ==> course(run, descriptors, statuses).len() > index && course(
            run,
            descriptors,
            statuses,
        )[index] == fate_of(statuses[index]),
        !reaches(statuses, index) ==> course(run, descriptors, statuses).len() <= index,
        reaches(statuses, index) && fate_of(statuses[index]) is Failed ==> course(
            run,
            descriptors,
            statuses,
        ).len() == index + 1,
    decreases index,
{
    let rest = RefreshRunView { remaining: run.remaining.skip(1) };
    let later = statuses.skip(1);
    let all = course(run, descriptors, statuses);
    if index == 0 {
        assert(reaches(statuses, 0));
    } else {
        if is_success(statuses[0]) || statuses[0] == 404 {
            assert(all =~= seq![fate_of(statuses[0])] + course(rest, descriptors.skip(1), later));
            lemma_course_of_a_run(rest, descriptors.skip(1), later, index - 1);
            if reaches(statuses, index) {
                assert forall|j: int| 0 <= j < index - 1 implies later[j] == 404 || is_success(
                    #[trigger] later[j],
                ) by {
                    assert(later[j] == statuses[j + 1]);
                }
            } else {
                let j = choose|j: int|
                    0 <= j < index && !(statuses[j] == 404 || is_success(#[trigger] statuses[j]));
                assert(later[j - 1] == statuses[j]);
            }
        } else {
            assert(all =~= seq![fate_of(statuses[0])]);
            assert(!reaches(statuses, index));
        }
    }
}

/// A probe answered with 404 skips its descriptor, and the run goes on:
/// the descriptor after it, if there is one, is dealt with too.
pub proof fn lemma_run_goes_on_after_absent_folder(
    run: RefreshRunView,
    descriptors: Seq<DescriptorView>,
    statuses: Seq<u16>,
    index: int,
)
    requires
        descriptors.len() == run.remaining.len(),
        statuses.len() == run.remaining.len(),
        0 <= index < statuses.len(),
        reaches(statuses, index),
        statuses[index] == 404,
    ensures
        course(run, descriptors, statuses)[index] == Fate::Skipped,
        index + 1 < statuses.len() ==> course(run, descriptors, statuses).len() > index + 1,
{
    lemma_course_of_a_run(run, descriptors, statuses, index);
    if index + 1 < statuses.len() {
        assert(reaches(statuses, index + 1));
        lemma_course_of_a_run(run, descriptors, statuses, index + 1);
    }
}

/// A probe answered with 403 ends the run as rate limited: no
/// descriptor after it is dealt with.
pub proof fn lemma_run_ends_at_rate_limit(
    run: RefreshRunView,
    descriptors: Seq<DescriptorView>,
    statuses: Seq<u16>,
    index: int,
)
    requires
        descriptors.len() == run.remaining.len(),
        statuses.len() == run.remaining.len(),
        0 <= index < statuses.len(),
        reaches(statuses, index),
        statuses[index] == 403,
    ensures
        course(run, descriptors, statuses).len() == index + 1,
        course(run, descriptors, statuses)[index] == Fate::Failed(ResolveErrorView::RateLimited),
{
    lemma_course_of_a_run(run, descriptors, statuses, index);
}

/// The name that a removal removes.
pub open spec fn removed_name(r: RemovalView) -> Seq<char> {
    match r {
        RemovalView::File(n) => n,
        RemovalView::Tree(n) => n,
    }
}

/// Clearing a folder never removes what has the descriptor file's name,
/// and removes every other entry: a directory with all that is in it,
/// anything else as a single file.
pub proof fn lemma_clearing_spares_descriptor(entries: Seq<LocalEntryView>)
    ensures
        forall|i: int|
            0 <= i < removals_of(entries).len() ==> removed_name(
                #[trigger] removals_of(entries)[i],
            ) != descriptor_name(),
        forall|i: int|
            0 <= i < entries.len() && entries[i].name != descriptor_name() ==> removals_of(
                entries,
            ).contains(removal_of(#[trigger] entries[i])),
{
    let pred = |e: LocalEntryView| is_cleared(e);
    let kept = entries.filter(pred);
    assert forall|i: int| 0 <= i < removals_of(entries).len() implies removed_name(
        #[trigger] removals_of(entries)[i],
    ) != descriptor_name() by {
        entries.lemma_filter_pred(pred, i);
        assert(removals_of(entries)[i] == removal_of(kept[i]));
    }
    assert forall|i: int|
        0 <= i < entries.len() && entries[i].name != descriptor_name() implies removals_of(
        entries,
    ).contains(removal_of(#[trigger] entries[i])) by {
        entries.lemma_filter_contains(pred, i);
        let k = choose|k: int| 0 <= k < kept.len() && kept[k] == entries[i];
        assert(removals_of(entries)[k] == removal_of(entries[i]));
    }
}

} // verus!
