//! A fresh download: the link is checked, the output directory must be
//! free, and the descriptor is written before anything is fetched.

use vstd::prelude::*;
use crate::link::{link_coordinates, LinkError};
use crate::metadata::{described, encoded, located, Descriptor, DescriptorView, MetadataError};
use crate::resolver::{FrameView, ListingRequest, ListingView, Resolver};

verus! {

/// Why a download cannot begin.
#[derive(Clone, Copy, Debug, PartialEq, Eq, Structural)]
pub enum DownloadError {
    /// The link addresses no folder.
    Link(LinkError),
    /// The output directory exists and holds something.
    OutputNotEmpty,
    /// The descriptor cannot be written down.
    Metadata(MetadataError),
}

/// A download whose descriptor is to be written. The driver creates the
/// output directory and writes `text` to the descriptor file in it. The
/// text reads back as the descriptor.
#[derive(Debug, PartialEq, Eq)]
pub struct DescriptorWrite {
    pub descriptor: Descriptor,
    pub text: String,
}

/// The mathematical value of [`DescriptorWrite`].
pub struct DescriptorWriteView {
    pub descriptor: DescriptorView,
    pub text: Seq<char>,
}

impl View for DescriptorWrite {
    type V = DescriptorWriteView;

    open spec fn view(&self) -> DescriptorWriteView {
        DescriptorWriteView { descriptor: self.descriptor@, text: self.text@ }
    }
}

/// Whether an output directory can take a download: it does not exist
/// yet, or it holds nothing.
pub open spec fn output_is_free(exists: bool, occupied: bool) -> bool {
    !(exists && occupied)
}

/// How a download of `link` begins, for an output directory in the given
/// state: the link is judged first, then the directory, then the
/// descriptor is written down.
pub open spec fn download_start(link: Seq<char>, exists: bool, occupied: bool) -> Result<
    DescriptorWriteView,
    DownloadError,
> {
    match link_coordinates(link) {
        Err(e) => Err(DownloadError::Link(e)),
        Ok(coords) => if !output_is_free(exists, occupied) {
            Err(DownloadError::OutputNotEmpty)
        } else {
            match encoded(described(coords, link)) {
                None => Err(DownloadError::Metadata(MetadataError::Unwritable)),
                Some(text) => Ok(
                    DescriptorWriteView { descriptor: described(coords, link), text },
                ),
            }
        },
    }
}

/// Judges an output directory: `exists` says whether it is there,
/// `occupied` whether it holds any entry.
pub fn check_output(exists: bool, occupied: bool) -> (out: Result<(), DownloadError>)
    ensures
        output_is_free(exists, occupied) ==> out is Ok,
        !output_is_free(exists, occupied) ==> out == Err::<(), DownloadError>(
            DownloadError::OutputNotEmpty,
        ),
{
    if exists && occupied {
        Err(DownloadError::OutputNotEmpty)
    } else {
        Ok(())
    }
}

/// Begins the download of the folder that `link` addresses.
///
/// Fails with the link parser's error where the link addresses no
/// folder, and with `OutputNotEmpty` where the output directory exists
/// and holds something.
pub fn begin_download(link: &str, exists: bool, occupied: bool) -> (out: Result<
    DescriptorWrite,
    DownloadError,
>)
    ensures
        match download_start(link@, exists, occupied) {
            Ok(w) => out matches Ok(got) && got@ == w,
            Err(e) => out matches Err(got) && got == e,
        },
        out matches Ok(got) ==> crate::metadata::decoded(got@.text) == Some(got@.descriptor),
{
    let descriptor = match Descriptor::for_link(link) {
        Ok(d) => d,
        Err(e) => {
            return Err(DownloadError::Link(e));
        },
    };
    match check_output(exists, occupied) {
        Ok(()) => {},
        Err(e) => {
            return Err(e);
        },
    }
    match descriptor.encode() {
        Ok(text) => Ok(DescriptorWrite { descriptor, text }),
        Err(e) => Err(DownloadError::Metadata(e)),
    }
}

impl DescriptorWrite {
    /// Once the descriptor file is written: the walk that fills the
    /// output directory from the descriptor's coordinates.
    pub fn written(self) -> (out: ListingRequest)
        ensures
            out@ == (ListingView {
                walk: Seq::<FrameView>::empty(),
                coords: located(self@.descriptor),
                local: Seq::<Seq<char>>::empty(),
            }),
    {
        Resolver::begin(self.descriptor.coordinates())
    }
}

} // verus!
