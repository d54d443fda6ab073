//! What each failure says to the user.

use vstd::prelude::*;
use crate::download::DownloadError;
use crate::link::LinkError;
use crate::metadata::MetadataError;
use crate::remote::{ResolveError, ResolveErrorView};

verus! {

/// The text of one decimal digit.
pub open spec fn digit_text(d: nat) -> Seq<char> {
    if d == 0 {
        "0"@
    } else if d == 1 {
        "1"@
    } else if d == 2 {
        "2"@
    } else if d == 3 {
        "3"@
    } else if d == 4 {
        "4"@
    } else if d == 5 {
        "5"@
    } else if d == 6 {
        "6"@
    } else if d == 7 {
        "7"@
    } else if d == 8 {
        "8"@
    } else {
        "9"@
    }
}

/// A number in decimal, without leading zeros.
pub open spec fn decimal_text(n: nat) -> Seq<char>
    decreases n,
{
    if n < 10 {
        digit_text(n)
    } else {
        decimal_text(n / 10) + digit_text(n % 10)
    }
}

/// What a refused link says.
pub open spec fn link_error_text(e: LinkError) -> Seq<char> {
    match e {
        LinkError::MalformedLink => "Invalid URL"@,
        LinkError::WrongHost => "URL is not a github.com link"@,
        LinkError::UnsupportedShape =>
            "URL must be in the format https://github.com/owner/repo/tree/ref[/path]"@,
    }
}

/// What an unreadable or unwritable descriptor says.
pub open spec fn metadata_error_text(e: MetadataError) -> Seq<char> {
    match e {
        MetadataError::CorruptMetadata => "Descriptor file is corrupt"@,
        MetadataError::Unwritable => "Descriptor cannot be written"@,
    }
}

/// What a failed walk says. A rate limit comes with the advice to supply
/// a token.
pub open spec fn resolve_error_text(e: ResolveErrorView) -> Seq<char> {
    match e {
        ResolveErrorView::RateLimited =>
            "Failed to list directory: HTTP 403 Forbidden. Are you hitting the GitHub API rate limit? Try setting the GITHUB_TOKEN environment variable."@,
        ResolveErrorView::RemoteListingFailed(status) => "Failed to list directory: HTTP "@
            + decimal_text(status as nat),
        ResolveErrorView::MalformedListing => "Failed to read directory listing"@,
        ResolveErrorView::FileDownloadFailed(name, status) => "Failed to download file "@ + name
            + ": HTTP "@ + decimal_text(status as nat),
    }
}

/// What a download that cannot begin says.
pub open spec fn download_error_text(e: DownloadError) -> Seq<char> {
    match e {
        DownloadError::Link(inner) => link_error_text(inner),
        DownloadError::OutputNotEmpty => "Output directory is not empty"@,
        DownloadError::Metadata(inner) => metadata_error_text(inner),
    }
}

/// The text of the decimal digit `d`.
fn digit(d: u16) -> (out: &'static str)
    requires
        d < 10,
    ensures
        out@ == digit_text(d as nat),
{
    if d == 0 {
        "0"
    } else if d == 1 {
        "1"
    } else if d == 2 {
        "2"
    } else if d == 3 {
        "3"
    } else if d == 4 {
        "4"
    } else if d == 5 {
        "5"
    } else if d == 6 {
        "6"
    } else if d == 7 {
        "7"
    } else if d == 8 {
        "8"
    } else {
        "9"
    }
}

/// Writes `n` in decimal.
pub fn decimal(n: u16) -> (out: String)
    ensures
        out@ == decimal_text(n as nat),
    decreases n,
{
    if n < 10 {
        String::from_str(digit(n))
    } else {
        let mut out = decimal(n / 10);
        out.append(digit(n % 10));
        out
    }
}

impl LinkError {
    /// The message for the user.
    pub fn describe(&self) -> (out: String)
        ensures
            out@ == link_error_text(*self),
    {
        match self {
            LinkError::MalformedLink => String::from_str("Invalid URL"),
            LinkError::WrongHost => String::from_str("URL is not a github.com link"),
            LinkError::UnsupportedShape => String::from_str(
                "URL must be in the format https://github.com/owner/repo/tree/ref[/path]",
            ),
        }
    }
}

impl MetadataError {
    /// The message for the user.
    pub fn describe(&self) -> (out: String)
        ensures
            out@ == metadata_error_text(*self),
    {
        match self {
            MetadataError::CorruptMetadata => String::from_str("Descriptor file is corrupt"),
            MetadataError::Unwritable => String::from_str("Descriptor cannot be written"),
        }
    }
}

impl ResolveError {
    /// The message for the user.
    pub fn describe(&self) -> (out: String)
        ensures
            out@ == resolve_error_text(self@),
    {
        match self {
            ResolveError::RateLimited => String::from_str(
                "Failed to list directory: HTTP 403 Forbidden. Are you hitting the GitHub API rate limit? Try setting the GITHUB_TOKEN environment variable.",
            ),
            ResolveError::RemoteListingFailed(status) => {
                let mut out = String::from_str("Failed to list directory: HTTP ");
                out.append(decimal(*status).as_str());
                out
            },
            ResolveError::MalformedListing => String::from_str("Failed to read directory listing"),
            ResolveError::FileDownloadFailed(name, status) => {
                let mut out = String::from_str("Failed to download file ");
                out.append(name.as_str());
                out.append(": HTTP ");
                out.append(decimal(*status).as_str());
                out
            },
        }
    }
}

impl DownloadError {
    /// The message for the user.
    pub fn describe(&self) -> (out: String)
        ensures
            out@ == download_error_text(*self),
    {
        match self {
            DownloadError::Link(inner) => inner.describe(),
            DownloadError::OutputNotEmpty => String::from_str("Output directory is not empty"),
            DownloadError::Metadata(inner) => inner.describe(),
        }
    }
}

} // verus!
