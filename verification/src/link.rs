//! Folder links: from a browsable address to the coordinates of a folder.

use vstd::prelude::*;
use crate::text::{from_index, join_from, join_with, views};

verus! {

/// Owner, repository, revision and path that address one remote folder.
/// An empty path is the repository root.
#[derive(Debug, PartialEq, Eq)]
pub struct Coordinates {
    pub owner: String,
    pub repo: String,
    pub reference: String,
    pub path: String,
}

/// The mathematical value of [`Coordinates`].
pub struct CoordinatesView {
    pub owner: Seq<char>,
    pub repo: Seq<char>,
    pub reference: Seq<char>,
    pub path: Seq<char>,
}

impl View for Coordinates {
    type V = CoordinatesView;

    open spec fn view(&self) -> CoordinatesView {
        CoordinatesView {
            owner: self.owner@,
            repo: self.repo@,
            reference: self.reference@,
            path: self.path@,
        }
    }
}

impl Clone for Coordinates {
    fn clone(&self) -> (out: Self)
        ensures
            out@ == self@,
    {
        Coordinates {
            owner: self.owner.clone(),
            repo: self.repo.clone(),
            reference: self.reference.clone(),
            path: self.path.clone(),
        }
    }
}

/// Why a link does not address a folder.
#[derive(Clone, Copy, Debug, PartialEq, Eq, Structural)]
pub enum LinkError {
    /// The text is no absolute URL.
    MalformedLink,
    /// The URL names no host, or another host than the service.
    WrongHost,
    /// The URL's path is not `owner/repo/tree/reference[/path...]`.
    UnsupportedShape,
}

/// What a URL says of its host and of its path, as plain values.
#[derive(Debug, PartialEq, Eq)]
pub struct UrlParts {
    /// The host as written in the URL, if it has one.
    pub host: Option<String>,
    /// The pieces of the path between slashes, if the URL can be a base.
    pub segments: Option<Vec<String>>,
}

/// The mathematical value of [`UrlParts`].
pub struct UrlPartsView {
    pub host: Option<Seq<char>>,
    pub segments: Option<Seq<Seq<char>>>,
}

impl View for UrlParts {
    type V = UrlPartsView;

    open spec fn view(&self) -> UrlPartsView {
        UrlPartsView {
            host: match self.host {
                Some(h) => Some(h@),
                None => None,
            },
            segments: match self.segments {
                Some(s) => Some(views(s@)),
                None => None,
            },
        }
    }
}

/// The host of the service whose folder links are understood.
pub open spec fn service_host() -> Seq<char> {
    "github.com"@
}

/// The path segment that marks a folder view.
pub open spec fn folder_marker() -> Seq<char> {
    "tree"@
}

/// The separator of path segments.
pub open spec fn slash() -> Seq<char> {
    "/"@
}

/// `segments` without its empty members, order kept.
pub open spec fn non_empty(segments: Seq<Seq<char>>) -> Seq<Seq<char>> {
    segments.filter(|s: Seq<char>| s.len() > 0)
}

/// Whether the non-empty segments `segs` have the shape
/// `owner/repo/tree/reference[/path...]`.
pub open spec fn folder_shape(segs: Seq<Seq<char>>) -> bool {
    segs.len() >= 4 && segs[2] == folder_marker()
}

/// The coordinates that segments of folder shape spell out.
pub open spec fn shape_coordinates(segs: Seq<Seq<char>>) -> CoordinatesView {
    CoordinatesView {
        owner: segs[0],
        repo: segs[1],
        reference: segs[3],
        path: join_with(from_index(segs, 4), slash()),
    }
}

/// What a URL with these parts addresses: the rule of the link parser.
pub open spec fn parts_coordinates(parts: UrlPartsView) -> Result<CoordinatesView, LinkError> {
    if parts.host != Some(service_host()) {
        Err(LinkError::WrongHost)
    } else {
        match parts.segments {
            None => Err(LinkError::UnsupportedShape),
            Some(raw) => {
                let segs = non_empty(raw);
                if folder_shape(segs) {
                    Ok(shape_coordinates(segs))
                } else {
                    Err(LinkError::UnsupportedShape)
                }
            },
        }
    }
}

/// Relates a result over exec values to one over their views.
pub open spec fn same_outcome(
    got: Result<Coordinates, LinkError>,
    want: Result<CoordinatesView, LinkError>,
) -> bool {
    match (got, want) {
        (Ok(c), Ok(v)) => c@ == v,
        (Err(e), Err(w)) => e == w,
        _ => false,
    }
}

/// Drops the empty strings of `segments`, keeping the order of the rest.
pub fn drop_empty(segments: &Vec<String>) -> (out: Vec<String>)
    ensures
        views(out@) == non_empty(views(segments@)),
{
    let mut out: Vec<String> = Vec::new();
    let ghost all = views(segments@);
    let mut i: usize = 0;
    proof {
        assert(all.subrange(0, 0) =~= Seq::<Seq<char>>::empty());
        assert(views(out@) =~= non_empty(all.subrange(0, 0)));
    }
    while i < segments.len()
        invariant
            i <= segments.len(),
            all == views(segments@),
            views(out@) == non_empty(all.subrange(0, i as int)),
        decreases segments.len() - i,
    {
        let ghost before = views(out@);
        proof {
            let pre = all.subrange(0, i as int);
            let next = all.subrange(0, i + 1);
            assert(next.drop_last() =~= pre);
            assert(next.last() == segments@[i as int]@);
            reveal(Seq::filter);
        }
        if !segments[i].as_str().is_empty() {
            out.push(segments[i].clone());
            proof {
                assert(views(out@) =~= before.push(segments@[i as int]@));
            }
        }
        i = i + 1;
    }
    proof {
        assert(all.subrange(0, i as int) =~= all);
    }
    out
}

/// Decides what a URL with the given parts addresses.
///
/// The host must be the service's, and the non-empty path segments must
/// read `owner/repo/tree/reference`, followed by the folder's own path.
pub fn coordinates_from_parts(parts: &UrlParts) -> (out: Result<Coordinates, LinkError>)
    ensures
        same_outcome(out, parts_coordinates(parts@)),
{
    let host_ok = match &parts.host {
        Some(h) => {
            let service = String::from_str("github.com");
            *h == service
        },
        None => false,
    };
    if !host_ok {
        return Err(LinkError::WrongHost);
    }
    match &parts.segments {
        None => Err(LinkError::UnsupportedShape),
        Some(raw) => {
            let segs = drop_empty(raw);
            if segs.len() < 4 {
                return Err(LinkError::UnsupportedShape);
            }
            let marker = String::from_str("tree");
            if segs[2] != marker {
                return Err(LinkError::UnsupportedShape);
            }
            let path = join_from(&segs, 4, "/");
            Ok(
                Coordinates {
                    owner: segs[0].clone(),
                    repo: segs[1].clone(),
                    reference: segs[3].clone(),
                    path,
                },
            )
        },
    }
}

/// The error of `url::Url::parse`, carried as an opaque value.
#[verifier::external_type_specification]
#[verifier::external_body]
pub struct ExParseError(url::ParseError);

/// Whether `url::Url::parse` accepts `link`.
pub uninterp spec fn url_parses(link: Seq<char>) -> bool;

/// What `url::Url::host_str` gives for the URL that `link` parses to.
pub uninterp spec fn url_host(link: Seq<char>) -> Option<Seq<char>>;

/// What `url::Url::path_segments` gives, item by item, for the URL that
/// `link` parses to.
pub uninterp spec fn url_path_segments(link: Seq<char>) -> Option<Seq<Seq<char>>>;

/// Parses `link` with `url::Url::parse` and reads the URL's `host_str` and
/// `path_segments` into plain values.
///
/// Trusted: the result is `Ok` exactly when the outside parser accepts the
/// text, and then holds what the two accessors return for the parsed URL.
/// Nothing is claimed of which error comes back.
#[verifier::external_body]
fn split_url(link: &str) -> (out: Result<UrlParts, url::ParseError>)
    ensures
        out is Ok == url_parses(link@),
        out matches Ok(parts) ==> parts@.host == url_host(link@),
        out matches Ok(parts) ==> parts@.segments == url_path_segments(link@),
{
    let url = url::Url::parse(link)?;
    Ok(
        UrlParts {
            host: url.host_str().map(|h| h.to_string()),
            segments: url.path_segments().map(|s| s.map(|p| p.to_string()).collect()),
        },
    )
}

/// What a link addresses, over the outside parser's reading of it.
pub open spec fn link_coordinates(link: Seq<char>) -> Result<CoordinatesView, LinkError> {
    if url_parses(link) {
        parts_coordinates(
            UrlPartsView { host: url_host(link), segments: url_path_segments(link) },
        )
    } else {
        Err(LinkError::MalformedLink)
    }
}

/// Parses a folder link into the coordinates of the folder.
///
/// Fails with `MalformedLink` where the text is no absolute URL, with
/// `WrongHost` where its host is not the service's, and with
/// `UnsupportedShape` where its path is not that of a folder view.
pub fn parse_github_link(link: &str) -> (out: Result<Coordinates, LinkError>)
    ensures
        same_outcome(out, link_coordinates(link@)),
{
    match split_url(link) {
        Err(_) => Err(LinkError::MalformedLink),
        Ok(parts) => coordinates_from_parts(&parts),
    }
}

/// A URL on the service's host whose non-empty path segments read
/// `owner/repo/tree/reference[/extra...]` yields the coordinates made of
/// segments 0, 1 and 3 and of the later segments joined by slashes; with
/// exactly four segments the path is empty.
pub proof fn lemma_folder_link_yields_segments(parts: UrlPartsView)
    requires
        parts.host == Some(service_host()),
        parts.segments is Some,
        folder_shape(non_empty(parts.segments->0)),
    ensures
        ({
            let segs = non_empty(parts.segments->0);
            &&& parts_coordinates(parts) matches Ok(c)
            &&& c.owner == segs[0]
            &&& c.repo == segs[1]
            &&& c.reference == segs[3]
            &&& c.path == join_with(segs.skip(4), slash())
            &&& segs.len() == 4 ==> c.path == Seq::<char>::empty()
        }),
{
}

/// The same of a link: where the outside parser accepts it, reads the
/// service's host in it, and reads path segments of folder shape, the
/// link parses to the coordinates that the segments spell.
pub proof fn lemma_folder_link_parses(link: Seq<char>)
    requires
        url_parses(link),
        url_host(link) == Some(service_host()),
        url_path_segments(link) is Some,
        folder_shape(non_empty(url_path_segments(link)->0)),
    ensures
        link_coordinates(link) == Ok::<CoordinatesView, LinkError>(
            shape_coordinates(non_empty(url_path_segments(link)->0)),
        ),
{
}

/// Every other URL is refused, and each with its own error: another host
/// (or none) with `WrongHost`; on the service's host, fewer than four
/// non-empty segments, or a third one that is not the folder marker, with
/// `UnsupportedShape`.
pub proof fn lemma_other_links_fail(parts: UrlPartsView)
    ensures
        parts.host != Some(service_host()) ==> parts_coordinates(parts) == Err::<
            CoordinatesView,
            LinkError,
        >(LinkError::WrongHost),
        parts.host == Some(service_host()) && (parts.segments is None || !folder_shape(
            non_empty(parts.segments->0),
        )) ==> parts_coordinates(parts) == Err::<CoordinatesView, LinkError>(
            LinkError::UnsupportedShape,
        ),
        parts_coordinates(parts) is Ok <==> parts.host == Some(service_host())
            && parts.segments is Some && folder_shape(non_empty(parts.segments->0)),
{
}

/// A text that is no URL is refused as malformed, and a link is accepted
/// only if its URL is.
pub proof fn lemma_malformed_link_fails(link: Seq<char>)
    ensures
        !url_parses(link) ==> link_coordinates(link) == Err::<CoordinatesView, LinkError>(
            LinkError::MalformedLink,
        ),
        link_coordinates(link) is Ok ==> url_parses(link),
{
}

} // verus!
