//! The remote side as plain values: the address of a folder's listing, the
//! entries of a listing, and what an answer's status means.

use vstd::prelude::*;
use crate::json::{
    find_member, find_text, json_object_list, lookup, member_views, object_views,
    parse_object_list, JsonValue, JsonValueView, Member, MemberView, text_of,
};
use crate::link::{slash, Coordinates, CoordinatesView};
use crate::text::same_text;

verus! {

/// What kind of thing a listing reports.
#[derive(Clone, Copy, Debug, PartialEq, Eq, Structural)]
pub enum EntryKind {
    File,
    Directory,
    /// Anything that is not materialised, such as a submodule link.
    Other,
}

/// One item of a listing.
#[derive(Debug, PartialEq, Eq)]
pub struct RemoteEntry {
    pub name: String,
    pub kind: EntryKind,
    /// Where the content of a file can be fetched, if the listing says so.
    pub download_url: Option<String>,
}

/// The mathematical value of [`RemoteEntry`].
pub struct RemoteEntryView {
    pub name: Seq<char>,
    pub kind: EntryKind,
    pub download_url: Option<Seq<char>>,
}

impl View for RemoteEntry {
    type V = RemoteEntryView;

    open spec fn view(&self) -> RemoteEntryView {
        RemoteEntryView {
            name: self.name@,
            kind: self.kind,
            download_url: match self.download_url {
                Some(u) => Some(u@),
                None => None,
            },
        }
    }
}

/// The entries of a listing, each by its view.
pub open spec fn entry_views(entries: Seq<RemoteEntry>) -> Seq<RemoteEntryView> {
    Seq::new(entries.len(), |i: int| entries[i]@)
}

/// Why a folder could not be resolved.
#[derive(Debug, PartialEq, Eq)]
pub enum ResolveError {
    /// The service answered 403: forbidden, or the rate limit was hit.
    RateLimited,
    /// The listing was answered with this status, which is no success.
    RemoteListingFailed(u16),
    /// The listing's body is no array of entries with a name and a type.
    MalformedListing,
    /// The file of this name was answered with this status.
    FileDownloadFailed(String, u16),
}

/// The mathematical value of [`ResolveError`].
pub enum ResolveErrorView {
    RateLimited,
    RemoteListingFailed(u16),
    MalformedListing,
    FileDownloadFailed(Seq<char>, u16),
}

impl View for ResolveError {
    type V = ResolveErrorView;

    open spec fn view(&self) -> ResolveErrorView {
        match self {
            ResolveError::RateLimited => ResolveErrorView::RateLimited,
            ResolveError::RemoteListingFailed(s) => ResolveErrorView::RemoteListingFailed(*s),
            ResolveError::MalformedListing => ResolveErrorView::MalformedListing,
            ResolveError::FileDownloadFailed(n, s) => ResolveErrorView::FileDownloadFailed(
                n@,
                *s,
            ),
        }
    }
}

/// Whether a status is one of success: 200 to 299.
pub open spec fn is_success(status: u16) -> bool {
    200 <= status < 300
}

/// What the status of a listing's answer means: 403 is the rate limit,
/// any other status outside 200 to 299 a failure of its own.
pub open spec fn listing_verdict(status: u16) -> Option<ResolveErrorView> {
    if status == 403 {
        Some(ResolveErrorView::RateLimited)
    } else if !is_success(status) {
        Some(ResolveErrorView::RemoteListingFailed(status))
    } else {
        None
    }
}

/// What the status of a file's answer means.
pub open spec fn file_verdict(name: Seq<char>, status: u16) -> Option<ResolveErrorView> {
    if is_success(status) {
        None
    } else {
        Some(ResolveErrorView::FileDownloadFailed(name, status))
    }
}

/// `path` extended by the child `name`: the name alone below the root.
pub open spec fn extended(path: Seq<char>, name: Seq<char>) -> Seq<char> {
    if path.len() == 0 {
        name
    } else {
        path + slash() + name
    }
}

/// The coordinates of the child `name` of the folder at `c`.
pub open spec fn child_of(c: CoordinatesView, name: Seq<char>) -> CoordinatesView {
    CoordinatesView { path: extended(c.path, name), ..c }
}

/// The address of the listing of the folder at `c`.
pub open spec fn listing_address(c: CoordinatesView) -> Seq<char> {
    "https://api.github.com/repos/"@ + c.owner + slash() + c.repo + "/contents"@ + (if c.path.len()
        == 0 {
        Seq::<char>::empty()
    } else {
        slash() + c.path
    }) + "?ref="@ + c.reference
}

/// The kind that a listing's type text stands for.
pub open spec fn kind_of(type_text: Seq<char>) -> EntryKind {
    if type_text == "file"@ {
        EntryKind::File
    } else if type_text == "dir"@ {
        EntryKind::Directory
    } else {
        EntryKind::Other
    }
}

/// The entry that the members of an object spell. `name` and `type` must
/// hold a text; `download_url` may be missing or `null`, and must else hold
/// a text.
pub open spec fn entry_of(members: Seq<MemberView>) -> Option<RemoteEntryView> {
    let name = text_of(members, "name"@);
    let kind = text_of(members, "type"@);
    if name is Some && kind is Some {
        match lookup(members, "download_url"@) {
            None | Some(JsonValueView::Null) => Some(
                RemoteEntryView { name: name->0, kind: kind_of(kind->0), download_url: None },
            ),
            Some(JsonValueView::Text(u)) => Some(
                RemoteEntryView { name: name->0, kind: kind_of(kind->0), download_url: Some(u) },
            ),
            Some(JsonValueView::Other) => None,
        }
    } else {
        None
    }
}

/// The listing that a list of objects spells: each object must spell an
/// entry, and the order is kept.
pub open spec fn listing_of(objects: Seq<Seq<MemberView>>) -> Option<Seq<RemoteEntryView>> {
    if forall|i: int| 0 <= i < objects.len() ==> (#[trigger] entry_of(objects[i])) is Some {
        Some(Seq::new(objects.len(), |i: int| entry_of(objects[i])->0))
    } else {
        None
    }
}

/// The listing that the body of an answer holds, over the outside
/// reader's view of the bytes.
pub open spec fn listing_in(body: Seq<u8>) -> Option<Seq<RemoteEntryView>> {
    match json_object_list(body) {
        Some(objects) => listing_of(objects),
        None => None,
    }
}

impl Coordinates {
    /// The coordinates of the child `name` of this folder: the path grows
    /// by a slash and the name, or is the name alone below the root.
    pub fn child(&self, name: &str) -> (out: Coordinates)
        ensures
            out@ == child_of(self@, name@),
    {
        let mut path = self.path.clone();
        if !path.as_str().is_empty() {
            path.append("/");
        }
        path.append(name);
        proof {
            if self.path@.len() == 0 {
                assert(path@ =~= name@);
            }
        }
        Coordinates {
            owner: self.owner.clone(),
            repo: self.repo.clone(),
            reference: self.reference.clone(),
            path,
        }
    }

    /// The address at which the service lists this folder. The path is
    /// left out where it is empty.
    pub fn listing_address(&self) -> (out: String)
        ensures
            out@ == listing_address(self@),
    {
        let mut out = String::from_str("https://api.github.com/repos/");
        out.append(self.owner.as_str());
        out.append("/");
        out.append(self.repo.as_str());
        out.append("/contents");
        if !self.path.as_str().is_empty() {
            out.append("/");
            out.append(self.path.as_str());
        }
        out.append("?ref=");
        out.append(self.reference.as_str());
        proof {
            assert(out@ =~= listing_address(self@));
        }
        out
    }
}

/// Judges the status of a listing's answer.
pub fn check_listing_status(status: u16) -> (out: Result<(), ResolveError>)
    ensures
        match listing_verdict(status) {
            Some(e) => out matches Err(got) && got@ == e,
            None => out is Ok,
        },
{
    if status == 403 {
        Err(ResolveError::RateLimited)
    } else if status < 200 || status >= 300 {
        Err(ResolveError::RemoteListingFailed(status))
    } else {
        Ok(())
    }
}

/// Judges the status of the answer to the request for the file `name`.
pub fn check_file_status(name: &str, status: u16) -> (out: Result<(), ResolveError>)
    ensures
        match file_verdict(name@, status) {
            Some(e) => out matches Err(got) && got@ == e,
            None => out is Ok,
        },
{
    if status < 200 || status >= 300 {
        Err(ResolveError::FileDownloadFailed(String::from_str(name), status))
    } else {
        Ok(())
    }
}

/// The kind that the type text of a listing's item stands for.
pub fn kind_from_text(type_text: &str) -> (out: EntryKind)
    ensures
        out == kind_of(type_text@),
{
    if same_text(type_text, "file") {
        EntryKind::File
    } else if same_text(type_text, "dir") {
        EntryKind::Directory
    } else {
        EntryKind::Other
    }
}

impl RemoteEntry {
    /// Reads an entry from the members of a JSON object.
    pub fn from_members(members: &Vec<Member>) -> (out: Option<RemoteEntry>)
        ensures
            match entry_of(member_views(members@)) {
                Some(e) => out matches Some(got) && got@ == e,
                None => out is None,
            },
    {
        let name = find_text(members, "name");
        let kind = find_text(members, "type");
        match (name, kind) {
            (Some(name), Some(kind)) => {
                let kind = kind_from_text(kind.as_str());
                match find_member(members, "download_url") {
                    None => Some(RemoteEntry { name, kind, download_url: None }),
                    Some(m) => match &m.value {
                        JsonValue::Null => Some(RemoteEntry { name, kind, download_url: None }),
                        JsonValue::Text(u) => Some(
                            RemoteEntry { name, kind, download_url: Some(u.clone()) },
                        ),
                        JsonValue::Other => None,
                    },
                }
            },
            _ => None,
        }
    }
}

/// Reads a listing from a list of JSON objects, keeping their order.
///
/// Succeeds exactly when every object spells an entry.
pub fn listing_from_objects(objects: &Vec<Vec<Member>>) -> (out: Option<Vec<RemoteEntry>>)
    ensures
        match listing_of(object_views(objects@)) {
            Some(entries) => out matches Some(got) && entry_views(got@) == entries,
            None => out is None,
        },
{
    let ghost all = object_views(objects@);
    let mut out: Vec<RemoteEntry> = Vec::new();
    let mut i: usize = 0;
    while i < objects.len()
        invariant
            i <= objects.len(),
            all == object_views(objects@),
            out.len() == i,
            forall|j: int| 0 <= j < i ==> (#[trigger] entry_of(all[j])) == Some(out@[j]@),
        decreases objects.len() - i,
    {
        proof {
            assert(all[i as int] == member_views(objects@[i as int]@));
        }
        match RemoteEntry::from_members(&objects[i]) {
            Some(entry) => {
                out.push(entry);
            },
            None => {
                proof {
                    assert(entry_of(all[i as int]) is None);
                }
                return None;
            },
        }
        i = i + 1;
    }
    proof {
        assert(entry_views(out@) =~= listing_of(all)->0);
    }
    Some(out)
}

/// Reads the listing that the body of an answer holds.
///
/// Fails with `MalformedListing` where the body is no JSON array of
/// objects, or one of them spells no entry.
pub fn decode_listing(body: &[u8]) -> (out: Result<Vec<RemoteEntry>, ResolveError>)
    ensures
        match listing_in(body@) {
            Some(entries) => out matches Ok(got) && entry_views(got@) == entries,
            None => out matches Err(e) && e@ == ResolveErrorView::MalformedListing,
        },
{
    match parse_object_list(body) {
        Ok(objects) => match listing_from_objects(&objects) {
            Some(entries) => Ok(entries),
            None => Err(ResolveError::MalformedListing),
        },
        Err(_) => Err(ResolveError::MalformedListing),
    }
}

/// The name by which requests introduce the tool to the service.
pub open spec fn agent_name() -> Seq<char> {
    "github-dl"@
}

/// The value of the authorization header for a token.
pub open spec fn authorization_for(token: Seq<char>) -> Seq<char> {
    "token "@ + token
}

/// The name by which requests introduce the tool to the service.
pub fn user_agent() -> (out: String)
    ensures
        out@ == agent_name(),
{
    String::from_str("github-dl")
}

/// The authorization header that goes with every request: none without
/// a token, which is valid and means anonymous access.
pub fn authorization(token: Option<&str>) -> (out: Option<String>)
    ensures
        match token {
            Some(t) => out matches Some(v) && v@ == authorization_for(t@),
            None => out is None,
        },
{
    match token {
        Some(t) => {
            let mut value = String::from_str("token ");
            value.append(t);
            Some(value)
        },
        None => None,
    }
}

} // verus!
