//! The descriptor kept beside each downloaded folder: what was downloaded
//! and from which link, as a flat record of five texts.

use vstd::prelude::*;
use crate::json::{
    find_text, json_object, json_pretty, member_views, pair_views, parse_object, render_object,
    JsonValueView, Member, MemberView, text_of,
};
use crate::link::{parse_github_link, link_coordinates, Coordinates, CoordinatesView, LinkError};

verus! {

/// The coordinates of a downloaded folder and the link it was asked by.
#[derive(Debug, PartialEq, Eq)]
pub struct Descriptor {
    pub owner: String,
    pub repo: String,
    pub reference: String,
    pub path: String,
    pub url: String,
}

/// The mathematical value of [`Descriptor`].
pub struct DescriptorView {
    pub owner: Seq<char>,
    pub repo: Seq<char>,
    pub reference: Seq<char>,
    pub path: Seq<char>,
    pub url: Seq<char>,
}

impl View for Descriptor {
    type V = DescriptorView;

    open spec fn view(&self) -> DescriptorView {
        DescriptorView {
            owner: self.owner@,
            repo: self.repo@,
            reference: self.reference@,
            path: self.path@,
            url: self.url@,
        }
    }
}

impl Clone for Descriptor {
    fn clone(&self) -> (out: Self)
        ensures
            out@ == self@,
    {
        Descriptor {
            owner: self.owner.clone(),
            repo: self.repo.clone(),
            reference: self.reference.clone(),
            path: self.path.clone(),
            url: self.url.clone(),
        }
    }
}

/// Why a descriptor could not be read or written.
#[derive(Clone, Copy, Debug, PartialEq, Eq, Structural)]
pub enum MetadataError {
    /// The text is no JSON object, or lacks one of the five texts.
    CorruptMetadata,
    /// The encoder refused the record, or wrote a text that does not
    /// read back as the descriptor.
    Unwritable,
}

/// The descriptor made of coordinates and a link.
pub open spec fn described(coords: CoordinatesView, url: Seq<char>) -> DescriptorView {
    DescriptorView {
        owner: coords.owner,
        repo: coords.repo,
        reference: coords.reference,
        path: coords.path,
        url,
    }
}

/// The coordinates that a descriptor records.
pub open spec fn located(d: DescriptorView) -> CoordinatesView {
    CoordinatesView { owner: d.owner, repo: d.repo, reference: d.reference, path: d.path }
}

/// The name of the descriptor file inside a downloaded folder.
pub open spec fn descriptor_name() -> Seq<char> {
    ".github-dl.json"@
}

/// The record of a descriptor: its five texts under their keys, in the
/// order in which they are written.
pub open spec fn record_of(d: DescriptorView) -> Seq<(Seq<char>, Seq<char>)> {
    seq![
        ("owner"@, d.owner),
        ("repo"@, d.repo),
        ("reference"@, d.reference),
        ("path"@, d.path),
        ("url"@, d.url),
    ]
}

/// The descriptor that the members of an object spell: each of the five
/// keys must hold a text; other members are passed over.
pub open spec fn descriptor_of(members: Seq<MemberView>) -> Option<DescriptorView> {
    if text_of(members, "owner"@) is Some && text_of(members, "repo"@) is Some && text_of(
        members,
        "reference"@,
    ) is Some && text_of(members, "path"@) is Some && text_of(members, "url"@) is Some {
        Some(
            DescriptorView {
                owner: text_of(members, "owner"@)->0,
                repo: text_of(members, "repo"@)->0,
                reference: text_of(members, "reference"@)->0,
                path: text_of(members, "path"@)->0,
                url: text_of(members, "url"@)->0,
            },
        )
    } else {
        None
    }
}

/// The members that a record of texts stands for.
pub open spec fn text_members(pairs: Seq<(Seq<char>, Seq<char>)>) -> Seq<MemberView> {
    Seq::new(
        pairs.len(),
        |i: int| MemberView { key: pairs[i].0, value: JsonValueView::Text(pairs[i].1) },
    )
}

/// What a descriptor file of this text holds, over the outside reader's
/// view of the text.
pub open spec fn decoded(text: Seq<char>) -> Option<DescriptorView> {
    match json_object(text) {
        Some(members) => descriptor_of(members),
        None => None,
    }
}

/// The text of the descriptor file of `d`: what the outside writer makes
/// of the record, provided that it reads back as `d`.
pub open spec fn encoded(d: DescriptorView) -> Option<Seq<char>> {
    match json_pretty(record_of(d)) {
        Some(text) => if decoded(text) == Some(d) {
            Some(text)
        } else {
            None
        },
        None => None,
    }
}

impl Descriptor {
    /// The descriptor of the folder at `coords`, asked for by `url`.
    pub fn new(coords: Coordinates, url: String) -> (out: Descriptor)
        ensures
            out@ == described(coords@, url@),
    {
        Descriptor {
            owner: coords.owner,
            repo: coords.repo,
            reference: coords.reference,
            path: coords.path,
            url,
        }
    }

    /// The descriptor of the folder that `link` addresses, with the link
    /// itself as its `url`; the link parser's error where it addresses none.
    pub fn for_link(link: &str) -> (out: Result<Descriptor, LinkError>)
        ensures
            match link_coordinates(link@) {
                Ok(c) => out matches Ok(d) && d@ == described(c, link@),
                Err(e) => out == Err::<Descriptor, LinkError>(e),
            },
    {
        match parse_github_link(link) {
            Ok(coords) => Ok(Descriptor::new(coords, String::from_str(link))),
            Err(e) => Err(e),
        }
    }

    /// The coordinates of the described folder.
    pub fn coordinates(&self) -> (out: Coordinates)
        ensures
            out@ == located(self@),
    {
        Coordinates {
            owner: self.owner.clone(),
            repo: self.repo.clone(),
            reference: self.reference.clone(),
            path: self.path.clone(),
        }
    }

    /// The record of this descriptor, ready for the encoder.
    pub fn record(&self) -> (out: Vec<(String, String)>)
        ensures
            pair_views(out@) == record_of(self@),
    {
        let mut out: Vec<(String, String)> = Vec::new();
        out.push((String::from_str("owner"), self.owner.clone()));
        out.push((String::from_str("repo"), self.repo.clone()));
        out.push((String::from_str("reference"), self.reference.clone()));
        out.push((String::from_str("path"), self.path.clone()));
        out.push((String::from_str("url"), self.url.clone()));
        proof {
            assert(pair_views(out@) =~= record_of(self@));
        }
        out
    }

    /// Reads a descriptor from the members of a JSON object.
    ///
    /// Succeeds exactly when each of the five keys holds a text.
    pub fn from_members(members: &Vec<Member>) -> (out: Result<Descriptor, MetadataError>)
        ensures
            match descriptor_of(member_views(members@)) {
                Some(d) => out matches Ok(got) && got@ == d,
                None => out == Err::<Descriptor, MetadataError>(MetadataError::CorruptMetadata),
            },
    {
        let owner = find_text(members, "owner");
        let repo = find_text(members, "repo");
        let reference = find_text(members, "reference");
        let path = find_text(members, "path");
        let url = find_text(members, "url");
        match (owner, repo, reference, path, url) {
            (Some(owner), Some(repo), Some(reference), Some(path), Some(url)) => Ok(
                Descriptor { owner, repo, reference, path, url },
            ),
            _ => Err(MetadataError::CorruptMetadata),
        }
    }

    /// Reads a descriptor from the text of a descriptor file.
    ///
    /// Fails with `CorruptMetadata` where the text is no JSON object or
    /// lacks one of the five texts.
    pub fn decode(text: &str) -> (out: Result<Descriptor, MetadataError>)
        ensures
            match decoded(text@) {
                Some(d) => out matches Ok(got) && got@ == d,
                None => out == Err::<Descriptor, MetadataError>(MetadataError::CorruptMetadata),
            },
    {
        match parse_object(text) {
            Ok(members) => Descriptor::from_members(&members),
            Err(_) => Err(MetadataError::CorruptMetadata),
        }
    }

    /// Whether two descriptors agree field for field.
    pub fn same_as(&self, other: &Descriptor) -> (out: bool)
        ensures
            out == (self@ == other@),
    {
        self.owner == other.owner && self.repo == other.repo && self.reference == other.reference
            && self.path == other.path && self.url == other.url
    }

    /// Writes this descriptor as the text of a descriptor file: one JSON
    /// object with the five texts in a fixed order.
    ///
    /// The text is read back before it is handed out, so every text that
    /// is returned decodes to this descriptor. Fails with `Unwritable`
    /// where the encoder refuses the record or the text does not read
    /// back.
    pub fn encode(&self) -> (out: Result<String, MetadataError>)
        ensures
            match encoded(self@) {
                Some(text) => out matches Ok(got) && got@ == text,
                None => out == Err::<String, MetadataError>(MetadataError::Unwritable),
            },
            out matches Ok(got) ==> decoded(got@) == Some(self@),
    {
        let record = self.record();
        match render_object(&record) {
            Ok(text) => match Descriptor::decode(text.as_str()) {
                Ok(back) => if back.same_as(self) {
                    Ok(text)
                } else {
                    Err(MetadataError::Unwritable)
                },
                Err(_) => Err(MetadataError::Unwritable),
            },
            Err(_) => Err(MetadataError::Unwritable),
        }
    }
}

/// Whether `name` is the name of a descriptor file.
pub fn is_descriptor_name(name: &str) -> (out: bool)
    ensures
        out == (name@ == descriptor_name()),
{
    let given = String::from_str(name);
    let fixed = String::from_str(".github-dl.json");
    given == fixed
}

/// The name of the descriptor file.
pub fn descriptor_file_name() -> (out: String)
    ensures
        out@ == descriptor_name(),
{
    String::from_str(".github-dl.json")
}

/// The five keys of a record are pairwise different.
proof fn lemma_keys_differ()
    ensures
        "owner"@ != "repo"@,
        "owner"@ != "reference"@,
        "owner"@ != "path"@,
        "owner"@ != "url"@,
        "repo"@ != "reference"@,
        "repo"@ != "path"@,
        "repo"@ != "url"@,
        "reference"@ != "path"@,
        "reference"@ != "url"@,
        "path"@ != "url"@,
{
    reveal_strlit("owner");
    reveal_strlit("repo");
    reveal_strlit("reference");
    reveal_strlit("path");
    reveal_strlit("url");
    assert("owner"@[0] == 'o');
    assert("repo"@[0] == 'r');
    assert("reference"@[0] == 'r');
    assert("path"@[0] == 'p');
    assert("url"@[0] == 'u');
    assert("repo"@[2] == 'p');
    assert("reference"@[2] == 'f');
}

/// Reading back the record of a descriptor yields the descriptor, field
/// for field.
pub proof fn lemma_record_round_trip(d: DescriptorView)
    ensures
        descriptor_of(text_members(record_of(d))) == Some(d),
{
    lemma_keys_differ();
    let m = text_members(record_of(d));
    assert(m.len() == 5);
    crate::json::lemma_lookup_at(m, "owner"@, 0);
    crate::json::lemma_lookup_at(m, "repo"@, 1);
    crate::json::lemma_lookup_at(m, "reference"@, 2);
    crate::json::lemma_lookup_at(m, "path"@, 3);
    crate::json::lemma_lookup_at(m, "url"@, 4);
}

/// Writing a descriptor and reading the text back yields the
/// descriptor, field for field: every text that is written for a
/// descriptor is read as that descriptor.
pub proof fn lemma_written_descriptor_reads_back(d: DescriptorView)
    ensures
        encoded(d) matches Some(text) ==> decoded(text) == Some(d),
{
}

/// A descriptor is written wherever the outside reader finds in the
/// writer's text the members that the writer was given.
pub proof fn lemma_faithful_text_is_written(d: DescriptorView, text: Seq<char>)
    requires
        json_pretty(record_of(d)) == Some(text),
        json_object(text) == Some(text_members(record_of(d))),
    ensures
        encoded(d) == Some(text),
{
    lemma_record_round_trip(d);
}

/// A descriptor made from coordinates and a link records those
/// coordinates and that link.
pub proof fn lemma_descriptor_keeps_coordinates(coords: CoordinatesView, url: Seq<char>)
    ensures
        located(described(coords, url)) == coords,
        described(coords, url).url == url,
{
}

} // verus!
