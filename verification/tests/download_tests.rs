use github_dl::download::{begin_download, check_output, DownloadError};
use github_dl::link::{Coordinates, LinkError};
use github_dl::metadata::{Descriptor, MetadataError};
use github_dl::remote::ResolveError;
use github_dl::report::decimal;

const LINK: &str = "https://github.com/acme/widgets/tree/main/src/lib";

#[test]
fn download_into_a_missing_directory_begins_with_the_descriptor() {
    let write = begin_download(LINK, false, false).unwrap();
    assert_eq!(write.descriptor.owner, "acme");
    assert_eq!(write.descriptor.repo, "widgets");
    assert_eq!(write.descriptor.reference, "main");
    assert_eq!(write.descriptor.path, "src/lib");
    assert_eq!(write.descriptor.url, LINK);
    assert_eq!(Descriptor::decode(&write.text).unwrap(), write.descriptor);
    assert_eq!(write.text, write.descriptor.encode().unwrap());
}

#[test]
fn download_into_an_empty_directory_is_accepted() {
    assert!(begin_download(LINK, true, false).is_ok());
}

#[test]
fn download_into_an_occupied_directory_is_refused() {
    assert_eq!(begin_download(LINK, true, true), Err(DownloadError::OutputNotEmpty));
}

#[test]
fn link_is_judged_before_the_output_directory() {
    assert_eq!(
        begin_download("https://example.org/a/b/tree/c", true, true),
        Err(DownloadError::Link(LinkError::WrongHost))
    );
    assert_eq!(
        begin_download("nonsense", false, false),
        Err(DownloadError::Link(LinkError::MalformedLink))
    );
    assert_eq!(
        begin_download("https://github.com/acme/widgets", false, false),
        Err(DownloadError::Link(LinkError::UnsupportedShape))
    );
}

#[test]
fn written_descriptor_starts_the_walk_at_its_coordinates() {
    let request = begin_download(LINK, false, false).unwrap().written();
    assert_eq!(
        request.coords,
        Coordinates {
            owner: "acme".to_string(),
            repo: "widgets".to_string(),
            reference: "main".to_string(),
            path: "src/lib".to_string(),
        }
    );
    assert!(request.local.is_empty());
    assert!(request.walk.frames.is_empty());
    assert_eq!(
        request.address(),
        "https://api.github.com/repos/acme/widgets/contents/src/lib?ref=main"
    );
}

#[test]
fn output_is_free_unless_it_exists_and_holds_something() {
    assert_eq!(check_output(false, false), Ok(()));
    assert_eq!(check_output(false, true), Ok(()));
    assert_eq!(check_output(true, false), Ok(()));
    assert_eq!(check_output(true, true), Err(DownloadError::OutputNotEmpty));
}

#[test]
fn decimal_writes_numbers_without_leading_zeros() {
    assert_eq!(decimal(0), "0");
    assert_eq!(decimal(7), "7");
    assert_eq!(decimal(10), "10");
    assert_eq!(decimal(404), "404");
    assert_eq!(decimal(1000), "1000");
    assert_eq!(decimal(12345), "12345");
    assert_eq!(decimal(65535), "65535");
}

#[test]
fn decimal_agrees_with_the_standard_rendering() {
    for n in 0..=u16::MAX {
        assert_eq!(decimal(n), format!("{}", n));
    }
}

#[test]
fn link_errors_say_what_is_wrong() {
    assert_eq!(LinkError::MalformedLink.describe(), "Invalid URL");
    assert_eq!(LinkError::WrongHost.describe(), "URL is not a github.com link");
    assert_eq!(
        LinkError::UnsupportedShape.describe(),
        "URL must be in the format https://github.com/owner/repo/tree/ref[/path]"
    );
}

#[test]
fn rate_limit_message_advises_a_token() {
    assert_eq!(
        ResolveError::RateLimited.describe(),
        "Failed to list directory: HTTP 403 Forbidden. Are you hitting the GitHub API rate limit? Try setting the GITHUB_TOKEN environment variable."
    );
}

#[test]
fn resolve_errors_name_status_and_file() {
    assert_eq!(
        ResolveError::RemoteListingFailed(500).describe(),
        "Failed to list directory: HTTP 500"
    );
    assert_eq!(
        ResolveError::FileDownloadFailed("a b.txt".to_string(), 404).describe(),
        "Failed to download file a b.txt: HTTP 404"
    );
    assert_eq!(ResolveError::MalformedListing.describe(), "Failed to read directory listing");
}

#[test]
fn download_and_metadata_errors_have_messages() {
    assert_eq!(DownloadError::OutputNotEmpty.describe(), "Output directory is not empty");
    assert_eq!(
        DownloadError::Link(LinkError::WrongHost).describe(),
        "URL is not a github.com link"
    );
    assert_eq!(
        DownloadError::Metadata(MetadataError::Unwritable).describe(),
        "Descriptor cannot be written"
    );
    assert_eq!(MetadataError::CorruptMetadata.describe(), "Descriptor file is corrupt");
}
