use github_dl::link::Coordinates;
use github_dl::remote::{EntryKind, RemoteEntry, ResolveError};
use github_dl::resolver::{FileRequest, Frame, ListingRequest, Resolver, Step};

fn coords(path: &str) -> Coordinates {
    Coordinates {
        owner: "acme".to_string(),
        repo: "widgets".to_string(),
        reference: "main".to_string(),
        path: path.to_string(),
    }
}

fn strings(items: &[&str]) -> Vec<String> {
    items.iter().map(|s| s.to_string()).collect()
}

fn file(name: &str, url: &str) -> RemoteEntry {
    RemoteEntry {
        name: name.to_string(),
        kind: EntryKind::File,
        download_url: Some(url.to_string()),
    }
}

fn dir(name: &str) -> RemoteEntry {
    RemoteEntry { name: name.to_string(), kind: EntryKind::Directory, download_url: None }
}

fn expect_list(step: Step) -> ListingRequest {
    match step {
        Step::List(r) => r,
        other => panic!("expected a listing request, got {:?}", other),
    }
}

fn expect_fetch(step: Step) -> FileRequest {
    match step {
        Step::Fetch(r) => r,
        other => panic!("expected a file request, got {:?}", other),
    }
}

#[test]
fn walk_begins_with_the_listing_of_the_folder_itself() {
    let request = Resolver::begin(coords("src"));
    assert_eq!(request.coords, coords("src"));
    assert_eq!(request.local, strings(&[]));
    assert_eq!(
        request.address(),
        "https://api.github.com/repos/acme/widgets/contents/src?ref=main"
    );
    assert!(request.walk.frames.is_empty());
}

#[test]
fn one_file_and_one_directory_are_resolved() {
    let body = br#"[
        {"name": "a.txt", "type": "file", "download_url": "https://raw.example/src/a.txt"},
        {"name": "sub", "type": "dir", "download_url": null}
    ]"#;
    let walk = Resolver::begin(coords("src")).answered(200).unwrap().read(body).unwrap();

    let fetch = expect_fetch(walk.advance());
    assert_eq!(fetch.local, strings(&[]));
    assert_eq!(fetch.name, "a.txt");
    assert_eq!(fetch.url, "https://raw.example/src/a.txt");
    let reply = fetch.answered(200).unwrap();
    assert_eq!(reply.local, strings(&[]));
    assert_eq!(reply.name, "a.txt");

    let list = expect_list(reply.written().advance());
    assert_eq!(list.local, strings(&["sub"]));
    assert_eq!(list.coords, coords("src/sub"));
    assert_eq!(
        list.address(),
        "https://api.github.com/repos/acme/widgets/contents/src/sub?ref=main"
    );

    let walk = list.answered(200).unwrap().read(b"[]").unwrap();
    assert_eq!(walk.advance(), Step::Finished);
}

#[test]
fn directory_below_the_root_has_the_name_alone_as_path() {
    let walk = Resolver::begin(coords("")).answered(200).unwrap().entered(vec![dir("docs")]);
    let list = expect_list(walk.advance());
    assert_eq!(list.coords, coords("docs"));
    assert_eq!(list.local, strings(&["docs"]));
    assert_eq!(list.address(), "https://api.github.com/repos/acme/widgets/contents/docs?ref=main");
}

#[test]
fn walk_goes_depth_first_in_listing_order() {
    let mut trace: Vec<String> = Vec::new();
    let root = vec![file("1", "u1"), dir("d"), file("2", "u2"), dir("e"), file("3", "u3")];
    let d = vec![file("d1", "ud1"), dir("dd"), file("d2", "ud2")];
    let dd = vec![file("dd1", "udd1")];
    let e: Vec<RemoteEntry> = vec![];
    let mut listings = vec![e, dd, d, root];

    let mut request = Some(Resolver::begin(coords("")));
    loop {
        let walk = match request.take() {
            Some(r) => {
                trace.push(format!("list {} -> {}", r.coords.path, r.local.join("/")));
                r.answered(200).unwrap().entered(listings.pop().unwrap())
            }
            None => break,
        };
        let mut step = walk.advance();
        loop {
            match step {
                Step::Fetch(f) => {
                    trace.push(format!("fetch {} -> {}/{}", f.url, f.local.join("/"), f.name));
                    step = f.answered(200).unwrap().written().advance();
                }
                Step::List(r) => {
                    request = Some(r);
                    break;
                }
                Step::Finished => break,
            }
        }
    }
    assert_eq!(
        trace,
        vec![
            "list  -> ",
            "fetch u1 -> /1",
            "list d -> d",
            "fetch ud1 -> d/d1",
            "list d/dd -> d/dd",
            "fetch udd1 -> d/dd/dd1",
            "fetch ud2 -> d/d2",
            "fetch u2 -> /2",
            "list e -> e",
            "fetch u3 -> /3",
        ]
    );
    assert!(listings.is_empty());
}

#[test]
fn other_kinds_and_files_without_address_are_passed_over() {
    let entries = vec![
        RemoteEntry { name: "link".to_string(), kind: EntryKind::Other, download_url: None },
        RemoteEntry {
            name: "mod".to_string(),
            kind: EntryKind::Other,
            download_url: Some("https://raw.example/mod".to_string()),
        },
        RemoteEntry { name: "bare".to_string(), kind: EntryKind::File, download_url: None },
        file("real", "https://raw.example/real"),
    ];
    let walk = Resolver::begin(coords("")).answered(200).unwrap().entered(entries);
    let fetch = expect_fetch(walk.advance());
    assert_eq!(fetch.name, "real");
    assert_eq!(fetch.answered(200).unwrap().written().advance(), Step::Finished);
}

#[test]
fn directory_with_an_address_is_still_entered() {
    let entries = vec![RemoteEntry {
        name: "d".to_string(),
        kind: EntryKind::Directory,
        download_url: Some("https://raw.example/d".to_string()),
    }];
    let walk = Resolver::begin(coords("p")).answered(200).unwrap().entered(entries);
    assert_eq!(expect_list(walk.advance()).coords, coords("p/d"));
}

#[test]
fn empty_walk_is_finished() {
    assert_eq!(Resolver { frames: vec![] }.advance(), Step::Finished);
    let walk = Resolver::begin(coords("")).answered(204).unwrap().entered(vec![]);
    assert_eq!(walk.advance(), Step::Finished);
}

#[test]
fn listing_answered_403_is_rate_limited() {
    assert_eq!(Resolver::begin(coords("")).answered(403), Err(ResolveError::RateLimited));
}

#[test]
fn listing_answered_without_success_fails_with_the_status() {
    for status in [404u16, 500, 301, 199] {
        assert_eq!(
            Resolver::begin(coords("")).answered(status),
            Err(ResolveError::RemoteListingFailed(status))
        );
    }
}

#[test]
fn listing_with_a_malformed_body_fails() {
    let reply = Resolver::begin(coords("")).answered(200).unwrap();
    assert_eq!(reply.read(b"{\"message\":\"x\"}"), Err(ResolveError::MalformedListing));
}

#[test]
fn file_answered_without_success_fails_with_name_and_status() {
    for status in [404u16, 403, 500] {
        let walk = Resolver::begin(coords("")).answered(200).unwrap().entered(vec![
            file("a.bin", "https://raw.example/a.bin"),
            file("b.bin", "https://raw.example/b.bin"),
        ]);
        let fetch = expect_fetch(walk.advance());
        assert_eq!(
            fetch.answered(status),
            Err(ResolveError::FileDownloadFailed("a.bin".to_string(), status))
        );
    }
}

#[test]
fn frame_with_nothing_left_is_left() {
    let spent = Frame {
        coords: coords("a"),
        local: strings(&["a"]),
        entries: vec![file("x", "ux")],
        cursor: 1,
    };
    let beyond = Frame { coords: coords("b"), local: strings(&["b"]), entries: vec![], cursor: 7 };
    let outer = Frame {
        coords: coords(""),
        local: strings(&[]),
        entries: vec![dir("a"), file("last", "ulast")],
        cursor: 1,
    };
    let walk = Resolver { frames: vec![outer, spent, beyond] };
    let fetch = expect_fetch(walk.advance());
    assert_eq!(fetch.name, "last");
    assert_eq!(fetch.local, strings(&[]));
    assert_eq!(fetch.walk.frames.len(), 1);
    assert_eq!(fetch.walk.frames[0].cursor, 2);
    assert_eq!(fetch.answered(200).unwrap().written().advance(), Step::Finished);
}
