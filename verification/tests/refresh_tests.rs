use github_dl::discovery::{LocalEntry, LocalKind};
use github_dl::link::Coordinates;
use github_dl::metadata::{Descriptor, MetadataError};
use github_dl::refresh::{
    containing_folder, plan_removals, DescriptorRequest, Probe, ProbeOutcome, RefreshRun,
    RefreshStep, Removal,
};
use github_dl::remote::ResolveError;

fn strings(items: &[&str]) -> Vec<String> {
    items.iter().map(|s| s.to_string()).collect()
}

fn descriptor(path: &str) -> Descriptor {
    Descriptor {
        owner: "acme".to_string(),
        repo: "widgets".to_string(),
        reference: "main".to_string(),
        path: path.to_string(),
        url: format!("https://github.com/acme/widgets/tree/main/{}", path),
    }
}

fn three_files() -> Vec<Vec<String>> {
    vec![
        strings(&["one", ".github-dl.json"]),
        strings(&["two", "deep", ".github-dl.json"]),
        strings(&[".github-dl.json"]),
    ]
}

fn expect_read(step: RefreshStep) -> DescriptorRequest {
    match step {
        RefreshStep::Read(r) => r,
        other => panic!("expected a descriptor to read, got {:?}", other),
    }
}

fn probe_of(request: DescriptorRequest, path: &str) -> Probe {
    request.loaded(&descriptor(path).encode().unwrap()).unwrap()
}

#[test]
fn run_over_no_descriptors_is_finished_at_once() {
    let run = RefreshRun::new(vec![]);
    assert!(run.is_done());
    assert_eq!(run.advance(), RefreshStep::Finished);
}

#[test]
fn descriptors_are_read_in_order() {
    let run = RefreshRun::new(three_files());
    assert!(!run.is_done());
    let first = expect_read(run.advance());
    assert_eq!(first.file, strings(&["one", ".github-dl.json"]));
    let second = expect_read(first.run.advance());
    assert_eq!(second.file, strings(&["two", "deep", ".github-dl.json"]));
    let third = expect_read(second.run.advance());
    assert_eq!(third.file, strings(&[".github-dl.json"]));
    assert!(third.run.is_done());
    assert_eq!(third.run.advance(), RefreshStep::Finished);
}

#[test]
fn loaded_descriptor_gives_the_probe_of_its_folder() {
    let request = expect_read(RefreshRun::new(three_files()).advance());
    let probe = probe_of(request, "src/lib");
    assert_eq!(probe.folder, strings(&["one"]));
    assert_eq!(probe.descriptor, descriptor("src/lib"));
    assert_eq!(
        probe.address(),
        "https://api.github.com/repos/acme/widgets/contents/src/lib?ref=main"
    );
}

#[test]
fn probe_of_a_root_descriptor_leaves_the_path_out() {
    let request = expect_read(RefreshRun::new(three_files()).advance());
    let probe = probe_of(request, "");
    assert_eq!(probe.address(), "https://api.github.com/repos/acme/widgets/contents?ref=main");
}

#[test]
fn corrupt_descriptor_ends_the_run() {
    let request = expect_read(RefreshRun::new(three_files()).advance());
    assert_eq!(request.loaded("{\"owner\": \"acme\"}"), Err(MetadataError::CorruptMetadata));
}

#[test]
fn probe_answered_404_skips_and_the_rest_is_still_processed() {
    let first = expect_read(RefreshRun::new(three_files()).advance());
    let outcome = probe_of(first, "gone").answered(404);
    let run = match outcome {
        ProbeOutcome::Skipped(run) => run,
        other => panic!("expected a skip, got {:?}", other),
    };
    let second = expect_read(run.advance());
    assert_eq!(second.file, strings(&["two", "deep", ".github-dl.json"]));
    let outcome = probe_of(second, "there").answered(200);
    let clearing = match outcome {
        ProbeOutcome::Refresh(c) => c,
        other => panic!("expected a refresh, got {:?}", other),
    };
    assert_eq!(clearing.folder, strings(&["two", "deep"]));
    let (request, run) = clearing.cleared();
    assert_eq!(
        request.coords,
        Coordinates {
            owner: "acme".to_string(),
            repo: "widgets".to_string(),
            reference: "main".to_string(),
            path: "there".to_string(),
        }
    );
    assert_eq!(request.local, strings(&[]));
    assert!(request.walk.frames.is_empty());
    let third = expect_read(run.advance());
    assert_eq!(third.file, strings(&[".github-dl.json"]));
    assert_eq!(containing_folder(&third.file), strings(&[]));
}

#[test]
fn probe_answered_403_aborts_the_run() {
    let first = expect_read(RefreshRun::new(three_files()).advance());
    let outcome = probe_of(first, "src").answered(403);
    assert_eq!(outcome, ProbeOutcome::Aborted(ResolveError::RateLimited));
}

#[test]
fn probe_answered_with_another_failure_aborts_the_run() {
    for status in [500u16, 401, 302, 199] {
        let first = expect_read(RefreshRun::new(three_files()).advance());
        let outcome = probe_of(first, "src").answered(status);
        assert_eq!(outcome, ProbeOutcome::Aborted(ResolveError::RemoteListingFailed(status)));
    }
}

#[test]
fn probe_answered_with_any_success_refreshes() {
    for status in [200u16, 204, 299] {
        let first = expect_read(RefreshRun::new(three_files()).advance());
        assert!(matches!(probe_of(first, "src").answered(status), ProbeOutcome::Refresh(_)));
    }
}

#[test]
fn clearing_removes_all_but_the_descriptor_file() {
    let entries = vec![
        LocalEntry { name: "a.txt".to_string(), kind: LocalKind::File },
        LocalEntry { name: ".github-dl.json".to_string(), kind: LocalKind::File },
        LocalEntry { name: "sub".to_string(), kind: LocalKind::Directory },
        LocalEntry { name: "link".to_string(), kind: LocalKind::Other },
        LocalEntry { name: ".github-dl.json.bak".to_string(), kind: LocalKind::File },
    ];
    assert_eq!(
        plan_removals(&entries),
        vec![
            Removal::File("a.txt".to_string()),
            Removal::Tree("sub".to_string()),
            Removal::File("link".to_string()),
            Removal::File(".github-dl.json.bak".to_string()),
        ]
    );
    assert_eq!(plan_removals(&vec![]), vec![]);
}

#[test]
fn clearing_spares_whatever_has_the_descriptor_name() {
    let entries = vec![LocalEntry {
        name: ".github-dl.json".to_string(),
        kind: LocalKind::Directory,
    }];
    assert_eq!(plan_removals(&entries), vec![]);
}

#[test]
fn containing_folder_drops_the_file_name() {
    assert_eq!(containing_folder(&strings(&["a", "b", "f"])), strings(&["a", "b"]));
    assert_eq!(containing_folder(&strings(&["f"])), strings(&[]));
    assert_eq!(containing_folder(&strings(&[])), strings(&[]));
}

#[test]
fn run_with_its_cursor_behind_the_end_is_done() {
    let run = RefreshRun { files: three_files(), cursor: 3 };
    assert!(run.is_done());
    let run = RefreshRun { files: three_files(), cursor: 9 };
    assert!(run.is_done());
    assert_eq!(run.advance(), RefreshStep::Finished);
    let run = RefreshRun { files: three_files(), cursor: 2 };
    assert_eq!(expect_read(run.advance()).file, strings(&[".github-dl.json"]));
}
