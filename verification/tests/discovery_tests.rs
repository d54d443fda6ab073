use github_dl::discovery::{path_below, Discovery, DiscoveryStep, LocalEntry, LocalKind};

fn strings(items: &[&str]) -> Vec<String> {
    items.iter().map(|s| s.to_string()).collect()
}

fn file(name: &str) -> LocalEntry {
    LocalEntry { name: name.to_string(), kind: LocalKind::File }
}

fn dir(name: &str) -> LocalEntry {
    LocalEntry { name: name.to_string(), kind: LocalKind::Directory }
}

fn other(name: &str) -> LocalEntry {
    LocalEntry { name: name.to_string(), kind: LocalKind::Other }
}

/// The entries of a directory of a small tree, by its path.
fn tree(path: &[String]) -> Vec<LocalEntry> {
    let path: Vec<&str> = path.iter().map(|s| s.as_str()).collect();
    match path.as_slice() {
        [] => vec![file("notes.txt"), file(".github-dl.json"), dir("a"), dir("x"), other("l")],
        ["a"] => vec![dir("b"), file("github-dl.json")],
        ["a", "b"] => vec![file(".github-dl.json"), file("data.bin"), dir("c")],
        ["a", "b", "c"] => vec![dir("d"), file(".github-dl.json.bak")],
        ["a", "b", "c", "d"] => vec![dir("e")],
        ["a", "b", "c", "d", "e"] => vec![file("z"), file(".github-dl.json")],
        ["x"] => vec![dir(".github-dl.json"), other(".github-dl.json")],
        ["x", ".github-dl.json"] => vec![file("inner.txt")],
        _ => panic!("no such directory: {:?}", path),
    }
}

fn discover() -> (Vec<Vec<String>>, Vec<Vec<String>>) {
    let mut visited: Vec<Vec<String>> = Vec::new();
    let mut request = Discovery::begin();
    loop {
        visited.push(request.dir.clone());
        let entries = tree(&request.dir);
        match request.listed(&entries).advance() {
            DiscoveryStep::Visit(next) => request = next,
            DiscoveryStep::Finished(found) => return (found, visited),
        }
    }
}

#[test]
fn descriptors_at_depths_0_2_and_5_are_found() {
    let (mut found, _) = discover();
    found.sort();
    let mut expected = vec![
        strings(&[".github-dl.json"]),
        strings(&["a", "b", ".github-dl.json"]),
        strings(&["a", "b", "c", "d", "e", ".github-dl.json"]),
    ];
    expected.sort();
    assert_eq!(found, expected);
}

#[test]
fn every_directory_is_looked_into_once() {
    let (_, mut visited) = discover();
    visited.sort();
    let mut expected = vec![
        strings(&[]),
        strings(&["a"]),
        strings(&["a", "b"]),
        strings(&["a", "b", "c"]),
        strings(&["a", "b", "c", "d"]),
        strings(&["a", "b", "c", "d", "e"]),
        strings(&["x"]),
        strings(&["x", ".github-dl.json"]),
    ];
    expected.sort();
    assert_eq!(visited, expected);
}

#[test]
fn search_begins_at_the_base() {
    let request = Discovery::begin();
    assert_eq!(request.dir, strings(&[]));
    assert!(request.search.pending.is_empty());
    assert!(request.search.found.is_empty());
}

#[test]
fn empty_base_holds_no_descriptor() {
    let step = Discovery::begin().listed(&vec![]).advance();
    assert_eq!(step, DiscoveryStep::Finished(vec![]));
}

#[test]
fn listed_sorts_entries_into_found_and_pending() {
    let request = Discovery::begin();
    let search = request.listed(&vec![
        dir("one"),
        file(".github-dl.json"),
        file("readme"),
        dir("two"),
        other(".github-dl.json"),
    ]);
    assert_eq!(search.found, vec![strings(&[".github-dl.json"])]);
    assert_eq!(search.pending, vec![strings(&["one"]), strings(&["two"])]);
    match search.advance() {
        DiscoveryStep::Visit(next) => {
            assert_eq!(next.dir, strings(&["two"]));
            assert_eq!(next.search.pending, vec![strings(&["one"])]);
            assert_eq!(next.search.found, vec![strings(&[".github-dl.json"])]);
            let search = next.listed(&vec![file(".github-dl.json"), dir("deep")]);
            assert_eq!(
                search.found,
                vec![strings(&[".github-dl.json"]), strings(&["two", ".github-dl.json"])]
            );
            assert_eq!(search.pending, vec![strings(&["one"]), strings(&["two", "deep"])]);
        }
        other => panic!("expected a visit, got {:?}", other),
    }
}

#[test]
fn path_below_appends_the_name() {
    assert_eq!(path_below(&strings(&[]), "a"), strings(&["a"]));
    assert_eq!(path_below(&strings(&["a", "b"]), "c"), strings(&["a", "b", "c"]));
}
