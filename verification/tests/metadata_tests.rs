use github_dl::json::{find_member, find_text, JsonValue, Member};
use github_dl::link::Coordinates;
use github_dl::metadata::{
    descriptor_file_name, is_descriptor_name, Descriptor, MetadataError,
};

fn sample() -> Descriptor {
    Descriptor {
        owner: "acme".to_string(),
        repo: "widgets".to_string(),
        reference: "main".to_string(),
        path: "src/lib".to_string(),
        url: "https://github.com/acme/widgets/tree/main/src/lib".to_string(),
    }
}

fn text(key: &str, value: &str) -> Member {
    Member { key: key.to_string(), value: JsonValue::Text(value.to_string()) }
}

#[test]
fn descriptor_is_written_as_a_flat_record_in_fixed_order() {
    let expected = "{\n  \"owner\": \"acme\",\n  \"repo\": \"widgets\",\n  \"reference\": \"main\",\n  \"path\": \"src/lib\",\n  \"url\": \"https://github.com/acme/widgets/tree/main/src/lib\"\n}";
    assert_eq!(sample().encode().unwrap(), expected);
}

#[test]
fn written_descriptor_reads_back_field_for_field() {
    let d = sample();
    let back = Descriptor::decode(&d.encode().unwrap()).unwrap();
    assert_eq!(back, d);
}

#[test]
fn round_trip_keeps_awkward_texts() {
    let d = Descriptor {
        owner: "a\"b\\c".to_string(),
        repo: "line\nbreak\ttab".to_string(),
        reference: "caf\u{e9}/\u{1F600}".to_string(),
        path: String::new(),
        url: "{\"owner\": \"x\"}".to_string(),
    };
    let back = Descriptor::decode(&d.encode().unwrap()).unwrap();
    assert_eq!(back, d);
}

#[test]
fn every_written_text_reads_back() {
    for (owner, path) in [("acme", ""), ("a b", "x/y z"), ("", "\u{0}"), ("\u{7f}", "\\")] {
        let d = Descriptor {
            owner: owner.to_string(),
            repo: "r".to_string(),
            reference: "v".to_string(),
            path: path.to_string(),
            url: format!("https://github.com/{}/r/tree/v/{}", owner, path),
        };
        let text = d.encode().unwrap();
        assert!(Descriptor::decode(&text).unwrap().same_as(&d));
    }
}

#[test]
fn same_as_compares_every_field() {
    let d = sample();
    assert!(d.same_as(&sample()));
    let mut e = sample();
    e.owner.push('x');
    assert!(!d.same_as(&e));
    let mut e = sample();
    e.repo.push('x');
    assert!(!d.same_as(&e));
    let mut e = sample();
    e.reference.push('x');
    assert!(!d.same_as(&e));
    let mut e = sample();
    e.path.push('x');
    assert!(!d.same_as(&e));
    let mut e = sample();
    e.url.push('x');
    assert!(!d.same_as(&e));
}

#[test]
fn descriptor_is_read_from_any_member_order_and_passes_over_others() {
    let text = r#"{"url":"u","extra":42,"path":"","reference":"r","repo":"b","owner":"a","n":null}"#;
    let d = Descriptor::decode(text).unwrap();
    assert_eq!(
        d,
        Descriptor {
            owner: "a".to_string(),
            repo: "b".to_string(),
            reference: "r".to_string(),
            path: String::new(),
            url: "u".to_string(),
        }
    );
}

#[test]
fn malformed_descriptor_text_is_corrupt() {
    for text in [
        "",
        "not json",
        "{",
        "[]",
        "\"owner\"",
        "{\"owner\":\"a\",\"repo\":\"b\",\"reference\":\"r\",\"path\":\"p\"}",
        "{\"owner\":\"a\",\"repo\":\"b\",\"reference\":\"r\",\"path\":\"p\",\"url\":null}",
        "{\"owner\":1,\"repo\":\"b\",\"reference\":\"r\",\"path\":\"p\",\"url\":\"u\"}",
        "{\"owner\":\"a\",\"repo\":\"b\",\"reference\":\"r\",\"path\":\"p\",\"url\":\"u\"} x",
    ] {
        assert_eq!(Descriptor::decode(text), Err(MetadataError::CorruptMetadata));
    }
}

#[test]
fn descriptor_from_members_needs_all_five_texts() {
    let mut members = vec![
        text("owner", "a"),
        text("repo", "b"),
        text("reference", "r"),
        text("path", "p"),
        text("url", "u"),
    ];
    let d = Descriptor::from_members(&members).unwrap();
    assert_eq!(d.owner, "a");
    assert_eq!(d.repo, "b");
    assert_eq!(d.reference, "r");
    assert_eq!(d.path, "p");
    assert_eq!(d.url, "u");
    members[3] = Member { key: "path".to_string(), value: JsonValue::Other };
    assert_eq!(Descriptor::from_members(&members), Err(MetadataError::CorruptMetadata));
    members.remove(3);
    assert_eq!(Descriptor::from_members(&members), Err(MetadataError::CorruptMetadata));
    assert_eq!(Descriptor::from_members(&vec![]), Err(MetadataError::CorruptMetadata));
}

#[test]
fn record_lists_the_five_texts_in_order() {
    let record = sample().record();
    let expected: Vec<(String, String)> = [
        ("owner", "acme"),
        ("repo", "widgets"),
        ("reference", "main"),
        ("path", "src/lib"),
        ("url", "https://github.com/acme/widgets/tree/main/src/lib"),
    ]
    .iter()
    .map(|(k, v)| (k.to_string(), v.to_string()))
    .collect();
    assert_eq!(record, expected);
}

#[test]
fn descriptor_for_link_keeps_the_link() {
    let link = "https://github.com/acme/widgets/tree/main/src/lib";
    assert_eq!(Descriptor::for_link(link).unwrap(), sample());
    assert!(Descriptor::for_link("https://example.org/a/b/tree/c").is_err());
}

#[test]
fn descriptor_new_and_coordinates_agree() {
    let c = Coordinates {
        owner: "o".to_string(),
        repo: "r".to_string(),
        reference: "ref".to_string(),
        path: "p/q".to_string(),
    };
    let d = Descriptor::new(c.clone(), "link".to_string());
    assert_eq!(d.url, "link");
    assert_eq!(d.coordinates(), c);
    assert_eq!(d.clone(), d);
}

#[test]
fn descriptor_file_has_the_fixed_hidden_name() {
    assert_eq!(descriptor_file_name(), ".github-dl.json");
    assert!(is_descriptor_name(".github-dl.json"));
    assert!(!is_descriptor_name("github-dl.json"));
    assert!(!is_descriptor_name(".github-dl.json~"));
    assert!(!is_descriptor_name(""));
}

#[test]
fn find_member_takes_the_first_of_a_key() {
    let members = vec![text("a", "1"), text("b", "2"), text("a", "3")];
    assert_eq!(find_member(&members, "a"), Some(&members[0]));
    assert_eq!(find_member(&members, "b"), Some(&members[1]));
    assert_eq!(find_member(&members, "c"), None);
    assert_eq!(find_member(&vec![], "a"), None);
}

#[test]
fn find_text_wants_a_text() {
    let members = vec![
        text("a", "1"),
        Member { key: "n".to_string(), value: JsonValue::Null },
        Member { key: "o".to_string(), value: JsonValue::Other },
        Member { key: "t".to_string(), value: JsonValue::Other },
        text("t", "late"),
    ];
    assert_eq!(find_text(&members, "a"), Some("1".to_string()));
    assert_eq!(find_text(&members, "n"), None);
    assert_eq!(find_text(&members, "o"), None);
    assert_eq!(find_text(&members, "t"), None);
    assert_eq!(find_text(&members, "missing"), None);
}
