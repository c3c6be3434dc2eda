use bevy_server_browser::ServerMetadata;

fn collected(metadata: &ServerMetadata) -> Vec<(String, String)> {
    let mut cursor = metadata.iter();
    let mut pairs = Vec::new();
    while let Some((key, value)) = cursor.next() {
        pairs.push((key.to_string(), value.to_string()));
    }
    pairs.sort();
    pairs
}

#[test]
fn new_metadata_is_empty() {
    let metadata = ServerMetadata::new();
    assert_eq!(metadata.get("name"), None);
    assert!(metadata.iter().next().is_none());
    assert!(metadata == ServerMetadata::default());
}

#[test]
fn set_then_get_returns_the_value() {
    let mut metadata = ServerMetadata::new();
    metadata.set("name", "TestServer");
    assert_eq!(metadata.get("name"), Some("TestServer"));
    assert_eq!(metadata.get("players"), None);
}

#[test]
fn set_replaces_the_earlier_value() {
    let mut metadata = ServerMetadata::new();
    metadata.set("players", "0");
    metadata.set("players", "3");
    assert_eq!(metadata.get("players"), Some("3"));
    assert_eq!(collected(&metadata), vec![("players".to_string(), "3".to_string())]);
}

#[test]
fn with_chains() {
    let metadata = ServerMetadata::new()
        .with("name", "TestServer")
        .with("players", "0")
        .with("max_players", "4");
    assert_eq!(metadata.get("name"), Some("TestServer"));
    assert_eq!(metadata.get("players"), Some("0"));
    assert_eq!(metadata.get("max_players"), Some("4"));
}

#[test]
fn iter_hands_out_every_pair_once() {
    let metadata = ServerMetadata::new().with("b", "2").with("a", "1").with("c", "3");
    assert_eq!(
        collected(&metadata),
        vec![
            ("a".to_string(), "1".to_string()),
            ("b".to_string(), "2".to_string()),
            ("c".to_string(), "3".to_string()),
        ]
    );
}

#[test]
fn iter_ends_with_none_and_stays_there() {
    let metadata = ServerMetadata::new().with("a", "1");
    let mut cursor = metadata.iter();
    assert_eq!(cursor.next(), Some(("a", "1")));
    assert_eq!(cursor.next(), None);
    assert_eq!(cursor.next(), None);
}

#[test]
fn iter_is_restartable_in_the_same_order() {
    let metadata = ServerMetadata::new().with("x", "1").with("y", "2").with("z", "3");
    let mut first = metadata.iter();
    let mut second = metadata.iter();
    loop {
        let left = first.next();
        assert_eq!(left, second.next());
        if left.is_none() {
            break;
        }
    }
}

#[test]
fn equality_ignores_the_order_of_insertion() {
    let left = ServerMetadata::new().with("a", "1").with("b", "2");
    let right = ServerMetadata::new().with("b", "2").with("a", "1");
    assert!(left == right);
}

#[test]
fn equality_tells_values_and_keys_apart() {
    let base = ServerMetadata::new().with("a", "1");
    assert!(base != ServerMetadata::new().with("a", "2"));
    assert!(base != ServerMetadata::new().with("b", "1"));
    assert!(base != ServerMetadata::new());
    assert!(base != ServerMetadata::new().with("a", "1").with("b", "2"));
}

#[test]
fn clone_holds_the_same_entries_and_is_independent() {
    let source = ServerMetadata::new().with("a", "1");
    let mut copy = source.clone();
    assert!(copy == source);
    copy.set("a", "2");
    assert_eq!(source.get("a"), Some("1"));
    assert_eq!(copy.get("a"), Some("2"));
}

#[test]
fn from_txt_properties_keeps_the_later_of_two_values() {
    let properties = vec![
        ("name".to_string(), "First".to_string()),
        ("level".to_string(), "3".to_string()),
        ("name".to_string(), "Second".to_string()),
    ];
    let metadata = ServerMetadata::from_txt_properties(&properties);
    assert_eq!(metadata.get("name"), Some("Second"));
    assert_eq!(metadata.get("level"), Some("3"));
    assert_eq!(collected(&metadata).len(), 2);
}

#[test]
fn from_txt_properties_of_nothing_is_empty() {
    let metadata = ServerMetadata::from_txt_properties(&Vec::new());
    assert!(metadata == ServerMetadata::new());
}

#[test]
fn keys_differ_by_case() {
    let metadata = ServerMetadata::new().with("Name", "A").with("name", "b");
    assert_eq!(metadata.get("Name"), Some("A"));
    assert_eq!(metadata.get("name"), Some("b"));
}
