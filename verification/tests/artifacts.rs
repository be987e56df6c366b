use asenix::artifacts::{
    artifact_content_type, check_agent_storage, check_blob_size, check_blob_storage, check_upload_hash,
    check_upload_headers, check_upload_rate, find_manifest_entry, prepare_inline_artifact, split_path_segments,
    stored_media_type, tree_entries_from_manifest, tree_manifest_json, validate_tree_manifest, ArtifactContent,
    InlineArtifact, TreeEntry,
};
use asenix::crypto::blake3_hex;
use asenix::error::MoteError;
use asenix::json::JsonValue;

fn s(t: &str) -> JsonValue {
    JsonValue::Str(t.to_string())
}

fn obj(members: Vec<(&str, JsonValue)>) -> JsonValue {
    JsonValue::Object(members.into_iter().map(|(k, v)| (k.to_string(), v)).collect())
}

fn entry(name: &str, hash: &str, t: &str) -> TreeEntry {
    TreeEntry { name: name.to_string(), hash: hash.to_string(), type_: t.to_string() }
}

#[test]
fn test_tree_manifest_validation() {
    // Valid manifest
    let valid = JsonValue::Array(vec![
        obj(vec![("name", s("file.txt")), ("hash", s("abcd1234")), ("type", s("blob"))]),
        obj(vec![("name", s("subdir")), ("hash", s("efgh5678")), ("type", s("tree"))]),
    ]);
    assert!(matches!(valid, JsonValue::Array(_)));
    assert!(validate_tree_manifest(&valid));

    // Invalid manifest - missing field
    let invalid = JsonValue::Array(vec![obj(vec![("name", s("file.txt")), ("hash", s("abcd1234"))])]);
    assert!(matches!(invalid, JsonValue::Array(_)));
    assert!(!validate_tree_manifest(&invalid));
}

#[test]
fn manifest_checks_kind_and_emptiness() {
    let bad_kind = JsonValue::Array(vec![obj(vec![("name", s("a")), ("hash", s("h")), ("type", s("link"))])]);
    assert!(!validate_tree_manifest(&bad_kind));
    let empty_name = JsonValue::Array(vec![obj(vec![("name", s("")), ("hash", s("h")), ("type", s("blob"))])]);
    assert!(!validate_tree_manifest(&empty_name));
    assert!(!validate_tree_manifest(&obj(vec![])));
    assert!(validate_tree_manifest(&JsonValue::Array(vec![])));
}

#[test]
fn manifest_json_matches_serde_layout() {
    let entries = vec![entry("a\"b", "h1", "blob"), entry("dir", "h2", "tree")];
    assert_eq!(
        tree_manifest_json(&entries),
        "{\"entries\":[{\"name\":\"a\\\"b\",\"hash\":\"h1\",\"type_\":\"blob\"},{\"name\":\"dir\",\"hash\":\"h2\",\"type_\":\"tree\"}]}"
    );
    assert_eq!(tree_manifest_json(&vec![]), "{\"entries\":[]}");
}

#[test]
fn inline_artifacts_are_hashed_and_checked() {
    let blob = InlineArtifact {
        artifact_type: "blob".to_string(),
        content: ArtifactContent::Blob { data: b"hello".to_vec() },
        media_type: Some("text/plain".to_string()),
    };
    let (hash, bytes) = prepare_inline_artifact(&blob).unwrap();
    assert_eq!(hash, blake3_hex(b"hello"));
    assert_eq!(bytes, b"hello".to_vec());

    let tree = InlineArtifact {
        artifact_type: "tree".to_string(),
        content: ArtifactContent::Tree { entries: vec![entry("f", "h", "blob")] },
        media_type: None,
    };
    let (hash, bytes) = prepare_inline_artifact(&tree).unwrap();
    let text = "{\"entries\":[{\"name\":\"f\",\"hash\":\"h\",\"type_\":\"blob\"}]}";
    assert_eq!(bytes, text.as_bytes().to_vec());
    assert_eq!(hash, blake3_hex(text.as_bytes()));

    let wrong_kind = InlineArtifact { artifact_type: "zip".to_string(), content: ArtifactContent::Blob { data: vec![] }, media_type: None };
    assert_eq!(
        prepare_inline_artifact(&wrong_kind),
        Err(MoteError::Validation("artifact_type must be 'blob' or 'tree'".to_string()))
    );
    let bad_entry = InlineArtifact {
        artifact_type: "tree".to_string(),
        content: ArtifactContent::Tree { entries: vec![entry("x", "h", "file")] },
        media_type: None,
    };
    assert_eq!(
        prepare_inline_artifact(&bad_entry),
        Err(MoteError::Validation("Tree entry x has invalid type: file".to_string()))
    );
    let empty_hash = InlineArtifact {
        artifact_type: "tree".to_string(),
        content: ArtifactContent::Tree { entries: vec![entry("x", "", "blob")] },
        media_type: None,
    };
    assert_eq!(
        prepare_inline_artifact(&empty_hash),
        Err(MoteError::Validation("Tree entries must have non-empty name and hash".to_string()))
    );
}

#[test]
fn storage_limits() {
    assert!(check_agent_storage(0, 10 * 1024 * 1024).is_ok());
    assert_eq!(
        check_agent_storage(1, 10 * 1024 * 1024),
        Err(MoteError::Validation("Agent storage limit exceeded".to_string()))
    );
    assert_eq!(check_blob_size(11, 10), Err(413));
    assert_eq!(check_blob_size(10, 10), Ok(()));
    assert_eq!(check_blob_storage(5, 6, 10), Err(413));
    assert_eq!(check_blob_storage(4, 6, 10), Ok(()));
    assert_eq!(stored_media_type("blob", Some("a/b".to_string())), Some("a/b".to_string()));
    assert_eq!(stored_media_type("tree", Some("a/b".to_string())), None);
}

#[test]
fn upload_headers_and_rate() {
    assert_eq!(check_upload_headers(None, Some("a"), Some("s")), Err(400));
    assert_eq!(check_upload_headers(Some("blob"), None, Some("s")), Err(401));
    assert_eq!(check_upload_headers(Some("blob"), Some("a"), None), Err(401));
    assert_eq!(check_upload_headers(Some("dir"), Some("a"), Some("s")), Err(400));
    assert_eq!(check_upload_headers(Some("tree"), Some("a"), Some("s")), Ok(()));
    assert_eq!(check_upload_rate(5, 5), Err(429));
    assert_eq!(check_upload_rate(4, 5), Ok(()));
    let h = blake3_hex(b"body");
    assert_eq!(check_upload_hash(&h, b"body"), Ok(()));
    assert_eq!(check_upload_hash(&h, b"other"), Err(400));
}

#[test]
fn serving_and_walking_trees() {
    assert_eq!(artifact_content_type("blob", None), "application/octet-stream");
    assert_eq!(artifact_content_type("blob", Some("image/png".to_string())), "image/png");
    assert_eq!(artifact_content_type("tree", Some("image/png".to_string())), "application/json");

    assert_eq!(split_path_segments("/a//b/c/"), vec!["a", "b", "c"]);
    assert!(split_path_segments("///").is_empty());

    let manifest = JsonValue::Array(vec![
        obj(vec![("name", s("a")), ("hash", s("h1"))]),
        obj(vec![("name", s("b"))]),
        obj(vec![("name", s("a")), ("hash", s("h3"))]),
    ]);
    assert_eq!(find_manifest_entry(&manifest, "a"), Ok(Some("h1".to_string())));
    assert_eq!(find_manifest_entry(&manifest, "b"), Ok(Some(String::new())));
    assert_eq!(find_manifest_entry(&manifest, "c"), Ok(None));
    assert_eq!(find_manifest_entry(&obj(vec![]), "a"), Err(500));

    let listed = tree_entries_from_manifest(&manifest).unwrap();
    assert_eq!(listed.len(), 3);
    assert_eq!(listed[1].name, "b");
    assert_eq!(listed[1].hash, "");
    assert_eq!(listed[1].type_, "");
    assert!(tree_entries_from_manifest(&s("x")).is_none());
}
