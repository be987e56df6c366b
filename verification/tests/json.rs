use asenix::json::{insert_sorted_member, remove_member, set_member, set_member_if_absent, JsonValue};

fn keys(m: &[(String, JsonValue)]) -> Vec<&str> {
    m.iter().map(|(k, _)| k.as_str()).collect()
}

#[test]
fn setting_members() {
    let mut m: Vec<(String, JsonValue)> = Vec::new();
    set_member(&mut m, "b", JsonValue::PosInt(1));
    set_member(&mut m, "a", JsonValue::PosInt(2));
    set_member(&mut m, "b", JsonValue::PosInt(3));
    assert_eq!(keys(&m), vec!["b", "a"]);
    assert!(matches!(m[0].1, JsonValue::PosInt(3)));
    set_member_if_absent(&mut m, "a", JsonValue::Null);
    assert!(matches!(m[1].1, JsonValue::PosInt(2)));
    set_member_if_absent(&mut m, "c", JsonValue::Null);
    assert_eq!(keys(&m), vec!["b", "a", "c"]);
}

#[test]
fn sorted_members_and_removal() {
    let mut m: Vec<(String, JsonValue)> = Vec::new();
    for k in ["m", "b", "z", "b", "a"] {
        insert_sorted_member(&mut m, k.to_string(), JsonValue::Bool(true));
    }
    assert_eq!(keys(&m), vec!["a", "b", "m", "z"]);
    let r = remove_member(
        vec![
            ("signature".to_string(), JsonValue::Null),
            ("x".to_string(), JsonValue::Null),
            ("signature".to_string(), JsonValue::Null),
        ],
        "signature",
    );
    assert_eq!(keys(&r), vec!["x"]);
}
