use asenix::packs::{sort_packs, validate_pack_name, PackInfo};

fn pack(name: &str) -> PackInfo {
    PackInfo { name: name.to_string(), description: String::new(), file_count: 0, has_bounty: false, has_requirements: false }
}

#[test]
fn pack_names_are_checked() {
    assert_eq!(validate_pack_name("vision"), Ok(()));
    assert_eq!(validate_pack_name(""), Err("domain.toml: 'name' field must not be empty".to_string()));
    assert_eq!(validate_pack_name("a/b"), Err("domain.toml: 'name' must not contain path separators".to_string()));
    assert_eq!(validate_pack_name("a\\b"), Err("domain.toml: 'name' must not contain path separators".to_string()));
}

#[test]
fn packs_are_listed_by_name() {
    let sorted = sort_packs(vec![pack("zeta"), pack("Alpha"), pack("beta"), pack("alpha"), pack("")]);
    let names: Vec<&str> = sorted.iter().map(|p| p.name.as_str()).collect();
    assert_eq!(names, vec!["", "Alpha", "alpha", "beta", "zeta"]);
    assert!(sort_packs(Vec::new()).is_empty());
}
