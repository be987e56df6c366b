use asenix::json::JsonValue;
use asenix::sse::{requested_event_types, event_type_wanted, spatial_filter_requested, atom_published_event, contradiction_event};
use asenix::text::split_trimmed;

#[test]
fn event_types_are_split_and_trimmed() {
    assert_eq!(requested_event_types(None), None);
    let t = requested_event_types(Some("atom_published, pheromone_shift ,synthesis_needed")).unwrap();
    assert_eq!(t, vec!["atom_published", "pheromone_shift", "synthesis_needed"]);
    let t = requested_event_types(Some("")).unwrap();
    assert_eq!(t, vec![""]);
}

#[test]
fn events_pass_the_type_filter() {
    let all: Option<Vec<String>> = None;
    assert!(event_type_wanted(&all, "atom_published"));
    let some = requested_event_types(Some("atom_published,contradiction_detected"));
    assert!(event_type_wanted(&some, "contradiction_detected"));
    assert!(!event_type_wanted(&some, "pheromone_shift"));
}

#[test]
fn region_and_radius_come_together() {
    assert_eq!(spatial_filter_requested(true, true), Ok(true));
    assert_eq!(spatial_filter_requested(false, false), Ok(false));
    assert_eq!(
        spatial_filter_requested(true, false),
        Err("Provide both region and radius, or neither".to_string())
    );
    assert_eq!(
        spatial_filter_requested(false, true),
        Err("Provide both region and radius, or neither".to_string())
    );
}

#[test]
fn split_trimmed_keeps_empty_pieces() {
    assert_eq!(split_trimmed(" a ,, b ", ','), vec!["a", "", "b"]);
    assert_eq!(split_trimmed("solo", ','), vec!["solo"]);
}

fn text_of(v: &JsonValue, k: &str) -> String {
    match v.get(k) {
        Some(JsonValue::Str(t)) => t.clone(),
        _ => panic!("no text member {}", k),
    }
}

#[test]
fn event_data() {
    let e = atom_published_event("atom_1", "ml", "finding");
    assert_eq!(text_of(&e, "type"), "atom_published");
    assert_eq!(text_of(&e, "atom_id"), "atom_1");
    assert_eq!(text_of(&e, "domain"), "ml");
    assert_eq!(text_of(&e, "atom_type"), "finding");
    let e = contradiction_event("atom_2", "atom_1", "ml");
    assert_eq!(text_of(&e, "type"), "contradiction_detected");
    assert_eq!(text_of(&e, "atom_id"), "atom_2");
    assert_eq!(text_of(&e, "contradicting_atom_id"), "atom_1");
    assert_eq!(text_of(&e, "domain"), "ml");
}
