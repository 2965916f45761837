use std::collections::HashSet;
use bpmn_engine::path_identifier::PathIdentifier;
use bpmn_engine::token_id::generate_token_id;

#[test]
fn test_generate_token_id_shape() {
    let p = PathIdentifier::new_for_event("startEvent".to_string(), None);
    let id = generate_token_id(p, None);
    assert!(id.starts_with("startEvent-"));
    let suffix = &id["startEvent-".len()..];
    assert_eq!(suffix.len(), 32);
    assert!(suffix.chars().all(|c| c.is_ascii_hexdigit() && !c.is_ascii_uppercase()));
}

#[test]
fn test_generate_token_id_with_debug_prefix() {
    let p = PathIdentifier::new_for_event("node".to_string(), None);
    let id = generate_token_id(p, Some("dbg".to_string()));
    assert!(id.starts_with("dbg-node-"));
}

#[test]
fn test_generate_token_id_never_collides() {
    let mut seen: HashSet<String> = HashSet::with_capacity(1_000_000);
    for _ in 0..1_000_000 {
        let p = PathIdentifier::new_for_event("n".to_string(), None);
        let id = generate_token_id(p, None);
        assert!(seen.insert(id), "token identifiers collided");
    }
}
