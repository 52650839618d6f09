use checkpoint_core::registry::{reads_as_empty, McpRegistry};
use serde_json::Value;

fn spec(command: &str) -> Value {
    let mut m = serde_json::Map::new();
    m.insert("command".to_string(), Value::String(command.to_string()));
    Value::Object(m)
}

#[test]
fn upsert_then_get_then_remove() {
    let mut reg = McpRegistry::new();
    reg.upsert_server("x", "X", &spec("run-x"), true);
    let e = reg.get_server("x").unwrap();
    assert_eq!(e.id, "x");
    assert_eq!(e.name, "X");
    assert_eq!(e.server, spec("run-x"));
    assert!(e.enabled);
    assert!(reg.remove_server("x"));
    assert!(reg.get_server("x").is_none());
    assert!(!reg.remove_server("x"));
}

#[test]
fn upsert_replaces_the_whole_entry() {
    let mut reg = McpRegistry::new();
    reg.upsert_server("x", "X", &spec("a"), true);
    reg.upsert_server("x", "Y", &spec("b"), false);
    assert_eq!(reg.servers.len(), 1);
    let e = reg.get_server("x").unwrap();
    assert_eq!(e.name, "Y");
    assert_eq!(e.server, spec("b"));
    assert!(!e.enabled);
}

#[test]
fn set_enabled_changes_only_the_flag() {
    let mut reg = McpRegistry::new();
    reg.upsert_server("x", "X", &spec("a"), true);
    assert!(reg.set_server_enabled("x", false));
    let e = reg.get_server("x").unwrap();
    assert!(!e.enabled);
    assert_eq!(e.name, "X");
    assert!(!reg.set_server_enabled("missing", true));
    assert!(reg.get_server("missing").is_none());
}

#[test]
fn live_only_server_is_listed_enabled() {
    let mut reg = McpRegistry::new();
    reg.upsert_server("a", "A", &spec("stored-a"), false);
    reg.upsert_server("b", "B", &spec("stored-b"), true);
    let live = vec![("b".to_string(), spec("live-b")), ("c".to_string(), spec("live-c"))];
    let list = reg.get_engine_servers_with_status(&live);
    assert_eq!(
        list,
        vec![
            ("a".to_string(), spec("stored-a"), false),
            ("b".to_string(), spec("live-b"), true),
            ("c".to_string(), spec("live-c"), true),
        ]
    );
}

#[test]
fn sync_hands_over_enabled_entries() {
    let mut reg = McpRegistry::new();
    reg.upsert_server("a", "A", &spec("a"), true);
    reg.upsert_server("b", "B", &spec("b"), false);
    reg.upsert_server("c", "C", &spec("c"), true);
    let pushed = reg.sync_registry_to_engine();
    assert_eq!(pushed, vec![("a".to_string(), spec("a")), ("c".to_string(), spec("c"))]);
    let imported: std::collections::HashMap<String, Value> = pushed.into_iter().collect();
    assert_eq!(imported.len(), 2);
    assert_eq!(imported.get("a"), Some(&spec("a")));
    assert!(imported.get("b").is_none());
}

#[test]
fn blank_registry_text_reads_as_empty() {
    assert!(reads_as_empty(""));
    assert!(reads_as_empty(" \n\t"));
    assert!(!reads_as_empty("{}"));
}
