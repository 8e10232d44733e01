use audiobookshelf_mcp::registry::{
    compute_enabled_tools, disabled_tools, is_known_tool, tool_registry, tool_table,
};

fn strings(v: &[&str]) -> Vec<String> {
    v.iter().map(|s| s.to_string()).collect()
}

fn sorted(mut v: Vec<String>) -> Vec<String> {
    v.sort();
    v
}

const DEFAULTS: [&str; 9] = [
    "list_libraries",
    "search_library",
    "get_library_items",
    "get_item",
    "get_in_progress",
    "get_listening_stats",
    "get_recent_sessions",
    "get_metadata_object",
    "find_items_missing_metadata",
];

#[test]
fn registry_lists_fifteen_tools_in_order() {
    let registry = tool_registry();
    assert_eq!(registry.len(), 15);
    assert_eq!(registry[0].name, "list_libraries");
    assert_eq!(registry[0].group, "default");
    assert_eq!(registry[9].name, "update_progress");
    assert_eq!(registry[9].group, "progress");
    assert!(!registry[9].enabled_by_default);
    assert_eq!(registry[14].name, "batch_update_metadata");
}

#[test]
fn no_options_enable_the_defaults() {
    let enabled = compute_enabled_tools(&vec![], &vec![]);
    assert_eq!(sorted(enabled), sorted(strings(&DEFAULTS)));
}

#[test]
fn disable_tool_takes_precedence() {
    let enabled = compute_enabled_tools(
        &strings(&["update_progress", "get_item"]),
        &strings(&["update_progress", "get_item", "get_item"]),
    );
    assert!(!enabled.contains(&"update_progress".to_string()));
    assert!(!enabled.contains(&"get_item".to_string()));
    assert_eq!(enabled.len(), 8);
}

#[test]
fn enable_tool_adds_tools_once() {
    let enabled = compute_enabled_tools(
        &strings(&["create_bookmark", "create_bookmark", "list_libraries", "no_such_tool"]),
        &vec![],
    );
    assert_eq!(enabled.len(), 11);
    assert_eq!(enabled.iter().filter(|n| *n == "create_bookmark").count(), 1);
    assert_eq!(enabled.iter().filter(|n| *n == "list_libraries").count(), 1);
    assert!(enabled.contains(&"no_such_tool".to_string()));
}

#[test]
fn disabled_tools_in_registry_order() {
    let enabled = compute_enabled_tools(&strings(&["quick_match_item"]), &strings(&["get_item"]));
    assert_eq!(
        disabled_tools(&enabled),
        vec![
            "get_item",
            "update_progress",
            "create_bookmark",
            "delete_bookmark",
            "batch_quick_match_items",
            "batch_update_metadata",
        ]
    );
}

#[test]
fn known_tools() {
    assert!(is_known_tool("get_item"));
    assert!(is_known_tool("batch_update_metadata"));
    assert!(!is_known_tool("get_items"));
    assert!(!is_known_tool(""));
}

#[test]
fn tool_table_lines() {
    let lines = tool_table();
    assert_eq!(lines.len(), 17);
    assert_eq!(lines[0], format!("{:<30} {:<10} GROUP", "TOOL", "DEFAULT"));
    assert_eq!(lines[1], "-".repeat(55));
    assert_eq!(
        lines[2],
        format!("{:<30} {:<10} {}", "list_libraries", "enabled", "default")
    );
    assert_eq!(
        lines[13],
        format!("{:<30} {:<10} {}", "delete_bookmark", "disabled", "progress")
    );
    for (line, tool) in lines[2..].iter().zip(tool_registry()) {
        let state = if tool.enabled_by_default { "enabled" } else { "disabled" };
        assert_eq!(*line, format!("{:<30} {:<10} {}", tool.name, state, tool.group));
    }
}
