use emberflow::install::{
    find_text, mcp_wrapper_script, merge_contract_block, push_unique_string,
    update_agent_settings, upsert_toml_section, Scope,
};
use emberflow::json::to_json_text;
use emberflow::JsonValue;

const TEMPLATE: &str = "<!-- EMBERFLOW CONTRACT START -->\nUse EmberFlow.\n<!-- EMBERFLOW CONTRACT END -->\n\n";
const BLOCK: &str = "<!-- EMBERFLOW CONTRACT START -->\nUse EmberFlow.\n<!-- EMBERFLOW CONTRACT END -->";

fn to_serde(value: &JsonValue) -> serde_json::Value {
    serde_json::from_str(&to_json_text(value)).unwrap()
}

#[test]
fn find_text_finds_the_first_occurrence() {
    assert_eq!(find_text("abcabc", "bc"), Some(1));
    assert_eq!(find_text("abc", ""), Some(0));
    assert_eq!(find_text("abc", "x"), None);
    assert_eq!(find_text("ab", "abc"), None);
}

#[test]
fn contract_is_added_to_an_empty_file() {
    assert_eq!(merge_contract_block("", TEMPLATE), BLOCK);
}

#[test]
fn contract_is_appended_after_existing_instructions() {
    assert_eq!(
        merge_contract_block("Existing instructions that must stay in place.\n", TEMPLATE),
        format!("Existing instructions that must stay in place.\n\n{BLOCK}")
    );
}

#[test]
fn contract_block_is_replaced_in_place() {
    let existing = "Before.\n\n<!-- EMBERFLOW CONTRACT START -->\nOld contract\n<!-- EMBERFLOW CONTRACT END -->\n\nAfter.\n";
    assert_eq!(
        merge_contract_block(existing, TEMPLATE),
        format!("Before.\n\n{BLOCK}\n\nAfter.\n")
    );
    let once = merge_contract_block(existing, TEMPLATE);
    assert_eq!(merge_contract_block(&once, TEMPLATE), once);
}

#[test]
fn wrapper_script_execs_the_server() {
    assert_eq!(
        mcp_wrapper_script("/opt/bin/emberflow-mcp"),
        "#!/usr/bin/env bash\nset -euo pipefail\n\nexec \"/opt/bin/emberflow-mcp\" \"$@\"\n"
    );
}

const SECTION: &str = "[mcp_servers.emberflow]\ncommand = \"/home/u/.codex/bin/emberflow-mcp\"\nargs = []\n";

#[test]
fn toml_section_is_added_when_missing() {
    assert_eq!(
        upsert_toml_section("", "[mcp_servers.emberflow]", SECTION),
        SECTION
    );
    assert_eq!(
        upsert_toml_section("model = \"o3\"\n", "[mcp_servers.emberflow]", SECTION),
        format!("model = \"o3\"\n\n{SECTION}")
    );
}

#[test]
fn toml_section_is_replaced_up_to_the_next_table() {
    let existing = "model = \"o3\"\r\n\n[mcp_servers.emberflow]\ncommand = \"old\"\nargs = [\"x\"]\n\n[mcp_servers.other]\ncommand = \"other\"\n";
    let updated = upsert_toml_section(existing, "[mcp_servers.emberflow]", SECTION);
    assert_eq!(
        updated,
        format!("model = \"o3\"\n\n{SECTION}\n[mcp_servers.other]\ncommand = \"other\"\n")
    );
    assert_eq!(
        upsert_toml_section(&updated, "[mcp_servers.emberflow]", SECTION),
        updated
    );
}

#[test]
fn unique_strings_are_added_once() {
    let mut values = vec![JsonValue::Str("Bash".to_string()), JsonValue::Int(3)];
    push_unique_string(&mut values, "Bash");
    push_unique_string(&mut values, "Read");
    push_unique_string(&mut values, "Read");
    assert_eq!(
        to_json_text(&JsonValue::Arr(values)),
        r#"["Bash",3,"Read"]"#
    );
}

#[test]
fn settings_gain_permissions_and_guard_hooks() {
    let existing = JsonValue::Obj(vec![(
        "permissions".to_string(),
        JsonValue::Obj(vec![(
            "allow".to_string(),
            JsonValue::Arr(vec![JsonValue::Str("Read".to_string())]),
        )]),
    )]);
    let updated = update_agent_settings(existing, "/home/u/.agent/hooks", Scope::Project, Some("/work/app"));
    let value = to_serde(&updated);
    assert_eq!(
        value["permissions"]["allow"],
        serde_json::from_str::<serde_json::Value>(r#"["Read","Bash","Edit","Write","mcp__emberflow__*"]"#).unwrap()
    );
    assert_eq!(
        value["permissions"]["additionalDirectories"],
        serde_json::from_str::<serde_json::Value>(r#"["/work/app"]"#).unwrap()
    );
    let pre = value["hooks"]["PreToolUse"].as_array().unwrap();
    assert_eq!(pre.len(), 3);
    assert_eq!(pre[0]["matcher"], "Bash");
    assert_eq!(
        pre[0]["hooks"][0]["command"],
        "/home/u/.agent/hooks/emberflow-bash-guard.sh"
    );
    assert_eq!(pre[1]["matcher"], "Edit");
    assert_eq!(pre[2]["matcher"], "Write");
    assert_eq!(
        pre[2]["hooks"][0]["command"],
        "/home/u/.agent/hooks/emberflow-write-guard.sh"
    );

    let again = update_agent_settings(updated, "/home/u/.agent/hooks", Scope::Project, Some("/work/app"));
    assert_eq!(to_serde(&again), value);
}

#[test]
fn user_scope_adds_no_directory_and_keeps_other_hooks() {
    let existing: JsonValue = JsonValue::Obj(vec![(
        "hooks".to_string(),
        JsonValue::Obj(vec![(
            "PreToolUse".to_string(),
            JsonValue::Arr(vec![JsonValue::Obj(vec![
                ("matcher".to_string(), JsonValue::Str("Bash".to_string())),
                (
                    "hooks".to_string(),
                    JsonValue::Arr(vec![JsonValue::Obj(vec![
                        ("type".to_string(), JsonValue::Str("command".to_string())),
                        ("command".to_string(), JsonValue::Str("/tmp/custom-hook.sh".to_string())),
                    ])]),
                ),
            ])]),
        )]),
    )]);
    let updated = to_serde(&update_agent_settings(existing, "/h", Scope::User, Some("/work/app")));
    assert_eq!(
        updated["permissions"]["additionalDirectories"],
        serde_json::from_str::<serde_json::Value>("[]").unwrap()
    );
    let pre = updated["hooks"]["PreToolUse"].as_array().unwrap();
    assert_eq!(pre.len(), 4);
    assert_eq!(pre[0]["hooks"][0]["command"], "/tmp/custom-hook.sh");
    assert_eq!(pre[1]["hooks"][0]["command"], "/h/emberflow-bash-guard.sh");
}

#[test]
fn scopes_by_name() {
    assert_eq!(Scope::from_str("user"), Ok(Scope::User));
    assert_eq!(Scope::from_str("project"), Ok(Scope::Project));
    assert_eq!(Scope::from_str("global"), Err("Invalid scope: global".to_string()));
    assert_eq!(Scope::Project.as_str(), "project");
}
