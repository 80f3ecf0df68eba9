use emberflow::clock::{current_timestamp, timestamp_after, u64_decimal};
use emberflow::error::{not_found, sqlite_failure, unsupported};
use emberflow::json::{json_parse_error, json_quote, json_text_get_str, to_json_text};
use emberflow::layout::{join_path, normalize_path, resolve_root_override, EmberFlowConfig};
use emberflow::server::{track_plan_from_params, TransportProtocolError};
use emberflow::text::{escape_markdown_cell, trim};
use emberflow::{EmberFlowMode, JsonValue, RuntimeStore, TaskInput, TrackMetadataInput};

fn queued_task(task_id: &str, track_id: &str) -> TaskInput {
    TaskInput {
        task_id: task_id.to_string(),
        track_id: Some(track_id.to_string()),
        title: "Leased task".to_string(),
        status: "queued".to_string(),
        phase: "planning".to_string(),
        executor: None,
        agent_instance_id: None,
        execution: None,
        intent_summary: None,
    }
}

fn leased_store() -> RuntimeStore {
    let mut store = RuntimeStore::new();
    store.create_track("track-001", "Leases", "planning").unwrap();
    store.create_task(queued_task("task-001", "track-001")).unwrap();
    store
}

#[test]
fn error_messages_name_the_failure() {
    assert_eq!(
        unsupported("status", "paused").to_string(),
        "unsupported status: paused"
    );
    assert_eq!(not_found("track-9").to_string(), "record not found: track-9");
    assert_eq!(
        sqlite_failure("UNIQUE constraint failed: tracks.id").to_string(),
        "sqlite error: UNIQUE constraint failed: tracks.id"
    );
}

#[test]
fn duplicate_track_id_is_refused_and_changes_nothing() {
    let mut store = RuntimeStore::new();
    store.create_track("track-001", "First", "planning").unwrap();
    let err = store
        .create_track("track-001", "Second", "planning")
        .unwrap_err();
    assert_eq!(
        err.to_string(),
        "sqlite error: UNIQUE constraint failed: tracks.id"
    );
    assert_eq!(store.get_track("track-001").unwrap().title, "First");
    assert_eq!(store.list_tracks().unwrap().len(), 1);
}

#[test]
fn done_status_archives_on_creation() {
    let mut store = RuntimeStore::new();
    let track = store.create_track("track-done", "Finished", "done").unwrap();
    assert_eq!(track.status, "archived");
    assert!(store.list_active_tracks().unwrap().is_empty());
    assert_eq!(store.get_track("track-done").unwrap().status, "archived");
}

#[test]
fn missing_records_are_reported_by_key() {
    let mut store = RuntimeStore::new();
    assert_eq!(
        store.get_track("nope").unwrap_err().to_string(),
        "record not found: nope"
    );
    assert_eq!(
        store.get_task("task-x").unwrap_err().to_string(),
        "record not found: task-x"
    );
    assert_eq!(
        store.claim_task("task-x", "agent-a", Some(60)).unwrap_err().to_string(),
        "record not found: task-x"
    );
}

#[test]
fn claimed_task_refuses_other_holders_until_released() {
    let mut store = leased_store();
    store.claim_task("task-001", "agent-a", Some(300)).unwrap();

    let err = store.claim_task("task-001", "agent-b", Some(300)).unwrap_err();
    assert_eq!(
        err.to_string(),
        "unsupported lease_holder: task task-001 is already held by agent-a"
    );

    store.release_task("task-001", "agent-a").unwrap();
    let lease = store.claim_task("task-001", "agent-b", Some(300)).unwrap();
    assert_eq!(lease.holder, "agent-b");
    assert_eq!(
        store.check_lease("task-001").unwrap().unwrap().holder,
        "agent-b"
    );
}

#[test]
fn lease_with_past_expiry_is_not_active_at_a_later_time() {
    let mut store = leased_store();
    store
        .claim_task_with_expiry_at(
            "task-001",
            "agent-a",
            "2020-01-01 00:00:00",
            "2019-12-31 23:00:00",
        )
        .unwrap();
    assert!(store
        .check_lease_at("task-001", "2019-12-31 23:30:00")
        .unwrap()
        .is_some());
    assert!(store
        .check_lease_at("task-001", "2020-01-01 00:00:01")
        .unwrap()
        .is_none());
    assert_eq!(store.expire_stale_leases_at("2020-01-02 00:00:00").unwrap(), 0);
}

#[test]
fn deleting_a_track_leaves_none_of_its_plan() {
    let mut store = RuntimeStore::new();
    store
        .upsert_track_metadata(TrackMetadataInput {
            track_id: "track-001".to_string(),
            track_type: "feature".to_string(),
            status: "in-progress".to_string(),
            description: "Delete me".to_string(),
            branch: "feature/delete".to_string(),
            spec_ref: None,
        })
        .unwrap();
    store
        .create_task(queued_task("task-001", "track-001"))
        .unwrap();
    store.create_track("track-002", "Kept", "planning").unwrap();
    store
        .create_task(queued_task("task-002", "track-002"))
        .unwrap();

    store.delete_track("track-001").unwrap();

    assert!(store.get_track_metadata("track-001").is_err());
    assert!(store.get_task("task-001").is_err());
    assert_eq!(store.get_task("task-002").unwrap().id, "task-002");
    assert_eq!(store.list_tracks().unwrap().len(), 1);
}

#[test]
fn metadata_reads_back_as_written() {
    let mut store = RuntimeStore::new();
    let input = TrackMetadataInput {
        track_id: "track-001".to_string(),
        track_type: "bug".to_string(),
        status: "review".to_string(),
        description: "Read back".to_string(),
        branch: "fix/read-back".to_string(),
        spec_ref: None,
    };
    let written = store.upsert_track_metadata(input.clone()).unwrap();
    let read = store.get_track_metadata("track-001").unwrap();
    assert_eq!(read, written);
    assert_eq!(read.track_type, input.track_type);
    assert_eq!(read.status, input.status);
    assert_eq!(read.description, input.description);
    assert_eq!(read.branch, input.branch);
    assert_eq!(read.spec_ref, None);
}

#[test]
fn decimal_text_of_numbers() {
    assert_eq!(u64_decimal(0), "0");
    assert_eq!(u64_decimal(300), "300");
    assert_eq!(u64_decimal(u64::MAX), "18446744073709551615");
}

#[test]
fn timestamps_are_sqlite_datetimes() {
    let now = current_timestamp().unwrap();
    assert_eq!(now.len(), 19);
    assert_eq!(&now[4..5], "-");
    assert_eq!(&now[10..11], " ");
    let later = timestamp_after(3600).unwrap();
    assert_eq!(later.len(), 19);
    assert!(later > now);
}

#[test]
fn json_text_helpers() {
    assert!(json_parse_error(r#"{"summary": "x"}"#).is_none());
    assert_eq!(
        json_parse_error("{"),
        Some(serde_json::from_str::<serde_json::Value>("{").unwrap_err().to_string())
    );
    assert_eq!(
        json_text_get_str(r#"{"summary": "Writing"}"#, "summary"),
        Some("Writing".to_string())
    );
    assert_eq!(json_text_get_str(r#"{"summary": 3}"#, "summary"), None);
    assert_eq!(json_text_get_str("not json", "summary"), None);
    assert_eq!(json_quote("a\"b\n"), r#""a\"b\n""#);
}

#[test]
fn json_values_serialise_compactly() {
    let value = JsonValue::Obj(vec![
        ("id".to_string(), JsonValue::Int(-7)),
        ("name".to_string(), JsonValue::Str("say \"hi\"".to_string())),
        (
            "items".to_string(),
            JsonValue::Arr(vec![JsonValue::Bool(true), JsonValue::Null]),
        ),
        ("raw".to_string(), JsonValue::Raw("0.81".to_string())),
    ]);
    assert_eq!(
        to_json_text(&value),
        r#"{"id":-7,"items":[true,null],"name":"say \"hi\"","raw":0.81}"#
    );
    assert_eq!(value.get("id").and_then(|v| v.as_i64()), Some(-7));
    assert_eq!(value.get("missing").is_none(), true);
}

#[test]
fn json_objects_are_written_in_key_order_with_the_last_value_of_a_key() {
    let value = JsonValue::Obj(vec![
        ("b".to_string(), JsonValue::Int(1)),
        ("a".to_string(), JsonValue::Int(2)),
        ("é".to_string(), JsonValue::Null),
        ("B".to_string(), JsonValue::Bool(false)),
        ("b".to_string(), JsonValue::Int(3)),
    ]);
    let text = to_json_text(&value);
    assert_eq!(text, r#"{"B":false,"a":2,"b":3,"é":null}"#);
    let mut map = serde_json::Map::new();
    map.insert("b".to_string(), serde_json::Value::from(1));
    map.insert("a".to_string(), serde_json::Value::from(2));
    map.insert("é".to_string(), serde_json::Value::Null);
    map.insert("B".to_string(), serde_json::Value::Bool(false));
    map.insert("b".to_string(), serde_json::Value::from(3));
    assert_eq!(text, serde_json::Value::Object(map).to_string());
    assert_eq!(to_json_text(&JsonValue::Obj(Vec::new())), "{}");
}

#[test]
fn json_strings_are_escaped_as_serde_json_escapes_them() {
    for text in [
        "",
        "plain",
        "quote \" and backslash \\",
        "tab\tline\nreturn\rfeed\u{c}back\u{8}",
        "nul\u{0} unit\u{1f} bell\u{7} del\u{7f}",
        "slash / and unicode é ✓ \u{2028}",
    ] {
        assert_eq!(json_quote(text), serde_json::to_string(text).unwrap());
    }
    assert_eq!(json_quote("\u{1}\u{1b}"), r#""\u0001\u001b""#);
}

#[test]
fn paths_are_normalised_and_joined() {
    assert_eq!(normalize_path("/a/./b/../c/"), "/a/c");
    assert_eq!(join_path("/work", "emberflow.db"), "/work/emberflow.db");
    assert_eq!(join_path("/work/", "emberflow.db"), "/work/emberflow.db");
    assert_eq!(resolve_root_override("/work", "shared"), "/work/shared");
    assert_eq!(resolve_root_override("/work", "../other"), "/other");
    assert_eq!(resolve_root_override("/work", "/abs/root"), "/abs/root");
}

#[test]
fn configuration_parsing() {
    let config = EmberFlowConfig::parse(r#"{"mode":"projected","root":"shared"}"#).unwrap();
    assert!(config.present);
    assert_eq!(config.mode, Some(EmberFlowMode::Projected));
    assert_eq!(config.root.as_deref(), Some("shared"));
    let err = EmberFlowConfig::parse(r#"{"mode":"mirror"}"#).unwrap_err();
    assert_eq!(err.to_string(), "unsupported mode: mirror");
    assert!(EmberFlowConfig::parse("{").is_err());
}

#[test]
fn modes_round_trip_through_their_names() {
    for mode in [EmberFlowMode::Canonical, EmberFlowMode::Projected] {
        assert_eq!(EmberFlowMode::from_str(mode.as_str()), Some(mode));
    }
    assert_eq!(EmberFlowMode::from_str("mirror"), None);
}

#[test]
fn text_helpers() {
    assert_eq!(escape_markdown_cell("a|b\nc"), "a\\|b c");
    assert_eq!(trim("  padded\t\n"), "padded");
}

#[test]
fn protocol_errors_as_json() {
    let error = TransportProtocolError::method_not_found("delete-track");
    assert_eq!(error.code, "method_not_found");
    assert_eq!(error.message, "unknown method: delete-track");
    let json = to_json_text(&error.to_json());
    assert!(json.contains(r#""code":"method_not_found""#));
    let invalid = TransportProtocolError::invalid_params("trackId", "must be present");
    assert_eq!(invalid.code, "invalid_params");
    assert_eq!(invalid.field.as_deref(), Some("trackId"));
}

#[test]
fn plan_parameters_are_refused_by_their_first_bad_field() {
    fn text(s: &str) -> JsonValue {
        JsonValue::Str(s.to_string())
    }
    fn obj(members: Vec<(&str, JsonValue)>) -> JsonValue {
        JsonValue::Obj(members.into_iter().map(|(k, v)| (k.to_string(), v)).collect())
    }
    let no_phases = obj(vec![]);
    let error = track_plan_from_params(&no_phases).unwrap_err();
    assert_eq!(error.field.as_deref(), Some("phases"));
    assert_eq!(error.reason.as_deref(), Some("phases must be an array"));

    let item_without_id = obj(vec![(
        "phases",
        JsonValue::Arr(vec![obj(vec![
            ("phaseId", text("p1")),
            ("title", text("Phase")),
            ("position", JsonValue::Int(0)),
            (
                "items",
                JsonValue::Arr(vec![obj(vec![("title", text("Item")), ("position", JsonValue::Int(0))])]),
            ),
        ])]),
    )]);
    let error = track_plan_from_params(&item_without_id).unwrap_err();
    assert_eq!(error.code, "invalid_params");
    assert_eq!(error.field.as_deref(), Some("itemId"));
    assert_eq!(error.reason.as_deref(), Some("itemId must be present"));

    let phase_without_items = obj(vec![(
        "phases",
        JsonValue::Arr(vec![obj(vec![
            ("phaseId", text("p1")),
            ("title", text("Phase")),
            ("position", JsonValue::Int(0)),
        ])]),
    )]);
    let error = track_plan_from_params(&phase_without_items).unwrap_err();
    assert_eq!(error.field.as_deref(), Some("items"));
    assert_eq!(error.reason.as_deref(), Some("items must be an array"));
}
