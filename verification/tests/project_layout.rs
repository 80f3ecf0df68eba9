use emberflow::layout::EmberFlowConfig;
use emberflow::{EmberFlowProjectLayout, EmberFlowRuntime, EmberFlowSurface, RuntimeStore};
use tempfile::tempdir;

/// The runtime of a workspace found without git: the workspace root holds the configuration
/// and is the default project root.
fn runtime_at(root: &std::path::Path, config: EmberFlowConfig) -> EmberFlowRuntime {
    let root = root.display().to_string();
    let layout = EmberFlowProjectLayout::from_discovery(&root, &root, &root, config);
    EmberFlowRuntime::with_store(RuntimeStore::new(), layout)
}

#[test]
fn falls_back_to_local_root_without_git() {
    let workspace = tempdir().unwrap();

    let runtime = runtime_at(workspace.path(), EmberFlowConfig::absent());
    let init = runtime.initialize().unwrap();

    assert_eq!(
        init.workspace_db.project_root,
        workspace.path().display().to_string()
    );
    assert_eq!(
        init.workspace_db.state_root,
        workspace.path().join(".emberflow").display().to_string()
    );
    assert_eq!(
        init.workspace_db.default_path,
        workspace
            .path()
            .join(".emberflow/emberflow.db")
            .display()
            .to_string()
    );
    assert_eq!(init.workspace_db.projection_mode, "canonical");
}

#[test]
fn honors_config_root_override() {
    let workspace = tempdir().unwrap();
    let config = EmberFlowConfig::parse(r#"{"mode":"projected","root":"shared-project"}"#).unwrap();

    let runtime = runtime_at(workspace.path(), config);
    let init = runtime.initialize().unwrap();
    let expected_root = workspace.path().join("shared-project");

    assert_eq!(
        init.workspace_db.project_root,
        expected_root.display().to_string()
    );
    assert_eq!(
        init.workspace_db.state_root,
        expected_root.join(".emberflow").display().to_string()
    );
    assert_eq!(
        init.workspace_db.default_path,
        expected_root
            .join(".emberflow/emberflow.db")
            .display()
            .to_string()
    );
    assert_eq!(init.workspace_db.projection_mode, "projected");
}

#[test]
fn projects_filesystem_artifacts_under_emberflow() {
    let workspace = tempdir().unwrap();
    let config = EmberFlowConfig::parse(r#"{"mode":"projected"}"#).unwrap();

    let runtime = runtime_at(workspace.path(), config);
    let runtime_status = runtime.project_runtime_status("track-001").unwrap();

    assert_eq!(runtime_status.target_path, ".emberflow/context/status.md");
    assert_eq!(
        runtime.layout.runtime_status_path(),
        ".emberflow/context/status.md"
    );
    assert_eq!(
        runtime.layout.track_directory_prefix(),
        ".emberflow/tracks/"
    );
}

fn legacy_store() -> RuntimeStore {
    let mut store = RuntimeStore::new();
    store
        .create_track("legacy-track", "Legacy DB", "planning")
        .unwrap();
    store
}

#[test]
fn runtime_new_keeps_legacy_db_path() {
    let tmp = tempdir().unwrap();
    let db_path = tmp.path().join("legacy.db").display().to_string();
    let store = legacy_store();

    let mut runtime = EmberFlowRuntime::from_db_path(&db_path).unwrap();
    runtime.store = store;
    let init = runtime.initialize().unwrap();

    assert_eq!(init.workspace_db.default_path, db_path);
    assert_eq!(
        runtime
            .read_resource("emberflow://tracks/legacy-track/record")
            .unwrap()
            .content
            .get("title")
            .and_then(|value| value.as_str()),
        Some("Legacy DB")
    );
}

#[test]
fn surface_new_keeps_legacy_db_path() {
    let tmp = tempdir().unwrap();
    let db_path = tmp.path().join("legacy.db").display().to_string();
    let store = legacy_store();

    let mut runtime = EmberFlowSurface::from_db_path(&db_path).unwrap().into_runtime();
    runtime.store = store;
    let surface = EmberFlowSurface::from_runtime(runtime);
    let init = surface.initialize().unwrap();

    assert_eq!(init.workspace_db.default_path, db_path);
    assert_eq!(
        surface
            .read_resource("emberflow://tracks/legacy-track/record")
            .unwrap()
            .content
            .get("title")
            .and_then(|value| value.as_str()),
        Some("Legacy DB")
    );
}

#[test]
fn database_paths_give_their_parent_as_the_state_root() {
    let bare = EmberFlowProjectLayout::from_db_path("emberflow.db").unwrap();
    assert_eq!(bare.state_root, "");
    assert_eq!(bare.project_root, "");
    assert_eq!(bare.db_path, "emberflow.db");

    let hidden = EmberFlowProjectLayout::from_db_path(".emberflow/emberflow.db").unwrap();
    assert_eq!(hidden.state_root, ".emberflow");
    assert_eq!(hidden.project_root, "");

    let nested = EmberFlowProjectLayout::from_db_path("/work/app/.emberflow/emberflow.db").unwrap();
    assert_eq!(nested.state_root, "/work/app/.emberflow");
    assert_eq!(nested.project_root, "/work/app");
    assert_eq!(nested.workspace_root, "/work/app");

    let plain = EmberFlowProjectLayout::from_db_path("/data/state.db").unwrap();
    assert_eq!(plain.state_root, "/data");
    assert_eq!(plain.project_root, "/data");
}
