use emberflow::layout::EmberFlowConfig;
use emberflow::{
    EmberFlowProjectLayout, EmberFlowRuntime, RuntimeStore, TaskInput, TrackBriefSectionInput,
    TrackMetadataInput, TrackPlanItemInput, TrackPlanPhaseInput,
};
use std::path::PathBuf;
use tempfile::tempdir;

fn runtime_at(root: &std::path::Path, config: EmberFlowConfig) -> EmberFlowRuntime {
    let root = root.display().to_string();
    let layout = EmberFlowProjectLayout::from_discovery(&root, &root, &root, config);
    EmberFlowRuntime::with_store(RuntimeStore::new(), layout)
}

fn projected_runtime() -> (tempfile::TempDir, EmberFlowRuntime) {
    let tmp = tempdir().unwrap();
    let config = EmberFlowConfig::parse(r#"{"mode":"projected"}"#).unwrap();
    let runtime = runtime_at(tmp.path(), config);
    (tmp, runtime)
}

fn canonical_track_metadata_input(track_id: &str, description: &str) -> TrackMetadataInput {
    TrackMetadataInput {
        track_id: track_id.to_string(),
        track_type: "feature".to_string(),
        status: "in-progress".to_string(),
        description: description.to_string(),
        branch: "feature/runtime-v1".to_string(),
        spec_ref: Some("emberflow/specs/emberflow-v1.spec".to_string()),
    }
}

fn brief_sections() -> Vec<TrackBriefSectionInput> {
    vec![
        TrackBriefSectionInput {
            section_key: "objective".to_string(),
            section_text: "Persist projected track state".to_string(),
            position: 0,
        },
        TrackBriefSectionInput {
            section_key: "context".to_string(),
            section_text: "Keep SQLite canonical and project filesystem views from it".to_string(),
            position: 1,
        },
    ]
}

fn canonical_plan() -> Vec<TrackPlanPhaseInput> {
    vec![TrackPlanPhaseInput {
        phase_id: "phase-1".to_string(),
        title: "Projection persistence".to_string(),
        position: 0,
        items: vec![TrackPlanItemInput {
            item_id: "phase-1/item-1".to_string(),
            title: "Mark projected files dirty".to_string(),
            position: Some(0),
        }],
    }]
}

fn projected_path(workspace: &tempfile::TempDir, relative: &str) -> PathBuf {
    workspace.path().join(relative)
}

/// What the refresh would write to a projected file, found among the dirty targets.
fn rendered(runtime: &EmberFlowRuntime, track_id: &str, path: &str) -> String {
    let dirty = runtime.dirty_projection_targets(Some(track_id)).unwrap();
    let target = dirty
        .iter()
        .find(|target| target.target_path == path)
        .unwrap_or_else(|| panic!("no dirty target for {path}"));
    runtime.render_projection_target(target).unwrap()
}

#[test]
fn projected_mode_materializes_track_filesystem_view() {
    let (_workspace, mut runtime) = projected_runtime();
    let track_id = "track-001";
    let task_id = "task-001";
    let description = "Build EmberFlow runtime with track projection engine";

    let targets = runtime
        .projected_track_filesystem_targets(track_id)
        .unwrap();

    assert_eq!(targets.mode, "projected");
    assert_eq!(targets.runtime_status_path, ".emberflow/context/status.md");
    assert_eq!(targets.track_list_path, ".emberflow/tracks/tracks.md");
    assert_eq!(targets.track_directory_path, ".emberflow/tracks/track-001/");
    assert_eq!(
        targets.metadata_path,
        ".emberflow/tracks/track-001/metadata.json"
    );
    assert_eq!(targets.brief_path, ".emberflow/tracks/track-001/brief.md");
    assert_eq!(targets.plan_path, ".emberflow/tracks/track-001/plan.md");
    assert_eq!(targets.summary_path, ".emberflow/tracks/track-001/index.md");

    let track = runtime
        .create_track(track_id, "Build EmberFlow V1", "in-progress")
        .unwrap();
    let metadata = runtime
        .upsert_track_metadata(canonical_track_metadata_input(track_id, description))
        .unwrap();
    let brief = runtime
        .replace_track_brief(track_id, brief_sections())
        .unwrap();
    let plan = runtime
        .replace_track_plan(track_id, canonical_plan())
        .unwrap();
    let task = runtime
        .create_task(TaskInput {
            task_id: task_id.to_string(),
            track_id: Some(track_id.to_string()),
            title: "Persist the first event".to_string(),
            status: "running".to_string(),
            phase: "implementing".to_string(),
            executor: None,
            agent_instance_id: None,
            execution: None,
            intent_summary: None,
        })
        .unwrap();
    runtime.claim_task(task_id, "assistant", Some(300)).unwrap();
    let runtime_state = runtime
        .record_runtime_state(
            track_id,
            task_id,
            "progress",
            r#"{"summary": "Writing the first event", "phase": "implementing", "status": "running"}"#,
        )
        .unwrap();

    assert_eq!(track.id, track_id);
    assert_eq!(metadata.description, description);
    assert_eq!(brief.sections.len(), 2);
    assert_eq!(plan.phases.len(), 1);
    assert_eq!(task.id, task_id);
    assert_eq!(runtime_state.store, "canonical");

    assert_eq!(
        rendered(&runtime, track_id, ".emberflow/context/status.md"),
        "phase: implementing | status: running | details: Writing the first event"
    );
    assert!(rendered(&runtime, track_id, ".emberflow/tracks/tracks.md")
        .contains("Build EmberFlow runtime with track projection engine"));
    assert!(rendered(&runtime, track_id, ".emberflow/tracks/track-001/metadata.json")
        .contains("\"track_id\":\"track-001\""));
    assert!(rendered(&runtime, track_id, ".emberflow/tracks/track-001/brief.md")
        .contains("Keep SQLite canonical and project filesystem views from it"));
    assert!(rendered(&runtime, track_id, ".emberflow/tracks/track-001/plan.md")
        .contains("Projection persistence"));
    assert!(rendered(&runtime, track_id, ".emberflow/tracks/track-001/index.md")
        .contains("# Track: track-001"));

    let dirty = runtime.dirty_projection_targets(Some(track_id)).unwrap();
    for target in dirty {
        runtime
            .store
            .clear_dirty_projection_target(&target.target_path)
            .unwrap();
    }
    assert!(runtime
        .dirty_projection_targets(Some(track_id))
        .unwrap()
        .is_empty());
}

#[test]
fn canonical_mode_does_not_materialize_projected_files() {
    let tmp = tempdir().unwrap();
    let mut runtime = runtime_at(tmp.path(), EmberFlowConfig::absent());
    let track_id = "track-001";

    runtime
        .create_track(track_id, "Build EmberFlow V1", "in-progress")
        .unwrap();
    runtime
        .upsert_track_metadata(canonical_track_metadata_input(
            track_id,
            "Build EmberFlow runtime with track projection engine",
        ))
        .unwrap();
    runtime
        .replace_track_brief(track_id, brief_sections())
        .unwrap();
    runtime
        .replace_track_plan(track_id, canonical_plan())
        .unwrap();

    assert!(
        !projected_path(&tmp, ".emberflow/context/status.md").exists(),
        "canonical mode should not materialize status.md"
    );
    assert!(
        !projected_path(&tmp, ".emberflow/tracks").exists(),
        "canonical mode should not materialize track projections"
    );

    let dirty = runtime.dirty_projection_targets(Some(track_id)).unwrap();
    assert!(dirty.is_empty());
}

#[test]
fn refresh_clears_written_targets_and_reports_failed_ones() {
    let (_workspace, mut runtime) = projected_runtime();
    runtime.create_track("track-a", "Track A", "in-progress").unwrap();
    let dirty: Vec<String> = runtime
        .dirty_projection_targets(None)
        .unwrap()
        .into_iter()
        .map(|target| target.target_path)
        .collect();
    assert!(dirty.len() >= 2);
    let outcomes = vec![
        (dirty[0].clone(), None),
        (dirty[1].clone(), Some("disk full".to_string())),
    ];
    let error = runtime.refresh_dirty_projection_targets(outcomes).unwrap_err();
    assert_eq!(
        error.to_string(),
        format!(
            "unsupported projection_refresh: filesystem materialization failed: {}: disk full",
            dirty[1]
        )
    );
    let left: Vec<String> = runtime
        .dirty_projection_targets(None)
        .unwrap()
        .into_iter()
        .map(|target| target.target_path)
        .collect();
    assert!(!left.contains(&dirty[0]));
    assert!(left.contains(&dirty[1]));
    assert_eq!(left.len(), dirty.len() - 1);

    let outcomes = left.iter().map(|path| (path.clone(), None)).collect();
    runtime.refresh_dirty_projection_targets(outcomes).unwrap();
    assert!(runtime.dirty_projection_targets(None).unwrap().is_empty());
    assert!(runtime.read_track("track-a").is_ok());
}

#[test]
fn refresh_joins_every_failure_in_order() {
    let (_workspace, mut runtime) = projected_runtime();
    let outcomes = vec![
        ("a.md".to_string(), Some("first".to_string())),
        ("b.md".to_string(), None),
        ("c.md".to_string(), Some("second".to_string())),
    ];
    let error = runtime.refresh_dirty_projection_targets(outcomes).unwrap_err();
    assert_eq!(
        error.to_string(),
        "unsupported projection_refresh: filesystem materialization failed: a.md: first; c.md: second"
    );
    assert!(runtime.refresh_dirty_projection_targets(Vec::new()).is_ok());
}

#[test]
fn refresh_in_canonical_mode_changes_nothing() {
    let workspace = tempdir().unwrap();
    let mut runtime = runtime_at(workspace.path(), EmberFlowConfig::absent());
    runtime.create_track("track-a", "Track A", "in-progress").unwrap();
    let before = runtime.dirty_projection_targets(None).unwrap().len();
    let outcomes = vec![("x.md".to_string(), Some("ignored".to_string()))];
    assert!(runtime.refresh_dirty_projection_targets(outcomes).is_ok());
    assert_eq!(runtime.dirty_projection_targets(None).unwrap().len(), before);
}

#[test]
fn projected_filesystem_views_are_rendered_from_canonical_sqlite_state() {
    let (_workspace, mut runtime) = projected_runtime();
    let track_id = "track-001";

    runtime
        .create_track(track_id, "Build EmberFlow V1", "in-progress")
        .unwrap();
    runtime
        .upsert_track_metadata(canonical_track_metadata_input(
            track_id,
            "Build EmberFlow runtime with track projection engine",
        ))
        .unwrap();
    runtime
        .replace_track_brief(track_id, brief_sections())
        .unwrap();
    runtime
        .replace_track_plan(track_id, canonical_plan())
        .unwrap();
    runtime
        .upsert_track_metadata(canonical_track_metadata_input(
            track_id,
            "Build EmberFlow runtime from canonical SQLite state",
        ))
        .unwrap();

    let metadata_json = rendered(&runtime, track_id, ".emberflow/tracks/track-001/metadata.json");
    assert!(metadata_json.contains("Build EmberFlow runtime from canonical SQLite state"));
    assert!(!metadata_json.contains("stale"));
    let summary = rendered(&runtime, track_id, ".emberflow/tracks/track-001/index.md");
    assert!(summary.contains("Build EmberFlow runtime from canonical SQLite state"));
    let brief = runtime.render_track_brief(track_id).unwrap();
    assert!(brief.contains("Persist projected track state"));
    assert_eq!(runtime.render_track_metadata(track_id).unwrap(), metadata_json);
    assert_eq!(runtime.render_track_summary(track_id).unwrap(), summary);
}
