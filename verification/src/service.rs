use vstd::prelude::*;

use crate::clock::current_timestamp;
use crate::error::{is_not_found, is_sqlite, is_unsupported, not_found, unsupported, EmberFlowError};
use crate::json::{
    jopt, jopt_spec, jstr, json_text, json_text_get_str, json_top_level_string,
    json_view_members, json_view_seq, lemma_json_view_members, lemma_json_view_seq, member,
    to_json_text, JsonV, JsonValue,
};
use crate::layout::{
    joined_path, projected_runtime_status_path, runtime_status_path_spec,
    track_directory_prefix_spec, EmberFlowMode, EmberFlowProjectLayout,
};
use crate::projections::{ProjectionEngine, RuntimeProjection, TrackProjection, UserProjection};
use crate::protocol::{standard_tool_values, standard_tools, views_of};
use crate::records::{
    EventRecord, LeaseInfo, ProjectionDirtyTargetInput, ProjectionDirtyTargetRecord, TaskInput,
    TaskRecord, TaskStateUpdate, TrackBriefRecord, TrackBriefSectionInput,
    TrackBriefSectionRecord, TrackMetadataInput, TrackMetadataRecord, TrackPlanPhaseInput,
    TrackPlanRecord, TrackRecord,
};
use crate::rows::has_row;
use crate::store::{row_with, task_on_track, RuntimeStore};
use crate::text::{between, cat, cat3, is_blank, is_blank_spec, opt_copy, opt_view, owned, str_eq};
use crate::views::{brief_to_json, event_to_json, metadata_to_json, plan_to_json, track_record_to_json};

verus! {

/// How a new track is set up: the brief artifact and the sections it must carry.
#[derive(Debug, Clone, PartialEq, Eq)]
pub struct TrackBootstrapInfo {
    pub brief_artifact: &'static str,
    pub required_sections: Vec<&'static str>,
}

/// Where the workspace's canonical state lives.
#[derive(Debug, Clone, PartialEq, Eq)]
pub struct WorkspaceDbInfo {
    pub project_root: String,
    pub state_root: String,
    pub default_path: String,
    pub projection_mode: &'static str,
    pub mode: &'static str,
    pub initialization: &'static str,
}

/// What a client learns when it initializes.
#[derive(Debug, Clone, PartialEq, Eq)]
pub struct InitializeResponse {
    pub capabilities: Vec<&'static str>,
    pub track_bootstrap: TrackBootstrapInfo,
    pub workspace_db: WorkspaceDbInfo,
    pub system_role: &'static str,
    pub source_of_truth: &'static str,
    pub projected_files: &'static str,
    pub preferred_client_sequence: Vec<&'static str>,
    pub knowledge_views: Vec<KnowledgeViewDescriptor>,
    pub resource_views: Vec<ResourceViewDescriptor>,
}

/// A read-only view a client may ask for, with the parameters it takes.
#[derive(Debug, Clone, PartialEq, Eq)]
pub struct KnowledgeViewDescriptor {
    pub name: &'static str,
    pub description: &'static str,
    pub params: Vec<&'static str>,
}

/// A resource template.
#[derive(Debug, Clone, PartialEq, Eq)]
pub struct ResourceViewDescriptor {
    pub uri_template: &'static str,
    pub name: &'static str,
    pub description: &'static str,
    pub mime_type: &'static str,
}

/// A resource that was read, with its JSON content.
pub struct ResourceReadResponse {
    pub uri: String,
    pub name: &'static str,
    pub description: &'static str,
    pub mime_type: &'static str,
    pub content: JsonValue,
}

/// What recording a runtime state reports.
#[derive(Debug, Clone, PartialEq, Eq)]
pub struct RuntimeStateResult {
    pub track_id: String,
    pub task_id: String,
    pub event_kind: String,
    pub store: String,
}

/// The runtime status of a track.
#[derive(Debug, Clone, PartialEq, Eq)]
pub struct RuntimeStatusProjection {
    pub track_id: String,
    pub task_id: Option<String>,
    pub target_path: String,
    pub status_line: String,
    pub status: Option<String>,
    pub phase: Option<String>,
    pub next: Option<String>,
    pub executor: Option<String>,
    pub execution: Option<String>,
    pub intent_summary: Option<String>,
    pub source: String,
}

/// What a task shows to a client.
#[derive(Debug, Clone, PartialEq, Eq)]
pub struct TaskVisibilityView {
    pub source: String,
    pub task_id: String,
    pub track_id: Option<String>,
    pub title: String,
    pub status: String,
    pub phase: String,
    pub executor: Option<String>,
    pub execution: Option<String>,
    pub intent_summary: Option<String>,
    pub track_status: Option<String>,
    pub next: Option<String>,
    pub updated_at: String,
    pub lease_holder: Option<String>,
    pub lease_expires_at: Option<String>,
}

/// The files that are projected for a track, relative to the project root.
#[derive(Debug, Clone, PartialEq, Eq)]
pub struct ProjectedFilesystemTargets {
    pub mode: String,
    pub runtime_status_path: String,
    pub track_list_path: String,
    pub track_directory_path: String,
    pub metadata_path: String,
    pub brief_path: String,
    pub plan_path: String,
    pub summary_path: String,
}

/// A track's metadata, brief and plan together.
#[derive(Debug, Clone, PartialEq, Eq)]
pub struct TrackContextRecord {
    pub track_id: String,
    pub metadata: TrackMetadataRecord,
    pub brief: TrackBriefRecord,
    pub plan: TrackPlanRecord,
}

/// One track in the workspace overview.
#[derive(Debug, Clone, PartialEq, Eq)]
pub struct WorkspaceOverviewTrack {
    pub track_id: String,
    pub title: String,
    pub track_type: Option<String>,
    pub status: String,
    pub description: Option<String>,
    pub updated_at: String,
    pub executor: Option<String>,
    pub execution: Option<String>,
    pub intent_summary: Option<String>,
    pub next: Option<String>,
}

/// The active tracks of the workspace.
#[derive(Debug, Clone, PartialEq, Eq)]
pub struct WorkspaceOverview {
    pub source: String,
    pub projection_mode: String,
    pub tracks: Vec<WorkspaceOverviewTrack>,
}

/// What a fresh workspace needs to resume a track.
#[derive(Debug, Clone, PartialEq, Eq)]
pub struct TrackResumeView {
    pub source: String,
    pub track_id: String,
    pub title: String,
    pub track_type: Option<String>,
    pub status: String,
    pub description: Option<String>,
    pub branch: Option<String>,
    pub spec_ref: Option<String>,
    pub summary_sections: Vec<TrackBriefSectionRecord>,
    pub plan: TrackPlanRecord,
    pub task_id: Option<String>,
    pub executor: Option<String>,
    pub execution: Option<String>,
    pub intent_summary: Option<String>,
    pub next: Option<String>,
    pub current_phase: Option<String>,
}

/// The state of a track as a client displays it.
#[derive(Debug, Clone, PartialEq, Eq)]
pub struct TrackTransparencyView {
    pub source: String,
    pub track_id: String,
    pub task_id: Option<String>,
    pub track_status: String,
    pub task_status: Option<String>,
    pub phase: Option<String>,
    pub executor: Option<String>,
    pub execution: Option<String>,
    pub intent_summary: Option<String>,
    pub next: Option<String>,
    pub updated_at: String,
}

/// The events of a track or a task.
#[derive(Debug, Clone, PartialEq)]
pub struct EventFeed {
    pub track_id: Option<String>,
    pub task_id: Option<String>,
    pub items: Vec<EventRecord>,
}

/// The URI templates of the resources, in the order they are listed.
pub open spec fn resource_uris() -> Seq<Seq<char>> {
    seq![
        "emberflow://workspace/overview"@,
        "emberflow://tracks/{trackId}/record"@,
        "emberflow://tracks/{trackId}/resume"@,
        "emberflow://tracks/{trackId}/transparency"@,
        "emberflow://tracks/{trackId}/context"@,
        "emberflow://tracks/{trackId}/brief"@,
        "emberflow://tracks/{trackId}/plan"@,
        "emberflow://tracks/{trackId}/runtime"@,
        "emberflow://tracks/{trackId}/events"@,
        "emberflow://tasks/{taskId}/visibility"@,
        "emberflow://tasks/{taskId}/events"@,
        "emberflow://protocol/client-contract"@,
    ]
}

/// The names of the resources, in the order they are listed.
pub open spec fn resource_names() -> Seq<Seq<char>> {
    seq![
        "workspace-overview"@,
        "track-record"@,
        "track-resume"@,
        "track-transparency"@,
        "track-context"@,
        "track-brief"@,
        "track-plan"@,
        "track-runtime"@,
        "track-events"@,
        "task-visibility"@,
        "task-events"@,
        "client-contract"@,
    ]
}

/// What each resource shows, in the order they are listed.
pub open spec fn resource_descriptions() -> Seq<Seq<char>> {
    seq![
        "Workspace-level canonical track overview from EmberFlow."@,
        "Canonical track record from EmberFlow."@,
        "Resume view for one track, combining metadata, summary, plan, and runtime visibility."@,
        "Display-ready canonical transparency state for one track."@,
        "Canonical track context combining metadata, brief, and plan."@,
        "Canonical resume summary for one track."@,
        "Canonical execution plan for one track."@,
        "Current runtime projection for one track."@,
        "Canonical event feed for one track."@,
        "Task-level visibility fields plus current track status and next step when available."@,
        "Canonical event feed for one task."@,
        "Static client contract for EmberFlow bootstrap, mutation, and transparency."@,
    ]
}

/// What each knowledge view is, in the order of `resource_names`.
pub open spec fn knowledge_descriptions() -> Seq<Seq<char>> {
    seq![
        "Read-only workspace overview resource exposed by EmberFlow."@,
        "Read-only canonical track record resource exposed by EmberFlow."@,
        "Read-only resume view for one track, combining metadata, summary, plan, and runtime visibility."@,
        "Read-only display-ready canonical transparency state for one track."@,
        "Read-only canonical track context resource exposed by EmberFlow."@,
        "Read-only canonical brief resource exposed by EmberFlow."@,
        "Read-only canonical plan resource exposed by EmberFlow."@,
        "Read-only runtime projection resource exposed by EmberFlow."@,
        "Read-only track event feed resource exposed by EmberFlow."@,
        "Read-only task visibility resource exposed by EmberFlow."@,
        "Read-only task event feed resource exposed by EmberFlow."@,
        "Read-only bootstrap contract resource exposed by EmberFlow."@,
    ]
}

/// What a client learns when it initializes, for a project laid out as `layout`.
pub open spec fn initialize_is(layout: EmberFlowProjectLayout, i: InitializeResponse) -> bool {
    &&& views_of(i.capabilities@) == standard_tools()
    &&& i.track_bootstrap.brief_artifact@ == "brief.md"@
    &&& views_of(i.track_bootstrap.required_sections@) == required_brief_sections()
    &&& i.workspace_db.project_root == layout.project_root
    &&& i.workspace_db.state_root == layout.state_root
    &&& i.workspace_db.default_path == layout.db_path
    &&& i.workspace_db.projection_mode@ == (if layout.mode is Canonical {
            "canonical"@
        } else {
            "projected"@
        })
    &&& i.workspace_db.mode@ == "sqlite"@
    &&& i.workspace_db.initialization@ == "ready"@
    &&& i.system_role@ == "canonical tracked runtime and visibility layer"@
    &&& i.source_of_truth@ == "emberflow-canonical-state"@
    &&& i.projected_files@ == "derived-only"@
    &&& views_of(i.preferred_client_sequence@) == seq![
            "initialize"@,
            "list_resources"@,
            "read_resource"@,
            "mutate_via_emberflow_mcp"@,
        ]
    &&& i.knowledge_views@.len() == 12
    &&& forall|k: int|
            0 <= k < 12 ==> (#[trigger] i.knowledge_views@[k]).name@ == resource_names()[k]
                && i.knowledge_views@[k].description@ == knowledge_descriptions()[k]
                && views_of(i.knowledge_views@[k].params@) == knowledge_view_params(k)
    &&& i.resource_views@.len() == 12
    &&& forall|k: int|
            0 <= k < 12 ==> (#[trigger] i.resource_views@[k]).uri_template@
                == resource_uris()[k] && i.resource_views@[k].name@ == resource_names()[k]
                && i.resource_views@[k].description@ == resource_descriptions()[k]
                && i.resource_views@[k].mime_type@ == "application/json"@
}

/// The brief sections a new track must carry.
pub open spec fn required_brief_sections() -> Seq<Seq<char>> {
    seq![
        "objective"@,
        "context"@,
        "decisions"@,
        "non_goals"@,
        "current_state"@,
        "workspace_branch_pr_context"@,
        "next_step"@,
    ]
}

/// The parameters each knowledge view takes, in the order of `resource_names`.
pub open spec fn knowledge_view_params(i: int) -> Seq<Seq<char>> {
    if i == 0 || i == 11 {
        Seq::empty()
    } else if i == 9 || i == 10 {
        seq!["taskId"@]
    } else {
        seq!["trackId"@]
    }
}

fn view(
    uri_template: &'static str,
    name: &'static str,
    description: &'static str,
) -> (r: ResourceViewDescriptor)
    ensures
        r.uri_template == uri_template,
        r.name == name,
        r.description == description,
        r.mime_type@ == "application/json"@,
{
    ResourceViewDescriptor { uri_template, name, description, mime_type: "application/json" }
}

/// The resource templates a client can read.
pub fn resource_views() -> (r: Vec<ResourceViewDescriptor>)
    ensures
        r@.len() == 12,
        forall|i: int|
            0 <= i < 12 ==> (#[trigger] r@[i]).uri_template@ == resource_uris()[i] && r@[i].name@
                == resource_names()[i] && r@[i].description@ == resource_descriptions()[i]
                && r@[i].mime_type@ == "application/json"@,
{
    let r = vec![
        view(
            "emberflow://workspace/overview",
            "workspace-overview",
            "Workspace-level canonical track overview from EmberFlow.",
        ),
        view(
            "emberflow://tracks/{trackId}/record",
            "track-record",
            "Canonical track record from EmberFlow.",
        ),
        view(
            "emberflow://tracks/{trackId}/resume",
            "track-resume",
            "Resume view for one track, combining metadata, summary, plan, and runtime visibility.",
        ),
        view(
            "emberflow://tracks/{trackId}/transparency",
            "track-transparency",
            "Display-ready canonical transparency state for one track.",
        ),
        view(
            "emberflow://tracks/{trackId}/context",
            "track-context",
            "Canonical track context combining metadata, brief, and plan.",
        ),
        view(
            "emberflow://tracks/{trackId}/brief",
            "track-brief",
            "Canonical resume summary for one track.",
        ),
        view(
            "emberflow://tracks/{trackId}/plan",
            "track-plan",
            "Canonical execution plan for one track.",
        ),
        view(
            "emberflow://tracks/{trackId}/runtime",
            "track-runtime",
            "Current runtime projection for one track.",
        ),
        view(
            "emberflow://tracks/{trackId}/events",
            "track-events",
            "Canonical event feed for one track.",
        ),
        view(
            "emberflow://tasks/{taskId}/visibility",
            "task-visibility",
            "Task-level visibility fields plus current track status and next step when available.",
        ),
        view(
            "emberflow://tasks/{taskId}/events",
            "task-events",
            "Canonical event feed for one task.",
        ),
        view(
            "emberflow://protocol/client-contract",
            "client-contract",
            "Static client contract for EmberFlow bootstrap, mutation, and transparency.",
        ),
    ];
    r
}

fn knowledge(name: &'static str, description: &'static str, params: Vec<&'static str>) -> (r:
    KnowledgeViewDescriptor)
    ensures
        r.name == name,
        r.description == description,
        r.params == params,
{
    KnowledgeViewDescriptor { name, description, params }
}

/// The read-only views a client may use, with their parameters.
pub fn knowledge_views() -> (r: Vec<KnowledgeViewDescriptor>)
    ensures
        r@.len() == 12,
        forall|i: int|
            0 <= i < 12 ==> (#[trigger] r@[i]).name@ == resource_names()[i] && r@[i].description@
                == knowledge_descriptions()[i] && views_of(r@[i].params@) == knowledge_view_params(i),
{
    let r = vec![
        knowledge(
            "workspace-overview",
            "Read-only workspace overview resource exposed by EmberFlow.",
            vec![],
        ),
        knowledge(
            "track-record",
            "Read-only canonical track record resource exposed by EmberFlow.",
            vec!["trackId"],
        ),
        knowledge(
            "track-resume",
            "Read-only resume view for one track, combining metadata, summary, plan, and runtime visibility.",
            vec!["trackId"],
        ),
        knowledge(
            "track-transparency",
            "Read-only display-ready canonical transparency state for one track.",
            vec!["trackId"],
        ),
        knowledge(
            "track-context",
            "Read-only canonical track context resource exposed by EmberFlow.",
            vec!["trackId"],
        ),
        knowledge(
            "track-brief",
            "Read-only canonical brief resource exposed by EmberFlow.",
            vec!["trackId"],
        ),
        knowledge(
            "track-plan",
            "Read-only canonical plan resource exposed by EmberFlow.",
            vec!["trackId"],
        ),
        knowledge(
            "track-runtime",
            "Read-only runtime projection resource exposed by EmberFlow.",
            vec!["trackId"],
        ),
        knowledge(
            "track-events",
            "Read-only track event feed resource exposed by EmberFlow.",
            vec!["trackId"],
        ),
        knowledge(
            "task-visibility",
            "Read-only task visibility resource exposed by EmberFlow.",
            vec!["taskId"],
        ),
        knowledge(
            "task-events",
            "Read-only task event feed resource exposed by EmberFlow.",
            vec!["taskId"],
        ),
        knowledge(
            "client-contract",
            "Read-only bootstrap contract resource exposed by EmberFlow.",
            vec![],
        ),
    ];
    proof {
        assert forall|i: int| 0 <= i < 12 implies views_of(#[trigger] r@[i].params@)
            == knowledge_view_params(i) by {
            assert(views_of(r@[i].params@) =~= knowledge_view_params(i));
        }
    }
    r
}

/// The brief sections a new track must carry.
pub fn required_section_values() -> (r: Vec<&'static str>)
    ensures
        views_of(r@) == required_brief_sections(),
{
    let r = vec![
        "objective",
        "context",
        "decisions",
        "non_goals",
        "current_state",
        "workspace_branch_pr_context",
        "next_step",
    ];
    assert(views_of(r@) =~= required_brief_sections());
    r
}


/// A dirty target with its track, kind, path, reason and source.
pub open spec fn dirty_target_is(
    t: ProjectionDirtyTargetInput,
    track_id: Seq<char>,
    kind: Seq<char>,
    path: Seq<char>,
    reason: Seq<char>,
    source: Option<Seq<char>>,
) -> bool {
    &&& opt_view(t.track_id) == Some(track_id)
    &&& t.projection_kind@ == kind
    &&& t.target_path@ == path
    &&& t.reason@ == reason
    &&& opt_view(t.source_event_id) == source
}

/// Where a projected track file lives, relative to the project root.
pub open spec fn track_file_path(track_id: Seq<char>, file_name: Seq<char>) -> Seq<char> {
    track_directory_prefix_spec() + track_id + "/"@ + file_name
}

/// The status a task takes from an event of the given kind.
pub open spec fn task_state_spec(kind: Seq<char>, payload: Seq<char>, task: TaskRecord) -> (
    Seq<char>,
    Seq<char>,
) {
    let ph = json_top_level_string(payload, "phase"@);
    let st = json_top_level_string(payload, "status"@);
    let or = |o: Option<Seq<char>>, d: Seq<char>|
        match o {
            Some(v) => v,
            None => d,
        };
    if kind == "assign"@ {
        ("queued"@, or(ph, task.phase@))
    } else if kind == "ack"@ {
        ("running"@, "planning"@)
    } else if kind == "progress"@ {
        (or(st, task.status@), or(ph, task.phase@))
    } else if kind == "blocker"@ {
        ("blocked"@, or(ph, task.phase@))
    } else if kind == "handoff"@ {
        ("awaiting-review"@, or(ph, "verifying"@))
    } else if kind == "close"@ {
        ("done"@, or(ph, "verifying"@))
    } else {
        (task.status@, task.phase@)
    }
}

/// The executor an event's payload names: `executor`, else `agent`.
pub open spec fn payload_executor(payload: Seq<char>) -> Option<Seq<char>> {
    match json_top_level_string(payload, "executor"@) {
        Some(e) => Some(e),
        None => json_top_level_string(payload, "agent"@),
    }
}

/// The first of several optional texts that is present.
pub open spec fn first_some(a: Option<Seq<char>>, b: Option<Seq<char>>) -> Option<Seq<char>> {
    match a {
        Some(x) => Some(x),
        None => b,
    }
}

/// The next step written in a brief: the text of its first `next_step` section.
pub open spec fn brief_next_step(sections: Seq<TrackBriefSectionRecord>) -> Option<Seq<char>>
    decreases sections.len(),
{
    if sections.len() == 0 {
        None
    } else if sections[0].section_key@ == "next_step"@ {
        Some(sections[0].section_text@)
    } else {
        brief_next_step(sections.drop_first())
    }
}

/// The next step written in a track's brief, when the track exists.
pub open spec fn brief_next(store: RuntimeStore, track_id: Seq<char>) -> Option<Seq<char>> {
    if has_row(store.track_rows(), track_id) {
        brief_next_step(
            store.section_rows().filter(
                |s: crate::records::SectionRow| s.track_id@ == track_id,
            ).map_values(|s: crate::records::SectionRow| crate::store::section_record_of(s)),
        )
    } else {
        None
    }
}

/// The next step an event names: `recommended_next_step`, `next` or `next_step`, in that order.
pub open spec fn event_next_step(payload: Seq<char>) -> Option<Seq<char>> {
    first_some(
        json_top_level_string(payload, "recommended_next_step"@),
        first_some(
            json_top_level_string(payload, "next"@),
            json_top_level_string(payload, "next_step"@),
        ),
    )
}

/// A text found in a payload, or the one it falls back to.
fn or_else(found: Option<String>, fallback: &str) -> (r: String)
    ensures
        r@ == match opt_view(found) {
            Some(v) => v,
            None => fallback@,
        },
{
    match found {
        Some(v) => v,
        None => owned(fallback),
    }
}

fn opt_or(a: Option<String>, b: &Option<String>) -> (r: Option<String>)
    ensures
        opt_view(r) == first_some(opt_view(a), opt_view(*b)),
{
    match a {
        Some(x) => Some(x),
        None => opt_copy(b),
    }
}

fn opt_as_str(o: &Option<String>) -> (r: Option<&str>)
    ensures
        crate::text::opt_str_view(r) == opt_view(*o),
{
    match o {
        Some(s) => Some(s.as_str()),
        None => None,
    }
}

/// The EmberFlow runtime: the canonical store, the projection engine, and the project layout.
pub struct EmberFlowRuntime {
    pub store: RuntimeStore,
    pub engine: ProjectionEngine,
    pub layout: EmberFlowProjectLayout,
}

impl EmberFlowRuntime {
    /// A runtime over a store and a layout.
    pub fn with_store(store: RuntimeStore, layout: EmberFlowProjectLayout) -> (r: Self)
        ensures
            r.store == store,
            r.layout == layout,
    {
        EmberFlowRuntime { store, engine: ProjectionEngine, layout }
    }

    /// A runtime over an empty store, laid out around the given database path.
    pub fn from_db_path(db_path: &str) -> (r: Result<Self, EmberFlowError>)
        ensures
            r matches Ok(rt) && rt.store.wf() && rt.store.holds_nothing()
                && crate::layout::db_layout_is(rt.layout, db_path@),
    {
        let layout = EmberFlowProjectLayout::from_db_path(db_path)?;
        Ok(EmberFlowRuntime { store: RuntimeStore::new(), engine: ProjectionEngine, layout })
    }

    /// The names of the write tools.
    pub fn available_tools(&self) -> (r: Vec<&'static str>)
        ensures
            views_of(r@) == standard_tools(),
    {
        standard_tool_values()
    }

    /// The resource templates a client can read.
    pub fn available_resource_views(&self) -> (r: Vec<ResourceViewDescriptor>)
        ensures
            r@.len() == 12,
            forall|i: int|
                0 <= i < 12 ==> (#[trigger] r@[i]).uri_template@ == resource_uris()[i]
                    && r@[i].name@ == resource_names()[i] && r@[i].description@
                    == resource_descriptions()[i] && r@[i].mime_type@ == "application/json"@,
    {
        resource_views()
    }

    /// The resource templates a client can read.
    pub fn list_resource_views(&self) -> (r: Vec<ResourceViewDescriptor>)
        ensures
            r@.len() == 12,
            forall|i: int|
                0 <= i < 12 ==> (#[trigger] r@[i]).uri_template@ == resource_uris()[i]
                    && r@[i].name@ == resource_names()[i] && r@[i].description@
                    == resource_descriptions()[i] && r@[i].mime_type@ == "application/json"@,
    {
        resource_views()
    }

    /// What a client learns when it initializes: the tools, how tracks are set up, where the
    /// state lives, the roles of EmberFlow and of projected files, and the views to read.
    pub fn initialize(&self) -> (r: Result<InitializeResponse, EmberFlowError>)
        ensures
            r matches Ok(i) && initialize_is(self.layout, i),
    {
        let sequence = vec!["initialize", "list_resources", "read_resource", "mutate_via_emberflow_mcp"];
        proof {
            assert(views_of(sequence@) =~= seq![
                "initialize"@,
                "list_resources"@,
                "read_resource"@,
                "mutate_via_emberflow_mcp"@,
            ]);
        }
        Ok(
            InitializeResponse {
                capabilities: self.available_tools(),
                track_bootstrap: TrackBootstrapInfo {
                    brief_artifact: "brief.md",
                    required_sections: required_section_values(),
                },
                workspace_db: WorkspaceDbInfo {
                    project_root: self.layout.project_root.clone(),
                    state_root: self.layout.state_root.clone(),
                    default_path: self.layout.db_path.clone(),
                    projection_mode: self.layout.mode.as_str(),
                    mode: "sqlite",
                    initialization: "ready",
                },
                system_role: "canonical tracked runtime and visibility layer",
                source_of_truth: "emberflow-canonical-state",
                projected_files: "derived-only",
                preferred_client_sequence: sequence,
                knowledge_views: knowledge_views(),
                resource_views: self.available_resource_views(),
            },
        )
    }

    /// All tracks, oldest first.
    pub fn list_tracks(&self) -> (r: Result<Vec<TrackRecord>, EmberFlowError>)
        ensures
            r matches Ok(v) && v@ == self.store.track_rows().map_values(
                |t: crate::records::TrackRow| crate::store::track_record_of(t),
            ),
    {
        self.store.list_tracks()
    }

    /// The tracks that are not archived, oldest first.
    pub fn list_active_tracks(&self) -> (r: Result<Vec<TrackRecord>, EmberFlowError>)
        ensures
            r matches Ok(v) && v@ == self.store.track_rows().filter(
                |t: crate::records::TrackRow| t.status@ != "archived"@,
            ).map_values(|t: crate::records::TrackRow| crate::store::track_record_of(t)),
    {
        self.store.list_active_tracks()
    }

    /// All tasks, oldest first.
    pub fn list_tasks(&self) -> (r: Result<Vec<TaskRecord>, EmberFlowError>)
        ensures
            r matches Ok(v) && v@ == self.store.task_rows().map_values(
                |t: crate::records::TaskRow| crate::store::task_record_of(t),
            ),
    {
        self.store.list_tasks()
    }

    /// The directory of a track's projected files, relative to the project root.
    pub fn track_directory_path(&self, track_id: &str) -> (r: String)
        ensures
            r@ == track_directory_prefix_spec() + track_id@ + "/"@,
    {
        cat3(self.layout.track_directory_prefix(), track_id, "/")
    }

    /// A projected file of a track, relative to the project root.
    pub fn track_target_path(&self, track_id: &str, file_name: &str) -> (r: String)
        ensures
            r@ == track_file_path(track_id@, file_name@),
    {
        let dir = self.track_directory_path(track_id);
        let r = cat(dir.as_str(), file_name);
        proof {
            assert(r@ =~= track_file_path(track_id@, file_name@));
        }
        r
    }

    /// The files projected for a track, relative to the project root.
    pub fn projected_track_filesystem_targets(&self, track_id: &str) -> (r: Result<
        ProjectedFilesystemTargets,
        EmberFlowError,
    >)
        ensures
            r matches Ok(t) && {
                &&& t.mode@ == (if self.layout.mode is Canonical {
                    "canonical"@
                } else {
                    "projected"@
                })
                &&& t.runtime_status_path@ == runtime_status_path_spec()
                &&& t.track_list_path@ == ".emberflow/tracks/tracks.md"@
                &&& t.track_directory_path@ == track_directory_prefix_spec() + track_id@ + "/"@
                &&& t.metadata_path@ == track_file_path(track_id@, "metadata.json"@)
                &&& t.brief_path@ == track_file_path(track_id@, "brief.md"@)
                &&& t.plan_path@ == track_file_path(track_id@, "plan.md"@)
                &&& t.summary_path@ == track_file_path(track_id@, "index.md"@)
            },
    {
        Ok(
            ProjectedFilesystemTargets {
                mode: owned(self.layout.mode.as_str()),
                runtime_status_path: owned(projected_runtime_status_path()),
                track_list_path: owned(".emberflow/tracks/tracks.md"),
                track_directory_path: self.track_directory_path(track_id),
                metadata_path: self.track_target_path(track_id, "metadata.json"),
                brief_path: self.track_target_path(track_id, "brief.md"),
                plan_path: self.track_target_path(track_id, "plan.md"),
                summary_path: self.track_target_path(track_id, "index.md"),
            },
        )
    }

    /// The dirty projection targets of a track, or all of them.
    pub fn dirty_projection_targets(&self, track_id: Option<&str>) -> (r: Result<
        Vec<ProjectionDirtyTargetRecord>,
        EmberFlowError,
    >)
        ensures
            r matches Ok(v) && v@ == self.store.dirty_rows().filter(
                |d: ProjectionDirtyTargetRecord|
                    crate::store::dirty_selected(d, crate::text::opt_str_view(track_id)),
            ),
    {
        self.store.list_dirty_projection_targets(track_id)
    }

    fn dirty_target(
        &self,
        track_id: &str,
        kind: &str,
        path: String,
        reason: &str,
        source_event_id: Option<&str>,
    ) -> (r: ProjectionDirtyTargetInput)
        ensures
            dirty_target_is(r, track_id@, kind@, path@, reason@, crate::text::opt_str_view(source_event_id)),
    {
        ProjectionDirtyTargetInput {
            track_id: Some(owned(track_id)),
            projection_kind: owned(kind),
            target_path: path,
            reason: owned(reason),
            source_event_id: crate::text::opt_owned(source_event_id),
        }
    }

    /// The targets to refresh when a track's list entry or summary changes.
    pub fn track_summary_dirty_targets(
        &self,
        track_id: &str,
        reason: &str,
        source_event_id: Option<&str>,
    ) -> (r: Vec<ProjectionDirtyTargetInput>)
        ensures
            r@.len() == 2,
            dirty_target_is(
                r@[0],
                track_id@,
                "track-list"@,
                ".emberflow/tracks/tracks.md"@,
                reason@,
                crate::text::opt_str_view(source_event_id),
            ),
            dirty_target_is(
                r@[1],
                track_id@,
                "track-summary"@,
                track_file_path(track_id@, "index.md"@),
                reason@,
                crate::text::opt_str_view(source_event_id),
            ),
    {
        vec![
            self.dirty_target(
                track_id,
                "track-list",
                owned(".emberflow/tracks/tracks.md"),
                reason,
                source_event_id,
            ),
            self.dirty_target(
                track_id,
                "track-summary",
                self.track_target_path(track_id, "index.md"),
                reason,
                source_event_id,
            ),
        ]
    }

    /// The target to refresh when a track's metadata changes.
    pub fn track_metadata_dirty_targets(
        &self,
        track_id: &str,
        reason: &str,
        source_event_id: Option<&str>,
    ) -> (r: Vec<ProjectionDirtyTargetInput>)
        ensures
            r@.len() == 1,
            dirty_target_is(
                r@[0],
                track_id@,
                "track-metadata"@,
                track_file_path(track_id@, "metadata.json"@),
                reason@,
                crate::text::opt_str_view(source_event_id),
            ),
    {
        vec![
            self.dirty_target(
                track_id,
                "track-metadata",
                self.track_target_path(track_id, "metadata.json"),
                reason,
                source_event_id,
            ),
        ]
    }

    /// The targets to refresh when a track's brief changes: its summary targets and its brief.
    pub fn track_brief_dirty_targets(
        &self,
        track_id: &str,
        reason: &str,
        source_event_id: Option<&str>,
    ) -> (r: Vec<ProjectionDirtyTargetInput>)
        ensures
            r@.len() == 3,
            dirty_target_is(
                r@[0],
                track_id@,
                "track-list"@,
                ".emberflow/tracks/tracks.md"@,
                reason@,
                crate::text::opt_str_view(source_event_id),
            ),
            dirty_target_is(
                r@[1],
                track_id@,
                "track-summary"@,
                track_file_path(track_id@, "index.md"@),
                reason@,
                crate::text::opt_str_view(source_event_id),
            ),
            dirty_target_is(
                r@[2],
                track_id@,
                "track-brief"@,
                track_file_path(track_id@, "brief.md"@),
                reason@,
                crate::text::opt_str_view(source_event_id),
            ),
    {
        let mut targets = self.track_summary_dirty_targets(track_id, reason, source_event_id);
        targets.push(
            self.dirty_target(
                track_id,
                "track-brief",
                self.track_target_path(track_id, "brief.md"),
                reason,
                source_event_id,
            ),
        );
        targets
    }

    /// The targets to refresh when a track's plan changes: its summary targets and its plan.
    pub fn track_plan_dirty_targets(
        &self,
        track_id: &str,
        reason: &str,
        source_event_id: Option<&str>,
    ) -> (r: Vec<ProjectionDirtyTargetInput>)
        ensures
            r@.len() == 3,
            dirty_target_is(
                r@[0],
                track_id@,
                "track-list"@,
                ".emberflow/tracks/tracks.md"@,
                reason@,
                crate::text::opt_str_view(source_event_id),
            ),
            dirty_target_is(
                r@[1],
                track_id@,
                "track-summary"@,
                track_file_path(track_id@, "index.md"@),
                reason@,
                crate::text::opt_str_view(source_event_id),
            ),
            dirty_target_is(
                r@[2],
                track_id@,
                "track-plan"@,
                track_file_path(track_id@, "plan.md"@),
                reason@,
                crate::text::opt_str_view(source_event_id),
            ),
    {
        let mut targets = self.track_summary_dirty_targets(track_id, reason, source_event_id);
        targets.push(
            self.dirty_target(
                track_id,
                "track-plan",
                self.track_target_path(track_id, "plan.md"),
                reason,
                source_event_id,
            ),
        );
        targets
    }

    /// Marks the given targets dirty, in order, in projected mode only; it succeeds exactly when
    /// every target's track and source event exist.
    fn mark_dirty(&mut self, targets: Vec<ProjectionDirtyTargetInput>, now: &str) -> (r: Result<
        (),
        EmberFlowError,
    >)
        requires
            old(self).store.wf(),
        ensures
            final(self).store.wf(),
            final(self).layout == old(self).layout,
            old(self).layout.mode is Canonical ==> final(self).store == old(self).store && r is Ok,
            targets_fit(old(self).store, targets@) ==> r is Ok,
            !(old(self).layout.mode is Canonical) ==> (r is Ok <==> targets_fit(
                old(self).store,
                targets@,
            )),
            !(old(self).layout.mode is Canonical) && r is Ok ==> dirty_marked(
                old(self).store.dirty_rows(),
                final(self).store.dirty_rows(),
                targets@,
                now@,
            ),
            final(self).store.track_rows() == old(self).store.track_rows(),
            final(self).store.task_rows() == old(self).store.task_rows(),
            final(self).store.same_plans(&old(self).store),
            final(self).store.event_rows() == old(self).store.event_rows(),
            final(self).store.projection_rows() == old(self).store.projection_rows(),
    {
        if self.layout.mode == EmberFlowMode::Canonical {
            return Ok(());
        }
        let mut rest = targets;
        let ghost s0 = self.store;
        let ghost all = rest@;
        let ghost mut k: int = 0;
        proof {
            assert(all.take(0) =~= Seq::<ProjectionDirtyTargetInput>::empty());
        }
        while rest.len() > 0
            invariant
                self.store.wf(),
                self.layout == old(self).layout,
                s0 == old(self).store,
                all == targets@,
                !(old(self).layout.mode is Canonical),
                0 <= k <= all.len(),
                rest@ == all.subrange(k, all.len() as int),
                targets_fit(s0, all) ==> targets_fit(s0, rest@),
                forall|i: int| 0 <= i < k ==> target_fits(s0, #[trigger] all[i]),
                dirty_marked(s0.dirty_rows(), self.store.dirty_rows(), all.take(k), now@),
                self.store.track_rows() == s0.track_rows(),
                self.store.task_rows() == s0.task_rows(),
                self.store.same_plans(&s0),
                self.store.event_rows() == s0.event_rows(),
                self.store.projection_rows() == s0.projection_rows(),
            decreases rest.len(),
        {
            let ghost before = rest@;
            let ghost d_before = self.store.dirty_rows();
            let t = rest.remove(0);
            proof {
                assert(t == before[0]);
                assert(before[0] == all[k]);
                assert(rest@ =~= all.subrange(k + 1, all.len() as int));
                if targets_fit(s0, all) {
                    assert(target_fits(s0, before[0]));
                    assert forall|i: int| 0 <= i < rest@.len() implies target_fits(
                        s0,
                        #[trigger] rest@[i],
                    ) by {
                        assert(rest@[i] == before[i + 1]);
                    }
                }
            }
            let res = self.store.record_dirty_projection_target_at(t, now);
            match res {
                Ok(d) => {
                    proof {
                        let taken = all.take(k + 1);
                        assert(taken.drop_last() =~= all.take(k));
                        assert(taken.last() == all[k]);
                        assert(crate::store::dirty_upserted(d_before, self.store.dirty_rows(), all[k], now@, d));
                        assert(dirty_marked(s0.dirty_rows(), self.store.dirty_rows(), taken, now@));
                        k = k + 1;
                    }
                },
                Err(e) => {
                    proof {
                        assert(!target_fits(s0, all[k]));
                    }
                    return Err(e);
                },
            }
        }
        proof {
            assert(all.take(k) =~= all);
            assert(targets_fit(s0, all));
        }
        Ok(())
    }
}

/// The targets marked dirty when the runtime state changes: the runtime status file, and for
/// a change on a track, the track list and the track's summary.
pub open spec fn runtime_dirty_targets(
    ts: Seq<ProjectionDirtyTargetInput>,
    track_id: Option<Seq<char>>,
    source: Option<Seq<char>>,
) -> bool {
    &&& ts.len() == (if track_id is Some {
        3int
    } else {
        1int
    })
    &&& opt_view(ts[0].track_id) == track_id
    &&& ts[0].projection_kind@ == "runtime-status"@
    &&& ts[0].target_path@ == runtime_status_path_spec()
    &&& ts[0].reason@ == "runtime-state"@
    &&& opt_view(ts[0].source_event_id) == source
    &&& track_id matches Some(t) ==> dirty_target_is(
        ts[1],
        t,
        "track-list"@,
        ".emberflow/tracks/tracks.md"@,
        "runtime-state"@,
        source,
    ) && dirty_target_is(
        ts[2],
        t,
        "track-summary"@,
        track_file_path(t, "index.md"@),
        "runtime-state"@,
        source,
    )
}

/// What marking `targets` dirty one after the other at time `now` does to the dirty table
/// `d0` (see `dirty_upserted`).
pub open spec fn dirty_marked(
    d0: Seq<ProjectionDirtyTargetRecord>,
    d1: Seq<ProjectionDirtyTargetRecord>,
    targets: Seq<ProjectionDirtyTargetInput>,
    now: Seq<char>,
) -> bool
    decreases targets.len(),
{
    if targets.len() == 0 {
        d1 == d0
    } else {
        exists|mid: Seq<ProjectionDirtyTargetRecord>, rec: ProjectionDirtyTargetRecord|
            #![trigger crate::store::dirty_upserted(mid, d1, targets.last(), now, rec)]
            dirty_marked(d0, mid, targets.drop_last(), now) && crate::store::dirty_upserted(
                mid,
                d1,
                targets.last(),
                now,
                rec,
            )
    }
}

/// A dirty target whose track and source event (where it names them) exist in the store.
pub open spec fn target_fits(store: RuntimeStore, t: ProjectionDirtyTargetInput) -> bool {
    &&& t.track_id matches Some(id) ==> has_row(store.track_rows(), id@)
    &&& t.source_event_id matches Some(id) ==> has_row(store.event_rows(), id@)
}

/// Every target fits the store.
pub open spec fn targets_fit(store: RuntimeStore, targets: Seq<ProjectionDirtyTargetInput>) -> bool {
    forall|i: int| 0 <= i < targets.len() ==> target_fits(store, #[trigger] targets[i])
}

/// The message for an event on a task that nobody holds.
pub open spec fn no_lease_message(task_id: Seq<char>) -> Seq<char> {
    "task "@ + task_id + " has no active lease, claim it first"@
}

/// The message for an event whose executor does not hold the task's lease.
pub open spec fn foreign_executor_message(task_id: Seq<char>, holder: Seq<char>) -> Seq<char> {
    "task "@ + task_id + " has a lease held by "@ + holder
        + " \u{2014} executor does not hold the lease"@
}

/// The executor an event's payload names, when it names a non-empty one.
pub open spec fn named_executor(payload: Seq<char>) -> Option<Seq<char>> {
    match json_top_level_string(payload, "executor"@) {
        Some(e) => if e.len() > 0 {
            Some(e)
        } else {
            None
        },
        None => None,
    }
}

/// Whether the lease guard lets an event on `task_id` through at `now`: the task's lease is
/// active, and an executor named in the payload is its holder.
pub open spec fn lease_guard_passes(
    tasks: Seq<crate::records::TaskRow>,
    task_id: Seq<char>,
    payload: Seq<char>,
    now: Seq<char>,
) -> bool {
    let row = row_with(tasks, task_id);
    &&& has_row(tasks, task_id)
    &&& crate::store::lease_active(row, now)
    &&& (named_executor(payload) matches Some(e) ==> e == row.lease_holder->0@)
}

fn holder_payload(holder: &str) -> (r: String)
    ensures
        r@ == json_text(JsonV::Obj(seq![("holder"@, JsonV::Str(holder@))])),
{
    let m = vec![member("holder", jstr(holder))];
    proof {
        lemma_json_view_members(m@);
        assert(json_view_members(m@) =~= seq![("holder"@, JsonV::Str(holder@))]);
    }
    to_json_text(&JsonValue::Obj(m))
}

/// What claiming a task's lease at time `now` does: the lease is refused while someone else
/// holds an active one, and a lease that would expire at once is not taken; else `holder`
/// holds it from `now` until `expires`. Projected files are only marked dirty in projected mode.
pub open spec fn claim_outcome(
    s0: EmberFlowRuntime,
    s1: EmberFlowRuntime,
    task_id: Seq<char>,
    holder: Seq<char>,
    expires: Option<Seq<char>>,
    now: Seq<char>,
    r: Result<LeaseInfo, EmberFlowError>,
) -> bool {
    let t0 = s0.store.task_rows();
    let cur = row_with(t0, task_id);
    let taken = crate::store::lease_active(cur, now) && cur.lease_holder->0@ != holder;
    let at_once = expires matches Some(x) && crate::text::seq_le(x, now);
    &&& s0.layout.mode is Canonical ==> s1.store.dirty_rows() == s0.store.dirty_rows()
    &&& s1.layout == s0.layout
    &&& r is Ok <==> has_row(t0, task_id) && !taken && !at_once
    &&& has_row(t0, task_id) && taken ==> (r matches Err(e) && is_unsupported(
        e,
        "lease_holder"@,
        "task "@ + task_id + " is already held by "@ + cur.lease_holder->0@,
    ))
    &&& !has_row(t0, task_id) || taken ==> s1.store.task_rows() == t0 && s1.store.track_rows()
        == s0.store.track_rows() && s1.store.same_plans(&s0.store) && s1.store.same_activity(
        &s0.store,
    )
    &&& r matches Ok(l) ==> l.holder@ == holder && l.acquired_at@ == now
        && opt_view(l.expires_at) == expires && crate::store::lease_written(
        t0,
        s1.store.task_rows(),
        task_id,
        Some(holder),
        Some(now),
        expires,
    )
}

/// What releasing a task's lease at time `now` does: a lease that someone else actively holds
/// is refused; `holder`'s active lease is cleared; a task without an active lease is left as
/// it is.
pub open spec fn release_outcome(
    s0: EmberFlowRuntime,
    s1: EmberFlowRuntime,
    task_id: Seq<char>,
    holder: Seq<char>,
    now: Seq<char>,
    r: Result<(), EmberFlowError>,
) -> bool {
    let t0 = s0.store.task_rows();
    let cur = row_with(t0, task_id);
    let active = crate::store::lease_active(cur, now);
    let mine = active && cur.lease_holder->0@ == holder;
    &&& s0.layout.mode is Canonical ==> s1.store.dirty_rows() == s0.store.dirty_rows()
    &&& s1.layout == s0.layout
    &&& r is Ok <==> has_row(t0, task_id) && (!active || mine)
    &&& has_row(t0, task_id) && active && !mine ==> (r matches Err(e) && is_unsupported(
        e,
        "lease_holder"@,
        holder + " is not the lease holder for task "@ + task_id + " (held by "@
            + cur.lease_holder->0@ + ")"@,
    ))
    &&& r is Ok && mine ==> crate::store::lease_written(t0, s1.store.task_rows(), task_id, None, None, None)
}

/// What creating a track does: an unknown status or a taken id is refused; a new track is
/// inserted in id order with the normalized status.
pub open spec fn create_track_outcome(
    s0: EmberFlowRuntime,
    s1: EmberFlowRuntime,
    track_id: Seq<char>,
    title: Seq<char>,
    status: Seq<char>,
    r: Result<TrackRecord, EmberFlowError>,
) -> bool {
    let st = crate::store::normalized_track_status(status);
    let known = crate::protocol::track_statuses().contains(st);
    let taken = has_row(s0.store.track_rows(), track_id);
    &&& s0.layout.mode is Canonical ==> s1.store.dirty_rows() == s0.store.dirty_rows()
    &&& s1.layout == s0.layout
    &&& !known ==> (r matches Err(e) && is_unsupported(e, "status"@, st))
    &&& known && taken ==> (r matches Err(e) && is_sqlite(
        e,
        "UNIQUE constraint failed: tracks.id"@,
    ))
    &&& r is Ok <==> known && !taken
    &&& r is Err ==> s1.store == s0.store
    &&& r matches Ok(t) ==> t.id@ == track_id && t.title@ == title && t.status@ == st
        && s1.store.track_rows() == crate::rows::insert_sorted(
        s0.store.track_rows(),
        crate::store::bare_track_row(t),
    ) && s1.store.task_rows() == s0.store.task_rows() && s1.store.same_plans(&s0.store)
}

/// What archiving a track by hand does: an unknown track is not found, and only a track in
/// review or done (or already archived) is archived.
pub open spec fn archive_outcome(
    s0: EmberFlowRuntime,
    s1: EmberFlowRuntime,
    track_id: Seq<char>,
    r: Result<TrackRecord, EmberFlowError>,
) -> bool {
    let found = has_row(s0.store.track_rows(), track_id);
    let st = row_with(s0.store.track_rows(), track_id).status@;
    let allowed = st == "review"@ || st == "done"@ || st == "archived"@;
    &&& s0.layout.mode is Canonical ==> s1.store.dirty_rows() == s0.store.dirty_rows()
    &&& s1.layout == s0.layout
    &&& !found ==> (r matches Err(e) && is_not_found(e, track_id))
    &&& found && !allowed ==> (r matches Err(e) && is_unsupported(
        e,
        "status"@,
        "manual archive requires review or done status (found "@ + st + ")"@,
    ))
    &&& r is Ok <==> found && allowed
    &&& r is Err ==> s1.store == s0.store
    &&& r matches Ok(t) ==> t.id@ == track_id && t.status@ == "archived"@ && t
        == crate::store::track_record_of(row_with(s1.store.track_rows(), track_id))
        && s1.store.task_rows() == s0.store.task_rows() && s1.store.same_plans(&s0.store)
    &&& r is Ok ==> has_row(s1.store.track_rows(), track_id) && row_with(
        s1.store.track_rows(),
        track_id,
    ).status@ == "archived"@ && s1.store.track_rows() == s0.store.track_rows().update(
        crate::store::row_index(s0.store.track_rows(), track_id),
        row_with(s1.store.track_rows(), track_id),
    )
}

/// What creating a task does: the task is created as the store creates it (see
/// `insert_task_outcome`), from the input in which a task that says how or why it runs but
/// names no executor is given the executor `assistant`.
pub open spec fn create_task_outcome(
    s0: EmberFlowRuntime,
    s1: EmberFlowRuntime,
    input: TaskInput,
    now: Seq<char>,
    r: Result<TaskRecord, EmberFlowError>,
) -> bool {
    let defaulted = input.executor is None && (input.execution is Some
        || input.intent_summary is Some);
    &&& s0.layout.mode is Canonical ==> s1.store.dirty_rows() == s0.store.dirty_rows()
    &&& s1.layout == s0.layout
    &&& exists|used: TaskInput|
        {
            &&& used.task_id == input.task_id
            &&& used.track_id == input.track_id
            &&& used.title == input.title
            &&& used.status == input.status
            &&& used.phase == input.phase
            &&& used.agent_instance_id == input.agent_instance_id
            &&& used.execution == input.execution
            &&& used.intent_summary == input.intent_summary
            &&& (defaulted ==> (used.executor matches Some(x) && x@ == "assistant"@))
            &&& (!defaulted ==> used.executor == input.executor)
            &&& #[trigger] crate::store::insert_task_outcome(s0.store, s1.store, used, None, now, r)
        }
}

/// What recording an event at time `now` does: an event on a task needs the task's active
/// lease, and an executor named in the payload must hold it; the stored event is the one given,
/// its projections are stored, and its track and task are moved on as `event_applied` says.
pub open spec fn record_event_outcome(
    s0: EmberFlowRuntime,
    s1: EmberFlowRuntime,
    event_id: Seq<char>,
    track_id: Option<Seq<char>>,
    task_id: Option<Seq<char>>,
    kind: Seq<char>,
    payload: Seq<char>,
    now: Seq<char>,
    r: Result<EventRecord, EmberFlowError>,
) -> bool {
    let tasks = s0.store.task_rows();
    let row = row_with(tasks, task_id->0);
    let active = task_id is Some && has_row(tasks, task_id->0) && crate::store::lease_active(
        row,
        now,
    );
    &&& s0.layout.mode is Canonical ==> s1.store.dirty_rows() == s0.store.dirty_rows()
    &&& s1.layout == s0.layout
    &&& task_id is Some && !active ==> (r matches Err(e) && is_unsupported(
        e,
        "taskId"@,
        no_lease_message(task_id->0),
    ))
    &&& active && named_executor(payload) is Some && named_executor(payload)->0
        != row.lease_holder->0@ ==> (r matches Err(e) && is_unsupported(
        e,
        "executor"@,
        foreign_executor_message(task_id->0, row.lease_holder->0@),
    ))
    &&& r is Ok && task_id is Some ==> lease_guard_passes(tasks, task_id->0, payload, now)
    &&& r is Ok <==> guard_passes(s0.store, task_id, payload, now) && event_accepted(
        s0.store,
        event_id,
        track_id,
        task_id,
        kind,
        payload,
        now,
    )
    &&& guard_passes(s0.store, task_id, payload, now) ==> {
        let kind_ok = crate::protocol::runtime_messages().contains(kind);
        let track_missing = track_id is Some && !has_row(s0.store.track_rows(), track_id->0);
        let task_missing = task_id is Some && !has_row(tasks, task_id->0);
        &&& !kind_ok ==> (r matches Err(e) && is_unsupported(e, "kind"@, kind))
        &&& kind_ok && track_missing ==> (r matches Err(e) && is_not_found(e, track_id->0))
        &&& kind_ok && !track_missing && task_missing ==> (r matches Err(e) && is_not_found(
            e,
            task_id->0,
        ))
        &&& kind_ok && !track_missing && !task_missing && !crate::json::json_parses(payload) ==> (
        r matches Err(e) && e matches EmberFlowError::Json(m) && m@
            == crate::json::json_error_message(payload))
        &&& kind_ok && !track_missing && !task_missing && crate::json::json_parses(payload)
            && has_row(s0.store.event_rows(), event_id) ==> (r matches Err(e) && is_sqlite(
            e,
            "UNIQUE constraint failed: events.id"@,
        ))
    }
    &&& task_id is Some && !lease_guard_passes(tasks, task_id->0, payload, now) ==> {
        &&& s1.store.track_rows() == s0.store.track_rows()
        &&& s1.store.same_plans(&s0.store)
        &&& s1.store.same_activity(&s0.store)
        &&& crate::store::lease_looked_at(tasks, s1.store.task_rows(), task_id->0, now)
    }
    &&& r matches Ok(ev) ==> {
        &&& s1.store.event_rows() == crate::rows::insert_sorted(s0.store.event_rows(), ev)
        &&& event_applied(s0.store, s1.store, ev)
        &&& projections_written(s0.store, s1.store, ev, now)
        &&& s1.store.same_plans(&s0.store)
        &&& ev.id@ == event_id
        &&& opt_view(ev.track_id) == track_id
        &&& opt_view(ev.task_id) == task_id
        &&& ev.kind@ == kind
        &&& ev.payload@ == payload
        &&& ev.created_at@ == now
    }
}

/// `ev` is the event that recording with these arguments at time `now` stores.
pub open spec fn is_event_for(
    ev: EventRecord,
    event_id: Seq<char>,
    track_id: Option<Seq<char>>,
    task_id: Option<Seq<char>>,
    kind: Seq<char>,
    payload: Seq<char>,
    now: Seq<char>,
) -> bool {
    &&& ev.id@ == event_id
    &&& opt_view(ev.track_id) == track_id
    &&& opt_view(ev.task_id) == task_id
    &&& ev.kind@ == kind
    &&& ev.payload@ == payload
    &&& ev.created_at@ == now
}

/// Whether the store accepts an event: its kind is a protocol message, the track and the
/// task it names exist, its payload parses, its id is free, and the event as it would be
/// stored has projections that fit and can be applied to the runtime state.
pub open spec fn event_accepted(
    s0: RuntimeStore,
    event_id: Seq<char>,
    track_id: Option<Seq<char>>,
    task_id: Option<Seq<char>>,
    kind: Seq<char>,
    payload: Seq<char>,
    now: Seq<char>,
) -> bool {
    &&& crate::protocol::runtime_messages().contains(kind)
    &&& track_id matches Some(t) ==> has_row(s0.track_rows(), t)
    &&& task_id matches Some(k) ==> has_row(s0.task_rows(), k)
    &&& crate::json::json_parses(payload)
    &&& !has_row(s0.event_rows(), event_id)
    &&& forall|ev: EventRecord|
        #[trigger] is_event_for(ev, event_id, track_id, task_id, kind, payload, now)
            ==> projections_fit(s0, ev) && event_applicable(s0, ev)
}

/// Two events with the same views fit the store alike.
proof fn lemma_event_views_agree(s: RuntimeStore, a: EventRecord, b: EventRecord)
    requires
        a.id@ == b.id@,
        opt_view(a.track_id) == opt_view(b.track_id),
        opt_view(a.task_id) == opt_view(b.task_id),
        a.kind@ == b.kind@,
        a.payload@ == b.payload@,
    ensures
        projections_fit(s, a) == projections_fit(s, b),
        event_applicable(s, a) == event_applicable(s, b),
{
    assert(a.track_id is Some <==> b.track_id is Some);
    assert(a.task_id is Some <==> b.task_id is Some);
    if a.track_id is Some {
        assert(a.track_id->0@ == b.track_id->0@);
    }
    if a.task_id is Some {
        assert(a.task_id->0@ == b.task_id->0@);
    }
    assert(user_projection_json(a) == user_projection_json(b));
    assert(event_task(s, a) == event_task(s, b));
    assert(event_track_next(s, a) == event_track_next(s, b));
    assert(runtime_projection_json(a, event_task(s, a), event_track_next(s, a))
        == runtime_projection_json(b, event_task(s, b), event_track_next(s, b)));
    assert(durable_track_change(s, a) == durable_track_change(s, b));
    if a.track_id is Some {
        let tr = crate::store::track_record_of(row_with(s.track_rows(), a.track_id->0@));
        assert(track_projection_json(a, tr) == track_projection_json(b, tr));
    }
}

/// Whether an event on the task named, if any, passes the lease guard.
pub open spec fn guard_passes(
    s0: RuntimeStore,
    task_id: Option<Seq<char>>,
    payload: Seq<char>,
    now: Seq<char>,
) -> bool {
    task_id matches Some(k) ==> lease_guard_passes(s0.task_rows(), k, payload, now)
}

/// What recording a runtime state does: an unknown kind is refused with the store unchanged;
/// else the result names the track, the task and the kind, kept in the canonical store, and
/// on success the track and the task exist and the event `<track>:<task>:<kind>` is stored.
pub open spec fn runtime_state_outcome(
    s0: EmberFlowRuntime,
    s1: EmberFlowRuntime,
    track_id: Seq<char>,
    task_id: Seq<char>,
    event_kind: Seq<char>,
    r: Result<RuntimeStateResult, EmberFlowError>,
) -> bool {
    &&& s0.layout.mode is Canonical ==> s1.store.dirty_rows() == s0.store.dirty_rows()
    &&& s1.layout == s0.layout
    &&& !crate::protocol::runtime_messages().contains(event_kind) ==> (r matches Err(e)
        && is_unsupported(e, "kind"@, event_kind) && s1.store == s0.store)
    &&& r matches Ok(s) ==> s.track_id@ == track_id && s.task_id@ == task_id && s.event_kind@
        == event_kind && s.store@ == "canonical"@
    &&& r is Ok ==> has_row(s1.store.track_rows(), track_id) && has_row(
        s1.store.task_rows(),
        task_id,
    ) && exists|ev: EventRecord|
        #[trigger] s1.store.event_rows().contains(ev) && ev.id@ == track_id + ":"@ + task_id + ":"@
            + event_kind && ev.kind@ == event_kind && opt_view(ev.track_id) == Some(track_id)
            && opt_view(ev.task_id) == Some(task_id)
}

/// What writing a track's metadata does: an unknown status or a blank id is refused; else the
/// track (created when missing) carries the given type, description, branch and spec
/// reference, which are returned; its status is the given one, its title is the description
/// (the id when the description is blank), an update keeps its creation time, and the other
/// tracks stay as they were.
pub open spec fn metadata_outcome(
    s0: EmberFlowRuntime,
    s1: EmberFlowRuntime,
    input: TrackMetadataInput,
    r: Result<TrackMetadataRecord, EmberFlowError>,
) -> bool {
    let st = crate::store::normalized_track_status(input.status@);
    let known = crate::protocol::track_statuses().contains(st);
    let id = input.track_id@;
    &&& s0.layout.mode is Canonical ==> s1.store.dirty_rows() == s0.store.dirty_rows()
    &&& s1.layout == s0.layout
    &&& !known ==> (r matches Err(e) && is_unsupported(e, "status"@, st))
    &&& known && is_blank_spec(id) ==> (r matches Err(e) && is_unsupported(
        e,
        "track_id"@,
        "track id must be present"@,
    ))
    &&& r is Ok <==> known && !is_blank_spec(id)
    &&& r is Err ==> s1.store == s0.store
    &&& r matches Ok(m) ==> m.track_id@ == id && m.track_type@ == input.track_type@
        && m.description@ == input.description@ && m.branch@ == input.branch@ && has_row(
        s1.store.track_rows(),
        id,
    ) && crate::store::metadata_of_row(m, row_with(s1.store.track_rows(), id)) && row_with(
        s1.store.track_rows(),
        id,
    ).title@ == crate::store::metadata_title(input) && row_with(s1.store.track_rows(), id).status@
        == st
        && s1.store.task_rows() == s0.store.task_rows() && s1.store.same_plans(&s0.store)
    &&& r matches Ok(m) ==> opt_view(m.spec_ref) == opt_view(input.spec_ref) && opt_view(
        row_with(s1.store.track_rows(), id).spec_ref,
    ) == opt_view(input.spec_ref) && opt_view(row_with(s1.store.track_rows(), id).track_type)
        == Some(input.track_type@) && opt_view(row_with(s1.store.track_rows(), id).description)
        == Some(input.description@) && opt_view(row_with(s1.store.track_rows(), id).branch)
        == Some(input.branch@)
    &&& r is Ok && has_row(s0.store.track_rows(), id) ==> row_with(
        s1.store.track_rows(),
        id,
    ).created_at@ == row_with(s0.store.track_rows(), id).created_at@
    &&& r is Ok && has_row(s0.store.track_rows(), id) ==> s1.store.track_rows()
        == s0.store.track_rows().update(
        crate::store::row_index(s0.store.track_rows(), id),
        row_with(s1.store.track_rows(), id),
    )
    &&& r is Ok && !has_row(s0.store.track_rows(), id) ==> s1.store.track_rows()
        == crate::rows::insert_sorted(s0.store.track_rows(), row_with(s1.store.track_rows(), id))
}

/// What replacing a track's brief at time `now` does: an unknown track is not found, a blank
/// section key or a section id in use elsewhere is refused; else the track's sections are the
/// given ones, the other tracks' sections stay, and the brief returned lists them.
pub open spec fn brief_outcome(
    s0: EmberFlowRuntime,
    s1: EmberFlowRuntime,
    track_id: Seq<char>,
    sections: Seq<TrackBriefSectionInput>,
    now: Seq<char>,
    r: Result<TrackBriefRecord, EmberFlowError>,
) -> bool {
    let found = has_row(s0.store.track_rows(), track_id);
    let blank = crate::store::has_blank_section_key(sections);
    let collide = crate::store::brief_ids_collide(s0.store.section_rows(), track_id, sections);
    let old_rows = s0.store.section_rows();
    let new_rows = s1.store.section_rows();
    &&& s0.layout.mode is Canonical ==> s1.store.dirty_rows() == s0.store.dirty_rows()
    &&& s1.layout == s0.layout
    &&& !found ==> (r matches Err(e) && is_not_found(e, track_id))
    &&& found && blank ==> (r matches Err(e) && is_unsupported(
        e,
        "section_key"@,
        "section key must be present"@,
    ))
    &&& found && !blank && collide ==> (r matches Err(e) && is_sqlite(
        e,
        "UNIQUE constraint failed: track_brief_sections.id"@,
    ))
    &&& r is Ok <==> found && !blank && !collide
    &&& r is Err ==> s1.store == s0.store
    &&& r matches Ok(b) ==> {
        &&& b.track_id@ == track_id
        &&& b.sections@ == new_rows.filter(|x: crate::records::SectionRow| x.track_id@ == track_id).map_values(
            |x: crate::records::SectionRow| crate::store::section_record_of(x),
        )
        &&& forall|x: crate::records::SectionRow| #[trigger]
            new_rows.contains(x) ==> ((old_rows.contains(x) && x.track_id@ != track_id)
                || crate::store::section_row_for(x, track_id, sections, now))
        &&& forall|x: crate::records::SectionRow|
            #[trigger] old_rows.contains(x) && x.track_id@ != track_id ==> new_rows.contains(x)
        &&& crate::store::sections_stored(new_rows, track_id, sections, now)
        &&& s1.store.track_rows() == s0.store.track_rows()
        &&& s1.store.task_rows() == s0.store.task_rows()
        &&& s1.store.phase_rows() == s0.store.phase_rows()
        &&& s1.store.item_rows() == s0.store.item_rows()
    }
}

/// What replacing a track's plan at time `now` does: an unknown track is not found, a phase
/// without id or an item without stable placement is refused, as is an id in use elsewhere;
/// else the track's phases and items are the given ones, the other tracks' stay, and the plan
/// returned lists them.
pub open spec fn plan_outcome(
    s0: EmberFlowRuntime,
    s1: EmberFlowRuntime,
    track_id: Seq<char>,
    phases: Seq<TrackPlanPhaseInput>,
    now: Seq<char>,
    r: Result<TrackPlanRecord, EmberFlowError>,
) -> bool {
    let found = has_row(s0.store.track_rows(), track_id);
    let problem = crate::store::plan_problem(phases);
    let pc = crate::store::plan_phase_ids_collide(s0.store.phase_rows(), track_id, phases);
    let ic = crate::store::plan_item_ids_collide(s0.store.item_rows(), track_id, phases);
    let p0 = s0.store.phase_rows();
    let p1 = s1.store.phase_rows();
    let i0 = s0.store.item_rows();
    let i1 = s1.store.item_rows();
    &&& s0.layout.mode is Canonical ==> s1.store.dirty_rows() == s0.store.dirty_rows()
    &&& s1.layout == s0.layout
    &&& !found ==> (r matches Err(e) && is_not_found(e, track_id))
    &&& found && problem == Some(true) ==> (r matches Err(e) && is_unsupported(
        e,
        "phase_id"@,
        "phase id must be present"@,
    ))
    &&& found && problem == Some(false) ==> (r matches Err(e) && is_unsupported(
        e,
        "item"@,
        "stable placement requires a phase item id and position"@,
    ))
    &&& found && problem is None && (pc || ic) ==> (r matches Err(e) && (!ic ==> is_sqlite(
        e,
        "UNIQUE constraint failed: track_plan_phases.id"@,
    )) && (!pc ==> is_sqlite(e, "UNIQUE constraint failed: track_plan_items.id"@)) && (is_sqlite(
        e,
        "UNIQUE constraint failed: track_plan_phases.id"@,
    ) || is_sqlite(e, "UNIQUE constraint failed: track_plan_items.id"@)))
    &&& r is Ok <==> found && problem is None && !pc && !ic
    &&& r is Err ==> s1.store == s0.store
    &&& r matches Ok(p) ==> {
        &&& p.track_id@ == track_id
        &&& crate::store::plan_of_rows(p, track_id, p1, i1)
        &&& forall|x: crate::records::PhaseRow| #[trigger]
            p1.contains(x) ==> ((p0.contains(x) && x.track_id@ != track_id)
                || crate::store::phase_row_for(x, track_id, phases, now))
        &&& forall|x: crate::records::PhaseRow| #[trigger] p0.contains(x) && x.track_id@ != track_id ==> p1.contains(x)
        &&& forall|x: crate::records::TrackPlanItemRecord| #[trigger]
            i1.contains(x) ==> ((i0.contains(x) && x.track_id@ != track_id)
                || crate::store::item_row_for(x, track_id, phases, now))
        &&& forall|x: crate::records::TrackPlanItemRecord|
            #[trigger] i0.contains(x) && x.track_id@ != track_id ==> i1.contains(x)
        &&& crate::store::plan_stored(p1, i1, track_id, phases, now)
        &&& s1.store.track_rows() == s0.store.track_rows()
        &&& s1.store.task_rows() == s0.store.task_rows()
        &&& s1.store.section_rows() == s0.store.section_rows()
    }
}

/// What deleting a track does: an unknown track is not found and nothing changes; else the
/// deleted track's record is returned and the track is gone with everything that goes with it
/// (see `track_deleted`).
pub open spec fn delete_outcome(
    s0: EmberFlowRuntime,
    s1: EmberFlowRuntime,
    track_id: Seq<char>,
    r: Result<TrackRecord, EmberFlowError>,
) -> bool {
    &&& s1.layout == s0.layout
    &&& r is Ok <==> has_row(s0.store.track_rows(), track_id)
    &&& r matches Err(e) ==> is_not_found(e, track_id) && s1.store == s0.store
    &&& r matches Ok(t) ==> crate::store::track_deleted(s0.store, s1.store, track_id, t)
        && !has_row(s1.store.track_rows(), track_id)
}

impl EmberFlowRuntime {
    /// Creates a track at time `now` and marks its projected files dirty.
    pub fn create_track_at(&mut self, track_id: &str, title: &str, status: &str, now: &str) -> (r:
        Result<TrackRecord, EmberFlowError>)
        requires
            old(self).store.wf(),
        ensures
            final(self).store.wf(),
            create_track_outcome(*old(self), *final(self), track_id@, title@, status@, r),
    {
        let track = self.store.create_track_at(track_id, title, status, now)?;
        proof {
            crate::rows::lemma_insert_sorted_keys(
                old(self).store.track_rows(),
                crate::store::bare_track_row(track),
            );
        }
        let targets = self.track_metadata_dirty_targets(track_id, "track-created", None);
        proof {
            assert(target_fits(self.store, targets@[0]));
        }
        self.mark_dirty(targets, now)?;
        let targets = self.track_summary_dirty_targets(track_id, "track-created", None);
        proof {
            assert(target_fits(self.store, targets@[0]));
            assert(target_fits(self.store, targets@[1]));
        }
        self.mark_dirty(targets, now)?;
        Ok(track)
    }

    /// Creates a track, stamped with the current time.
    pub fn create_track(&mut self, track_id: &str, title: &str, status: &str) -> (r: Result<
        TrackRecord,
        EmberFlowError,
    >)
        requires
            old(self).store.wf(),
        ensures
            final(self).store.wf(),
            (r matches Err(e) && e is Sqlite && *final(self) == *old(self)) || create_track_outcome(
                *old(self),
                *final(self),
                track_id@,
                title@,
                status@,
                r,
            ),
            !crate::protocol::track_statuses().contains(
                crate::store::normalized_track_status(status@),
            ) ==> (r matches Err(e) && is_unsupported(
                e,
                "status"@,
                crate::store::normalized_track_status(status@),
            ) && *final(self) == *old(self)),
    {
        crate::store::check_track_status(status)?;
        let now = current_timestamp()?;
        self.create_track_at(track_id, title, status, now.as_str())
    }

    /// Archives a track by hand; only a track in review or done (or already archived) can be.
    pub fn archive_track_at(&mut self, track_id: &str, now: &str) -> (r: Result<
        TrackRecord,
        EmberFlowError,
    >)
        requires
            old(self).store.wf(),
        ensures
            final(self).store.wf(),
            archive_outcome(*old(self), *final(self), track_id@, r),
    {
        let track = self.store.get_track(track_id)?;
        let st = track.status.as_str();
        if str_eq(st, "review") || str_eq(st, "done") || str_eq(st, "archived") {
            proof {
                reveal_strlit("archived");
                reveal_strlit("done");
                assert(crate::protocol::track_statuses()[5] == "archived"@);
            }
            let t = self.store.update_track_status_at(track_id, "archived", now)?;
            proof {
                let t0 = old(self).store.track_rows();
                let k = crate::store::row_index(t0, track_id@);
                assert(self.store.track_rows()[k].id@ == track_id@);
                assert(has_row(self.store.track_rows(), track_id@));
            }
            let targets = self.track_metadata_dirty_targets(track_id, "track-archived", None);
            proof {
                assert(target_fits(self.store, targets@[0]));
            }
            self.mark_dirty(targets, now)?;
            let targets = self.track_summary_dirty_targets(track_id, "track-archived", None);
            proof {
                assert(target_fits(self.store, targets@[0]));
                assert(target_fits(self.store, targets@[1]));
            }
            self.mark_dirty(targets, now)?;
            Ok(t)
        } else {
            let msg = cat3("manual archive requires review or done status (found ", st, ")");
            Err(unsupported("status", msg.as_str()))
        }
    }

    /// Archives a track by hand, stamped with the current time.
    pub fn archive_track(&mut self, track_id: &str) -> (r: Result<TrackRecord, EmberFlowError>)
        requires
            old(self).store.wf(),
        ensures
            final(self).store.wf(),
            (r matches Err(e) && e is Sqlite && *final(self) == *old(self)) || archive_outcome(
                *old(self),
                *final(self),
                track_id@,
                r,
            ),
    {
        let now = current_timestamp()?;
        self.archive_track_at(track_id, now.as_str())
    }

    /// Deletes a track with everything that hangs off it (see `RuntimeStore::delete_track`).
    pub fn delete_track(&mut self, track_id: &str) -> (r: Result<TrackRecord, EmberFlowError>)
        requires
            old(self).store.wf(),
        ensures
            final(self).store.wf(),
            delete_outcome(*old(self), *final(self), track_id@, r),
    {
        let r = self.store.delete_track(track_id);
        proof {
            if r is Ok {
                broadcast use vstd::seq_lib::group_filter_ensures;
                let t = self.store.track_rows();
                assert forall|i: int| 0 <= i < t.len() implies (#[trigger] t[i]).id@ != track_id@ by {
                    assert(t.contains(t[i]));
                }
            }
        }
        r
    }

    /// The track with the given id.
    pub fn read_track(&self, track_id: &str) -> (r: Result<TrackRecord, EmberFlowError>)
        requires
            self.store.wf(),
        ensures
            r is Ok <==> has_row(self.store.track_rows(), track_id@),
            r matches Ok(t) ==> t == crate::store::track_record_of(
                row_with(self.store.track_rows(), track_id@),
            ),
            r matches Err(e) ==> is_not_found(e, track_id@),
    {
        self.store.get_track(track_id)
    }

    /// Creates a task at time `now`; a task that says how or why it runs but names no executor
    /// is given the executor `assistant`.
    pub fn create_task_at(&mut self, input: TaskInput, now: &str) -> (r: Result<
        TaskRecord,
        EmberFlowError,
    >)
        requires
            old(self).store.wf(),
        ensures
            final(self).store.wf(),
            create_task_outcome(*old(self), *final(self), input, now@, r),
    {
        let mut used = input;
        if used.executor.is_none() && (used.execution.is_some() || used.intent_summary.is_some()) {
            used.executor = Some(owned("assistant"));
        }
        let ghost used0 = used;
        let r = self.store.create_task_at(used, now);
        proof {
            assert(crate::store::insert_task_outcome(
                old(self).store,
                self.store,
                used0,
                None,
                now@,
                r,
            ));
        }
        r
    }

    /// Creates a task, stamped with the current time.
    pub fn create_task(&mut self, input: TaskInput) -> (r: Result<TaskRecord, EmberFlowError>)
        requires
            old(self).store.wf(),
        ensures
            final(self).store.wf(),
            (r matches Err(e) && e is Sqlite && *final(self) == *old(self)) || exists|now: Seq<char>|
                #[trigger] create_task_outcome(*old(self), *final(self), input, now, r),
            !crate::protocol::task_statuses().contains(input.status@) ==> (r matches Err(e)
                && is_unsupported(e, "status"@, input.status@) && *final(self) == *old(self)),
            crate::protocol::task_statuses().contains(input.status@)
                && !crate::protocol::phases().contains(input.phase@) ==> (r matches Err(e)
                && is_unsupported(e, "phase"@, input.phase@) && *final(self) == *old(self)),
    {
        let ghost input0 = input;
        let mut used = input;
        if used.executor.is_none() && (used.execution.is_some() || used.intent_summary.is_some()) {
            used.executor = Some(owned("assistant"));
        }
        let ghost used0 = used;
        let checked = match crate::protocol::validate_task_status(used.status.as_str()) {
            Ok(()) => crate::protocol::validate_phase(used.phase.as_str()),
            Err(e) => Err(e),
        };
        if let Err(e) = checked {
            let r = Err(e);
            proof {
                assert(crate::store::insert_task_outcome(
                    old(self).store,
                    self.store,
                    used0,
                    None,
                    Seq::<char>::empty(),
                    r,
                ));
                assert(create_task_outcome(*old(self), *self, input0, Seq::<char>::empty(), r));
            }
            return r;
        }
        let now = current_timestamp()?;
        let r = self.create_task_at(used, now.as_str());
        proof {
            let u2 = choose|u: TaskInput|
                {
                    &&& u.task_id == used0.task_id
                    &&& u.track_id == used0.track_id
                    &&& u.title == used0.title
                    &&& u.status == used0.status
                    &&& u.phase == used0.phase
                    &&& u.agent_instance_id == used0.agent_instance_id
                    &&& u.execution == used0.execution
                    &&& u.intent_summary == used0.intent_summary
                    &&& (used0.executor is None && (used0.execution is Some
                        || used0.intent_summary is Some) ==> (u.executor matches Some(x) && x@
                        == "assistant"@))
                    &&& (!(used0.executor is None && (used0.execution is Some
                        || used0.intent_summary is Some)) ==> u.executor == used0.executor)
                    &&& #[trigger] crate::store::insert_task_outcome(
                        old(self).store,
                        self.store,
                        u,
                        None,
                        now@,
                        r,
                    )
                };
            reveal_strlit("assistant");
            assert(create_task_outcome(*old(self), *self, input0, now@, r));
        }
        r
    }

    /// Gives `holder` the lease of a task (see `RuntimeStore::claim_task_at`) and records a
    /// `claim` event `<task>:claim:<holder>` for it when that id is still free.
    pub fn claim_task_at(
        &mut self,
        task_id: &str,
        holder: &str,
        expires_at: Option<&str>,
        now: &str,
    ) -> (r: Result<LeaseInfo, EmberFlowError>)
        requires
            old(self).store.wf(),
        ensures
            final(self).store.wf(),
            claim_outcome(
                *old(self),
                *final(self),
                task_id@,
                holder@,
                crate::text::opt_str_view(expires_at),
                now@,
                r,
            ),
    {
        let lease = self.store.claim_task_at(task_id, holder, expires_at, now)?;
        let event_id = cat3(task_id, ":claim:", holder);
        let payload = holder_payload(holder);
        let ghost tasks = self.store.task_rows();
        let _ = self.store.record_event_at(
            event_id.as_str(),
            None,
            Some(task_id),
            "claim",
            payload.as_str(),
            now,
        );
        Ok(lease)
    }

    /// Gives `holder` the lease of a task, for `duration_secs` seconds when given.
    pub fn claim_task(&mut self, task_id: &str, holder: &str, duration_secs: Option<u64>) -> (r:
        Result<LeaseInfo, EmberFlowError>)
        requires
            old(self).store.wf(),
        ensures
            final(self).store.wf(),
            r matches Ok(l) ==> l.holder@ == holder@,
            r matches Ok(l) ==> match duration_secs {
                Some(secs) => l.expires_at matches Some(e) && crate::clock::datetime_seconds(e@)
                    == crate::clock::datetime_seconds(l.acquired_at@) + secs,
                None => l.expires_at is None,
            },
            (r matches Err(e) && e is Sqlite && *final(self) == *old(self)) || exists|
                now: Seq<char>,
                expires: Option<Seq<char>>,
            |
                (expires is Some <==> duration_secs is Some) && #[trigger] claim_outcome(
                    *old(self),
                    *final(self),
                    task_id@,
                    holder@,
                    expires,
                    now,
                    r,
                ),
    {
        let (now, expires) = match duration_secs {
            Some(secs) => {
                let (start, later) = crate::clock::timestamps_for_duration(secs)?;
                (start, Some(later))
            },
            None => (current_timestamp()?, None),
        };
        let expires_ref: Option<&str> = match &expires {
            Some(x) => Some(x.as_str()),
            None => None,
        };
        let r = self.claim_task_at(task_id, holder, expires_ref, now.as_str());
        proof {
            assert(claim_outcome(
                *old(self),
                *self,
                task_id@,
                holder@,
                crate::text::opt_str_view(expires_ref),
                now@,
                r,
            ));
        }
        r
    }

    /// Gives up `holder`'s lease on a task (see `RuntimeStore::release_task_at`) and records a
    /// `release` event `<task>:release:<holder>` when that id is still free.
    pub fn release_task_at(&mut self, task_id: &str, holder: &str, now: &str) -> (r: Result<
        (),
        EmberFlowError,
    >)
        requires
            old(self).store.wf(),
        ensures
            final(self).store.wf(),
            release_outcome(*old(self), *final(self), task_id@, holder@, now@, r),
    {
        self.store.release_task_at(task_id, holder, now)?;
        let ghost tasks = self.store.task_rows();
        let event_id = cat3(task_id, ":release:", holder);
        let payload = holder_payload(holder);
        let _ = self.store.record_event_at(
            event_id.as_str(),
            None,
            Some(task_id),
            "release",
            payload.as_str(),
            now,
        );
        Ok(())
    }

    /// Gives up `holder`'s lease on a task.
    pub fn release_task(&mut self, task_id: &str, holder: &str) -> (r: Result<(), EmberFlowError>)
        requires
            old(self).store.wf(),
        ensures
            final(self).store.wf(),
            (r matches Err(e) && e is Sqlite && *final(self) == *old(self)) || exists|now: Seq<char>|
                #[trigger] release_outcome(*old(self), *final(self), task_id@, holder@, now, r),
    {
        let now = current_timestamp()?;
        let r = self.release_task_at(task_id, holder, now.as_str());
        proof {
            assert(release_outcome(*old(self), *self, task_id@, holder@, now@, r));
        }
        r
    }
}


/// What the runtime status says a task is doing when no event says it: its intent summary,
/// else its title, else `update`.
pub open spec fn task_details(task: Option<TaskRecord>) -> Seq<char> {
    match task {
        Some(t) => match t.intent_summary {
            Some(s) => s@,
            None => t.title@,
        },
        None => "update"@,
    }
}

/// The details of the runtime status: what the latest event says it is about, else what the
/// task is doing.
pub open spec fn runtime_details_spec(event: Option<EventRecord>, task: Option<TaskRecord>) -> Seq<
    char,
> {
    match event {
        Some(e) => match crate::projections::payload_details(e.payload@) {
            Some(d) => d,
            None => task_details(task),
        },
        None => task_details(task),
    }
}

/// The intent summary an event names, else the task's.
pub open spec fn event_intent_summary(event: EventRecord, task: Option<TaskRecord>) -> Option<
    Seq<char>,
> {
    first_some(
        json_top_level_string(event.payload@, "intent_summary"@),
        match task {
            Some(t) => opt_view(t.intent_summary),
            None => None,
        },
    )
}

/// The task a reference points to, if any.
pub open spec fn opt_task(o: Option<&TaskRecord>) -> Option<TaskRecord> {
    match o {
        Some(t) => Some(*t),
        None => None,
    }
}

/// The event a reference points to, if any.
pub open spec fn opt_event(o: Option<&EventRecord>) -> Option<EventRecord> {
    match o {
        Some(e) => Some(*e),
        None => None,
    }
}

/// The status a track takes from an event: the one the event kind sets (see `track_change`),
/// normalized as a status update normalizes it, unless it is already the track's status.
pub open spec fn track_status_after_event(kind: Seq<char>, current: Seq<char>) -> Seq<char> {
    let s = crate::projections::track_change(kind, current).0;
    if s == current {
        current
    } else {
        crate::store::normalized_track_status(s)
    }
}

/// The task row an event leaves behind, given the row before: status and phase per
/// `task_state_spec`; the executor, agent instance, execution and intent summary that the
/// payload names, else the task's own; the event's track, else the task's; all else kept.
pub open spec fn task_after_event(
    ev: EventRecord,
    cur: crate::records::TaskRow,
    row: crate::records::TaskRow,
) -> bool {
    let p = ev.payload@;
    let state = task_state_spec(ev.kind@, p, crate::store::task_record_of(cur));
    &&& row.id@ == cur.id@
    &&& row.status@ == state.0
    &&& row.phase@ == state.1
    &&& opt_view(row.executor) == first_some(payload_executor(p), opt_view(cur.executor))
    &&& opt_view(row.agent_instance_id) == first_some(
        json_top_level_string(p, "agent_instance_id"@),
        opt_view(cur.agent_instance_id),
    )
    &&& opt_view(row.execution) == first_some(
        json_top_level_string(p, "execution"@),
        opt_view(cur.execution),
    )
    &&& opt_view(row.intent_summary) == first_some(
        json_top_level_string(p, "intent_summary"@),
        opt_view(cur.intent_summary),
    )
    &&& opt_view(row.track_id) == first_some(opt_view(ev.track_id), opt_view(cur.track_id))
    &&& row.title == cur.title
    &&& row.plan_item_id == cur.plan_item_id
    &&& row.created_at == cur.created_at
    &&& row.lease_holder == cur.lease_holder
    &&& row.lease_acquired_at == cur.lease_acquired_at
    &&& row.lease_expires_at == cur.lease_expires_at
}

/// Whether an event can be applied to the runtime state: its track and its task exist, and
/// the status and phase it gives the task are known ones, on a track that exists (the event's
/// track, else the task's).
pub open spec fn event_applicable(store: RuntimeStore, ev: EventRecord) -> bool {
    let tracks = store.track_rows();
    let tasks = store.task_rows();
    &&& ev.track_id matches Some(t) ==> has_row(tracks, t@)
    &&& ev.task_id matches Some(k) ==> {
        let cur = crate::store::task_record_of(row_with(tasks, k@));
        let state = task_state_spec(ev.kind@, ev.payload@, cur);
        &&& has_row(tasks, k@)
        &&& crate::protocol::task_statuses().contains(state.0)
        &&& crate::protocol::phases().contains(state.1)
        &&& first_some(opt_view(ev.track_id), opt_view(cur.track_id)) matches Some(x) ==> has_row(
            tracks,
            x,
        )
    }
}

/// What an applied event did to the runtime state: its track has the status the event sets,
/// and its task is as `task_after_event` says.
pub open spec fn event_applied(s0: RuntimeStore, s1: RuntimeStore, ev: EventRecord) -> bool {
    &&& ev.track_id matches Some(t) ==> has_row(s1.track_rows(), t@) && row_with(
        s1.track_rows(),
        t@,
    ).status@ == track_status_after_event(ev.kind@, row_with(s0.track_rows(), t@).status@)
    &&& ev.task_id matches Some(t) ==> has_row(s1.task_rows(), t@) && task_after_event(
        ev,
        row_with(s0.task_rows(), t@),
        row_with(s1.task_rows(), t@),
    )
}

/// What a user reads of an event, as its `user` projection stores it.
pub open spec fn user_projection_json(ev: EventRecord) -> JsonV {
    let summary = crate::projections::user_summary(ev.kind@, ev.payload@);
    JsonV::Obj(
        seq![
            ("event_id"@, JsonV::Str(ev.id@)),
            ("kind"@, JsonV::Str(ev.kind@)),
            ("format"@, JsonV::Str("plain-text"@)),
            ("summary"@, JsonV::Str(summary)),
            ("line"@, JsonV::Str(summary)),
        ],
    )
}

/// The runtime status line an event leads to, as its `runtime` projection stores it; `task`
/// is the event's task and `next` the next step of its track.
pub open spec fn runtime_projection_json(
    ev: EventRecord,
    task: Option<TaskRecord>,
    next: Option<Seq<char>>,
) -> JsonV {
    let task_phase = match task {
        Some(t) => Some(t.phase@),
        None => None,
    };
    let task_status = match task {
        Some(t) => Some(t.status@),
        None => None,
    };
    let phase = crate::projections::runtime_field(
        ev.payload@,
        "phase"@,
        ev.kind@,
        task_phase,
        crate::projections::default_phase_spec(ev.kind@),
    );
    let status = crate::projections::runtime_field(
        ev.payload@,
        "status"@,
        ev.kind@,
        task_status,
        crate::projections::default_status_spec(ev.kind@),
    );
    let details = crate::projections::details_spec(ev.payload@);
    JsonV::Obj(
        seq![
            ("event_id"@, JsonV::Str(ev.id@)),
            ("kind"@, JsonV::Str(ev.kind@)),
            ("task_id"@, jopt_spec(opt_view(ev.task_id))),
            ("target_path"@, JsonV::Str(runtime_status_path_spec())),
            ("line_format"@, JsonV::Str("phase: ... | status: ... | details: ..."@)),
            ("line"@, JsonV::Str(crate::projections::runtime_line(phase, status, details))),
            ("status"@, JsonV::Str(status)),
            ("phase"@, JsonV::Str(phase)),
            ("details"@, JsonV::Str(details)),
            ("executor"@, jopt_spec(
                match task {
                    Some(t) => opt_view(t.executor),
                    None => None,
                },
            )),
            ("execution"@, jopt_spec(
                match task {
                    Some(t) => opt_view(t.execution),
                    None => None,
                },
            )),
            ("intent_summary"@, jopt_spec(event_intent_summary(ev, task))),
            ("next"@, jopt_spec(next)),
        ],
    )
}

/// The durable change an event makes to its track, as its `track` projection stores it.
pub open spec fn track_projection_json(ev: EventRecord, track: TrackRecord) -> JsonV {
    let change = crate::projections::track_change(ev.kind@, track.status@);
    JsonV::Obj(
        seq![
            ("event_id"@, JsonV::Str(ev.id@)),
            ("track_id"@, JsonV::Str(track.id@)),
            ("kind"@, JsonV::Str(ev.kind@)),
            ("summary"@, JsonV::Str(crate::projections::details_spec(ev.payload@))),
            ("durable_change"@, JsonV::Str(change.1)),
            ("status"@, jopt_spec(Some(change.0))),
        ],
    )
}

/// A stored projection of an event: its id is `<event>:<kind>` and its payload the JSON text
/// of `payload`.
pub open spec fn projection_row_is(
    p: crate::records::ProjectionRecord,
    event_id: Seq<char>,
    kind: Seq<char>,
    target: Option<Seq<char>>,
    payload: JsonV,
    now: Seq<char>,
) -> bool {
    &&& p.id@ == event_id + ":"@ + kind
    &&& p.event_id@ == event_id
    &&& p.projection_kind@ == kind
    &&& opt_view(p.target_path) == target
    &&& p.payload@ == crate::json::json_text(payload)
    &&& p.created_at@ == now
}

/// The task an event names, as the store holds it.
pub open spec fn event_task(store: RuntimeStore, ev: EventRecord) -> Option<TaskRecord> {
    match ev.task_id {
        Some(t) => Some(crate::store::task_record_of(row_with(store.task_rows(), t@))),
        None => None,
    }
}

/// The next step of the track an event names, as its runtime projection shows it.
pub open spec fn event_track_next(store: RuntimeStore, ev: EventRecord) -> Option<Seq<char>> {
    match ev.track_id {
        Some(t) => if t@.len() == 0 {
            None
        } else {
            first_some(event_next_step(ev.payload@), brief_next(store, t@))
        },
        None => None,
    }
}

/// Whether an event changes its track durably (a status change that is stored as a projection).
pub open spec fn durable_track_change(store: RuntimeStore, ev: EventRecord) -> bool {
    ev.track_id matches Some(t) && crate::projections::track_change(
        ev.kind@,
        row_with(store.track_rows(), t@).status@,
    ).1 != "none"@
}

/// Whether an event's projections can be stored: the event is stored and its projections
/// fit (see `projections_fit`).
pub open spec fn projections_storable(s0: RuntimeStore, ev: EventRecord) -> bool {
    has_row(s0.event_rows(), ev.id@) && projections_fit(s0, ev)
}

/// Whether an event's projections fit the store: its task and track exist where it names
/// them, and the projections' ids are free.
pub open spec fn projections_fit(s0: RuntimeStore, ev: EventRecord) -> bool {
    let proj = s0.projection_rows();
    &&& !has_row(proj, ev.id@ + ":"@ + "user"@)
    &&& ev.task_id matches Some(t) ==> has_row(s0.task_rows(), t@)
    &&& !has_row(proj, ev.id@ + ":"@ + "runtime"@)
    &&& ev.track_id matches Some(t) ==> has_row(s0.track_rows(), t@)
    &&& durable_track_change(s0, ev) ==> !has_row(proj, ev.id@ + ":"@ + "track"@)
}

/// The projections stored for an event: its `user` and `runtime` projections and, when it
/// changes its track durably, its `track` projection, each inserted in order.
pub open spec fn projections_written(s0: RuntimeStore, s1: RuntimeStore, ev: EventRecord, now: Seq<char>) -> bool {
    exists|pu: crate::records::ProjectionRecord, pr: crate::records::ProjectionRecord|
        #![trigger crate::rows::insert_sorted(crate::rows::insert_sorted(s0.projection_rows(), pu), pr)]
        {
            let both = crate::rows::insert_sorted(
                crate::rows::insert_sorted(s0.projection_rows(), pu),
                pr,
            );
            &&& projection_row_is(pu, ev.id@, "user"@, None, user_projection_json(ev), now)
            &&& projection_row_is(
                pr,
                ev.id@,
                "runtime"@,
                Some(runtime_status_path_spec()),
                runtime_projection_json(ev, event_task(s0, ev), event_track_next(s0, ev)),
                now,
            )
            &&& !durable_track_change(s0, ev) ==> s1.projection_rows() == both
            &&& durable_track_change(s0, ev) ==> exists|pt: crate::records::ProjectionRecord|
                #![trigger crate::rows::insert_sorted(both, pt)]
                {
                    &&& projection_row_is(
                        pt,
                        ev.id@,
                        "track"@,
                        None,
                        track_projection_json(
                            ev,
                            crate::store::track_record_of(
                                row_with(s0.track_rows(), ev.track_id->0@),
                            ),
                        ),
                        now,
                    )
                    &&& s1.projection_rows() == crate::rows::insert_sorted(both, pt)
                }
        }
}

fn payload_text(payload: &str, key: &str) -> (r: Option<String>)
    ensures
        opt_view(r) == json_top_level_string(payload@, key@),
{
    json_text_get_str(payload, key)
}

impl EmberFlowRuntime {
    /// The status and phase a task takes from an event: `assign` queues it (in the payload's
    /// phase, else its own), `ack` runs it in planning, `progress` takes the payload's status
    /// and phase (else keeps its own), `blocker` blocks it, `handoff` sends it to review and
    /// `close` finishes it (both in the payload's phase, else verifying); other kinds keep both.
    pub fn task_state_for_event(&self, kind: &str, payload: &str, current_task: &TaskRecord) -> (r:
        (String, String))
        ensures
            (r.0@, r.1@) == task_state_spec(kind@, payload@, *current_task),
    {
        let phase = payload_text(payload, "phase");
        if str_eq(kind, "assign") {
            (owned("queued"), or_else(phase, current_task.phase.as_str()))
        } else if str_eq(kind, "ack") {
            (owned("running"), owned("planning"))
        } else if str_eq(kind, "progress") {
            let status = payload_text(payload, "status");
            (or_else(status, current_task.status.as_str()), or_else(phase, current_task.phase.as_str()))
        } else if str_eq(kind, "blocker") {
            (owned("blocked"), or_else(phase, current_task.phase.as_str()))
        } else if str_eq(kind, "handoff") {
            (owned("awaiting-review"), or_else(phase, "verifying"))
        } else if str_eq(kind, "close") {
            (owned("done"), or_else(phase, "verifying"))
        } else {
            (current_task.status.clone(), current_task.phase.clone())
        }
    }

    /// The executor an event's payload names: `executor`, else `agent`.
    pub fn executor_from_payload(&self, payload: &str) -> (r: Option<String>)
        ensures
            opt_view(r) == payload_executor(payload@),
    {
        match payload_text(payload, "executor") {
            Some(e) => Some(e),
            None => payload_text(payload, "agent"),
        }
    }

    /// The intent summary an event names, else the task's.
    pub fn intent_summary_for_event(&self, event: &EventRecord, task: Option<&TaskRecord>) -> (r:
        Option<String>)
        ensures
            opt_view(r) == event_intent_summary(*event, opt_task(task)),
    {
        match payload_text(event.payload.as_str(), "intent_summary") {
            Some(s) => Some(s),
            None => match task {
                Some(t) => opt_copy(&t.intent_summary),
                None => None,
            },
        }
    }

    fn task_details_exec(&self, task: Option<&TaskRecord>) -> (r: String)
        ensures
            r@ == task_details(opt_task(task)),
    {
        match task {
            Some(t) => match &t.intent_summary {
                Some(s) => s.clone(),
                None => t.title.clone(),
            },
            None => owned("update"),
        }
    }

    /// The details of the runtime status: what the latest event says it is about, else what
    /// the task is doing.
    pub fn runtime_details_for_state(&self, event: Option<&EventRecord>, task: Option<&TaskRecord>) -> (r:
        String)
        ensures
            r@ == runtime_details_spec(
                opt_event(event),
                opt_task(task),
            ),
    {
        match event {
            Some(e) => match self.engine.found_details(e.payload.as_str()) {
                Some(d) => d,
                None => self.task_details_exec(task),
            },
            None => self.task_details_exec(task),
        }
    }

    /// The next step written in the track's brief, if the track exists and has one.
    #[verifier::loop_isolation(false)]
    pub fn track_next_step(&self, track_id: &str) -> (r: Result<Option<String>, EmberFlowError>)
        requires
            self.store.wf(),
        ensures
            r matches Ok(o) && opt_view(o) == brief_next(self.store, track_id@),
    {
        match self.store.get_track_brief(track_id) {
            Ok(brief) => {
                let ghost secs = brief.sections@;
                let mut i: usize = 0;
                proof {
                    assert(secs.skip(0) =~= secs);
                }
                while i < brief.sections.len()
                    invariant
                        i <= secs.len(),
                        secs == brief.sections@,
                        brief_next_step(secs.skip(i as int)) == brief_next_step(secs),
                    decreases secs.len() - i,
                {
                    proof {
                        assert(secs.skip(i as int).drop_first() =~= secs.skip(i + 1));
                        assert(secs.skip(i as int)[0] == secs[i as int]);
                    }
                    if str_eq(brief.sections[i].section_key.as_str(), "next_step") {
                        return Ok(Some(brief.sections[i].section_text.clone()));
                    }
                    i += 1;
                }
                proof {
                    assert(secs.skip(secs.len() as int) =~= Seq::<TrackBriefSectionRecord>::empty());
                }
                Ok(None)
            },
            Err(_) => Ok(None),
        }
    }

    /// The next step an event names (`recommended_next_step`, `next` or `next_step`), else the
    /// one written in the track's brief.
    pub fn next_step_from_event(&self, event: &EventRecord, track_id: &str) -> (r: Result<
        Option<String>,
        EmberFlowError,
    >)
        requires
            self.store.wf(),
        ensures
            r matches Ok(o) && opt_view(o) == first_some(
                event_next_step(event.payload@),
                brief_next(self.store, track_id@),
            ),
    {
        let from_brief = self.track_next_step(track_id)?;
        let payload = event.payload.as_str();
        let named = match payload_text(payload, "recommended_next_step") {
            Some(s) => Some(s),
            None => match payload_text(payload, "next") {
                Some(s) => Some(s),
                None => payload_text(payload, "next_step"),
            },
        };
        match named {
            Some(s) => Ok(Some(s)),
            None => Ok(from_brief),
        }
    }

    fn track_for_event(&self, event: &EventRecord) -> (r: Result<Option<TrackRecord>, EmberFlowError>)
        requires
            self.store.wf(),
        ensures
            event.track_id is None ==> r matches Ok(None),
            event.track_id matches Some(t) ==> (r is Ok <==> has_row(self.store.track_rows(), t@)),
            event.track_id matches Some(t) ==> (r matches Ok(o) ==> o matches Some(x) && x
                == crate::store::track_record_of(row_with(self.store.track_rows(), t@))),
    {
        match &event.track_id {
            Some(t) => Ok(Some(self.store.get_track(t.as_str())?)),
            None => Ok(None),
        }
    }

    fn task_for_event(&self, event: &EventRecord) -> (r: Result<Option<TaskRecord>, EmberFlowError>)
        requires
            self.store.wf(),
        ensures
            event.task_id is None ==> r matches Ok(None),
            event.task_id matches Some(t) ==> (r is Ok <==> has_row(self.store.task_rows(), t@)),
            event.task_id matches Some(t) ==> (r matches Ok(o) ==> o matches Some(x) && x
                == crate::store::task_record_of(row_with(self.store.task_rows(), t@))),
    {
        match &event.task_id {
            Some(t) => Ok(Some(self.store.get_task(t.as_str())?)),
            None => Ok(None),
        }
    }

    /// Records the projections of an event at time `now`: what a user reads of it, the runtime
    /// status line it leads to, and, when it changes its track durably, that change.
    pub fn persist_projections(&mut self, event: &EventRecord, now: &str) -> (r: Result<
        (),
        EmberFlowError,
    >)
        requires
            old(self).store.wf(),
        ensures
            final(self).store.wf(),
            final(self).layout == old(self).layout,
            final(self).store.track_rows() == old(self).store.track_rows(),
            final(self).store.task_rows() == old(self).store.task_rows(),
            final(self).store.same_plans(&old(self).store),
            final(self).store.event_rows() == old(self).store.event_rows(),
            final(self).store.dirty_rows() == old(self).store.dirty_rows(),
            r is Ok <==> projections_storable(old(self).store, *event),
            r is Ok ==> projections_written(old(self).store, final(self).store, *event, now@),
    {
        let ghost s0 = self.store;
        let user: UserProjection = self.engine.project_user_view(event);
        let m = vec![
            member("event_id", jstr(user.event_id.as_str())),
            member("kind", jstr(user.kind.as_str())),
            member("format", jstr(user.format.as_str())),
            member("summary", jstr(user.summary.as_str())),
            member("line", jstr(user.line.as_str())),
        ];
        proof {
            lemma_json_view_members(m@);
            assert(json_view_members(m@) =~= user_projection_json(*event)->Obj_0);
        }
        let payload = JsonValue::Obj(m);
        let pu = self.store.record_projection_at(event.id.as_str(), "user", None, &payload, now)?;
        let task = self.task_for_event(event)?;
        let task_ref: Option<&TaskRecord> = match &task {
            Some(t) => Some(t),
            None => None,
        };
        proof {
            assert(opt_task(task_ref) == event_task(s0, *event));
        }
        let runtime: RuntimeProjection = self.engine.project_runtime_view(event, task_ref);
        let next = match &event.track_id {
            Some(t) => {
                if t.unicode_len() == 0 {
                    None
                } else {
                    self.next_step_from_event(event, t.as_str())?
                }
            },
            None => None,
        };
        proof {
            assert(opt_view(next) == event_track_next(s0, *event));
        }
        let executor = match task_ref {
            Some(t) => opt_copy(&t.executor),
            None => None,
        };
        let execution = match task_ref {
            Some(t) => opt_copy(&t.execution),
            None => None,
        };
        let intent = self.intent_summary_for_event(event, task_ref);
        let m = vec![
            member("event_id", jstr(runtime.event_id.as_str())),
            member("kind", jstr(runtime.kind.as_str())),
            member("task_id", jopt(&event.task_id)),
            member("target_path", jstr(runtime.target_path.as_str())),
            member("line_format", jstr(runtime.line_format.as_str())),
            member("line", jstr(runtime.line.as_str())),
            member("status", jstr(runtime.status.as_str())),
            member("phase", jstr(runtime.phase.as_str())),
            member("details", jstr(runtime.details.as_str())),
            member("executor", jopt(&executor)),
            member("execution", jopt(&execution)),
            member("intent_summary", jopt(&intent)),
            member("next", jopt(&next)),
        ];
        proof {
            lemma_json_view_members(m@);
            assert(json_view_members(m@) =~= runtime_projection_json(
                *event,
                event_task(s0, *event),
                event_track_next(s0, *event),
            )->Obj_0);
        }
        let payload = JsonValue::Obj(m);
        proof {
            reveal_strlit("user");
            reveal_strlit("runtime");
            reveal_strlit("track");
            reveal_strlit(":");
            crate::rows::lemma_insert_sorted_keys(s0.projection_rows(), pu);
            assert((event.id@ + ":"@ + "user"@).len() != (event.id@ + ":"@ + "runtime"@).len());
            assert((event.id@ + ":"@ + "user"@).len() != (event.id@ + ":"@ + "track"@).len());
            assert((event.id@ + ":"@ + "runtime"@).len() != (event.id@ + ":"@ + "track"@).len());
            assert(has_row(self.store.projection_rows(), event.id@ + ":"@ + "runtime"@) <==> has_row(
                s0.projection_rows(),
                event.id@ + ":"@ + "runtime"@,
            ));
        }
        let pr = self.store.record_projection_at(
            event.id.as_str(),
            "runtime",
            Some(projected_runtime_status_path()),
            &payload,
            now,
        )?;
        let ghost both = self.store.projection_rows();
        proof {
            assert(both == crate::rows::insert_sorted(
                crate::rows::insert_sorted(s0.projection_rows(), pu),
                pr,
            ));
            crate::rows::lemma_insert_sorted_keys(
                crate::rows::insert_sorted(s0.projection_rows(), pu),
                pr,
            );
            assert(has_row(both, event.id@ + ":"@ + "track"@) <==> has_row(s0.projection_rows(), event.id@ + ":"@ + "track"@));
        }
        if let Some(track) = self.track_for_event(event)? {
            let tp: TrackProjection = self.engine.project_track_view(event, &track);
            if !str_eq(tp.durable_change.as_str(), "none") {
                let m = vec![
                    member("event_id", jstr(tp.event_id.as_str())),
                    member("track_id", jstr(tp.track_id.as_str())),
                    member("kind", jstr(tp.kind.as_str())),
                    member("summary", jstr(tp.summary.as_str())),
                    member("durable_change", jstr(tp.durable_change.as_str())),
                    member("status", jopt(&tp.status)),
                ];
                proof {
                    lemma_json_view_members(m@);
                    assert(json_view_members(m@) =~= track_projection_json(
                        *event,
                        crate::store::track_record_of(
                            row_with(s0.track_rows(), event.track_id->0@),
                        ),
                    )->Obj_0);
                }
                let payload = JsonValue::Obj(m);
                let pt = self.store.record_projection_at(
                    event.id.as_str(),
                    "track",
                    None,
                    &payload,
                    now,
                )?;
                proof {
                    assert(self.store.projection_rows() == crate::rows::insert_sorted(both, pt));
                    assert(durable_track_change(s0, *event));
                    assert(projections_storable(s0, *event));
                }
                return Ok(());
            } else {
                proof {
                    reveal_strlit("none");
                    assert(!durable_track_change(s0, *event));
                }
            }
        }
        proof {
            assert(!durable_track_change(s0, *event));
            assert(projections_storable(s0, *event));
        }
        Ok(())
    }
}


impl EmberFlowRuntime {
    /// Applies an event to the runtime state at time `now`: the track takes the status the
    /// event kind sets (when it differs), and the task takes the status and phase of
    /// `task_state_for_event`, the event's track, and the executor, agent instance, execution
    /// and intent summary the payload names (keeping its own where the payload names none).
    pub fn project_runtime_state(&mut self, event: &EventRecord, now: &str) -> (r: Result<
        (),
        EmberFlowError,
    >)
        requires
            old(self).store.wf(),
        ensures
            final(self).store.wf(),
            final(self).layout == old(self).layout,
            final(self).store.event_rows() == old(self).store.event_rows(),
            final(self).store.projection_rows() == old(self).store.projection_rows(),
            final(self).store.dirty_rows() == old(self).store.dirty_rows(),
            final(self).store.same_plans(&old(self).store),
            r is Ok <==> event_applicable(old(self).store, *event),
            r is Ok ==> event_applied(old(self).store, final(self).store, *event),
            r is Ok && event.track_id is None ==> final(self).store.track_rows() == old(
                self,
            ).store.track_rows(),
            r is Ok && event.task_id is None ==> final(self).store.task_rows() == old(
                self,
            ).store.task_rows(),
    {
        if let Some(track) = self.track_for_event(event)? {
            let tp: TrackProjection = self.engine.project_track_view(event, &track);
            if let Some(status) = &tp.status {
                if !str_eq(status.as_str(), track.status.as_str()) {
                    proof {
                        reveal_strlit("blocked");
                        reveal_strlit("review");
                        reveal_strlit("done");
                        reveal_strlit("archived");
                        assert(crate::protocol::track_statuses()[2] == "blocked"@);
                        assert(crate::protocol::track_statuses()[3] == "review"@);
                        assert(crate::protocol::track_statuses()[5] == "archived"@);
                        assert(crate::protocol::track_statuses().contains(
                            crate::store::normalized_track_status(status@),
                        ));
                    }
                    self.store.update_track_status_at(track.id.as_str(), status.as_str(), now)?;
                    proof {
                        let t0 = old(self).store.track_rows();
                        let k = crate::store::row_index(t0, track.id@);
                        assert(self.store.track_rows()[k].id@ == track.id@);
                        crate::rows::lemma_update_keys(t0, k, self.store.track_rows()[k]);
                        assert(self.store.track_rows() == t0.update(k, self.store.track_rows()[k]));
                    }
                }
            }
        }
        let ghost s1 = self.store;
        proof {
            if event.track_id is Some {
                let t = event.track_id->0@;
                assert(has_row(s1.track_rows(), t));
                assert(row_with(s1.track_rows(), t).status@ == track_status_after_event(
                    event.kind@,
                    row_with(old(self).store.track_rows(), t).status@,
                ));
            }
        }
        if let Some(task) = self.task_for_event(event)? {
            let (status, phase) = self.task_state_for_event(
                event.kind.as_str(),
                event.payload.as_str(),
                &task,
            );
            let payload = event.payload.as_str();
            let executor = opt_or(self.executor_from_payload(payload), &task.executor);
            let agent_instance_id = payload_text(payload, "agent_instance_id");
            let execution = opt_or(payload_text(payload, "execution"), &task.execution);
            let intent_summary = opt_or(payload_text(payload, "intent_summary"), &task.intent_summary);
            let track_id: Option<&str> = match &event.track_id {
                Some(t) => Some(t.as_str()),
                None => opt_as_str(&task.track_id),
            };
            let update = TaskStateUpdate {
                status: Some(status.as_str()),
                phase: Some(phase.as_str()),
                track_id,
                executor: opt_as_str(&executor),
                agent_instance_id: opt_as_str(&agent_instance_id),
                execution: opt_as_str(&execution),
                intent_summary: opt_as_str(&intent_summary),
            };
            let ghost before = self.store;
            self.store.update_task_state_at(task.id.as_str(), update, now)?;
            proof {
                let tid = event.task_id->0@;
                let t0 = before.task_rows();
                let k = crate::store::row_index(t0, tid);
                crate::store::lemma_row_with(self.store.task_rows(), tid, k);
                assert(self.store.task_rows()[k].id@ == tid);
                assert(t0 == old(self).store.task_rows());
                let cur = row_with(t0, tid);
                let row = row_with(self.store.task_rows(), tid);
                assert(row.status@ == status@);
                assert(row.phase@ == phase@);
                assert(opt_view(row.executor) == first_some(payload_executor(event.payload@), opt_view(cur.executor)));
                assert(opt_view(row.agent_instance_id) == first_some(
                    json_top_level_string(event.payload@, "agent_instance_id"@),
                    opt_view(cur.agent_instance_id),
                ));
                assert(opt_view(row.track_id) == first_some(opt_view(event.track_id), opt_view(cur.track_id)));
                assert(task_after_event(*event, cur, row));
            }
        }
        Ok(())
    }

    /// Marks the runtime status and, for an event on a track, the track's summary targets
    /// dirty; in projected mode only.
    fn mark_runtime_projection_dirty(
        &mut self,
        track_id: Option<&str>,
        source_event_id: Option<&str>,
        now: &str,
    ) -> (r: Result<(), EmberFlowError>)
        requires
            old(self).store.wf(),
        ensures
            final(self).store.wf(),
            final(self).layout == old(self).layout,
            old(self).layout.mode is Canonical ==> final(self).store == old(self).store && r is Ok,
            final(self).store.track_rows() == old(self).store.track_rows(),
            final(self).store.task_rows() == old(self).store.task_rows(),
            final(self).store.same_plans(&old(self).store),
            final(self).store.event_rows() == old(self).store.event_rows(),
            final(self).store.projection_rows() == old(self).store.projection_rows(),
            exists|ts: Seq<ProjectionDirtyTargetInput>|
                #[trigger] runtime_dirty_targets(
                    ts,
                    crate::text::opt_str_view(track_id),
                    crate::text::opt_str_view(source_event_id),
                ) && (!(old(self).layout.mode is Canonical) ==> (r is Ok <==> targets_fit(
                    old(self).store,
                    ts,
                )) && (r is Ok ==> dirty_marked(
                    old(self).store.dirty_rows(),
                    final(self).store.dirty_rows(),
                    ts,
                    now@,
                ))),
    {
        let target = ProjectionDirtyTargetInput {
            track_id: crate::text::opt_owned(track_id),
            projection_kind: owned("runtime-status"),
            target_path: owned(projected_runtime_status_path()),
            reason: owned("runtime-state"),
            source_event_id: crate::text::opt_owned(source_event_id),
        };
        let mut targets = vec![target];
        if let Some(t) = track_id {
            let mut summary = self.track_summary_dirty_targets(t, "runtime-state", source_event_id);
            targets.append(&mut summary);
        }
        proof {
            assert(runtime_dirty_targets(
                targets@,
                crate::text::opt_str_view(track_id),
                crate::text::opt_str_view(source_event_id),
            ));
        }
        let ghost ts = targets@;
        let r = self.mark_dirty(targets, now);
        proof {
            assert(runtime_dirty_targets(
                ts,
                crate::text::opt_str_view(track_id),
                crate::text::opt_str_view(source_event_id),
            ));
        }
        r
    }

    /// Records an event at time `now`. An event on a task needs the task's lease to be active,
    /// and an executor named in its payload must be the lease holder. The event is then
    /// stored, projected, applied to the runtime state, and the runtime status is marked dirty.
    pub fn record_event_at(
        &mut self,
        event_id: &str,
        track_id: Option<&str>,
        task_id: Option<&str>,
        kind: &str,
        payload: &str,
        now: &str,
    ) -> (r: Result<EventRecord, EmberFlowError>)
        requires
            old(self).store.wf(),
        ensures
            final(self).store.wf(),
            record_event_outcome(
                *old(self),
                *final(self),
                event_id@,
                crate::text::opt_str_view(track_id),
                crate::text::opt_str_view(task_id),
                kind@,
                payload@,
                now@,
                r,
            ),
    {
        let ghost s0 = self.store;
        let ghost tv = crate::text::opt_str_view(track_id);
        let ghost kv = crate::text::opt_str_view(task_id);
        if let Some(tid) = task_id {
            match self.store.check_lease_at(tid, now)? {
                None => {
                    let msg = cat3("task ", tid, " has no active lease, claim it first");
                    return Err(unsupported("taskId", msg.as_str()));
                },
                Some(lease) => {
                    let executor = payload_text(payload, "executor");
                    if let Some(e) = executor {
                        if e.unicode_len() > 0 && !str_eq(e.as_str(), lease.holder.as_str()) {
                            let head = cat3("task ", tid, " has a lease held by ");
                            let msg = cat3(
                                head.as_str(),
                                lease.holder.as_str(),
                                " \u{2014} executor does not hold the lease",
                            );
                            return Err(unsupported("executor", msg.as_str()));
                        }
                    }
                },
            }
        }
        proof {
            assert(self.store.task_rows() == s0.task_rows());
            assert(self.store.track_rows() == s0.track_rows());
            assert(self.store.event_rows() == s0.event_rows());
            assert(self.store.projection_rows() == s0.projection_rows());
            assert(self.store.same_plans(&s0));
            assert(guard_passes(s0, kv, payload@, now@));
        }
        let event = self.store.record_event_at(event_id, track_id, task_id, kind, payload, now)?;
        let ghost sa = self.store;
        proof {
            assert(is_event_for(event, event_id@, tv, kv, kind@, payload@, now@));
            crate::rows::lemma_insert_sorted_keys(s0.event_rows(), event);
            assert(has_row(sa.event_rows(), event.id@));
            assert(projections_fit(sa, event) == projections_fit(s0, event));
        }
        self.persist_projections(&event, now)?;
        let ghost sb = self.store;
        proof {
            assert(event_applicable(sb, event) == event_applicable(s0, event));
        }
        self.project_runtime_state(&event, now)?;
        let ghost sc = self.store;
        let etrack = opt_as_str(&event.track_id);
        let esrc = Some(event.id.as_str());
        let r3 = self.mark_runtime_projection_dirty(etrack, esrc, now);
        proof {
            let tr = crate::text::opt_str_view(etrack);
            let src = crate::text::opt_str_view(esrc);
            assert(tr == tv);
            let ts = choose|ts: Seq<ProjectionDirtyTargetInput>|
                #[trigger] runtime_dirty_targets(ts, tr, src) && (!(old(self).layout.mode is Canonical)
                    ==> (r3 is Ok <==> targets_fit(sc, ts)) && (r3 is Ok ==> dirty_marked(
                    sc.dirty_rows(),
                    self.store.dirty_rows(),
                    ts,
                    now@,
                )));
            assert(has_row(sc.event_rows(), event.id@));
            assert forall|i: int| 0 <= i < ts.len() implies target_fits(sc, #[trigger] ts[i]) by {
                if let Some(t) = event.track_id {
                    assert(has_row(sc.track_rows(), t@));
                }
            }
            assert(r3 is Ok);
        }
        proof {
            assert forall|ev: EventRecord|
                #[trigger] is_event_for(ev, event_id@, tv, kv, kind@, payload@, now@) implies projections_fit(
                s0,
                ev,
            ) && event_applicable(s0, ev) by {
                lemma_event_views_agree(s0, event, ev);
            }
        }
        Ok(event)
    }

    /// Records an event, stamped with the current time.
    pub fn record_event(
        &mut self,
        event_id: &str,
        track_id: Option<&str>,
        task_id: Option<&str>,
        kind: &str,
        payload: &str,
    ) -> (r: Result<EventRecord, EmberFlowError>)
        requires
            old(self).store.wf(),
        ensures
            final(self).store.wf(),
            (r matches Err(e) && e is Sqlite && *final(self) == *old(self)) || exists|
                now: Seq<char>,
            |
                #[trigger] record_event_outcome(
                    *old(self),
                    *final(self),
                    event_id@,
                    crate::text::opt_str_view(track_id),
                    crate::text::opt_str_view(task_id),
                    kind@,
                    payload@,
                    now,
                    r,
                ),
    {
        let now = current_timestamp()?;
        let r = self.record_event_at(event_id, track_id, task_id, kind, payload, now.as_str());
        proof {
            assert(record_event_outcome(
                *old(self),
                *self,
                event_id@,
                crate::text::opt_str_view(track_id),
                crate::text::opt_str_view(task_id),
                kind@,
                payload@,
                now@,
                r,
            ));
        }
        r
    }

    /// Records a runtime state for a task on a track at time `now`: the track and the task
    /// are created when missing, then the event `<track>:<task>:<kind>` is recorded.
    pub fn record_runtime_state_at(
        &mut self,
        track_id: &str,
        task_id: &str,
        event_kind: &str,
        payload: &str,
        now: &str,
    ) -> (r: Result<RuntimeStateResult, EmberFlowError>)
        requires
            old(self).store.wf(),
        ensures
            final(self).store.wf(),
            runtime_state_outcome(*old(self), *final(self), track_id@, task_id@, event_kind@, r),
    {
        crate::protocol::validate_kind(event_kind)?;
        self.store.ensure_track_at(track_id, now)?;
        self.store.ensure_task_at(task_id, track_id, now)?;
        let a = cat3(track_id, ":", task_id);
        let event_id = cat3(a.as_str(), ":", event_kind);
        let ghost mid = self.store;
        let event = self.record_event_at(
            event_id.as_str(),
            Some(track_id),
            Some(task_id),
            event_kind,
            payload,
            now,
        )?;
        proof {
            reveal_strlit(":");
            crate::rows::lemma_insert_pos_bounds(mid.event_rows(), event);
            let p = crate::rows::insert_pos(mid.event_rows(), event);
            assert(self.store.event_rows()[p] == event);
            assert(self.store.event_rows().contains(event));
        }
        Ok(
            RuntimeStateResult {
                track_id: owned(track_id),
                task_id: owned(task_id),
                event_kind: event.kind,
                store: owned("canonical"),
            },
        )
    }

    /// Records a runtime state for a task on a track, stamped with the current time.
    pub fn record_runtime_state(
        &mut self,
        track_id: &str,
        task_id: &str,
        event_kind: &str,
        payload: &str,
    ) -> (r: Result<RuntimeStateResult, EmberFlowError>)
        requires
            old(self).store.wf(),
        ensures
            final(self).store.wf(),
            (r matches Err(e) && e is Sqlite && *final(self) == *old(self)) || runtime_state_outcome(
                *old(self),
                *final(self),
                track_id@,
                task_id@,
                event_kind@,
                r,
            ),
            !crate::protocol::runtime_messages().contains(event_kind@) ==> (r matches Err(e)
                && is_unsupported(e, "kind"@, event_kind@) && *final(self) == *old(self)),
    {
        crate::protocol::validate_kind(event_kind)?;
        let now = current_timestamp()?;
        self.record_runtime_state_at(track_id, task_id, event_kind, payload, now.as_str())
    }

    /// The events of a track and a task (each filter only when given), oldest first.
    pub fn list_events(&self, track_id: Option<&str>, task_id: Option<&str>) -> (r: Result<
        EventFeed,
        EmberFlowError,
    >)
        ensures
            r matches Ok(f) && opt_view(f.track_id) == crate::text::opt_str_view(track_id)
                && opt_view(f.task_id) == crate::text::opt_str_view(task_id) && f.items@
                == self.store.event_rows().filter(
                |e: EventRecord|
                    crate::store::event_selected(
                        e,
                        crate::text::opt_str_view(track_id),
                        crate::text::opt_str_view(task_id),
                    ),
            ),
            r matches Ok(f) ==> forall|i: int| 0 <= i < f.items.len() ==> {
                &&& (track_id matches Some(t) ==> opt_view(#[trigger] f.items@[i].track_id) == Some(t@))
                &&& (task_id matches Some(k) ==> opt_view(f.items@[i].task_id) == Some(k@))
            },
            r matches Ok(f) ==> forall|i: int|
                0 <= i < self.store.event_rows().len() && (track_id matches Some(t) ==> opt_view(
                    self.store.event_rows()[i].track_id,
                ) == Some(t@)) && (task_id matches Some(k) ==> opt_view(
                    self.store.event_rows()[i].task_id,
                ) == Some(k@)) ==> #[trigger] f.items@.contains(self.store.event_rows()[i]),
    {
        let items = self.store.list_events(track_id, task_id, None)?;
        Ok(
            EventFeed {
                track_id: crate::text::opt_owned(track_id),
                task_id: crate::text::opt_owned(task_id),
                items,
            },
        )
    }

    /// Creates or updates a track's metadata at time `now` and marks its projections dirty.
    pub fn upsert_track_metadata_at(&mut self, input: TrackMetadataInput, now: &str) -> (r: Result<
        TrackMetadataRecord,
        EmberFlowError,
    >)
        requires
            old(self).store.wf(),
        ensures
            final(self).store.wf(),
            metadata_outcome(*old(self), *final(self), input, r),
    {
        let track_id = input.track_id.clone();
        let ghost input0 = input;
        let metadata = self.store.upsert_track_metadata_at(input, now)?;
        proof {
            let row = row_with(self.store.track_rows(), input0.track_id@);
            assert(crate::store::metadata_of_row(metadata, row));
        }
        let targets = self.track_metadata_dirty_targets(track_id.as_str(), "track-metadata", None);
        proof {
            assert(target_fits(self.store, targets@[0]));
        }
        self.mark_dirty(targets, now)?;
        let targets = self.track_summary_dirty_targets(track_id.as_str(), "track-metadata", None);
        proof {
            assert(target_fits(self.store, targets@[0]));
            assert(target_fits(self.store, targets@[1]));
        }
        self.mark_dirty(targets, now)?;
        Ok(metadata)
    }

    /// Creates or updates a track's metadata, stamped with the current time.
    pub fn upsert_track_metadata(&mut self, input: TrackMetadataInput) -> (r: Result<
        TrackMetadataRecord,
        EmberFlowError,
    >)
        requires
            old(self).store.wf(),
        ensures
            final(self).store.wf(),
            (r matches Err(e) && e is Sqlite && *final(self) == *old(self)) || metadata_outcome(*old(self), *final(self), input, r),
            !crate::protocol::track_statuses().contains(
                crate::store::normalized_track_status(input.status@),
            ) ==> (r matches Err(e) && is_unsupported(
                e,
                "status"@,
                crate::store::normalized_track_status(input.status@),
            ) && *final(self) == *old(self)),
            crate::protocol::track_statuses().contains(
                crate::store::normalized_track_status(input.status@),
            ) && is_blank_spec(input.track_id@) ==> (r matches Err(e) && is_unsupported(
                e,
                "track_id"@,
                "track id must be present"@,
            ) && *final(self) == *old(self)),
    {
        crate::store::check_track_status(input.status.as_str())?;
        if is_blank(input.track_id.as_str()) {
            return Err(unsupported("track_id", "track id must be present"));
        }
        let now = current_timestamp()?;
        self.upsert_track_metadata_at(input, now.as_str())
    }

    /// Replaces a track's brief at time `now` and marks its projections dirty.
    pub fn replace_track_brief_at(
        &mut self,
        track_id: &str,
        sections: Vec<TrackBriefSectionInput>,
        now: &str,
    ) -> (r: Result<TrackBriefRecord, EmberFlowError>)
        requires
            old(self).store.wf(),
        ensures
            final(self).store.wf(),
            brief_outcome(*old(self), *final(self), track_id@, sections@, now@, r),
    {
        let brief = self.store.replace_track_brief_at(track_id, sections, now)?;
        let targets = self.track_brief_dirty_targets(track_id, "track-brief", None);
        proof {
            assert(target_fits(self.store, targets@[0]));
            assert(target_fits(self.store, targets@[1]));
            assert(target_fits(self.store, targets@[2]));
        }
        self.mark_dirty(targets, now)?;
        Ok(brief)
    }

    /// Replaces a track's brief, stamped with the current time.
    pub fn replace_track_brief(&mut self, track_id: &str, sections: Vec<TrackBriefSectionInput>) -> (r:
        Result<TrackBriefRecord, EmberFlowError>)
        requires
            old(self).store.wf(),
        ensures
            final(self).store.wf(),
            (r matches Err(e) && e is Sqlite && *final(self) == *old(self)) || exists|now: Seq<char>|
                #[trigger] brief_outcome(*old(self), *final(self), track_id@, sections@, now, r),
    {
        let now = current_timestamp()?;
        let ghost sections0 = sections@;
        let r = self.replace_track_brief_at(track_id, sections, now.as_str());
        proof {
            assert(brief_outcome(*old(self), *self, track_id@, sections0, now@, r));
        }
        r
    }

    /// Replaces a track's plan at time `now` and marks its projections dirty.
    pub fn replace_track_plan_at(
        &mut self,
        track_id: &str,
        phases: Vec<TrackPlanPhaseInput>,
        now: &str,
    ) -> (r: Result<TrackPlanRecord, EmberFlowError>)
        requires
            old(self).store.wf(),
        ensures
            final(self).store.wf(),
            plan_outcome(*old(self), *final(self), track_id@, phases@, now@, r),
    {
        let plan = self.store.replace_track_plan_at(track_id, phases, now)?;
        proof {
            assert(crate::store::plan_of_rows(plan, track_id@, self.store.phase_rows(), self.store.item_rows()));
        }
        let targets = self.track_plan_dirty_targets(track_id, "track-plan", None);
        proof {
            assert(target_fits(self.store, targets@[0]));
            assert(target_fits(self.store, targets@[1]));
            assert(target_fits(self.store, targets@[2]));
        }
        self.mark_dirty(targets, now)?;
        Ok(plan)
    }

    /// Replaces a track's plan, stamped with the current time.
    pub fn replace_track_plan(&mut self, track_id: &str, phases: Vec<TrackPlanPhaseInput>) -> (r:
        Result<TrackPlanRecord, EmberFlowError>)
        requires
            old(self).store.wf(),
        ensures
            final(self).store.wf(),
            (r matches Err(e) && e is Sqlite && *final(self) == *old(self)) || exists|now: Seq<char>|
                #[trigger] plan_outcome(*old(self), *final(self), track_id@, phases@, now, r),
    {
        let now = current_timestamp()?;
        let ghost phases0 = phases@;
        let r = self.replace_track_plan_at(track_id, phases, now.as_str());
        proof {
            assert(plan_outcome(*old(self), *self, track_id@, phases0, now@, r));
        }
        r
    }
}


/// A most recently updated task on a track (see `task_recency_lt`), or none when no task is on
/// the track.
pub open spec fn is_latest_task(store: RuntimeStore, track_id: Seq<char>, lt: Option<TaskRecord>) -> bool {
    let tasks = store.task_rows();
    match lt {
        None => !exists|i: int| 0 <= i < tasks.len() && task_on_track(#[trigger] tasks[i], track_id),
        Some(t) => exists|i: int|
            0 <= i < tasks.len() && t == crate::store::task_record_of(#[trigger] tasks[i])
                && task_on_track(tasks[i], track_id) && forall|k: int|
                0 <= k < tasks.len() && task_on_track(#[trigger] tasks[k], track_id)
                    ==> !crate::store::task_recency_lt(tasks[i], tasks[k]),
    }
}

/// The target path of a track's latest runtime projection, else the runtime status path.
pub open spec fn latest_runtime_target(store: RuntimeStore, track_id: Seq<char>) -> Seq<char> {
    let latest = crate::store::last_of(
        store.projection_rows().filter(
            |p: crate::records::ProjectionRecord|
                p.projection_kind@ == "runtime"@ && crate::store::event_id_on_track(
                    store.event_rows(),
                    p.event_id@,
                    track_id,
                ),
        ),
    );
    match latest {
        Some(p) => match p.target_path {
            Some(t) => t@,
            None => runtime_status_path_spec(),
        },
        None => runtime_status_path_spec(),
    }
}

/// Whether the runtime status of a track can be told: the track has a task, or no event, or
/// its latest event names no task or one that exists.
pub open spec fn runtime_status_available(store: RuntimeStore, track_id: Seq<char>) -> bool {
    ||| exists|i: int|
        0 <= i < store.task_rows().len() && task_on_track(#[trigger] store.task_rows()[i], track_id)
    ||| match last_of_events(store, track_id) {
        None => true,
        Some(e) => e.task_id matches Some(t) ==> has_row(store.task_rows(), t@),
    }
}

/// What the runtime status of a track is, given the track's latest task and latest event:
/// with a latest task, its phase and status with the details of the latest event; with only
/// an event, the runtime view of that event; with neither, the track's status in planning.
pub open spec fn runtime_status_outcome(
    store: RuntimeStore,
    track_id: Seq<char>,
    latest_task: Option<TaskRecord>,
    latest_event: Option<EventRecord>,
    r: RuntimeStatusProjection,
) -> bool {
    &&& r.target_path@ == runtime_status_path_spec()
    &&& r.source@ == "canonical-event-store"@
    &&& runtime_status_fields(store, track_id, latest_task, latest_event, r)
}

/// The fields of a runtime status other than its target path and source (see
/// `runtime_status_outcome`).
pub open spec fn runtime_status_fields(
    store: RuntimeStore,
    track_id: Seq<char>,
    latest_task: Option<TaskRecord>,
    latest_event: Option<EventRecord>,
    r: RuntimeStatusProjection,
) -> bool {
    &&& r.track_id@ == track_id
    &&& match latest_task {
        Some(t) => {
            &&& opt_view(r.task_id) == Some(t.id@)
            &&& r.status_line@ == crate::projections::runtime_line(
                t.phase@,
                t.status@,
                runtime_details_spec(latest_event, Some(t)),
            )
            &&& opt_view(r.status) == Some(t.status@)
            &&& opt_view(r.phase) == Some(t.phase@)
            &&& r.executor == t.executor
            &&& r.execution == t.execution
            &&& r.intent_summary == t.intent_summary
            &&& opt_view(r.next) == match latest_event {
                Some(e) => first_some(event_next_step(e.payload@), brief_next(store, track_id)),
                None => brief_next(store, track_id),
            }
        },
        None => match latest_event {
            None => {
                let status = if has_row(store.track_rows(), track_id) {
                    Some(row_with(store.track_rows(), track_id).status@)
                } else {
                    None
                };
                &&& r.task_id is None
                &&& r.status_line@ == crate::projections::runtime_line(
                    "planning"@,
                    match status {
                        Some(s) => s,
                        None => "running"@,
                    },
                    "update"@,
                )
                &&& opt_view(r.status) == status
                &&& opt_view(r.phase) == Some("planning"@)
                &&& r.executor is None
                &&& r.execution is None
                &&& r.intent_summary is None
                &&& opt_view(r.next) == brief_next(store, track_id)
            },
            Some(e) => {
                let t = event_task(store, e);
                let task_phase = match t {
                    Some(x) => Some(x.phase@),
                    None => None,
                };
                let task_status = match t {
                    Some(x) => Some(x.status@),
                    None => None,
                };
                let phase = crate::projections::runtime_field(
                    e.payload@,
                    "phase"@,
                    e.kind@,
                    task_phase,
                    crate::projections::default_phase_spec(e.kind@),
                );
                let status = crate::projections::runtime_field(
                    e.payload@,
                    "status"@,
                    e.kind@,
                    task_status,
                    crate::projections::default_status_spec(e.kind@),
                );
                &&& r.task_id == e.task_id
                &&& opt_view(r.phase) == Some(phase)
                &&& opt_view(r.status) == Some(status)
                &&& r.status_line@ == crate::projections::runtime_line(
                    phase,
                    status,
                    crate::projections::details_spec(e.payload@),
                )
                &&& r.executor == match t {
                    Some(x) => x.executor,
                    None => None,
                }
                &&& r.execution == match t {
                    Some(x) => x.execution,
                    None => None,
                }
                &&& opt_view(r.intent_summary) == event_intent_summary(e, t)
                &&& opt_view(r.next) == first_some(
                    event_next_step(e.payload@),
                    brief_next(store, track_id),
                )
            },
        },
    }
}

impl EmberFlowRuntime {
    /// The runtime status of a track from its latest task and latest event.
    pub fn runtime_status_for(
        &self,
        track_id: &str,
        latest_task: Option<&TaskRecord>,
        latest_event: Option<&EventRecord>,
    ) -> (r: Result<RuntimeStatusProjection, EmberFlowError>)
        requires
            self.store.wf(),
        ensures
            r matches Ok(p) ==> runtime_status_outcome(
                self.store,
                track_id@,
                opt_task(latest_task),
                opt_event(latest_event),
                p,
            ),
            r is Ok <==> latest_task is Some || latest_event is None || (
            latest_event->0.task_id matches Some(t) ==> has_row(self.store.task_rows(), t@)),
    {
        if let Some(task) = latest_task {
            let details = self.runtime_details_for_state(latest_event, Some(task));
            let next = match latest_event {
                Some(event) => self.next_step_from_event(event, track_id)?,
                None => self.track_next_step(track_id)?,
            };
            let a = cat3("phase: ", task.phase.as_str(), " | status: ");
            let b = cat3(a.as_str(), task.status.as_str(), " | details: ");
            let line = cat(b.as_str(), details.as_str());
            proof {
                assert(line@ =~= crate::projections::runtime_line(task.phase@, task.status@, details@));
            }
            return Ok(
                RuntimeStatusProjection {
                    track_id: owned(track_id),
                    task_id: Some(task.id.clone()),
                    target_path: owned(projected_runtime_status_path()),
                    status_line: line,
                    status: Some(task.status.clone()),
                    phase: Some(task.phase.clone()),
                    next,
                    executor: opt_copy(&task.executor),
                    execution: opt_copy(&task.execution),
                    intent_summary: opt_copy(&task.intent_summary),
                    source: owned("canonical-event-store"),
                },
            );
        }
        match latest_event {
            None => {
                let status: Option<String> = match self.store.get_track(track_id) {
                    Ok(t) => Some(t.status),
                    Err(_) => None,
                };
                let shown = match &status {
                    Some(s) => s.clone(),
                    None => owned("running"),
                };
                let b = cat3("phase: planning | status: ", shown.as_str(), " | details: update");
                proof {
                    reveal_strlit("phase: planning | status: ");
                    reveal_strlit(" | details: update");
                    reveal_strlit("phase: ");
                    reveal_strlit(" | status: ");
                    reveal_strlit(" | details: ");
                    reveal_strlit("planning");
                    reveal_strlit("update");
                    assert(b@ =~= crate::projections::runtime_line("planning"@, shown@, "update"@));
                }
                Ok(
                    RuntimeStatusProjection {
                        track_id: owned(track_id),
                        task_id: None,
                        target_path: owned(projected_runtime_status_path()),
                        status_line: b,
                        status,
                        phase: Some(owned("planning")),
                        next: self.track_next_step(track_id)?,
                        executor: None,
                        execution: None,
                        intent_summary: None,
                        source: owned("canonical-event-store"),
                    },
                )
            },
            Some(event) => {
                let task = self.task_for_event(event)?;
                let task_ref: Option<&TaskRecord> = match &task {
                    Some(t) => Some(t),
                    None => None,
                };
                let projection = self.engine.project_runtime_view(event, task_ref);
                let next = self.next_step_from_event(event, track_id)?;
                Ok(
                    RuntimeStatusProjection {
                        track_id: owned(track_id),
                        task_id: opt_copy(&event.task_id),
                        target_path: projection.target_path,
                        status_line: projection.line,
                        status: Some(projection.status),
                        phase: Some(projection.phase),
                        next,
                        executor: match task_ref {
                            Some(t) => opt_copy(&t.executor),
                            None => None,
                        },
                        execution: match task_ref {
                            Some(t) => opt_copy(&t.execution),
                            None => None,
                        },
                        intent_summary: self.intent_summary_for_event(event, task_ref),
                        source: owned("canonical-event-store"),
                    },
                )
            },
        }
    }

    /// The runtime status of a track, from its most recently updated task and its latest
    /// event (see `runtime_status_outcome`).
    pub fn project_runtime_status(&self, track_id: &str) -> (r: Result<
        RuntimeStatusProjection,
        EmberFlowError,
    >)
        requires
            self.store.wf(),
        ensures
            r matches Ok(p) ==> exists|lt: Option<TaskRecord>|
                is_latest_task(self.store, track_id@, lt) && #[trigger] runtime_status_outcome(
                    self.store,
                    track_id@,
                    lt,
                    last_of_events(self.store, track_id@),
                    p,
                ),
            r is Ok <==> runtime_status_available(self.store, track_id@),
    {
        let latest_task = self.store.get_latest_task_for_track(track_id)?;
        let latest_event = self.store.get_latest_event_for_track(track_id)?;
        let lt: Option<&TaskRecord> = match &latest_task {
            Some(t) => Some(t),
            None => None,
        };
        let le: Option<&EventRecord> = match &latest_event {
            Some(e) => Some(e),
            None => None,
        };
        let r = self.runtime_status_for(track_id, lt, le);
        proof {
            if r is Ok {
                let p = r->Ok_0;
                assert(opt_event(le) == last_of_events(self.store, track_id@));
                assert(is_latest_task(self.store, track_id@, opt_task(lt)));
                assert(runtime_status_outcome(self.store, track_id@, opt_task(lt), opt_event(le), p));
            }
        }
        r
    }

    /// The runtime status of a track as the derived projection shows it: the target path of
    /// its latest runtime projection, if any.
    pub fn get_runtime_status(&self, track_id: &str) -> (r: Result<
        RuntimeStatusProjection,
        EmberFlowError,
    >)
        requires
            self.store.wf(),
        ensures
            r matches Ok(p) ==> derived_runtime_is(self.store, track_id@, p),
            r is Ok <==> runtime_status_available(self.store, track_id@),
    {
        let latest = self.store.get_latest_projection_for_track(track_id, "runtime")?;
        let target_path = match latest {
            Some(p) => match p.target_path {
                Some(t) => t,
                None => owned(projected_runtime_status_path()),
            },
            None => owned(projected_runtime_status_path()),
        };
        let mut derived = self.project_runtime_status(track_id)?;
        let ghost d0 = derived;
        derived.target_path = target_path;
        derived.source = owned("derived-projection");
        proof {
            let lt = choose|lt: Option<TaskRecord>|
                is_latest_task(self.store, track_id@, lt) && #[trigger] runtime_status_outcome(
                    self.store,
                    track_id@,
                    lt,
                    last_of_events(self.store, track_id@),
                    d0,
                );
            assert(runtime_status_fields(
                self.store,
                track_id@,
                lt,
                last_of_events(self.store, track_id@),
                derived,
            ));
        }
        Ok(derived)
    }

    /// What a task shows to a client, with its track's status and next step when it is on one.
    pub fn read_task_visibility(&self, task_id: &str) -> (r: Result<
        TaskVisibilityView,
        EmberFlowError,
    >)
        requires
            self.store.wf(),
        ensures
            r is Ok <==> has_row(self.store.task_rows(), task_id@),
            r matches Err(e) ==> is_not_found(e, task_id@),
            r matches Ok(v) ==> visibility_is(self.store, task_id@, v),
    {
        let task = self.store.get_task(task_id)?;
        let track_status: Option<String> = match &task.track_id {
            Some(k) => match self.store.get_track(k.as_str()) {
                Ok(track) => Some(track.status),
                Err(_) => None,
            },
            None => None,
        };
        let next = match &task.track_id {
            Some(k) => self.track_next_step(k.as_str())?,
            None => None,
        };
        Ok(
            TaskVisibilityView {
                source: owned("emberflow-canonical-state"),
                task_id: task.id,
                track_id: task.track_id,
                title: task.title,
                status: task.status,
                phase: task.phase,
                executor: task.executor,
                execution: task.execution,
                intent_summary: task.intent_summary,
                track_status,
                next,
                updated_at: task.updated_at,
                lease_holder: task.lease_holder,
                lease_expires_at: task.lease_expires_at,
            },
        )
    }

    /// A track's metadata, brief and plan; a track without metadata is not found.
    pub fn load_track_context(&self, track_id: &str) -> (r: Result<
        TrackContextRecord,
        EmberFlowError,
    >)
        requires
            self.store.wf(),
        ensures
            r is Ok <==> has_row(self.store.track_rows(), track_id@) && row_with(
                self.store.track_rows(),
                track_id@,
            ).track_type is Some,
            r matches Err(e) ==> is_not_found(e, track_id@),
            r matches Ok(c) ==> context_is(self.store, track_id@, c),
    {
        let metadata = self.store.get_track_metadata(track_id)?;
        let brief = self.store.get_track_brief(track_id)?;
        let plan = self.store.get_track_plan(track_id)?;
        Ok(TrackContextRecord { track_id: owned(track_id), metadata, brief, plan })
    }

    /// A track's brief.
    pub fn read_track_brief(&self, track_id: &str) -> (r: Result<TrackBriefRecord, EmberFlowError>)
        requires
            self.store.wf(),
        ensures
            r is Ok <==> has_row(self.store.track_rows(), track_id@),
            r matches Err(e) ==> is_not_found(e, track_id@),
            r matches Ok(b) ==> brief_is(self.store, track_id@, b),
    {
        self.store.get_track_brief(track_id)
    }

    /// A track's plan.
    pub fn list_track_plan(&self, track_id: &str) -> (r: Result<TrackPlanRecord, EmberFlowError>)
        requires
            self.store.wf(),
        ensures
            r is Ok <==> has_row(self.store.track_rows(), track_id@),
            r matches Err(e) ==> is_not_found(e, track_id@),
            r matches Ok(p) ==> crate::store::plan_of_rows(
                p,
                track_id@,
                self.store.phase_rows(),
                self.store.item_rows(),
            ),
    {
        self.store.get_track_plan(track_id)
    }
}

/// The latest event on a track.
pub open spec fn last_of_events(store: RuntimeStore, track_id: Seq<char>) -> Option<EventRecord> {
    crate::store::last_of(
        store.event_rows().filter(|e: EventRecord| crate::store::opt_holds(e.track_id, track_id)),
    )
}


/// The brief of a track: its sections in order.
pub open spec fn brief_is(store: RuntimeStore, track_id: Seq<char>, b: TrackBriefRecord) -> bool {
    &&& b.track_id@ == track_id
    &&& b.sections@ == store.section_rows().filter(
        |s: crate::records::SectionRow| s.track_id@ == track_id,
    ).map_values(|s: crate::records::SectionRow| crate::store::section_record_of(s))
}

/// The context of a track: its metadata, brief and plan.
pub open spec fn context_is(store: RuntimeStore, track_id: Seq<char>, c: TrackContextRecord) -> bool {
    &&& c.track_id@ == track_id
    &&& crate::store::metadata_of_row(c.metadata, row_with(store.track_rows(), track_id))
    &&& brief_is(store, track_id, c.brief)
    &&& crate::store::plan_of_rows(c.plan, track_id, store.phase_rows(), store.item_rows())
}

/// The event feed of a track: its events, oldest first.
pub open spec fn track_feed_is(store: RuntimeStore, track_id: Seq<char>, f: EventFeed) -> bool {
    &&& opt_view(f.track_id) == Some(track_id)
    &&& f.task_id is None
    &&& f.items@ == store.event_rows().filter(
        |e: EventRecord| crate::store::event_selected(e, Some(track_id), None),
    )
}

/// The event feed of a task: its events, oldest first, with the task's track.
pub open spec fn task_feed_is(store: RuntimeStore, task_id: Seq<char>, f: EventFeed) -> bool {
    &&& opt_view(f.task_id) == Some(task_id)
    &&& f.track_id == row_with(store.task_rows(), task_id).track_id
    &&& f.items@ == store.event_rows().filter(
        |e: EventRecord| crate::store::event_selected(e, None, Some(task_id)),
    )
}

/// The runtime status of a track as the derived projection shows it: the status that its
/// latest task and latest event give (see `runtime_status_fields`), at the target path of its
/// latest runtime projection.
pub open spec fn derived_runtime_is(
    store: RuntimeStore,
    track_id: Seq<char>,
    p: RuntimeStatusProjection,
) -> bool {
    &&& p.target_path@ == latest_runtime_target(store, track_id)
    &&& p.source@ == "derived-projection"@
    &&& exists|lt: Option<TaskRecord>|
        is_latest_task(store, track_id, lt) && #[trigger] runtime_status_fields(
            store,
            track_id,
            lt,
            last_of_events(store, track_id),
            p,
        )
}

/// What a task shows to a client: its own fields, with its track's status and next step when
/// it is on a stored track.
pub open spec fn visibility_is(store: RuntimeStore, task_id: Seq<char>, v: TaskVisibilityView) -> bool {
    let t = crate::store::task_record_of(row_with(store.task_rows(), task_id));
    &&& v.source@ == "emberflow-canonical-state"@
    &&& v.task_id == t.id
    &&& v.track_id == t.track_id
    &&& v.title == t.title
    &&& v.status == t.status
    &&& v.phase == t.phase
    &&& v.executor == t.executor
    &&& v.execution == t.execution
    &&& v.intent_summary == t.intent_summary
    &&& v.updated_at == t.updated_at
    &&& v.lease_holder == t.lease_holder
    &&& v.lease_expires_at == t.lease_expires_at
    &&& opt_view(v.track_status) == match t.track_id {
        Some(k) => if has_row(store.track_rows(), k@) {
            Some(row_with(store.track_rows(), k@).status@)
        } else {
            None
        },
        None => None,
    }
    &&& opt_view(v.next) == match t.track_id {
        Some(k) => brief_next(store, k@),
        None => None,
    }
}

/// The task a track's transparency view reports, given its runtime status: the runtime's task,
/// else the track's latest task.
pub open spec fn current_task_is(
    store: RuntimeStore,
    track_id: Seq<char>,
    p: RuntimeStatusProjection,
    ct: Option<TaskRecord>,
) -> bool {
    match p.task_id {
        Some(t) => has_row(store.task_rows(), t@) && ct == Some(
            crate::store::task_record_of(row_with(store.task_rows(), t@)),
        ),
        None => is_latest_task(store, track_id, ct),
    }
}

/// An optional text of an optional task.
pub open spec fn task_text(
    ct: Option<TaskRecord>,
    field: spec_fn(TaskRecord) -> Option<Seq<char>>,
) -> Option<Seq<char>> {
    match ct {
        Some(t) => field(t),
        None => None,
    }
}

/// The state of a track as a client displays it: its status, and for the task, its phase and
/// who runs it, what its derived runtime status says, else what its current task says.
pub open spec fn transparency_is(store: RuntimeStore, track_id: Seq<char>, v: TrackTransparencyView) -> bool {
    let row = row_with(store.track_rows(), track_id);
    &&& v.source@ == "emberflow-canonical-state"@
    &&& v.track_id@ == track_id
    &&& v.track_status@ == row.status@
    &&& exists|p: RuntimeStatusProjection, ct: Option<TaskRecord>|
        #![trigger derived_runtime_is(store, track_id, p), current_task_is(store, track_id, p, ct)]
        {
            &&& derived_runtime_is(store, track_id, p)
            &&& current_task_is(store, track_id, p, ct)
            &&& opt_view(v.task_id) == first_some(
                opt_view(p.task_id),
                task_text(ct, |t: TaskRecord| Some(t.id@)),
            )
            &&& opt_view(v.task_status) == first_some(
                opt_view(p.status),
                task_text(ct, |t: TaskRecord| Some(t.status@)),
            )
            &&& opt_view(v.phase) == first_some(
                opt_view(p.phase),
                task_text(ct, |t: TaskRecord| Some(t.phase@)),
            )
            &&& opt_view(v.executor) == first_some(
                opt_view(p.executor),
                task_text(ct, |t: TaskRecord| opt_view(t.executor)),
            )
            &&& opt_view(v.execution) == first_some(
                opt_view(p.execution),
                task_text(ct, |t: TaskRecord| opt_view(t.execution)),
            )
            &&& opt_view(v.intent_summary) == first_some(
                opt_view(p.intent_summary),
                task_text(ct, |t: TaskRecord| opt_view(t.intent_summary)),
            )
            &&& v.next == p.next
            &&& v.updated_at@ == match ct {
                Some(t) => t.updated_at@,
                None => row.updated_at@,
            }
        }
}

/// What a fresh workspace needs to resume a track: its record and metadata, its brief
/// sections and plan, and who runs it and what comes next, as its derived runtime status says,
/// else as its latest task says.
pub open spec fn resume_is(store: RuntimeStore, track_id: Seq<char>, v: TrackResumeView) -> bool {
    let row = row_with(store.track_rows(), track_id);
    let meta = row.track_type is Some;
    &&& v.source@ == "emberflow-canonical-state"@
    &&& v.track_id@ == track_id
    &&& v.title == row.title
    &&& v.status@ == row.status@
    &&& opt_view(v.track_type) == opt_view(row.track_type)
    &&& opt_view(v.description) == (if meta {
        Some(crate::store::text_or_empty(row.description))
    } else {
        None
    })
    &&& opt_view(v.branch) == (if meta {
        Some(crate::store::text_or_empty(row.branch))
    } else {
        None
    })
    &&& opt_view(v.spec_ref) == (if meta {
        opt_view(row.spec_ref)
    } else {
        None
    })
    &&& v.summary_sections@ == store.section_rows().filter(
        |s: crate::records::SectionRow| s.track_id@ == track_id,
    ).map_values(|s: crate::records::SectionRow| crate::store::section_record_of(s))
    &&& crate::store::plan_of_rows(v.plan, track_id, store.phase_rows(), store.item_rows())
    &&& exists|p: RuntimeStatusProjection, lt: Option<TaskRecord>|
        #![trigger derived_runtime_is(store, track_id, p), is_latest_task(store, track_id, lt)]
        {
            &&& derived_runtime_is(store, track_id, p)
            &&& is_latest_task(store, track_id, lt)
            &&& opt_view(v.task_id) == first_some(
                opt_view(p.task_id),
                task_text(lt, |t: TaskRecord| Some(t.id@)),
            )
            &&& opt_view(v.executor) == first_some(
                opt_view(p.executor),
                task_text(lt, |t: TaskRecord| opt_view(t.executor)),
            )
            &&& opt_view(v.execution) == first_some(
                opt_view(p.execution),
                task_text(lt, |t: TaskRecord| opt_view(t.execution)),
            )
            &&& opt_view(v.intent_summary) == first_some(
                opt_view(p.intent_summary),
                task_text(lt, |t: TaskRecord| opt_view(t.intent_summary)),
            )
            &&& v.next == p.next
            &&& opt_view(v.current_phase) == opt_view(p.phase)
        }
}

/// Who runs a track and what comes next, as an overview entry or a resume view shows it: what
/// the derived runtime status `p` says (when there is one), else what the latest task `lt`
/// says.
pub open spec fn runner_fields(
    p: Option<RuntimeStatusProjection>,
    lt: Option<TaskRecord>,
    executor: Option<Seq<char>>,
    execution: Option<Seq<char>>,
    intent_summary: Option<Seq<char>>,
    next: Option<Seq<char>>,
) -> bool {
    let pf = |f: spec_fn(RuntimeStatusProjection) -> Option<Seq<char>>|
        match p {
            Some(x) => f(x),
            None => None,
        };
    &&& executor == first_some(
        pf(|x: RuntimeStatusProjection| opt_view(x.executor)),
        task_text(lt, |t: TaskRecord| opt_view(t.executor)),
    )
    &&& execution == first_some(
        pf(|x: RuntimeStatusProjection| opt_view(x.execution)),
        task_text(lt, |t: TaskRecord| opt_view(t.execution)),
    )
    &&& intent_summary == first_some(
        pf(|x: RuntimeStatusProjection| opt_view(x.intent_summary)),
        task_text(lt, |t: TaskRecord| opt_view(t.intent_summary)),
    )
    &&& next == pf(|x: RuntimeStatusProjection| opt_view(x.next))
}

/// One overview entry for the stored track `row`: its id, title, status and update time, its
/// type and description when it has metadata, and who runs it and what comes next.
pub open spec fn overview_entry_is(
    store: RuntimeStore,
    row: crate::records::TrackRow,
    e: WorkspaceOverviewTrack,
) -> bool {
    let id = row.id@;
    &&& e.track_id@ == id
    &&& e.title@ == row.title@
    &&& e.status@ == row.status@
    &&& e.updated_at@ == row.updated_at@
    &&& opt_view(e.track_type) == opt_view(row.track_type)
    &&& opt_view(e.description) == (if row.track_type is Some {
        Some(crate::store::text_or_empty(row.description))
    } else {
        None
    })
    &&& exists|p: Option<RuntimeStatusProjection>, lt: Option<TaskRecord>|
        #![trigger runner_fields(p, lt, opt_view(e.executor), opt_view(e.execution), opt_view(e.intent_summary), opt_view(e.next))]
        {
            &&& is_latest_task(store, id, lt)
            &&& (p is Some <==> runtime_status_available(store, id))
            &&& (p matches Some(x) ==> derived_runtime_is(store, id, x))
            &&& runner_fields(
                p,
                lt,
                opt_view(e.executor),
                opt_view(e.execution),
                opt_view(e.intent_summary),
                opt_view(e.next),
            )
        }
}

/// The workspace overview: one entry for each track that is not archived, in order.
pub open spec fn overview_is(store: RuntimeStore, mode: EmberFlowMode, o: WorkspaceOverview) -> bool {
    let active = store.track_rows().filter(|t: crate::records::TrackRow| t.status@ != "archived"@);
    &&& o.source@ == "emberflow-canonical-state"@
    &&& o.projection_mode@ == (if mode is Canonical {
        "canonical"@
    } else {
        "projected"@
    })
    &&& o.tracks@.len() == active.len()
    &&& forall|i: int| 0 <= i < o.tracks@.len() ==> (#[trigger] o.tracks@[i]).track_id@ == active[i].id@
    &&& forall|i: int|
        0 <= i < o.tracks@.len() ==> overview_entry_is(store, active[i], #[trigger] o.tracks@[i])
}

/// The first of two optional values that is present.
fn opt_first(a: Option<String>, b: Option<String>) -> (r: Option<String>)
    ensures
        opt_view(r) == first_some(opt_view(a), opt_view(b)),
{
    match a {
        Some(x) => Some(x),
        None => b,
    }
}

impl EmberFlowRuntime {
    /// The active tracks of the workspace, each with its metadata and what its runtime status
    /// (else its latest task) says.
    pub fn read_workspace_overview(&self) -> (r: Result<WorkspaceOverview, EmberFlowError>)
        requires
            self.store.wf(),
        ensures
            r matches Ok(o) && overview_is(self.store, self.layout.mode, o),
    {
        let active = self.store.list_active_tracks()?;
        let ghost pred = |t: crate::records::TrackRow| t.status@ != "archived"@;
        let ghost act = self.store.track_rows().filter(pred);
        let mut tracks: Vec<WorkspaceOverviewTrack> = Vec::new();
        let mut i: usize = 0;
        while i < active.len()
            invariant
                i <= active@.len(),
                self.store.wf(),
                act == self.store.track_rows().filter(pred),
                active@ == act.map_values(|t: crate::records::TrackRow| crate::store::track_record_of(t)),
                tracks@.len() == i,
                forall|k: int| 0 <= k < i ==> (#[trigger] tracks@[k]).track_id@ == act[k].id@,
                forall|k: int| 0 <= k < i ==> overview_entry_is(self.store, act[k], #[trigger] tracks@[k]),
            decreases active@.len() - i,
        {
            let track = &active[i];
            proof {
                let row = act[i as int];
                assert(track == crate::store::track_record_of(row));
                assert(act.contains(row));
                self.store.track_rows().lemma_filter_contains_rev(pred, row);
                assert(self.store.track_rows().contains(row));
                let j = choose|j: int| 0 <= j < self.store.track_rows().len() && self.store.track_rows()[j] == row;
                crate::store::lemma_row_with(self.store.track_rows(), row.id@, j);
            }
            let metadata = self.store.get_track_metadata_optional(track.id.as_str())?;
            let runtime = match self.get_runtime_status(track.id.as_str()) {
                Ok(rt) => Some(rt),
                Err(_) => None,
            };
            let latest_task = self.store.get_latest_task_for_track(track.id.as_str())?;
            let ghost gp = runtime;
            let ghost glt = latest_task;
            let (rt_exec, rt_execution, rt_intent, rt_next) = match runtime {
                Some(rt) => (rt.executor, rt.execution, rt.intent_summary, rt.next),
                None => (None, None, None, None),
            };
            let (lt_exec, lt_execution, lt_intent) = match latest_task {
                Some(t) => (t.executor, t.execution, t.intent_summary),
                None => (None, None, None),
            };
            let entry = WorkspaceOverviewTrack {
                track_id: track.id.clone(),
                title: track.title.clone(),
                track_type: match &metadata {
                    Some(m) => Some(m.track_type.clone()),
                    None => None,
                },
                status: match &metadata {
                    Some(m) => m.status.clone(),
                    None => track.status.clone(),
                },
                description: match &metadata {
                    Some(m) => Some(m.description.clone()),
                    None => None,
                },
                updated_at: match &metadata {
                    Some(m) => m.updated_at.clone(),
                    None => track.updated_at.clone(),
                },
                executor: opt_first(rt_exec, lt_exec),
                execution: opt_first(rt_execution, lt_execution),
                intent_summary: opt_first(rt_intent, lt_intent),
                next: rt_next,
            };
            proof {
                let row = act[i as int];
                assert(is_latest_task(self.store, row.id@, glt));
                assert(runner_fields(
                    gp,
                    glt,
                    opt_view(entry.executor),
                    opt_view(entry.execution),
                    opt_view(entry.intent_summary),
                    opt_view(entry.next),
                ));
                assert(overview_entry_is(self.store, row, entry));
            }
            tracks.push(entry);
            i += 1;
        }
        Ok(
            WorkspaceOverview {
                source: owned("emberflow-canonical-state"),
                projection_mode: owned(self.layout.mode.as_str()),
                tracks,
            },
        )
    }

    /// What a fresh workspace needs to resume a track: its record and metadata, its brief
    /// sections and plan, and what its runtime status (else its latest task) says.
    pub fn read_track_resume(&self, track_id: &str) -> (r: Result<TrackResumeView, EmberFlowError>)
        requires
            self.store.wf(),
        ensures
            r is Ok <==> has_row(self.store.track_rows(), track_id@) && runtime_status_available(
                self.store,
                track_id@,
            ),
            !has_row(self.store.track_rows(), track_id@) ==> (r matches Err(e) && is_not_found(
                e,
                track_id@,
            )),
            r matches Ok(v) ==> resume_is(self.store, track_id@, v),
    {
        let track = self.store.get_track(track_id)?;
        let metadata = self.store.get_track_metadata_optional(track_id)?;
        let brief = self.store.get_track_brief(track_id)?;
        let plan = self.store.get_track_plan(track_id)?;
        let runtime = self.get_runtime_status(track_id)?;
        let latest_task = self.store.get_latest_task_for_track(track_id)?;
        let ghost lt = latest_task;
        let ghost p = runtime;
        proof {
            assert(is_latest_task(self.store, track_id@, lt));
            assert(derived_runtime_is(self.store, track_id@, p));
        }
        let (lt_id, lt_exec, lt_execution, lt_intent) = match latest_task {
            Some(t) => (Some(t.id), t.executor, t.execution, t.intent_summary),
            None => (None, None, None, None),
        };
        Ok(
            TrackResumeView {
                source: owned("emberflow-canonical-state"),
                track_id: track.id.clone(),
                title: track.title,
                track_type: match &metadata {
                    Some(m) => Some(m.track_type.clone()),
                    None => None,
                },
                status: match &metadata {
                    Some(m) => m.status.clone(),
                    None => track.status,
                },
                description: match &metadata {
                    Some(m) => Some(m.description.clone()),
                    None => None,
                },
                branch: match &metadata {
                    Some(m) => Some(m.branch.clone()),
                    None => None,
                },
                spec_ref: match &metadata {
                    Some(m) => opt_copy(&m.spec_ref),
                    None => None,
                },
                summary_sections: brief.sections,
                current_phase: opt_copy(&runtime.phase),
                plan,
                task_id: opt_first(runtime.task_id, lt_id),
                executor: opt_first(runtime.executor, lt_exec),
                execution: opt_first(runtime.execution, lt_execution),
                intent_summary: opt_first(runtime.intent_summary, lt_intent),
                next: runtime.next,
            },
        )
    }

    /// The state of a track as a client displays it: its status and what its runtime status
    /// (else its current task) says.
    pub fn read_track_transparency(&self, track_id: &str) -> (r: Result<
        TrackTransparencyView,
        EmberFlowError,
    >)
        requires
            self.store.wf(),
        ensures
            r is Ok <==> has_row(self.store.track_rows(), track_id@) && runtime_status_available(
                self.store,
                track_id@,
            ),
            !has_row(self.store.track_rows(), track_id@) ==> (r matches Err(e) && is_not_found(
                e,
                track_id@,
            )),
            r matches Ok(v) ==> transparency_is(self.store, track_id@, v),
    {
        let track = self.store.get_track(track_id)?;
        let metadata = self.store.get_track_metadata_optional(track_id)?;
        let runtime = self.get_runtime_status(track_id)?;
        let current_task = match &runtime.task_id {
            Some(t) => Some(self.store.get_task(t.as_str())?),
            None => self.store.get_latest_task_for_track(track_id)?,
        };
        let track_status = match &metadata {
            Some(m) => m.status.clone(),
            None => track.status.clone(),
        };
        let updated_at = match &current_task {
            Some(t) => t.updated_at.clone(),
            None => match &metadata {
                Some(m) => m.updated_at.clone(),
                None => track.updated_at.clone(),
            },
        };
        let ghost ct = current_task;
        let ghost p = runtime;
        proof {
            assert(current_task_is(self.store, track_id@, p, ct));
        }
        let (ct_id, ct_status, ct_phase, ct_exec, ct_execution, ct_intent) = match current_task {
            Some(t) => (Some(t.id), Some(t.status), Some(t.phase), t.executor, t.execution, t.intent_summary),
            None => (None, None, None, None, None, None),
        };
        let v = TrackTransparencyView {
            source: owned("emberflow-canonical-state"),
            track_id: track.id,
            task_id: opt_first(runtime.task_id, ct_id),
            track_status,
            task_status: opt_first(runtime.status, ct_status),
            phase: opt_first(runtime.phase, ct_phase),
            executor: opt_first(runtime.executor, ct_exec),
            execution: opt_first(runtime.execution, ct_execution),
            intent_summary: opt_first(runtime.intent_summary, ct_intent),
            next: runtime.next,
            updated_at,
        };
        proof {
            assert(derived_runtime_is(self.store, track_id@, p));
            assert(opt_view(v.task_id) == first_some(
                opt_view(p.task_id),
                task_text(ct, |t: TaskRecord| Some(t.id@)),
            ));
            assert(opt_view(v.executor) == first_some(
                opt_view(p.executor),
                task_text(ct, |t: TaskRecord| opt_view(t.executor)),
            ));
        }
        Ok(v)
    }

    /// The events of a track, oldest first.
    pub fn track_events(&self, track_id: &str) -> (r: Result<EventFeed, EmberFlowError>)
        ensures
            r matches Ok(f) && track_feed_is(self.store, track_id@, f),
    {
        let items = self.store.list_events(Some(track_id), None, None)?;
        Ok(EventFeed { track_id: Some(owned(track_id)), task_id: None, items })
    }

    /// The events of a task, oldest first, with the task's track.
    pub fn task_events(&self, task_id: &str) -> (r: Result<EventFeed, EmberFlowError>)
        requires
            self.store.wf(),
        ensures
            r is Ok <==> has_row(self.store.task_rows(), task_id@),
            r matches Err(e) ==> is_not_found(e, task_id@),
            r matches Ok(f) ==> task_feed_is(self.store, task_id@, f),
    {
        let task = self.store.get_task(task_id)?;
        let items = self.store.list_events(None, Some(task_id), None)?;
        Ok(EventFeed { track_id: task.track_id, task_id: Some(owned(task_id)), items })
    }
}


/// The JSON of a runtime status.
pub open spec fn runtime_json(r: RuntimeStatusProjection) -> JsonV {
    JsonV::Obj(
        seq![
            ("trackId"@, JsonV::Str(r.track_id@)),
            ("taskId"@, jopt_spec(opt_view(r.task_id))),
            ("targetPath"@, JsonV::Str(r.target_path@)),
            ("statusLine"@, JsonV::Str(r.status_line@)),
            ("status"@, jopt_spec(opt_view(r.status))),
            ("phase"@, jopt_spec(opt_view(r.phase))),
            ("next"@, jopt_spec(opt_view(r.next))),
            ("executor"@, jopt_spec(opt_view(r.executor))),
            ("execution"@, jopt_spec(opt_view(r.execution))),
            ("intentSummary"@, jopt_spec(opt_view(r.intent_summary))),
            ("source"@, JsonV::Str(r.source@)),
        ],
    )
}

/// The JSON of a transparency view.
pub open spec fn transparency_json(v: TrackTransparencyView) -> JsonV {
    JsonV::Obj(
        seq![
            ("source"@, JsonV::Str(v.source@)),
            ("trackId"@, JsonV::Str(v.track_id@)),
            ("taskId"@, jopt_spec(opt_view(v.task_id))),
            ("trackStatus"@, JsonV::Str(v.track_status@)),
            ("taskStatus"@, jopt_spec(opt_view(v.task_status))),
            ("phase"@, jopt_spec(opt_view(v.phase))),
            ("executor"@, jopt_spec(opt_view(v.executor))),
            ("execution"@, jopt_spec(opt_view(v.execution))),
            ("intentSummary"@, jopt_spec(opt_view(v.intent_summary))),
            ("next"@, jopt_spec(opt_view(v.next))),
            ("updatedAt"@, JsonV::Str(v.updated_at@)),
        ],
    )
}

/// The JSON of a task visibility view.
pub open spec fn visibility_json(v: TaskVisibilityView) -> JsonV {
    JsonV::Obj(
        seq![
            ("source"@, JsonV::Str(v.source@)),
            ("taskId"@, JsonV::Str(v.task_id@)),
            ("trackId"@, jopt_spec(opt_view(v.track_id))),
            ("title"@, JsonV::Str(v.title@)),
            ("status"@, JsonV::Str(v.status@)),
            ("phase"@, JsonV::Str(v.phase@)),
            ("executor"@, jopt_spec(opt_view(v.executor))),
            ("execution"@, jopt_spec(opt_view(v.execution))),
            ("intentSummary"@, jopt_spec(opt_view(v.intent_summary))),
            ("trackStatus"@, jopt_spec(opt_view(v.track_status))),
            ("next"@, jopt_spec(opt_view(v.next))),
            ("updatedAt"@, JsonV::Str(v.updated_at@)),
            ("leaseHolder"@, jopt_spec(opt_view(v.lease_holder))),
            ("leaseExpiresAt"@, jopt_spec(opt_view(v.lease_expires_at))),
        ],
    )
}

/// The JSON of one track of the workspace overview.
pub open spec fn overview_track_json(t: WorkspaceOverviewTrack) -> JsonV {
    JsonV::Obj(
        seq![
            ("trackId"@, JsonV::Str(t.track_id@)),
            ("title"@, JsonV::Str(t.title@)),
            ("trackType"@, jopt_spec(opt_view(t.track_type))),
            ("status"@, JsonV::Str(t.status@)),
            ("description"@, jopt_spec(opt_view(t.description))),
            ("updatedAt"@, JsonV::Str(t.updated_at@)),
            ("executor"@, jopt_spec(opt_view(t.executor))),
            ("execution"@, jopt_spec(opt_view(t.execution))),
            ("intentSummary"@, jopt_spec(opt_view(t.intent_summary))),
            ("next"@, jopt_spec(opt_view(t.next))),
        ],
    )
}

/// The JSON of the workspace overview.
pub open spec fn overview_json(o: WorkspaceOverview) -> JsonV {
    JsonV::Obj(
        seq![
            ("source"@, JsonV::Str(o.source@)),
            ("projectionMode"@, JsonV::Str(o.projection_mode@)),
            ("tracks"@, JsonV::Arr(o.tracks@.map_values(|t: WorkspaceOverviewTrack| overview_track_json(t)))),
        ],
    )
}

/// The JSON of an event in a feed.
pub open spec fn feed_json(f: EventFeed) -> JsonV {
    JsonV::Obj(
        seq![
            ("source"@, JsonV::Str("emberflow-canonical-state"@)),
            ("trackId"@, jopt_spec(opt_view(f.track_id))),
            ("taskId"@, jopt_spec(opt_view(f.task_id))),
            ("items"@, JsonV::Arr(f.items@.map_values(|e: EventRecord| crate::views::event_json(e)))),
        ],
    )
}

/// The JSON of a track context.
pub open spec fn context_json(c: TrackContextRecord) -> JsonV {
    JsonV::Obj(
        seq![
            ("trackId"@, JsonV::Str(c.track_id@)),
            ("metadata"@, crate::views::metadata_json(c.metadata)),
            ("brief"@, crate::views::brief_json(c.brief)),
            ("plan"@, crate::views::plan_json(c.plan)),
        ],
    )
}

/// The JSON of a resume view.
pub open spec fn resume_json(v: TrackResumeView) -> JsonV {
    JsonV::Obj(
        seq![
            ("source"@, JsonV::Str(v.source@)),
            ("trackId"@, JsonV::Str(v.track_id@)),
            ("title"@, JsonV::Str(v.title@)),
            ("trackType"@, jopt_spec(opt_view(v.track_type))),
            ("status"@, JsonV::Str(v.status@)),
            ("description"@, jopt_spec(opt_view(v.description))),
            ("branch"@, jopt_spec(opt_view(v.branch))),
            ("specRef"@, jopt_spec(opt_view(v.spec_ref))),
            ("summarySections"@, JsonV::Arr(v.summary_sections@.map_values(|s: TrackBriefSectionRecord| crate::views::section_json(s)))),
            ("plan"@, crate::views::plan_json(v.plan)),
            ("taskId"@, jopt_spec(opt_view(v.task_id))),
            ("executor"@, jopt_spec(opt_view(v.executor))),
            ("execution"@, jopt_spec(opt_view(v.execution))),
            ("intentSummary"@, jopt_spec(opt_view(v.intent_summary))),
            ("next"@, jopt_spec(opt_view(v.next))),
            ("currentPhase"@, jopt_spec(opt_view(v.current_phase))),
        ],
    )
}

/// The JSON of a runtime status.
pub fn runtime_to_json(r: &RuntimeStatusProjection) -> (j: JsonValue)
    ensures
        j@ == runtime_json(*r),
{
    let m = vec![
        member("trackId", jstr(r.track_id.as_str())),
        member("taskId", jopt(&r.task_id)),
        member("targetPath", jstr(r.target_path.as_str())),
        member("statusLine", jstr(r.status_line.as_str())),
        member("status", jopt(&r.status)),
        member("phase", jopt(&r.phase)),
        member("next", jopt(&r.next)),
        member("executor", jopt(&r.executor)),
        member("execution", jopt(&r.execution)),
        member("intentSummary", jopt(&r.intent_summary)),
        member("source", jstr(r.source.as_str())),
    ];
    proof {
        lemma_json_view_members(m@);
        assert(json_view_members(m@) =~= runtime_json(*r)->Obj_0);
    }
    JsonValue::Obj(m)
}

/// The JSON of a transparency view.
pub fn transparency_to_json(v: &TrackTransparencyView) -> (j: JsonValue)
    ensures
        j@ == transparency_json(*v),
{
    let m = vec![
        member("source", jstr(v.source.as_str())),
        member("trackId", jstr(v.track_id.as_str())),
        member("taskId", jopt(&v.task_id)),
        member("trackStatus", jstr(v.track_status.as_str())),
        member("taskStatus", jopt(&v.task_status)),
        member("phase", jopt(&v.phase)),
        member("executor", jopt(&v.executor)),
        member("execution", jopt(&v.execution)),
        member("intentSummary", jopt(&v.intent_summary)),
        member("next", jopt(&v.next)),
        member("updatedAt", jstr(v.updated_at.as_str())),
    ];
    proof {
        lemma_json_view_members(m@);
        assert(json_view_members(m@) =~= transparency_json(*v)->Obj_0);
    }
    JsonValue::Obj(m)
}

/// The JSON of a task visibility view.
pub fn visibility_to_json(v: &TaskVisibilityView) -> (j: JsonValue)
    ensures
        j@ == visibility_json(*v),
{
    let m = vec![
        member("source", jstr(v.source.as_str())),
        member("taskId", jstr(v.task_id.as_str())),
        member("trackId", jopt(&v.track_id)),
        member("title", jstr(v.title.as_str())),
        member("status", jstr(v.status.as_str())),
        member("phase", jstr(v.phase.as_str())),
        member("executor", jopt(&v.executor)),
        member("execution", jopt(&v.execution)),
        member("intentSummary", jopt(&v.intent_summary)),
        member("trackStatus", jopt(&v.track_status)),
        member("next", jopt(&v.next)),
        member("updatedAt", jstr(v.updated_at.as_str())),
        member("leaseHolder", jopt(&v.lease_holder)),
        member("leaseExpiresAt", jopt(&v.lease_expires_at)),
    ];
    proof {
        lemma_json_view_members(m@);
        assert(json_view_members(m@) =~= visibility_json(*v)->Obj_0);
    }
    JsonValue::Obj(m)
}

fn overview_track_to_json(t: &WorkspaceOverviewTrack) -> (j: JsonValue)
    ensures
        j@ == overview_track_json(*t),
{
    let m = vec![
        member("trackId", jstr(t.track_id.as_str())),
        member("title", jstr(t.title.as_str())),
        member("trackType", jopt(&t.track_type)),
        member("status", jstr(t.status.as_str())),
        member("description", jopt(&t.description)),
        member("updatedAt", jstr(t.updated_at.as_str())),
        member("executor", jopt(&t.executor)),
        member("execution", jopt(&t.execution)),
        member("intentSummary", jopt(&t.intent_summary)),
        member("next", jopt(&t.next)),
    ];
    proof {
        lemma_json_view_members(m@);
        assert(json_view_members(m@) =~= overview_track_json(*t)->Obj_0);
    }
    JsonValue::Obj(m)
}

fn overview_tracks_to_json(v: &Vec<WorkspaceOverviewTrack>) -> (r: Vec<JsonValue>)
    ensures
        json_view_seq(r@) == v@.map_values(|x: WorkspaceOverviewTrack| overview_track_json(x)),
{
    let mut items: Vec<JsonValue> = Vec::new();
    let mut i: usize = 0;
    while i < v.len()
        invariant
            i <= v@.len(),
            json_view_seq(items@) == v@.take(i as int).map_values(|x: WorkspaceOverviewTrack| overview_track_json(x)),
        decreases v@.len() - i,
    {
        let ghost before = items@;
        items.push(overview_track_to_json(&v[i]));
        proof {
            lemma_json_view_seq(before);
            lemma_json_view_seq(items@);
            assert forall|k: int| 0 <= k < i + 1 implies json_view_seq(items@)[k] == v@.take(
                i + 1,
            ).map_values(|x: WorkspaceOverviewTrack| overview_track_json(x))[k] by {
                if k < i {
                    assert(items@[k] == before[k]);
                    assert(json_view_seq(before)[k] == v@.take(i as int).map_values(
                        |x: WorkspaceOverviewTrack| overview_track_json(x),
                    )[k]);
                }
            }
            assert(json_view_seq(items@) =~= v@.take(i + 1).map_values(|x: WorkspaceOverviewTrack| overview_track_json(x)));
        }
        i += 1;
    }
    proof {
        assert(v@.take(v@.len() as int) =~= v@);
    }
    items
}

fn events_to_json(v: &Vec<EventRecord>) -> (r: Vec<JsonValue>)
    ensures
        json_view_seq(r@) == v@.map_values(|x: EventRecord| crate::views::event_json(x)),
{
    let mut items: Vec<JsonValue> = Vec::new();
    let mut i: usize = 0;
    while i < v.len()
        invariant
            i <= v@.len(),
            json_view_seq(items@) == v@.take(i as int).map_values(|x: EventRecord| crate::views::event_json(x)),
        decreases v@.len() - i,
    {
        let ghost before = items@;
        items.push(event_to_json(&v[i]));
        proof {
            lemma_json_view_seq(before);
            lemma_json_view_seq(items@);
            assert forall|k: int| 0 <= k < i + 1 implies json_view_seq(items@)[k] == v@.take(
                i + 1,
            ).map_values(|x: EventRecord| crate::views::event_json(x))[k] by {
                if k < i {
                    assert(items@[k] == before[k]);
                    assert(json_view_seq(before)[k] == v@.take(i as int).map_values(
                        |x: EventRecord| crate::views::event_json(x),
                    )[k]);
                }
            }
            assert(json_view_seq(items@) =~= v@.take(i + 1).map_values(|x: EventRecord| crate::views::event_json(x)));
        }
        i += 1;
    }
    proof {
        assert(v@.take(v@.len() as int) =~= v@);
    }
    items
}

fn sections_to_json(v: &Vec<TrackBriefSectionRecord>) -> (r: Vec<JsonValue>)
    ensures
        json_view_seq(r@) == v@.map_values(|x: TrackBriefSectionRecord| crate::views::section_json(x)),
{
    let mut items: Vec<JsonValue> = Vec::new();
    let mut i: usize = 0;
    while i < v.len()
        invariant
            i <= v@.len(),
            json_view_seq(items@) == v@.take(i as int).map_values(|x: TrackBriefSectionRecord| crate::views::section_json(x)),
        decreases v@.len() - i,
    {
        let ghost before = items@;
        items.push(crate::views::section_to_json(&v[i]));
        proof {
            lemma_json_view_seq(before);
            lemma_json_view_seq(items@);
            assert forall|k: int| 0 <= k < i + 1 implies json_view_seq(items@)[k] == v@.take(
                i + 1,
            ).map_values(|x: TrackBriefSectionRecord| crate::views::section_json(x))[k] by {
                if k < i {
                    assert(items@[k] == before[k]);
                    assert(json_view_seq(before)[k] == v@.take(i as int).map_values(
                        |x: TrackBriefSectionRecord| crate::views::section_json(x),
                    )[k]);
                }
            }
            assert(json_view_seq(items@) =~= v@.take(i + 1).map_values(|x: TrackBriefSectionRecord| crate::views::section_json(x)));
        }
        i += 1;
    }
    proof {
        assert(v@.take(v@.len() as int) =~= v@);
    }
    items
}

/// The JSON of the workspace overview.
pub fn overview_to_json(o: &WorkspaceOverview) -> (j: JsonValue)
    ensures
        j@ == overview_json(*o),
{
    let items = overview_tracks_to_json(&o.tracks);
    let m = vec![
        member("source", jstr(o.source.as_str())),
        member("projectionMode", jstr(o.projection_mode.as_str())),
        member("tracks", JsonValue::Arr(items)),
    ];
    proof {
        lemma_json_view_members(m@);
        assert(json_view_members(m@) =~= overview_json(*o)->Obj_0);
    }
    JsonValue::Obj(m)
}

/// The JSON of an event feed.
pub fn feed_to_json(f: &EventFeed) -> (j: JsonValue)
    ensures
        j@ == feed_json(*f),
{
    let items = events_to_json(&f.items);
    let m = vec![
        member("source", jstr("emberflow-canonical-state")),
        member("trackId", jopt(&f.track_id)),
        member("taskId", jopt(&f.task_id)),
        member("items", JsonValue::Arr(items)),
    ];
    proof {
        lemma_json_view_members(m@);
        assert(json_view_members(m@) =~= feed_json(*f)->Obj_0);
    }
    JsonValue::Obj(m)
}

/// The JSON of a track context.
pub fn context_to_json(c: &TrackContextRecord) -> (j: JsonValue)
    ensures
        j@ == context_json(*c),
{
    let m = vec![
        member("trackId", jstr(c.track_id.as_str())),
        member("metadata", metadata_to_json(&c.metadata)),
        member("brief", brief_to_json(&c.brief)),
        member("plan", plan_to_json(&c.plan)),
    ];
    proof {
        lemma_json_view_members(m@);
        assert(json_view_members(m@) =~= context_json(*c)->Obj_0);
    }
    JsonValue::Obj(m)
}

/// The JSON of a resume view.
pub fn resume_to_json(v: &TrackResumeView) -> (j: JsonValue)
    ensures
        j@ == resume_json(*v),
{
    let sections = sections_to_json(&v.summary_sections);
    let m = vec![
        member("source", jstr(v.source.as_str())),
        member("trackId", jstr(v.track_id.as_str())),
        member("title", jstr(v.title.as_str())),
        member("trackType", jopt(&v.track_type)),
        member("status", jstr(v.status.as_str())),
        member("description", jopt(&v.description)),
        member("branch", jopt(&v.branch)),
        member("specRef", jopt(&v.spec_ref)),
        member("summarySections", JsonValue::Arr(sections)),
        member("plan", plan_to_json(&v.plan)),
        member("taskId", jopt(&v.task_id)),
        member("executor", jopt(&v.executor)),
        member("execution", jopt(&v.execution)),
        member("intentSummary", jopt(&v.intent_summary)),
        member("next", jopt(&v.next)),
        member("currentPhase", jopt(&v.current_phase)),
    ];
    proof {
        lemma_json_view_members(m@);
        assert(json_view_members(m@) =~= resume_json(*v)->Obj_0);
    }
    JsonValue::Obj(m)
}

fn str_array(v: Vec<&'static str>) -> (j: JsonValue)
    ensures
        j@ == JsonV::Arr(views_of(v@).map_values(|s: Seq<char>| JsonV::Str(s))),
{
    let mut items: Vec<JsonValue> = Vec::new();
    let mut i: usize = 0;
    while i < v.len()
        invariant
            i <= v@.len(),
            json_view_seq(items@) == views_of(v@).take(i as int).map_values(
                |s: Seq<char>| JsonV::Str(s),
            ),
        decreases v@.len() - i,
    {
        let ghost before = items@;
        items.push(jstr(v[i]));
        proof {
            lemma_json_view_seq(before);
            lemma_json_view_seq(items@);
            assert forall|k: int| 0 <= k < i + 1 implies json_view_seq(items@)[k] == views_of(
                v@,
            ).take(i + 1).map_values(|s: Seq<char>| JsonV::Str(s))[k] by {
                if k < i {
                    assert(items@[k] == before[k]);
                    assert(json_view_seq(before)[k] == views_of(v@).take(i as int).map_values(
                        |s: Seq<char>| JsonV::Str(s),
                    )[k]);
                }
            }
            assert(json_view_seq(items@) =~= views_of(v@).take(i + 1).map_values(
                |s: Seq<char>| JsonV::Str(s),
            ));
        }
        i += 1;
    }
    proof {
        assert(views_of(v@).take(v@.len() as int) =~= views_of(v@));
    }
    JsonValue::Arr(items)
}

/// The static client contract, as its JSON shows it: where state lives, that clients
/// initialize first, that projected files are derived, that mutations go through EmberFlow,
/// and the resources to read.
pub open spec fn client_contract_is(j: JsonV) -> bool {
        j matches JsonV::Obj(m) && m.len() == 8 && m[0] == ("source"@, JsonV::Str(
            "emberflow-canonical-state"@,
        )) && m[1] == ("role"@, JsonV::Str("canonical tracked runtime and visibility layer"@))
            && m[2] == ("initializeFirst"@, JsonV::Bool(true)) && m[3] == ("projectedFiles"@,
        JsonV::Str("derived-only"@)) && m[4] == ("mutations"@, JsonV::Str(
            "through-emberflow-only"@,
        )) && m[6].0 == "resources"@ && m[6].1 == JsonV::Arr(
            resource_uris().map_values(|s: Seq<char>| JsonV::Str(s)),
        )
}

/// The static client contract: initialize first, read through resources, mutate only through
/// EmberFlow, treat projected files as derived, and how to display transparency.
pub fn client_contract_content() -> (j: JsonValue)
    ensures
        client_contract_is(j@),
{
    let views = resource_views();
    let mut uris: Vec<&'static str> = Vec::new();
    let mut i: usize = 0;
    while i < views.len()
        invariant
            i <= 12,
            views@.len() == 12,
            forall|k: int| 0 <= k < 12 ==> (#[trigger] views@[k]).uri_template@ == resource_uris()[k],
            uris@.len() == i,
            views_of(uris@) == resource_uris().take(i as int),
        decreases 12 - i,
    {
        let ghost before = uris@;
        uris.push(views[i].uri_template);
        proof {
            assert forall|k: int| 0 <= k < i + 1 implies views_of(uris@)[k] == resource_uris().take(
                i + 1,
            )[k] by {
                if k < i {
                    assert(uris@[k] == before[k]);
                    assert(views_of(before)[k] == resource_uris().take(i as int)[k]);
                }
            }
            assert(views_of(uris@) =~= resource_uris().take(i + 1));
        }
        i += 1;
    }
    proof {
        assert(resource_uris().take(12) =~= resource_uris());
    }
    let transparency = vec![
        member("resource", jstr("emberflow://tracks/{trackId}/transparency")),
        member(
            "requiredFields",
            str_array(vec!["source", "trackId", "trackStatus", "taskStatus", "phase", "next"]),
        ),
        member(
            "recommendedFields",
            str_array(vec!["taskId", "executor", "execution", "intentSummary", "updatedAt"]),
        ),
        member("reloadAfterMutation", JsonValue::Bool(true)),
        member("displayUnavailableAs", jstr("unavailable from EmberFlow")),
    ];
    let m = vec![
        member("source", jstr("emberflow-canonical-state")),
        member("role", jstr("canonical tracked runtime and visibility layer")),
        member("initializeFirst", JsonValue::Bool(true)),
        member("projectedFiles", jstr("derived-only")),
        member("mutations", jstr("through-emberflow-only")),
        member("readSequence", str_array(vec!["list_resources", "read_resource"])),
        member("resources", str_array(uris)),
        member("transparency", JsonValue::Obj(transparency)),
    ];
    proof {
        lemma_json_view_members(m@);
    }
    JsonValue::Obj(m)
}


/// Which resource a URI reads, with the track or task id it names: the workspace overview,
/// the client contract, a view of a track (`emberflow://tracks/<id>/<view>`) or of a task
/// (`emberflow://tasks/<id>/<view>`), tried in that order.
pub open spec fn resource_route(uri: Seq<char>) -> Option<(Seq<char>, Seq<char>)> {
    if uri == "emberflow://workspace/overview"@ {
        Some(("workspace-overview"@, Seq::empty()))
    } else if between(uri, "emberflow://tracks/"@, "/record"@) is Some {
        Some(("track-record"@, between(uri, "emberflow://tracks/"@, "/record"@)->0))
    } else if uri == "emberflow://protocol/client-contract"@ {
        Some(("client-contract"@, Seq::empty()))
    } else if between(uri, "emberflow://tracks/"@, "/resume"@) is Some {
        Some(("track-resume"@, between(uri, "emberflow://tracks/"@, "/resume"@)->0))
    } else if between(uri, "emberflow://tracks/"@, "/transparency"@) is Some {
        Some(("track-transparency"@, between(uri, "emberflow://tracks/"@, "/transparency"@)->0))
    } else if between(uri, "emberflow://tracks/"@, "/context"@) is Some {
        Some(("track-context"@, between(uri, "emberflow://tracks/"@, "/context"@)->0))
    } else if between(uri, "emberflow://tracks/"@, "/plan"@) is Some {
        Some(("track-plan"@, between(uri, "emberflow://tracks/"@, "/plan"@)->0))
    } else if between(uri, "emberflow://tracks/"@, "/brief"@) is Some {
        Some(("track-brief"@, between(uri, "emberflow://tracks/"@, "/brief"@)->0))
    } else if between(uri, "emberflow://tracks/"@, "/runtime"@) is Some {
        Some(("track-runtime"@, between(uri, "emberflow://tracks/"@, "/runtime"@)->0))
    } else if between(uri, "emberflow://tracks/"@, "/events"@) is Some {
        Some(("track-events"@, between(uri, "emberflow://tracks/"@, "/events"@)->0))
    } else if between(uri, "emberflow://tasks/"@, "/visibility"@) is Some {
        Some(("task-visibility"@, between(uri, "emberflow://tasks/"@, "/visibility"@)->0))
    } else if between(uri, "emberflow://tasks/"@, "/events"@) is Some {
        Some(("task-events"@, between(uri, "emberflow://tasks/"@, "/events"@)->0))
    } else {
        None
    }
}

/// The resource a URI reads, if any.
pub open spec fn route_name(uri: Seq<char>) -> Seq<char> {
    match resource_route(uri) {
        Some(route) => route.0,
        None => Seq::empty(),
    }
}

/// The track or task id a resource URI names.
pub open spec fn route_id(uri: Seq<char>) -> Seq<char> {
    match resource_route(uri) {
        Some(route) => route.1,
        None => Seq::empty(),
    }
}

/// What a resource read shows: for each route (see `resource_route`), the JSON of the view
/// that the route names, read from `store` for the track or task in the URI.
#[verifier::opaque]
pub open spec fn resource_content(store: RuntimeStore, mode: EmberFlowMode, uri: Seq<char>, c: JsonV) -> bool {
    let name = route_name(uri);
    let id = route_id(uri);
    if name == "workspace-overview"@ {
        exists|o: WorkspaceOverview| #[trigger] overview_is(store, mode, o) && c == overview_json(o)
    } else if name == "track-record"@ {
        c == crate::views::track_record_json(
            crate::store::track_record_of(row_with(store.track_rows(), id)),
        )
    } else if name == "client-contract"@ {
        client_contract_is(c)
    } else if name == "track-resume"@ {
        exists|v: TrackResumeView| #[trigger] resume_is(store, id, v) && c == resume_json(v)
    } else if name == "track-transparency"@ {
        exists|v: TrackTransparencyView| #[trigger] transparency_is(store, id, v) && c
            == transparency_json(v)
    } else if name == "track-context"@ {
        exists|v: TrackContextRecord| #[trigger] context_is(store, id, v) && c == context_json(v)
    } else if name == "track-plan"@ {
        exists|v: TrackPlanRecord|
            #[trigger] crate::store::plan_of_rows(v, id, store.phase_rows(), store.item_rows()) && c
                == crate::views::plan_json(v)
    } else if name == "track-brief"@ {
        exists|v: TrackBriefRecord| #[trigger] brief_is(store, id, v) && c == crate::views::brief_json(v)
    } else if name == "track-runtime"@ {
        exists|v: RuntimeStatusProjection| #[trigger] derived_runtime_is(store, id, v) && c
            == runtime_json(v)
    } else if name == "track-events"@ {
        exists|v: EventFeed| #[trigger] track_feed_is(store, id, v) && c == feed_json(v)
    } else if name == "task-visibility"@ {
        exists|v: TaskVisibilityView| #[trigger] visibility_is(store, id, v) && c
            == visibility_json(v)
    } else if name == "task-events"@ {
        exists|v: EventFeed| #[trigger] task_feed_is(store, id, v) && c == feed_json(v)
    } else {
        false
    }
}

/// A read of the resource at `uri`: it names the route's resource, with its description, in
/// JSON, with the content that `resource_content` says.
pub open spec fn resource_read_by(rt: EmberFlowRuntime, uri: Seq<char>, resp: ResourceReadResponse) -> bool {
    let name = route_name(uri);
    &&& resource_route(uri) is Some
    &&& resp.name@ == name
    &&& resp.uri@ == uri
    &&& resp.mime_type@ == "application/json"@
    &&& exists|i: int|
        0 <= i < 12 && resource_names()[i] == name && resp.description@
            == #[trigger] resource_descriptions()[i]
    &&& resource_content(rt.store, rt.layout.mode, uri, resp.content@)
}

/// What reading a resource by URI gives: an unknown URI is not found; a read names the route's
/// resource, in JSON, with the content that `resource_content` says; and for each route, when
/// the read succeeds.
pub open spec fn resource_read_outcome(
    rt: EmberFlowRuntime,
    uri: Seq<char>,
    r: Result<ResourceReadResponse, EmberFlowError>,
) -> bool {
    let name = route_name(uri);
    let id = route_id(uri);
    let tracks = rt.store.track_rows();
    let tasks = rt.store.task_rows();
    &&& resource_route(uri) is None ==> (r matches Err(e) && is_not_found(e, uri))
    &&& r matches Ok(resp) ==> resource_read_by(rt, uri, resp)
    &&& name == "track-record"@ ==> (r is Ok <==> has_row(tracks, id))
    &&& name == "client-contract"@ ==> r is Ok
    &&& name == "workspace-overview"@ ==> r is Ok
    &&& name == "track-runtime"@ ==> (r is Ok <==> runtime_status_available(rt.store, id))
    &&& name == "track-resume"@ || name == "track-transparency"@ ==> (r is Ok <==> has_row(
        tracks,
        id,
    ) && runtime_status_available(rt.store, id))
    &&& name == "track-events"@ ==> r is Ok
    &&& name == "track-brief"@ ==> (r is Ok <==> has_row(tracks, id))
    &&& name == "track-plan"@ ==> (r is Ok <==> has_row(tracks, id))
    &&& name == "track-context"@ ==> (r is Ok <==> has_row(tracks, id) && row_with(
        tracks,
        id,
    ).track_type is Some)
    &&& name == "track-resume"@ || name == "track-transparency"@ ==> (!has_row(tracks, id)
        ==> r is Err)
    &&& name == "task-visibility"@ ==> (r is Ok <==> has_row(tasks, id))
    &&& name == "task-events"@ ==> (r is Ok <==> has_row(tasks, id))
    &&& (name == "track-record"@ || name == "track-brief"@ || name == "track-plan"@) && !has_row(
        tracks,
        id,
    ) ==> (r matches Err(e) && is_not_found(e, id))
    &&& (name == "task-visibility"@ || name == "task-events"@) && !has_row(tasks, id) ==> (
    r matches Err(e) && is_not_found(e, id))
}

fn response(
    uri: &str,
    name: &'static str,
    description: &'static str,
    content: JsonValue,
) -> (r: ResourceReadResponse)
    ensures
        r.uri@ == uri@,
        r.name == name,
        r.description == description,
        r.mime_type@ == "application/json"@,
        r.content == content,
{
    ResourceReadResponse { uri: owned(uri), name, description, mime_type: "application/json", content }
}

impl EmberFlowRuntime {
    /// Reads a resource by URI (see `resource_route`); an unknown URI is not found.
    #[verifier::rlimit(100)]
    #[verifier::spinoff_prover]
    pub fn read_resource(&self, uri: &str) -> (r: Result<ResourceReadResponse, EmberFlowError>)
        requires
            self.store.wf(),
        ensures
            resource_route(uri@) is None ==> (r matches Err(e) && is_not_found(e, uri@)),
            r matches Ok(resp) ==> resource_route(uri@) is Some && resp.name@ == route_name(uri@)
                && resp.uri@ == uri@ && resp.mime_type@ == "application/json"@,
            r matches Ok(resp) ==> resource_content(self.store, self.layout.mode, uri@, resp.content@),
            r matches Ok(resp) ==> exists|i: int|
                0 <= i < 12 && resource_names()[i] == route_name(uri@) && resp.description@
                    == #[trigger] resource_descriptions()[i],
            route_name(uri@) == "track-record"@ ==> (r is Ok <==> has_row(
                self.store.track_rows(),
                route_id(uri@),
            )),
            route_name(uri@) == "client-contract"@ ==> r is Ok,
            route_name(uri@) == "workspace-overview"@ ==> r is Ok,
            route_name(uri@) == "track-runtime"@ ==> (r is Ok <==> runtime_status_available(
                self.store,
                route_id(uri@),
            )),
            route_name(uri@) == "track-resume"@ || route_name(uri@) == "track-transparency"@ ==> (
            r is Ok <==> has_row(self.store.track_rows(), route_id(uri@))
                && runtime_status_available(self.store, route_id(uri@))),
            route_name(uri@) == "track-events"@ ==> r is Ok,
            route_name(uri@) == "track-brief"@ ==> (r is Ok <==> has_row(
                self.store.track_rows(),
                route_id(uri@),
            )),
            route_name(uri@) == "track-plan"@ ==> (r is Ok <==> has_row(
                self.store.track_rows(),
                route_id(uri@),
            )),
            route_name(uri@) == "track-context"@ ==> (r is Ok <==> has_row(
                self.store.track_rows(),
                route_id(uri@),
            ) && row_with(self.store.track_rows(), route_id(uri@)).track_type is Some),
            route_name(uri@) == "track-resume"@ || route_name(uri@) == "track-transparency"@ ==> (
            !has_row(self.store.track_rows(), route_id(uri@)) ==> r is Err),
            route_name(uri@) == "task-visibility"@ ==> (r is Ok <==> has_row(
                self.store.task_rows(),
                route_id(uri@),
            )),
            route_name(uri@) == "task-events"@ ==> (r is Ok <==> has_row(
                self.store.task_rows(),
                route_id(uri@),
            )),
            (route_name(uri@) == "track-record"@ || route_name(uri@) == "track-brief"@
                || route_name(uri@) == "track-plan"@) && !has_row(
                self.store.track_rows(),
                route_id(uri@),
            ) ==> (r matches Err(e) && is_not_found(e, route_id(uri@))),
            (route_name(uri@) == "task-visibility"@ || route_name(uri@) == "task-events"@)
                && !has_row(self.store.task_rows(), route_id(uri@)) ==> (r matches Err(e)
                && is_not_found(e, route_id(uri@))),
    {
        let tracks = "emberflow://tracks/";
        let tasks = "emberflow://tasks/";
        proof {
            reveal_strlit("emberflow://workspace/overview");
            reveal_strlit("emberflow://protocol/client-contract");
            reveal_strlit("emberflow://tracks/");
            reveal_strlit("/record");
            reveal_strlit("workspace-overview");
            reveal_strlit("track-record");
            reveal_strlit("client-contract");
            reveal_strlit("track-resume");
            reveal_strlit("track-transparency");
            reveal_strlit("track-context");
            reveal_strlit("track-plan");
            reveal_strlit("track-brief");
            reveal_strlit("track-runtime");
            reveal_strlit("track-events");
            reveal_strlit("task-visibility");
            reveal_strlit("task-events");
            assert("track-resume"@[8] != "track-record"@[8]);
            assert("task-events"@[1] != "track-brief"@[1]);
            assert("track-runtime"@[6] != "track-context"@[6]);
            assert("client-contract"@[0] != "task-visibility"@[0]);
            assert("workspace-overview"@[0] != "track-transparency"@[0]);
            assert("track-events"@[6] != "track-resume"@[6]);
            assert("track-events"@[6] != "track-record"@[6]);
            let cc = "emberflow://protocol/client-contract"@;
            assert(cc.take(19)[12] != "emberflow://tracks/"@[12]);
            assert(between(cc, "emberflow://tracks/"@, "/record"@) is None);
        }
        if str_eq(uri, "emberflow://workspace/overview") {
            proof {
                assert(resource_route(uri@) == Some(("workspace-overview"@, Seq::<char>::empty())));
                assert("workspace-overview"@.len() != "track-record"@.len());
            }
            let overview = self.read_workspace_overview()?;
            let content = overview_to_json(&overview);
            proof {
                assert(resource_content(self.store, self.layout.mode, uri@, content@)) by {
                    reveal(resource_content);
                }
                assert(resource_names()[0] == "workspace-overview"@ && resource_descriptions()[0] == "Workspace-level canonical track overview from EmberFlow."@);
            }
            return Ok(response(uri, "workspace-overview", "Workspace-level canonical track overview from EmberFlow.", content));
        }
        if let Some(track_id) = crate::text::strip_between(uri, tracks, "/record") {
            let track = self.read_track(track_id.as_str())?;
            let content = track_record_to_json(&track);
            proof {
                assert(resource_content(self.store, self.layout.mode, uri@, content@)) by {
                    reveal(resource_content);
                }
                assert(resource_names()[1] == "track-record"@ && resource_descriptions()[1] == "Canonical track record from EmberFlow."@);
            }
            return Ok(response(uri, "track-record", "Canonical track record from EmberFlow.", content));
        }
        if str_eq(uri, "emberflow://protocol/client-contract") {
            let content = client_contract_content();
            proof {
                assert(resource_content(self.store, self.layout.mode, uri@, content@)) by {
                    reveal(resource_content);
                }
                assert(resource_names()[11] == "client-contract"@ && resource_descriptions()[11] == "Static client contract for EmberFlow bootstrap, mutation, and transparency."@);
            }
            return Ok(response(uri, "client-contract", "Static client contract for EmberFlow bootstrap, mutation, and transparency.", content));
        }
        if let Some(track_id) = crate::text::strip_between(uri, tracks, "/resume") {
            let view = self.read_track_resume(track_id.as_str())?;
            let content = resume_to_json(&view);
            proof {
                assert(resource_content(self.store, self.layout.mode, uri@, content@)) by {
                    reveal(resource_content);
                }
                assert(resource_names()[2] == "track-resume"@ && resource_descriptions()[2] == "Resume view for one track, combining metadata, summary, plan, and runtime visibility."@);
            }
            return Ok(response(uri, "track-resume", "Resume view for one track, combining metadata, summary, plan, and runtime visibility.", content));
        }
        if let Some(track_id) = crate::text::strip_between(uri, tracks, "/transparency") {
            proof {
                assert(route_name(uri@) == "track-transparency"@);
                assert("track-transparency"@.len() != "track-brief"@.len());
                assert("track-transparency"@.len() != "track-plan"@.len());
            }
            let view = self.read_track_transparency(track_id.as_str())?;
            let content = transparency_to_json(&view);
            proof {
                assert(resource_content(self.store, self.layout.mode, uri@, content@)) by {
                    reveal(resource_content);
                }
                assert(resource_names()[3] == "track-transparency"@ && resource_descriptions()[3] == "Display-ready canonical transparency state for one track."@);
            }
            return Ok(response(uri, "track-transparency", "Display-ready canonical transparency state for one track.", content));
        }
        if let Some(track_id) = crate::text::strip_between(uri, tracks, "/context") {
            let context = self.load_track_context(track_id.as_str())?;
            let content = context_to_json(&context);
            proof {
                assert(resource_content(self.store, self.layout.mode, uri@, content@)) by {
                    reveal(resource_content);
                }
                assert(resource_names()[4] == "track-context"@ && resource_descriptions()[4] == "Canonical track context combining metadata, brief, and plan."@);
            }
            return Ok(response(uri, "track-context", "Canonical track context combining metadata, brief, and plan.", content));
        }
        if let Some(track_id) = crate::text::strip_between(uri, tracks, "/plan") {
            proof {
                assert(route_name(uri@) == "track-plan"@);
                assert("task-visibility"@.len() != "track-plan"@.len());
                assert("task-events"@.len() != "track-plan"@.len());
            }
            let plan = self.list_track_plan(track_id.as_str())?;
            let content = plan_to_json(&plan);
            proof {
                assert(resource_content(self.store, self.layout.mode, uri@, content@)) by {
                    reveal(resource_content);
                }
                assert(resource_names()[6] == "track-plan"@ && resource_descriptions()[6] == "Canonical execution plan for one track."@);
            }
            return Ok(response(uri, "track-plan", "Canonical execution plan for one track.", content));
        }
        if let Some(track_id) = crate::text::strip_between(uri, tracks, "/brief") {
            let brief = self.read_track_brief(track_id.as_str())?;
            let content = brief_to_json(&brief);
            proof {
                assert(resource_content(self.store, self.layout.mode, uri@, content@)) by {
                    reveal(resource_content);
                    assert(route_name(uri@) == "track-brief"@);
                    assert(route_id(uri@) == track_id@);
                    assert(brief_is(self.store, route_id(uri@), brief));
                    assert(content@ == crate::views::brief_json(brief));
                }
                assert(resource_names()[5] == "track-brief"@ && resource_descriptions()[5] == "Canonical resume summary for one track."@);
            }
            return Ok(response(uri, "track-brief", "Canonical resume summary for one track.", content));
        }
        if let Some(track_id) = crate::text::strip_between(uri, tracks, "/runtime") {
            let runtime = self.get_runtime_status(track_id.as_str())?;
            let content = runtime_to_json(&runtime);
            proof {
                assert(resource_content(self.store, self.layout.mode, uri@, content@)) by {
                    reveal(resource_content);
                }
                assert(resource_names()[7] == "track-runtime"@ && resource_descriptions()[7] == "Current runtime projection for one track."@);
            }
            return Ok(response(uri, "track-runtime", "Current runtime projection for one track.", content));
        }
        if let Some(track_id) = crate::text::strip_between(uri, tracks, "/events") {
            let feed = self.track_events(track_id.as_str())?;
            let content = feed_to_json(&feed);
            proof {
                assert(resource_content(self.store, self.layout.mode, uri@, content@)) by {
                    reveal(resource_content);
                }
                assert(resource_names()[8] == "track-events"@ && resource_descriptions()[8] == "Canonical event feed for one track."@);
            }
            return Ok(response(uri, "track-events", "Canonical event feed for one track.", content));
        }
        if let Some(task_id) = crate::text::strip_between(uri, tasks, "/visibility") {
            proof {
                assert(route_name(uri@) == "task-visibility"@);
                assert("task-visibility"@.len() != "track-plan"@.len());
                assert("task-visibility"@.len() != "track-brief"@.len());
            }
            let visibility = self.read_task_visibility(task_id.as_str())?;
            let content = visibility_to_json(&visibility);
            proof {
                assert(resource_content(self.store, self.layout.mode, uri@, content@)) by {
                    reveal(resource_content);
                }
                assert(resource_names()[9] == "task-visibility"@ && resource_descriptions()[9] == "Task-level visibility fields plus current track status and next step when available."@);
            }
            return Ok(response(uri, "task-visibility", "Task-level visibility fields plus current track status and next step when available.", content));
        }
        if let Some(task_id) = crate::text::strip_between(uri, tasks, "/events") {
            let feed = self.task_events(task_id.as_str())?;
            let content = feed_to_json(&feed);
            proof {
                assert(resource_content(self.store, self.layout.mode, uri@, content@)) by {
                    reveal(resource_content);
                    assert(route_name(uri@) == "task-events"@);
                    assert(route_id(uri@) == task_id@);
                    assert(task_feed_is(self.store, route_id(uri@), feed));
                }
                assert(resource_names()[10] == "task-events"@ && resource_descriptions()[10] == "Canonical event feed for one task."@);
            }
            return Ok(response(uri, "task-events", "Canonical event feed for one task.", content));
        }
        proof {
            assert(resource_route(uri@) is None);
            assert(route_name(uri@) =~= Seq::<char>::empty());
        }
        Err(not_found(uri))
    }
}


/// A metadata text when the track has metadata and the text is not blank, else a fallback.
pub open spec fn meta_text_or(row: crate::records::TrackRow, text: Seq<char>, fallback: Seq<char>) -> Seq<char> {
    if row.track_type is Some && !is_blank_spec(text) {
        text
    } else {
        fallback
    }
}

/// The type a projected file shows for a track.
pub open spec fn shown_type(row: crate::records::TrackRow) -> Seq<char> {
    meta_text_or(row, crate::store::text_or_empty(row.track_type), "-"@)
}

/// The description a projected file shows for a track: its metadata description, else its title.
pub open spec fn shown_description(row: crate::records::TrackRow) -> Seq<char> {
    meta_text_or(row, crate::store::text_or_empty(row.description), row.title@)
}

/// The branch a projected file shows for a track.
pub open spec fn shown_branch(row: crate::records::TrackRow) -> Seq<char> {
    if row.track_type is Some {
        crate::store::text_or_empty(row.branch)
    } else {
        "-"@
    }
}

/// The summary file of a track.
pub open spec fn summary_markdown(
    row: crate::records::TrackRow,
    track_id: Seq<char>,
    sections: nat,
    phases: nat,
) -> Seq<char> {
    "# Track: "@ + track_id + "\n\n"@
        + "- [Brief](./brief.md) \u{2014} durable resume context\n"@
        + "- [Plan](./plan.md) \u{2014} implementation plan\n"@
        + "- [Metadata](./metadata.json) \u{2014} canonical track metadata\n\n"@
        + "## Summary\n"@ + "- Type: "@ + shown_type(row) + "\n"@ + "- Status: "@ + row.status@
        + "\n"@ + "- Description: "@ + shown_description(row) + "\n"@ + "- Branch: "@
        + shown_branch(row) + "\n"@ + "- Brief sections: "@ + crate::clock::decimal(sections)
        + "\n"@ + "- Plan phases: "@ + crate::clock::decimal(phases) + "\n"@
}

/// The line of the track list for one track.
pub open spec fn list_line(row: crate::records::TrackRow) -> Seq<char> {
    "| "@ + crate::text::escape_cell(row.id@) + " | "@ + crate::text::escape_cell(shown_type(row))
        + " | "@ + crate::text::escape_cell(row.status@) + " | "@ + crate::text::escape_cell(
        shown_description(row),
    ) + " | "@ + crate::text::escape_cell(row.created_at@) + " |\n"@
}

/// The lines of the track list.
pub open spec fn list_lines(rows: Seq<crate::records::TrackRow>) -> Seq<char>
    decreases rows.len(),
{
    if rows.len() == 0 {
        Seq::empty()
    } else {
        list_lines(rows.drop_last()) + list_line(rows.last())
    }
}

/// The header of the track list.
pub open spec fn list_header() -> Seq<char> {
    "# Project Tracks\n\n"@ + "| ID | Type | Status | Description | Created |\n"@
        + "|----|------|--------|-------------|---------|\n"@
}

fn usize_text(n: usize) -> (r: String)
    ensures
        r@ == crate::clock::decimal(n as nat),
{
    crate::clock::u64_decimal(n as u64)
}

impl EmberFlowRuntime {
    fn shown_texts(&self, track: &TrackRecord, metadata: &Option<TrackMetadataRecord>) -> (r: (
        String,
        String,
        String,
    ))
        requires
            self.store.wf(),
            has_row(self.store.track_rows(), track.id@),
            *track == crate::store::track_record_of(row_with(self.store.track_rows(), track.id@)),
            (metadata is Some <==> row_with(self.store.track_rows(), track.id@).track_type is Some),
            metadata.is_some() ==> crate::store::metadata_of_row(
                metadata->0,
                row_with(self.store.track_rows(), track.id@),
            ),
        ensures
            r.0@ == shown_type(row_with(self.store.track_rows(), track.id@)),
            r.1@ == shown_description(row_with(self.store.track_rows(), track.id@)),
            r.2@ == shown_branch(row_with(self.store.track_rows(), track.id@)),
    {
        match metadata {
            Some(m) => {
                let ty = if is_blank(m.track_type.as_str()) {
                    owned("-")
                } else {
                    m.track_type.clone()
                };
                let desc = if is_blank(m.description.as_str()) {
                    track.title.clone()
                } else {
                    m.description.clone()
                };
                (ty, desc, m.branch.clone())
            },
            None => (owned("-"), track.title.clone(), owned("-")),
        }
    }

    /// The summary file of a track.
    pub fn render_track_summary(&self, track_id: &str) -> (r: Result<String, EmberFlowError>)
        requires
            self.store.wf(),
        ensures
            r is Ok <==> has_row(self.store.track_rows(), track_id@),
            r matches Ok(text) ==> text@ == summary_markdown(
                row_with(self.store.track_rows(), track_id@),
                track_id@,
                self.store.section_rows().filter(
                    |s: crate::records::SectionRow| s.track_id@ == track_id@,
                ).len(),
                self.store.phase_rows().filter(
                    |p: crate::records::PhaseRow| p.track_id@ == track_id@,
                ).len(),
            ),
    {
        let track = self.store.get_track(track_id)?;
        let metadata = self.store.get_track_metadata_optional(track_id)?;
        let brief = self.store.get_track_brief(track_id)?;
        let plan = self.store.get_track_plan(track_id)?;
        let (ty, desc, branch) = self.shown_texts(&track, &metadata);
        let mut out = cat3("# Track: ", track_id, "\n\n");
        out.append("- [Brief](./brief.md) \u{2014} durable resume context\n");
        out.append("- [Plan](./plan.md) \u{2014} implementation plan\n");
        out.append("- [Metadata](./metadata.json) \u{2014} canonical track metadata\n\n");
        out.append("## Summary\n");
        out.append("- Type: ");
        out.append(ty.as_str());
        out.append("\n");
        out.append("- Status: ");
        out.append(track.status.as_str());
        out.append("\n");
        out.append("- Description: ");
        out.append(desc.as_str());
        out.append("\n");
        out.append("- Branch: ");
        out.append(branch.as_str());
        out.append("\n");
        out.append("- Brief sections: ");
        out.append(usize_text(brief.sections.len()).as_str());
        out.append("\n");
        out.append("- Plan phases: ");
        out.append(usize_text(plan.phases.len()).as_str());
        out.append("\n");
        proof {
            assert(brief.sections@.len() == self.store.section_rows().filter(
                |s: crate::records::SectionRow| s.track_id@ == track_id@,
            ).len());
            assert(out@ =~= summary_markdown(
                row_with(self.store.track_rows(), track_id@),
                track_id@,
                brief.sections@.len(),
                plan.phases@.len(),
            ));
        }
        Ok(out)
    }

    /// The track list file: one table row per active track, cells escaped.
    #[verifier::rlimit(40)]
    pub fn render_track_list(&self) -> (r: Result<String, EmberFlowError>)
        requires
            self.store.wf(),
        ensures
            r matches Ok(text) && text@ == list_header() + list_lines(
                self.store.track_rows().filter(|t: crate::records::TrackRow| t.status@ != "archived"@),
            ),
    {
        let active = self.store.list_active_tracks()?;
        let ghost act = self.store.track_rows().filter(
            |t: crate::records::TrackRow| t.status@ != "archived"@,
        );
        let mut out = owned("# Project Tracks\n\n");
        out.append("| ID | Type | Status | Description | Created |\n");
        out.append("|----|------|--------|-------------|---------|\n");
        let ghost head = out@;
        proof {
            assert(head =~= list_header());
        }
        let mut i: usize = 0;
        while i < active.len()
            invariant
                i <= active@.len(),
                self.store.wf(),
                active@ == act.map_values(|t: crate::records::TrackRow| crate::store::track_record_of(t)),
                act == self.store.track_rows().filter(
                    |t: crate::records::TrackRow| t.status@ != "archived"@,
                ),
                head == list_header(),
                out@ == head + list_lines(act.take(i as int)),
            decreases active@.len() - i,
        {
            let track = &active[i];
            let ghost row = act[i as int];
            proof {
                assert(act.contains(row));
                self.store.track_rows().lemma_filter_contains_rev(
                    |t: crate::records::TrackRow| t.status@ != "archived"@,
                    row,
                );
                assert(self.store.track_rows().contains(row));
                let k = choose|k: int|
                    0 <= k < self.store.track_rows().len() && self.store.track_rows()[k] == row;
                crate::store::lemma_row_with(self.store.track_rows(), row.id@, k);
                assert(track.id@ == row.id@);
            }
            let metadata = self.store.get_track_metadata_optional(track.id.as_str())?;
            let (ty, desc, _branch) = self.shown_texts(track, &metadata);
            let created = match &metadata {
                Some(m) => m.created_at.clone(),
                None => track.created_at.clone(),
            };
            out.append("| ");
            out.append(crate::text::escape_markdown_cell(track.id.as_str()).as_str());
            out.append(" | ");
            out.append(crate::text::escape_markdown_cell(ty.as_str()).as_str());
            out.append(" | ");
            out.append(crate::text::escape_markdown_cell(track.status.as_str()).as_str());
            out.append(" | ");
            out.append(crate::text::escape_markdown_cell(desc.as_str()).as_str());
            out.append(" | ");
            out.append(crate::text::escape_markdown_cell(created.as_str()).as_str());
            out.append(" |\n");
            proof {
                assert(act.take(i + 1).drop_last() =~= act.take(i as int));
                assert(act.take(i + 1).last() == row);
                assert(out@ =~= head + list_lines(act.take(i + 1)));
            }
            i += 1;
        }
        proof {
            assert(act.take(act.len() as int) =~= act);
        }
        Ok(out)
    }
}


/// The metadata file of a track: its metadata as JSON with the keys in sorted order, and a
/// line break.
pub open spec fn metadata_file(m: TrackMetadataRecord) -> Seq<char> {
    json_text(
        JsonV::Obj(
            seq![
                ("branch"@, JsonV::Str(m.branch@)),
                ("created_at"@, JsonV::Str(m.created_at@)),
                ("description"@, JsonV::Str(m.description@)),
                ("spec_ref"@, jopt_spec(opt_view(m.spec_ref))),
                ("status"@, JsonV::Str(m.status@)),
                ("track_id"@, JsonV::Str(m.track_id@)),
                ("track_type"@, JsonV::Str(m.track_type@)),
                ("updated_at"@, JsonV::Str(m.updated_at@)),
            ],
        ),
    ) + "\n"@
}

/// The bullet lines of the sections with the given key.
pub open spec fn section_bullets(sections: Seq<TrackBriefSectionRecord>, key: Seq<char>) -> Seq<char>
    decreases sections.len(),
{
    if sections.len() == 0 {
        Seq::empty()
    } else {
        section_bullets(sections.drop_last(), key) + if sections.last().section_key@ == key {
            "- "@ + sections.last().section_text@ + "\n"@
        } else {
            Seq::empty()
        }
    }
}

/// The brief file of a track.
pub open spec fn brief_markdown(
    title: Seq<char>,
    sections: Seq<TrackBriefSectionRecord>,
    root: Seq<char>,
    branch: Seq<char>,
) -> Seq<char> {
    "# Track Brief: "@ + title + "\n\n"@
        + "This brief is the durable human-readable resume context for the track.\n\n"@
        + "## Objective\n"@ + section_bullets(sections, "objective"@) + "\n## Context\n"@
        + section_bullets(sections, "context"@)
        + "\n## Decisions already made\n- <recorded decisions that should not be re-litigated>\n\n"@
        + "## Non-goals\n- <what is intentionally out of scope>\n\n"@
        + "## Current state\n- <what is done and what remains>\n\n"@
        + "## Workspace / branch / PR context\n"@ + "- Workspace: "@ + root + "\n- Branch: "@
        + branch + "\n- PRs: none\n\n"@ + "## Next step\n"@
        + "- <the very next action a fresh workspace should take>\n"@
}

/// The task lines of a plan phase.
pub open spec fn item_lines(items: Seq<crate::records::TrackPlanItemRecord>) -> Seq<char>
    decreases items.len(),
{
    if items.len() == 0 {
        Seq::empty()
    } else {
        item_lines(items.drop_last()) + "- [ ] Task: "@ + items.last().title@ + "\n"@
    }
}

/// The block of the `k`-th plan phase (counting from 1).
pub open spec fn phase_block(k: nat, p: crate::records::TrackPlanPhaseRecord) -> Seq<char> {
    "## Phase "@ + crate::clock::decimal(k) + ": "@ + p.title@ + "\n\n"@ + item_lines(p.items@)
        + "\n"@ + "- [ ] Task: Phase Completion -- Verify '"@ + p.title@ + "'\n\n"@
}

/// The blocks of the plan phases.
pub open spec fn phase_blocks(phases: Seq<crate::records::TrackPlanPhaseRecord>) -> Seq<char>
    decreases phases.len(),
{
    if phases.len() == 0 {
        Seq::empty()
    } else {
        phase_blocks(phases.drop_last()) + phase_block(phases.len(), phases.last())
    }
}

/// The note on task markers at the top of a plan file.
pub open spec fn plan_note() -> Seq<char> {
    "<!-- Task status markers:\n     [ ]  = pending\n     [~]  = in-progress\n     [x]  = completed\n\n     Completed tasks include the commit SHA:\n       - [x] Task: description (SHA: abc1234)\n\n     Phase headers get a checkpoint SHA once all tasks are verified:\n       ## Phase 1: Name [checkpoint: abc1234]\n\n     Phase completion tasks trigger the verification protocol:\n       run tests, manual check, create checkpoint commit.\n-->\n\n"@
}

/// The plan file of a track.
pub open spec fn plan_markdown(title: Seq<char>, phases: Seq<crate::records::TrackPlanPhaseRecord>) -> Seq<
    char,
> {
    "# Implementation Plan: "@ + title + "\n\n"@ + plan_note() + phase_blocks(phases)
}

/// The message for a dirty target of a track file that names no track.
pub open spec fn missing_track_message(what: Seq<char>) -> Seq<char> {
    "dirty "@ + what + " target missing track id"@
}

impl EmberFlowRuntime {
    /// The metadata file of a track.
    pub fn render_track_metadata(&self, track_id: &str) -> (r: Result<String, EmberFlowError>)
        requires
            self.store.wf(),
        ensures
            r is Ok <==> has_row(self.store.track_rows(), track_id@) && row_with(
                self.store.track_rows(),
                track_id@,
            ).track_type is Some,
            r matches Err(e) ==> is_not_found(e, track_id@),
            r matches Ok(text) ==> exists|m: TrackMetadataRecord|
                crate::store::metadata_of_row(m, row_with(self.store.track_rows(), track_id@))
                    && text@ == metadata_file(m),
    {
        let m = self.store.get_track_metadata(track_id)?;
        let members = vec![
            member("branch", jstr(m.branch.as_str())),
            member("created_at", jstr(m.created_at.as_str())),
            member("description", jstr(m.description.as_str())),
            member("spec_ref", jopt(&m.spec_ref)),
            member("status", jstr(m.status.as_str())),
            member("track_id", jstr(m.track_id.as_str())),
            member("track_type", jstr(m.track_type.as_str())),
            member("updated_at", jstr(m.updated_at.as_str())),
        ];
        proof {
            lemma_json_view_members(members@);
            assert(json_view_members(members@) =~= seq![
                ("branch"@, JsonV::Str(m.branch@)),
                ("created_at"@, JsonV::Str(m.created_at@)),
                ("description"@, JsonV::Str(m.description@)),
                ("spec_ref"@, jopt_spec(opt_view(m.spec_ref))),
                ("status"@, JsonV::Str(m.status@)),
                ("track_id"@, JsonV::Str(m.track_id@)),
                ("track_type"@, JsonV::Str(m.track_type@)),
                ("updated_at"@, JsonV::Str(m.updated_at@)),
            ]);
        }
        let obj = JsonValue::Obj(members);
        let text = to_json_text(&obj);
        let out = cat(text.as_str(), "\n");
        proof {
            assert(obj@ == JsonV::Obj(json_view_members(members@)));
            assert(out@ == metadata_file(m));
        }
        Ok(out)
    }

    /// The brief file of a track.
    pub fn render_track_brief(&self, track_id: &str) -> (r: Result<String, EmberFlowError>)
        requires
            self.store.wf(),
        ensures
            r is Ok <==> has_row(self.store.track_rows(), track_id@),
            r matches Ok(text) ==> text@ == brief_markdown(
                shown_description(row_with(self.store.track_rows(), track_id@)),
                self.store.section_rows().filter(
                    |s: crate::records::SectionRow| s.track_id@ == track_id@,
                ).map_values(|s: crate::records::SectionRow| crate::store::section_record_of(s)),
                self.layout.project_root@,
                shown_branch(row_with(self.store.track_rows(), track_id@)),
            ),
    {
        let metadata = self.store.get_track_metadata_optional(track_id)?;
        let track = self.store.get_track(track_id)?;
        let brief = self.store.get_track_brief(track_id)?;
        let (_ty, title, branch) = self.shown_texts(&track, &metadata);
        let secs = &brief.sections;
        let mut objective = String::new();
        let mut context = String::new();
        let mut i: usize = 0;
        while i < secs.len()
            invariant
                i <= secs@.len(),
                objective@ == section_bullets(secs@.take(i as int), "objective"@),
                context@ == section_bullets(secs@.take(i as int), "context"@),
            decreases secs@.len() - i,
        {
            proof {
                assert(secs@.take(i + 1).drop_last() =~= secs@.take(i as int));
                assert(secs@.take(i + 1).last() == secs@[i as int]);
            }
            if str_eq(secs[i].section_key.as_str(), "objective") {
                objective.append("- ");
                objective.append(secs[i].section_text.as_str());
                objective.append("\n");
            }
            if str_eq(secs[i].section_key.as_str(), "context") {
                context.append("- ");
                context.append(secs[i].section_text.as_str());
                context.append("\n");
            }
            proof {
                assert(objective@ =~= section_bullets(secs@.take(i + 1), "objective"@));
                assert(context@ =~= section_bullets(secs@.take(i + 1), "context"@));
            }
            i += 1;
        }
        proof {
            assert(secs@.take(secs@.len() as int) =~= secs@);
        }
        let mut out = cat3("# Track Brief: ", title.as_str(), "\n\n");
        out.append("This brief is the durable human-readable resume context for the track.\n\n");
        out.append("## Objective\n");
        out.append(objective.as_str());
        out.append("\n## Context\n");
        out.append(context.as_str());
        out.append("\n## Decisions already made\n- <recorded decisions that should not be re-litigated>\n\n");
        out.append("## Non-goals\n- <what is intentionally out of scope>\n\n");
        out.append("## Current state\n- <what is done and what remains>\n\n");
        out.append("## Workspace / branch / PR context\n");
        out.append("- Workspace: ");
        out.append(self.layout.project_root.as_str());
        out.append("\n- Branch: ");
        out.append(branch.as_str());
        out.append("\n- PRs: none\n\n");
        out.append("## Next step\n");
        out.append("- <the very next action a fresh workspace should take>\n");
        proof {
            assert(out@ =~= brief_markdown(
                title@,
                secs@,
                self.layout.project_root@,
                branch@,
            ));
        }
        Ok(out)
    }

    /// The plan file of a track.
    pub fn render_track_plan(&self, track_id: &str) -> (r: Result<String, EmberFlowError>)
        requires
            self.store.wf(),
        ensures
            r is Ok <==> has_row(self.store.track_rows(), track_id@),
            r matches Ok(text) ==> exists|p: TrackPlanRecord|
                crate::store::plan_of_rows(
                    p,
                    track_id@,
                    self.store.phase_rows(),
                    self.store.item_rows(),
                ) && text@ == plan_markdown(
                    shown_description(row_with(self.store.track_rows(), track_id@)),
                    p.phases@,
                ),
    {
        let metadata = self.store.get_track_metadata_optional(track_id)?;
        let track = self.store.get_track(track_id)?;
        let plan = self.store.get_track_plan(track_id)?;
        let (_ty, title, _branch) = self.shown_texts(&track, &metadata);
        let mut out = cat3("# Implementation Plan: ", title.as_str(), "\n\n");
        out.append("<!-- Task status markers:\n     [ ]  = pending\n     [~]  = in-progress\n     [x]  = completed\n\n     Completed tasks include the commit SHA:\n       - [x] Task: description (SHA: abc1234)\n\n     Phase headers get a checkpoint SHA once all tasks are verified:\n       ## Phase 1: Name [checkpoint: abc1234]\n\n     Phase completion tasks trigger the verification protocol:\n       run tests, manual check, create checkpoint commit.\n-->\n\n");
        let ghost head = out@;
        let phases = &plan.phases;
        let mut k: usize = 0;
        while k < phases.len()
            invariant
                k <= phases@.len(),
                out@ == head + phase_blocks(phases@.take(k as int)),
            decreases phases@.len() - k,
        {
            let phase = &phases[k];
            let mut block = cat3("## Phase ", usize_text(k + 1).as_str(), ": ");
            block.append(phase.title.as_str());
            block.append("\n\n");
            let ghost bhead = block@;
            let mut j: usize = 0;
            while j < phase.items.len()
                invariant
                    j <= phase.items@.len(),
                    block@ == bhead + item_lines(phase.items@.take(j as int)),
                decreases phase.items@.len() - j,
            {
                block.append("- [ ] Task: ");
                block.append(phase.items[j].title.as_str());
                block.append("\n");
                proof {
                    assert(phase.items@.take(j + 1).drop_last() =~= phase.items@.take(j as int));
                    assert(phase.items@.take(j + 1).last() == phase.items@[j as int]);
                    assert(block@ =~= bhead + item_lines(phase.items@.take(j + 1)));
                }
                j += 1;
            }
            proof {
                assert(phase.items@.take(phase.items@.len() as int) =~= phase.items@);
            }
            block.append("\n");
            block.append("- [ ] Task: Phase Completion -- Verify '");
            block.append(phase.title.as_str());
            block.append("'\n\n");
            proof {
                assert(block@ =~= phase_block((k + 1) as nat, *phase));
            }
            out.append(block.as_str());
            proof {
                assert(phases@.take(k + 1).drop_last() =~= phases@.take(k as int));
                assert(phases@.take(k + 1).last() == phases@[k as int]);
                assert(phases@.take(k + 1).len() == k + 1);
                assert(out@ =~= head + phase_blocks(phases@.take(k + 1)));
            }
            k += 1;
        }
        proof {
            assert(phases@.take(phases@.len() as int) =~= phases@);
            assert(out@ =~= plan_markdown(title@, plan.phases@));
        }
        Ok(out)
    }

    /// The runtime status line of a track, as written to the runtime status file.
    pub fn runtime_status_line(&self, track_id: &str) -> (r: Result<String, EmberFlowError>)
        requires
            self.store.wf(),
        ensures
            r is Ok <==> runtime_status_available(self.store, track_id@),
            r matches Ok(line) ==> exists|p: RuntimeStatusProjection|
                line == p.status_line && exists|lt: Option<TaskRecord>|
                    runtime_status_outcome(
                        self.store,
                        track_id@,
                        lt,
                        last_of_events(self.store, track_id@),
                        p,
                    ),
    {
        let p = self.project_runtime_status(track_id)?;
        Ok(p.status_line)
    }

    /// The contents of a dirty projection target: the runtime status line, the track list, or
    /// a track's metadata, brief, plan or summary file.
    pub fn render_projection_target(&self, target: &ProjectionDirtyTargetRecord) -> (r: Result<
        String,
        EmberFlowError,
    >)
        requires
            self.store.wf(),
        ensures
            ({
                let kind = target.projection_kind@;
                let known = kind == "runtime-status"@ || kind == "track-list"@ || kind
                    == "track-metadata"@ || kind == "track-brief"@ || kind == "track-plan"@ || kind
                    == "track-summary"@;
                &&& !known ==> (r matches Err(e) && is_unsupported(e, "projection_kind"@, kind))
                &&& kind == "runtime-status"@ && target.track_id is None ==> (r matches Ok(t) && t@
                    == Seq::<char>::empty())
                &&& kind == "track-list"@ ==> (r matches Ok(t) && t@ == list_header() + list_lines(
                    self.store.track_rows().filter(
                        |t: crate::records::TrackRow| t.status@ != "archived"@,
                    ),
                ))
                &&& kind == "track-metadata"@ && target.track_id is None ==> (r matches Err(e)
                    && is_unsupported(e, "track_id"@, missing_track_message("metadata"@)))
                &&& kind == "track-brief"@ && target.track_id is None ==> (r matches Err(e)
                    && is_unsupported(e, "track_id"@, missing_track_message("brief"@)))
                &&& kind == "track-plan"@ && target.track_id is None ==> (r matches Err(e)
                    && is_unsupported(e, "track_id"@, missing_track_message("plan"@)))
                &&& kind == "track-summary"@ && target.track_id is None ==> (r matches Err(e)
                    && is_unsupported(e, "track_id"@, missing_track_message("summary"@)))
            }),
    {
        let kind = target.projection_kind.as_str();
        proof {
            reveal_strlit("runtime-status");
            reveal_strlit("track-list");
            reveal_strlit("track-metadata");
            reveal_strlit("track-brief");
            reveal_strlit("track-plan");
            reveal_strlit("track-summary");
            let ks = seq![
                "runtime-status"@,
                "track-list"@,
                "track-metadata"@,
                "track-brief"@,
                "track-plan"@,
                "track-summary"@,
            ];
            assert(forall|a: int, b: int|
                0 <= a < 6 && 0 <= b < 6 && a != b ==> #[trigger] ks[a] != #[trigger] ks[b]) by {
                assert("track-list"@[6] != "track-plan"@[6]);
                assert("track-brief"@[6] != "track-summary"@[6]);
                assert("track-metadata"@[6] != "runtime-status"@[6]);
            }
        }
        if str_eq(kind, "runtime-status") {
            match &target.track_id {
                Some(t) => self.runtime_status_line(t.as_str()),
                None => Ok(String::new()),
            }
        } else if str_eq(kind, "track-list") {
            self.render_track_list()
        } else if str_eq(kind, "track-metadata") {
            match &target.track_id {
                Some(t) => self.render_track_metadata(t.as_str()),
                None => {
                    let msg = cat3("dirty ", "metadata", " target missing track id");
                    proof {
                        assert(msg@ == missing_track_message("metadata"@));
                    }
                    Err(unsupported("track_id", msg.as_str()))
                },
            }
        } else if str_eq(kind, "track-brief") {
            match &target.track_id {
                Some(t) => self.render_track_brief(t.as_str()),
                None => {
                    let msg = cat3("dirty ", "brief", " target missing track id");
                    proof {
                        assert(msg@ == missing_track_message("brief"@));
                    }
                    Err(unsupported("track_id", msg.as_str()))
                },
            }
        } else if str_eq(kind, "track-plan") {
            match &target.track_id {
                Some(t) => self.render_track_plan(t.as_str()),
                None => {
                    let msg = cat3("dirty ", "plan", " target missing track id");
                    proof {
                        assert(msg@ == missing_track_message("plan"@));
                    }
                    Err(unsupported("track_id", msg.as_str()))
                },
            }
        } else if str_eq(kind, "track-summary") {
            match &target.track_id {
                Some(t) => self.render_track_summary(t.as_str()),
                None => {
                    let msg = cat3("dirty ", "summary", " target missing track id");
                    proof {
                        assert(msg@ == missing_track_message("summary"@));
                    }
                    Err(unsupported("track_id", msg.as_str()))
                },
            }
        } else {
            Err(unsupported("projection_kind", kind))
        }
    }
}

/// Whether a refresh wrote the file at `path`: some outcome names it with no error.
pub open spec fn refresh_written(outcomes: Seq<(String, Option<String>)>, path: Seq<char>) -> bool {
    exists|i: int| 0 <= i < outcomes.len() && #[trigger] outcomes[i].0@ == path && outcomes[i].1 is None
}

/// The failed writes of a refresh, each as `<path>: <error>`, joined by `; `.
pub open spec fn refresh_failures_text(outcomes: Seq<(String, Option<String>)>) -> Seq<char>
    decreases outcomes.len(),
{
    if outcomes.len() == 0 {
        Seq::empty()
    } else {
        let prev = refresh_failures_text(outcomes.drop_last());
        match outcomes.last().1 {
            None => prev,
            Some(e) => {
                let item = outcomes.last().0@ + ": "@ + e@;
                if prev.len() == 0 {
                    item
                } else {
                    prev + "; "@ + item
                }
            },
        }
    }
}

/// Whether some outcome of a refresh is a failure.
pub open spec fn refresh_failed(outcomes: Seq<(String, Option<String>)>) -> bool {
    exists|i: int| 0 <= i < outcomes.len() && #[trigger] outcomes[i].1 is Some
}

proof fn lemma_refresh_step(outcomes: Seq<(String, Option<String>)>, i: int)
    requires
        0 <= i < outcomes.len(),
    ensures
        outcomes.take(i + 1).drop_last() == outcomes.take(i),
        outcomes.take(i + 1).last() == outcomes[i],
        forall|path: Seq<char>|
            #[trigger] refresh_written(outcomes.take(i + 1), path) <==> (refresh_written(
                outcomes.take(i),
                path,
            ) || (outcomes[i].0@ == path && outcomes[i].1 is None)),
        refresh_failed(outcomes.take(i + 1)) <==> (refresh_failed(outcomes.take(i))
            || outcomes[i].1 is Some),
{
    let a = outcomes.take(i);
    let b = outcomes.take(i + 1);
    assert(b.drop_last() =~= a);
    assert forall|path: Seq<char>|
        #[trigger] refresh_written(b, path) <==> (refresh_written(a, path) || (outcomes[i].0@
            == path && outcomes[i].1 is None)) by {
        if refresh_written(b, path) {
            let j = choose|j: int| 0 <= j < b.len() && #[trigger] b[j].0@ == path && b[j].1 is None;
            if j < i {
                assert(a[j] == b[j]);
            }
        }
        if refresh_written(a, path) {
            let j = choose|j: int| 0 <= j < a.len() && #[trigger] a[j].0@ == path && a[j].1 is None;
            assert(b[j] == a[j]);
        }
        if outcomes[i].0@ == path && outcomes[i].1 is None {
            assert(b[i] == outcomes[i]);
        }
    }
    if refresh_failed(b) {
        let j = choose|j: int| 0 <= j < b.len() && #[trigger] b[j].1 is Some;
        if j < i {
            assert(a[j] == b[j]);
        }
    }
    if refresh_failed(a) {
        let j = choose|j: int| 0 <= j < a.len() && #[trigger] a[j].1 is Some;
        assert(b[j] == a[j]);
    }
    if outcomes[i].1 is Some {
        assert(b[i] == outcomes[i]);
    }
}

impl EmberFlowRuntime {
    /// Settles a refresh of the dirty projection targets, given for each file the caller tried
    /// to write its path and the error it met, if any. In projected mode each written target
    /// loses its dirty mark; the others stay dirty, to be tried again. Any failure is reported
    /// as one `projection_refresh` error that lists them all. In canonical mode nothing is
    /// projected and nothing changes.
    pub fn refresh_dirty_projection_targets(&mut self, outcomes: Vec<(String, Option<String>)>) -> (r:
        Result<(), EmberFlowError>)
        requires
            old(self).store.wf(),
        ensures
            final(self).store.wf(),
            final(self).layout == old(self).layout,
            old(self).layout.mode is Canonical ==> r is Ok && final(self).store == old(
                self,
            ).store,
            old(self).layout.mode is Projected ==> final(self).store.dirty_rows() == old(
                self,
            ).store.dirty_rows().filter(
                |d: ProjectionDirtyTargetRecord| !refresh_written(outcomes@, d.target_path@),
            ),
            final(self).store.track_rows() == old(self).store.track_rows(),
            final(self).store.task_rows() == old(self).store.task_rows(),
            final(self).store.same_plans(&old(self).store),
            final(self).store.event_rows() == old(self).store.event_rows(),
            final(self).store.projection_rows() == old(self).store.projection_rows(),
            r is Ok <==> (old(self).layout.mode is Canonical || !refresh_failed(outcomes@)),
            r matches Err(e) ==> is_unsupported(
                e,
                "projection_refresh"@,
                "filesystem materialization failed: "@ + refresh_failures_text(outcomes@),
            ),
    {
        if self.layout.mode == EmberFlowMode::Canonical {
            return Ok(());
        }
        let ghost s0 = self.store;
        let mut failures = String::new();
        let mut failed = false;
        let mut i: usize = 0;
        proof {
            assert(outcomes@.take(0) =~= Seq::<(String, Option<String>)>::empty());
            let p0 = |d: ProjectionDirtyTargetRecord|
                !refresh_written(outcomes@.take(0), d.target_path@);
            crate::rows::lemma_filter_keeps_all(s0.dirty_rows(), p0);
        }
        while i < outcomes.len()
            invariant
                i <= outcomes@.len(),
                self.store.wf(),
                self.layout == old(self).layout,
                self.layout.mode is Projected,
                s0 == old(self).store,
                self.store.dirty_rows() == s0.dirty_rows().filter(
                    |d: ProjectionDirtyTargetRecord|
                        !refresh_written(outcomes@.take(i as int), d.target_path@),
                ),
                self.store.track_rows() == s0.track_rows(),
                self.store.task_rows() == s0.task_rows(),
                self.store.same_plans(&s0),
                self.store.event_rows() == s0.event_rows(),
                self.store.projection_rows() == s0.projection_rows(),
                failures@ == refresh_failures_text(outcomes@.take(i as int)),
                failed <==> refresh_failed(outcomes@.take(i as int)),
                !failed <==> failures@.len() == 0,
            decreases outcomes@.len() - i,
        {
            proof {
                lemma_refresh_step(outcomes@, i as int);
            }
            let path = outcomes[i].0.as_str();
            match &outcomes[i].1 {
                None => {
                    let _ = self.store.clear_dirty_projection_target(path);
                    proof {
                        let p0 = |d: ProjectionDirtyTargetRecord|
                            !refresh_written(outcomes@.take(i as int), d.target_path@);
                        let q = |d: ProjectionDirtyTargetRecord| d.target_path@ != path@;
                        let p1 = |d: ProjectionDirtyTargetRecord|
                            !refresh_written(outcomes@.take(i + 1), d.target_path@);
                        crate::rows::lemma_filter_twice(s0.dirty_rows(), p0, q);
                        assert((|x: ProjectionDirtyTargetRecord| p0(x) && q(x)) =~= p1);
                    }
                },
                Some(e) => {
                    proof {
                        reveal_strlit(": ");
                        reveal_strlit("; ");
                        let p0 = |d: ProjectionDirtyTargetRecord|
                            !refresh_written(outcomes@.take(i as int), d.target_path@);
                        let p1 = |d: ProjectionDirtyTargetRecord|
                            !refresh_written(outcomes@.take(i + 1), d.target_path@);
                        assert(p0 =~= p1);
                    }
                    if failed {
                        failures.append("; ");
                    }
                    failures.append(path);
                    failures.append(": ");
                    failures.append(e.as_str());
                    failed = true;
                },
            }
            i += 1;
        }
        proof {
            assert(outcomes@.take(outcomes@.len() as int) =~= outcomes@);
        }
        if failed {
            let msg = cat("filesystem materialization failed: ", failures.as_str());
            Err(unsupported("projection_refresh", msg.as_str()))
        } else {
            Ok(())
        }
    }
}

} // verus!
