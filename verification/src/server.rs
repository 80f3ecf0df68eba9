use vstd::prelude::*;

use crate::error::{error_message, EmberFlowError};
use crate::json::{
    jint, jopt, jopt_spec, jstr, json_get, json_get_str, json_text, json_view_members,
    json_view_seq, lemma_json_view_members, lemma_json_view_seq, member, to_json_text, JsonV,
    JsonValue,
};
use crate::protocol::{lemma_standard_tools_distinct, standard_tools, views_of};
use crate::records::{
    EventRecord, LeaseInfo, TaskInput, TaskRecord, TrackBriefRecord, TrackBriefSectionInput,
    TrackMetadataInput, TrackMetadataRecord, TrackPlanItemInput, TrackPlanPhaseInput,
    TrackPlanRecord, TrackRecord,
};
use crate::service::{
    archive_outcome, brief_outcome, claim_outcome, create_task_outcome, create_track_outcome,
    delete_outcome, initialize_is, metadata_outcome, plan_outcome, record_event_outcome, release_outcome,
    resource_descriptions, resource_names, resource_read_by, resource_route, resource_uris,
    EmberFlowRuntime, InitializeResponse, ResourceReadResponse, ResourceViewDescriptor,
    WorkspaceDbInfo,
};
use crate::surface::EmberFlowSurface;
use crate::text::{cat, cat3, is_blank_spec, opt_view, owned, str_eq};
use crate::views::{
    brief_to_json, event_to_json, lease_to_json, metadata_to_json, plan_to_json, task_to_json,
    track_to_json,
};

verus! {

/// How a stdio server finds its workspace: the current directory, an explicit workspace root,
/// or an explicit state (database) path.
#[derive(Debug, Clone, PartialEq, Eq, Default)]
pub struct StdioTransportConfig {
    pub cwd: Option<String>,
    pub workspace_root: Option<String>,
    pub state_path: Option<String>,
}

impl StdioTransportConfig {
    /// The configuration from the process's current directory and its environment values
    /// (`EMBERFLOW_WORKSPACE_ROOT`, then `EMBERFLOW_STATE_PATH`, else `EMBERFLOW_DB_PATH`).
    pub fn from_env_values(
        cwd: Option<String>,
        workspace_root: Option<String>,
        state_path: Option<String>,
        db_path: Option<String>,
    ) -> (r: Self)
        ensures
            r.cwd == cwd,
            r.workspace_root == workspace_root,
            r.state_path == (match state_path {
                Some(p) => Some(p),
                None => db_path,
            }),
    {
        let state_path = match state_path {
            Some(p) => Some(p),
            None => db_path,
        };
        StdioTransportConfig { cwd, workspace_root, state_path }
    }
}

/// What a stdio server reports about itself.
#[derive(Debug, Clone, PartialEq, Eq)]
pub struct StdioTransportInfo {
    pub mode: &'static str,
    pub hosting: &'static str,
    pub auth: &'static str,
    pub endpoint: &'static str,
    pub workspace_root: String,
    pub workspace_db: WorkspaceDbInfo,
}

/// Why a stdio server could not start.
#[derive(Debug, Clone, PartialEq, Eq)]
pub struct TransportStartupError {
    pub source: &'static str,
    pub message: String,
}

impl TransportStartupError {
    /// A failure to resolve the workspace.
    pub fn workspace_resolution(message: &str) -> (r: Self)
        ensures
            r.source@ == "workspace-resolution"@,
            r.message@ == message@,
    {
        TransportStartupError { source: "workspace-resolution", message: owned(message) }
    }

    /// `<source>: <message>`.
    pub fn to_string(&self) -> (r: String)
        ensures
            r@ == self.source@ + ": "@ + self.message@,
    {
        cat3(self.source, ": ", self.message.as_str())
    }
}

/// A protocol error, as JSON-RPC answers it.
#[derive(Debug, Clone, PartialEq, Eq)]
pub struct TransportProtocolError {
    pub code: &'static str,
    pub message: String,
    pub field: Option<String>,
    pub reason: Option<String>,
}

/// Whether a protocol error is an invalid-parameters error for `field` with `reason`.
pub open spec fn is_invalid_params(e: TransportProtocolError, field: Seq<char>, reason: Seq<char>) -> bool {
    &&& e.code@ == "invalid_params"@
    &&& e.message@ == "invalid parameters for "@ + field
    &&& opt_view(e.field) == Some(field)
    &&& opt_view(e.reason) == Some(reason)
}

/// The reason given when a parameter is missing.
pub open spec fn must_be_present(field: Seq<char>) -> Seq<char> {
    field + " must be present"@
}

/// The protocol error that an EmberFlow error is reported as: an unsupported value is an
/// invalid parameter, a missing record is not found, anything else is internal; the message is
/// the error's.
pub open spec fn protocol_error_of(error: EmberFlowError, r: TransportProtocolError) -> bool {
    &&& r.message@ == error_message(error)
    &&& error is UnsupportedValue ==> r.code@ == "invalid_params"@ && opt_view(r.reason) == Some(
        error_message(error),
    ) && opt_view(r.field) == Some(error->field@)
    &&& error is NotFound ==> r.code@ == "not_found"@ && r.field is None && opt_view(r.reason)
        == Some(error_message(error))
    &&& !(error is UnsupportedValue) && !(error is NotFound) ==> r.code@ == "internal_error"@
        && r.field is None && r.reason is None
}

impl TransportProtocolError {
    /// An unknown method.
    pub fn method_not_found(method: &str) -> (r: Self)
        ensures
            r.code@ == "method_not_found"@,
            r.message@ == "unknown method: "@ + method@,
            r.field is None,
            r.reason is None,
    {
        TransportProtocolError {
            code: "method_not_found",
            message: cat("unknown method: ", method),
            field: None,
            reason: None,
        }
    }

    /// A parameter that is missing or has the wrong shape.
    pub fn invalid_params(field: &str, reason: &str) -> (r: Self)
        ensures
            is_invalid_params(r, field@, reason@),
    {
        TransportProtocolError {
            code: "invalid_params",
            message: cat("invalid parameters for ", field),
            field: Some(owned(field)),
            reason: Some(owned(reason)),
        }
    }

    /// An internal failure.
    pub fn internal(message: &str) -> (r: Self)
        ensures
            r.code@ == "internal_error"@,
            r.message@ == message@,
            r.field is None,
            r.reason is None,
    {
        TransportProtocolError { code: "internal_error", message: owned(message), field: None, reason: None }
    }

    /// The protocol error for an EmberFlow error: an unsupported value is an invalid
    /// parameter, a missing record is not found, anything else is internal.
    pub fn from_emberflow_error(error: EmberFlowError) -> (r: Self)
        ensures
            protocol_error_of(error, r),
    {
        let message = error.to_string();
        match error {
            EmberFlowError::UnsupportedValue { field, value: _ } => TransportProtocolError {
                code: "invalid_params",
                message: message.clone(),
                field: Some(field),
                reason: Some(message),
            },
            EmberFlowError::NotFound(_) => TransportProtocolError {
                code: "not_found",
                message: message.clone(),
                field: None,
                reason: Some(message),
            },
            _ => TransportProtocolError::internal(message.as_str()),
        }
    }

    /// The JSON-RPC error object.
    pub fn to_json(&self) -> (r: JsonValue)
        ensures
            r@ == JsonV::Obj(
                seq![
                    ("code"@, JsonV::Str(self.code@)),
                    ("message"@, JsonV::Str(self.message@)),
                    ("field"@, jopt_spec(opt_view(self.field))),
                    ("reason"@, jopt_spec(opt_view(self.reason))),
                ],
            ),
    {
        let m = vec![
            member("code", jstr(self.code)),
            member("message", jstr(self.message.as_str())),
            member("field", jopt(&self.field)),
            member("reason", jopt(&self.reason)),
        ];
        proof {
            lemma_json_view_members(m@);
            assert(json_view_members(m@) =~= seq![
                ("code"@, JsonV::Str(self.code@)),
                ("message"@, JsonV::Str(self.message@)),
                ("field"@, jopt_spec(opt_view(self.field))),
                ("reason"@, jopt_spec(opt_view(self.reason))),
            ]);
        }
        JsonValue::Obj(m)
    }

    /// `<code>: <message>`.
    pub fn to_string(&self) -> (r: String)
        ensures
            r@ == self.code@ + ": "@ + self.message@,
    {
        cat3(self.code, ": ", self.message.as_str())
    }
}

/// A diagnostic written to standard error.
#[derive(Debug, Clone, PartialEq, Eq)]
pub struct TransportDiagnostic {
    pub channel: &'static str,
    pub level: &'static str,
    pub message: String,
}

/// A JSON-RPC request: its id (absent for a notification), method and parameters.
pub struct TransportRequest {
    pub id: Option<JsonValue>,
    pub method: String,
    pub params: JsonValue,
}

/// A resource a client can read now.
#[derive(Debug, Clone, PartialEq, Eq)]
pub struct TransportResourceDescriptor {
    pub uri: String,
    pub name: &'static str,
    pub description: &'static str,
    pub mime_type: &'static str,
}

/// Where a stdio server takes its state from.
#[derive(Debug, Clone, PartialEq, Eq)]
pub enum StartupSource {
    /// An explicit database path.
    StatePath(String),
    /// A workspace root to discover the project from.
    WorkspaceRoot(String),
}

/// Decides where a stdio server takes its state from: a state path, else a workspace root,
/// else the current directory; giving both a workspace root and a state path is refused.
pub fn startup_source(config: &StdioTransportConfig) -> (r: Result<StartupSource, TransportStartupError>)
    ensures
        config.workspace_root is Some && config.state_path is Some ==> (r matches Err(e)
            && e.message@ == "EmberFlow stdio transport accepts either workspaceRoot or statePath, not both"@),
        config.workspace_root is None && config.state_path is Some ==> r == Ok::<
            StartupSource,
            TransportStartupError,
        >(StartupSource::StatePath(config.state_path->0)),
        config.state_path is None && config.workspace_root is Some ==> r == Ok::<
            StartupSource,
            TransportStartupError,
        >(StartupSource::WorkspaceRoot(config.workspace_root->0)),
        config.state_path is None && config.workspace_root is None ==> (match config.cwd {
            Some(c) => r == Ok::<StartupSource, TransportStartupError>(
                StartupSource::WorkspaceRoot(c),
            ),
            None => r matches Err(e) && e.source@ == "workspace-resolution"@,
        }),
{
    if config.workspace_root.is_some() && config.state_path.is_some() {
        return Err(
            TransportStartupError::workspace_resolution(
                "EmberFlow stdio transport accepts either workspaceRoot or statePath, not both",
            ),
        );
    }
    if let Some(p) = &config.state_path {
        return Ok(StartupSource::StatePath(p.clone()));
    }
    if let Some(w) = &config.workspace_root {
        return Ok(StartupSource::WorkspaceRoot(w.clone()));
    }
    match &config.cwd {
        Some(c) => Ok(StartupSource::WorkspaceRoot(c.clone())),
        None => Err(
            TransportStartupError::workspace_resolution(
                "EmberFlow workspace root could not be resolved from the current directory",
            ),
        ),
    }
}

/// The URI and name of a listed resource.
pub open spec fn descriptor_keys(v: Seq<TransportResourceDescriptor>) -> Seq<(Seq<char>, Seq<char>)> {
    v.map_values(|d: TransportResourceDescriptor| (d.uri@, d.name@))
}

/// A listed resource is JSON, with the description of its resource (see
/// `resource_descriptions`).
pub open spec fn described(d: TransportResourceDescriptor) -> bool {
    &&& d.mime_type@ == "application/json"@
    &&& exists|i: int|
        0 <= i < 12 && resource_names()[i] == d.name@ && d.description@
            == #[trigger] resource_descriptions()[i]
}

/// The resource templates, in the order of `resource_uris`, each with its name and description,
/// in JSON.
pub open spec fn templates_are(l: Seq<ResourceViewDescriptor>) -> bool {
    &&& l.len() == 12
    &&& forall|i: int|
        0 <= i < 12 ==> (#[trigger] l[i]).uri_template@ == resource_uris()[i] && l[i].name@
            == resource_names()[i] && l[i].description@ == resource_descriptions()[i]
            && l[i].mime_type@ == "application/json"@
}

/// The resources listed for one active track.
pub open spec fn track_entries(id: Seq<char>) -> Seq<(Seq<char>, Seq<char>)> {
    let base = "emberflow://tracks/"@ + id;
    seq![
        (base + "/record"@, "track-record"@),
        (base + "/resume"@, "track-resume"@),
        (base + "/transparency"@, "track-transparency"@),
        (base + "/context"@, "track-context"@),
        (base + "/brief"@, "track-brief"@),
        (base + "/plan"@, "track-plan"@),
        (base + "/runtime"@, "track-runtime"@),
        (base + "/events"@, "track-events"@),
    ]
}

/// The resources listed for the active tracks, in order.
pub open spec fn tracks_entries(tracks: Seq<TrackRecord>) -> Seq<(Seq<char>, Seq<char>)>
    decreases tracks.len(),
{
    if tracks.len() == 0 {
        Seq::empty()
    } else {
        tracks_entries(tracks.drop_last()) + track_entries(tracks.last().id@)
    }
}

/// A task is listed when it has no track or its track is active.
pub open spec fn task_listed(t: TaskRecord, tracks: Seq<TrackRecord>) -> bool {
    match t.track_id {
        Some(id) => exists|i: int| 0 <= i < tracks.len() && (#[trigger] tracks[i]).id@ == id@,
        None => true,
    }
}

/// The resources listed for the listed tasks, in order.
pub open spec fn tasks_entries(tasks: Seq<TaskRecord>, tracks: Seq<TrackRecord>) -> Seq<
    (Seq<char>, Seq<char>),
>
    decreases tasks.len(),
{
    if tasks.len() == 0 {
        Seq::empty()
    } else {
        let t = tasks.last();
        tasks_entries(tasks.drop_last(), tracks) + if task_listed(t, tracks) {
            seq![
                ("emberflow://tasks/"@ + t.id@ + "/visibility"@, "task-visibility"@),
                ("emberflow://tasks/"@ + t.id@ + "/events"@, "task-events"@),
            ]
        } else {
            Seq::empty()
        }
    }
}

/// The readable resources: the workspace overview, each active track's views, each listed
/// task's views, and the client contract.
pub open spec fn listed_resources(tracks: Seq<TrackRecord>, tasks: Seq<TaskRecord>) -> Seq<
    (Seq<char>, Seq<char>),
> {
    seq![("emberflow://workspace/overview"@, "workspace-overview"@)] + tracks_entries(tracks)
        + tasks_entries(tasks, tracks) + seq![
        ("emberflow://protocol/client-contract"@, "client-contract"@),
    ]
}

/// A stdio session over a surface.
pub struct StdioTransportSession {
    surface: EmberFlowSurface,
    info: StdioTransportInfo,
}

/// Starts a stdio session over a surface: the surface is initialized, and the session reports
/// the stdio transport and the workspace it serves.
pub fn start_stdio_server(surface: EmberFlowSurface) -> (r: Result<
    StdioTransportSession,
    TransportStartupError,
>)
    requires
        surface.wf(),
    ensures
        r matches Ok(s) && s.wf() && s.info_state().mode@ == "stdio"@ && s.info_state().hosting@
            == "local-process"@ && s.info_state().auth@ == "none"@ && s.info_state().endpoint@
            == "stdin-stdout"@ && s.info_state().workspace_root
            == surface.runtime_state().layout.project_root && workspace_db_is(
            surface.runtime_state().layout,
            s.info_state().workspace_db,
        ),
{
    let init = match surface.initialize() {
        Ok(i) => i,
        Err(e) => {
            let text = e.to_string();
            return Err(TransportStartupError::workspace_resolution(text.as_str()));
        },
    };
    let info = StdioTransportInfo {
        mode: "stdio",
        hosting: "local-process",
        auth: "none",
        endpoint: "stdin-stdout",
        workspace_root: init.workspace_db.project_root.clone(),
        workspace_db: init.workspace_db,
    };
    Ok(StdioTransportSession { surface, info })
}

/// The workspace database a session describes, for a project laid out as `layout`: its
/// project and state roots and database path, its projection mode, SQLite, ready.
pub open spec fn workspace_db_is(layout: crate::layout::EmberFlowProjectLayout, w: WorkspaceDbInfo) -> bool {
    &&& w.project_root == layout.project_root
    &&& w.state_root == layout.state_root
    &&& w.default_path == layout.db_path
    &&& w.projection_mode@ == (if layout.mode is Canonical {
        "canonical"@
    } else {
        "projected"@
    })
    &&& w.mode@ == "sqlite"@
    &&& w.initialization@ == "ready"@
}

/// Starts a stdio session over a surface found from the environment.
pub fn start_stdio_server_from_env(surface: EmberFlowSurface) -> (r: Result<
    StdioTransportSession,
    TransportStartupError,
>)
    requires
        surface.wf(),
    ensures
        r matches Ok(s) && s.wf() && s.info_state().mode@ == "stdio"@ && s.info_state().hosting@
            == "local-process"@ && s.info_state().auth@ == "none"@ && s.info_state().endpoint@
            == "stdin-stdout"@ && s.info_state().workspace_root
            == surface.runtime_state().layout.project_root && workspace_db_is(
            surface.runtime_state().layout,
            s.info_state().workspace_db,
        ),
{
    start_stdio_server(surface)
}

/// The level a diagnostic is written at: a known level, else `info`.
pub open spec fn diagnostic_level(level: Seq<char>) -> Seq<char> {
    if level == "debug"@ || level == "info"@ || level == "warn"@ || level == "error"@ {
        level
    } else {
        "info"@
    }
}

/// The methods a session answers.
pub open spec fn known_method(m: Seq<char>) -> bool {
    ||| m == "initialize"@
    ||| m == "notifications/initialized"@
    ||| m == "resources/list"@
    ||| m == "resources/templates/list"@
    ||| m == "resources/read"@
    ||| m == "tools/list"@
    ||| m == "tools/call"@
    ||| m == "list-resources"@
    ||| m == "list_resources"@
    ||| m == "read-resource"@
    ||| m == "read_resource"@
    ||| standard_tools().contains(m)
}

/// A string parameter: present, a string, and not blank once trimmed.
pub open spec fn param_present(params: JsonV, field: Seq<char>) -> bool {
    json_get_str(params, field) matches Some(s) && !is_blank_spec(s)
}


/// A string parameter, trimmed, when it is present and not blank.
pub open spec fn param_text(params: JsonV, field: Seq<char>) -> Option<Seq<char>> {
    match json_get_str(params, field) {
        Some(s) => if crate::text::trimmed(s).len() > 0 {
            Some(crate::text::trimmed(s))
        } else {
            None
        },
        None => None,
    }
}

/// A string parameter, trimmed, that must be present and not blank.
pub fn required_string(params: &JsonValue, field: &str) -> (r: Result<String, TransportProtocolError>)
    ensures
        match param_text(params@, field@) {
            Some(t) => r matches Ok(s) && s@ == t,
            None => r matches Err(e) && is_invalid_params(e, field@, must_be_present(field@)),
        },
{
    match optional_string(params, field) {
        Some(s) => Ok(s),
        None => {
            let reason = cat(field, " must be present");
            Err(TransportProtocolError::invalid_params(field, reason.as_str()))
        },
    }
}

/// A string parameter, trimmed, when it is present and not blank.
pub fn optional_string(params: &JsonValue, field: &str) -> (r: Option<String>)
    ensures
        opt_view(r) == param_text(params@, field@),
{
    match params.get(field) {
        Some(v) => match v.as_str() {
            Some(s) => {
                let t = crate::text::trim(s);
                if t.unicode_len() > 0 {
                    Some(t)
                } else {
                    None
                }
            },
            None => None,
        },
        None => None,
    }
}

fn opt_ref(o: &Option<String>) -> (r: Option<&str>)
    ensures
        crate::text::opt_str_view(r) == opt_view(*o),
{
    match o {
        Some(s) => Some(s.as_str()),
        None => None,
    }
}

/// A brief section as a tool call gives it: a non-blank `sectionKey` (trimmed), a
/// `sectionText` and an integer `position`.
pub open spec fn section_from(j: JsonV, s: TrackBriefSectionInput) -> bool {
    &&& param_text(j, "sectionKey"@) == Some(s.section_key@)
    &&& json_get_str(j, "sectionText"@) == Some(s.section_text@)
    &&& json_get(j, "position"@) == Some(JsonV::Int(s.position as int))
}

/// Whether a JSON object can be read as a brief section.
pub open spec fn section_readable(j: JsonV) -> bool {
    &&& param_text(j, "sectionKey"@) is Some
    &&& json_get_str(j, "sectionText"@) is Some
    &&& json_get(j, "position"@) matches Some(JsonV::Int(_))
}

/// The brief sections a tool call gives, in order.
pub open spec fn sections_from(params: JsonV, v: Seq<TrackBriefSectionInput>) -> bool {
    json_get(params, "sections"@) matches Some(JsonV::Arr(items)) && v.len() == items.len()
        && forall|i: int| 0 <= i < items.len() ==> section_from(items[i], #[trigger] v[i])
}

/// Whether a tool call gives its brief sections as an array of readable sections.
pub open spec fn sections_readable(params: JsonV) -> bool {
    json_get(params, "sections"@) matches Some(JsonV::Arr(items)) && forall|i: int|
        0 <= i < items.len() ==> section_readable(#[trigger] items[i])
}

/// The brief sections a tool call gives: each must have a non-blank `sectionKey`, a
/// `sectionText` and an integer `position`.
#[verifier::loop_isolation(false)]
pub fn track_brief_sections_from_params(params: &JsonValue) -> (r: Result<
    Vec<TrackBriefSectionInput>,
    TransportProtocolError,
>)
    ensures
        !(json_get(params@, "sections"@) matches Some(JsonV::Arr(_))) ==> (r matches Err(e)
            && is_invalid_params(e, "sections"@, "sections must be an array"@)),
        r is Ok <==> sections_readable(params@),
        r matches Ok(v) ==> sections_from(params@, v@),
        r matches Err(e) ==> e.code@ == "invalid_params"@,
{
    let sections = match params.get("sections") {
        Some(v) => match v.as_array() {
            Some(a) => a,
            None => {
                return Err(
                    TransportProtocolError::invalid_params("sections", "sections must be an array"),
                );
            },
        },
        None => {
            return Err(TransportProtocolError::invalid_params("sections", "sections must be an array"));
        },
    };
    let ghost items = json_view_seq(sections@);
    proof {
        lemma_json_view_seq(sections@);
    }
    let mut output: Vec<TrackBriefSectionInput> = Vec::new();
    let mut i: usize = 0;
    while i < sections.len()
        invariant
            i <= sections@.len(),
            items == json_view_seq(sections@),
            items.len() == sections@.len(),
            forall|k: int| 0 <= k < sections@.len() ==> (#[trigger] items[k]) == sections@[k]@,
            json_get(params@, "sections"@) == Some(JsonV::Arr(items)),
            output@.len() == i,
            forall|k: int| 0 <= k < i ==> section_from(items[k], #[trigger] output@[k]),
            forall|k: int| 0 <= k < i ==> section_readable(#[trigger] items[k]),
        decreases sections@.len() - i,
    {
        let section = &sections[i];
        proof {
            assert(items[i as int] == section@);
            if sections_readable(params@) {
                let its = json_get(params@, "sections"@)->0->Arr_0;
                assert(its == items);
                assert(section_readable(its[i as int]));
            }
        }
        let section_key = match optional_string(section, "sectionKey") {
            Some(k) => k,
            None => {
                return Err(
                    TransportProtocolError::invalid_params("sectionKey", "sectionKey must be present"),
                );
            },
        };
        let section_text = match section.get("sectionText") {
            Some(t) => match t.as_str() {
                Some(t) => owned(t),
                None => {
                    return Err(
                        TransportProtocolError::invalid_params(
                            "sectionText",
                            "sectionText must be present",
                        ),
                    );
                },
            },
            None => {
                return Err(
                    TransportProtocolError::invalid_params("sectionText", "sectionText must be present"),
                );
            },
        };
        let position = match section.get("position") {
            Some(p) => match p.as_i64() {
                Some(p) => p,
                None => {
                    return Err(
                        TransportProtocolError::invalid_params("position", "position must be present"),
                    );
                },
            },
            None => {
                return Err(TransportProtocolError::invalid_params("position", "position must be present"));
            },
        };
        output.push(TrackBriefSectionInput { section_key, section_text, position });
        i += 1;
    }
    Ok(output)
}

/// A plan item as a tool call gives it: a non-blank `itemId` (trimmed), a `title` and an
/// integer `position`.
pub open spec fn plan_item_from(j: JsonV, it: TrackPlanItemInput) -> bool {
    &&& param_text(j, "itemId"@) == Some(it.item_id@)
    &&& json_get_str(j, "title"@) == Some(it.title@)
    &&& it.position matches Some(p) && json_get(j, "position"@) == Some(JsonV::Int(p as int))
}

/// Whether a JSON object can be read as a plan item.
pub open spec fn plan_item_readable(j: JsonV) -> bool {
    &&& param_text(j, "itemId"@) is Some
    &&& json_get_str(j, "title"@) is Some
    &&& json_get(j, "position"@) matches Some(JsonV::Int(_))
}

/// A plan phase as a tool call gives it: a non-blank `phaseId` (trimmed), a `title`, an
/// integer `position` and its items, in order.
pub open spec fn plan_phase_from(j: JsonV, ph: TrackPlanPhaseInput) -> bool {
    &&& param_text(j, "phaseId"@) == Some(ph.phase_id@)
    &&& json_get_str(j, "title"@) == Some(ph.title@)
    &&& json_get(j, "position"@) == Some(JsonV::Int(ph.position as int))
    &&& json_get(j, "items"@) matches Some(JsonV::Arr(items)) && ph.items@.len() == items.len()
        && forall|k: int| 0 <= k < items.len() ==> plan_item_from(items[k], #[trigger] ph.items@[k])
}

/// Whether a JSON object can be read as a plan phase.
pub open spec fn plan_phase_readable(j: JsonV) -> bool {
    &&& param_text(j, "phaseId"@) is Some
    &&& json_get_str(j, "title"@) is Some
    &&& json_get(j, "position"@) matches Some(JsonV::Int(_))
    &&& json_get(j, "items"@) matches Some(JsonV::Arr(items)) && forall|k: int|
        0 <= k < items.len() ==> plan_item_readable(#[trigger] items[k])
}

/// The plan phases a tool call gives, in order.
pub open spec fn phases_from(params: JsonV, v: Seq<TrackPlanPhaseInput>) -> bool {
    json_get(params, "phases"@) matches Some(JsonV::Arr(items)) && v.len() == items.len()
        && forall|i: int| 0 <= i < items.len() ==> plan_phase_from(items[i], #[trigger] v[i])
}

/// The first field of a plan item that the tool refuses, in the order it reads them.
pub open spec fn item_problem(j: JsonV) -> Option<Seq<char>> {
    if param_text(j, "itemId"@) is None {
        Some("itemId"@)
    } else if json_get_str(j, "title"@) is None {
        Some("title"@)
    } else if !(json_get(j, "position"@) matches Some(JsonV::Int(_))) {
        Some("position"@)
    } else {
        None
    }
}

/// The first field refused among plan items, in order.
pub open spec fn items_problem(items: Seq<JsonV>) -> Option<Seq<char>>
    decreases items.len(),
{
    if items.len() == 0 {
        None
    } else if item_problem(items[0]) is Some {
        item_problem(items[0])
    } else {
        items_problem(items.drop_first())
    }
}

/// The first field of a plan phase that the tool refuses, its items' included.
pub open spec fn phase_problem(j: JsonV) -> Option<Seq<char>> {
    if param_text(j, "phaseId"@) is None {
        Some("phaseId"@)
    } else if json_get_str(j, "title"@) is None {
        Some("title"@)
    } else if !(json_get(j, "position"@) matches Some(JsonV::Int(_))) {
        Some("position"@)
    } else {
        match json_get(j, "items"@) {
            Some(JsonV::Arr(items)) => items_problem(items),
            _ => Some("items"@),
        }
    }
}

/// The first field refused among plan phases, in order.
pub open spec fn phases_problem(phases: Seq<JsonV>) -> Option<Seq<char>>
    decreases phases.len(),
{
    if phases.len() == 0 {
        None
    } else if phase_problem(phases[0]) is Some {
        phase_problem(phases[0])
    } else {
        phases_problem(phases.drop_first())
    }
}

/// The field a plan given to a tool is refused for, if any.
pub open spec fn plan_params_problem(params: JsonV) -> Option<Seq<char>> {
    match json_get(params, "phases"@) {
        Some(JsonV::Arr(phases)) => phases_problem(phases),
        _ => Some("phases"@),
    }
}

/// Why a field is refused: an array that is not one, or a value that is missing.
pub open spec fn refusal_reason(field: Seq<char>) -> Seq<char> {
    if field == "phases"@ || field == "items"@ {
        field + " must be an array"@
    } else {
        field + " must be present"@
    }
}

/// Whether a tool call gives its plan as an array of readable phases.
pub open spec fn phases_readable(params: JsonV) -> bool {
    json_get(params, "phases"@) matches Some(JsonV::Arr(items)) && forall|i: int|
        0 <= i < items.len() ==> plan_phase_readable(#[trigger] items[i])
}

/// The plan phases a tool call gives: each must have a non-blank `phaseId`, a `title`, an
/// integer `position` and an `items` array whose items have a non-blank `itemId`, a `title`
/// and an integer `position`.
#[verifier::loop_isolation(false)]
pub fn track_plan_from_params(params: &JsonValue) -> (r: Result<
    Vec<TrackPlanPhaseInput>,
    TransportProtocolError,
>)
    ensures
        !(json_get(params@, "phases"@) matches Some(JsonV::Arr(_))) ==> (r matches Err(e)
            && is_invalid_params(e, "phases"@, "phases must be an array"@)),
        r is Ok <==> phases_readable(params@),
        r matches Ok(v) ==> phases_from(params@, v@),
        r matches Err(e) ==> e.code@ == "invalid_params"@,
        r matches Err(e) ==> (plan_params_problem(params@) matches Some(f) && is_invalid_params(
            e,
            f,
            refusal_reason(f),
        )),
{
    proof {
        reveal_strlit("phases");
        reveal_strlit("items");
        reveal_strlit("phaseId");
        reveal_strlit("itemId");
        reveal_strlit("title");
        reveal_strlit("position");
        reveal_strlit(" must be present");
        reveal_strlit(" must be an array");
        reveal_strlit("phases must be an array");
        reveal_strlit("items must be an array");
        reveal_strlit("phaseId must be present");
        reveal_strlit("itemId must be present");
        reveal_strlit("title must be present");
        reveal_strlit("position must be present");
        assert(refusal_reason("phases"@) =~= "phases must be an array"@);
        assert(refusal_reason("items"@) =~= "items must be an array"@);
        assert(refusal_reason("phaseId"@) =~= "phaseId must be present"@);
        assert("itemId"@.len() != "items"@.len() && "itemId"@[0] != "phases"@[0]);
        assert("title"@[0] != "items"@[0] && "title"@[0] != "phases"@[0]);
        assert(refusal_reason("itemId"@) =~= "itemId must be present"@);
        assert(refusal_reason("title"@) =~= "title must be present"@);
        assert(refusal_reason("position"@) =~= "position must be present"@);
    }
    let phases = match params.get("phases") {
        Some(v) => match v.as_array() {
            Some(a) => a,
            None => {
                return Err(TransportProtocolError::invalid_params("phases", "phases must be an array"));
            },
        },
        None => {
            return Err(TransportProtocolError::invalid_params("phases", "phases must be an array"));
        },
    };
    let ghost items_v = json_view_seq(phases@);
    proof {
        lemma_json_view_seq(phases@);
    }
    let mut output: Vec<TrackPlanPhaseInput> = Vec::new();
    let mut i: usize = 0;
    proof {
        assert(items_v.skip(0) =~= items_v);
    }
    while i < phases.len()
        invariant
            i <= phases@.len(),
            items_v == json_view_seq(phases@),
            items_v.len() == phases@.len(),
            forall|k: int| 0 <= k < phases@.len() ==> (#[trigger] items_v[k]) == phases@[k]@,
            json_get(params@, "phases"@) == Some(JsonV::Arr(items_v)),
            output@.len() == i,
            forall|k: int| 0 <= k < i ==> plan_phase_from(items_v[k], #[trigger] output@[k]),
            forall|k: int| 0 <= k < i ==> plan_phase_readable(#[trigger] items_v[k]),
            plan_params_problem(params@) == phases_problem(items_v.skip(i as int)),
        decreases phases@.len() - i,
    {
        let phase = &phases[i];
        proof {
            let rest = items_v.skip(i as int);
            assert(rest[0] == items_v[i as int]);
            assert(rest.drop_first() =~= items_v.skip(i + 1));
        }
        proof {
            assert(items_v[i as int] == phase@);
            if phases_readable(params@) {
                let its = json_get(params@, "phases"@)->0->Arr_0;
                assert(its == items_v);
                assert(plan_phase_readable(its[i as int]));
            }
        }
        let phase_id = match optional_string(phase, "phaseId") {
            Some(p) => p,
            None => {
                return Err(TransportProtocolError::invalid_params("phaseId", "phaseId must be present"));
            },
        };
        let title = match phase.get("title") {
            Some(t) => match t.as_str() {
                Some(t) => owned(t),
                None => {
                    return Err(TransportProtocolError::invalid_params("title", "title must be present"));
                },
            },
            None => {
                return Err(TransportProtocolError::invalid_params("title", "title must be present"));
            },
        };
        let position = match phase.get("position") {
            Some(p) => match p.as_i64() {
                Some(p) => p,
                None => {
                    return Err(
                        TransportProtocolError::invalid_params("position", "position must be present"),
                    );
                },
            },
            None => {
                return Err(TransportProtocolError::invalid_params("position", "position must be present"));
            },
        };
        let items = match phase.get("items") {
            Some(v) => match v.as_array() {
                Some(a) => a,
                None => {
                    return Err(TransportProtocolError::invalid_params("items", "items must be an array"));
                },
            },
            None => {
                return Err(TransportProtocolError::invalid_params("items", "items must be an array"));
            },
        };
        let ghost item_vs = json_view_seq(items@);
        proof {
            lemma_json_view_seq(items@);
        }
        let mut phase_items: Vec<TrackPlanItemInput> = Vec::new();
        let mut j: usize = 0;
        proof {
            assert(item_vs.skip(0) =~= item_vs);
            assert(json_get(phase@, "items"@) == Some(JsonV::Arr(item_vs)));
            assert(phase_problem(phase@) == items_problem(item_vs));
        }
        while j < items.len()
            invariant
                j <= items@.len(),
                item_vs == json_view_seq(items@),
                item_vs.len() == items@.len(),
                forall|x: int| 0 <= x < items@.len() ==> (#[trigger] item_vs[x]) == items@[x]@,
                json_get(phase@, "items"@) == Some(JsonV::Arr(item_vs)),
                phase_items@.len() == j,
                forall|x: int| 0 <= x < j ==> plan_item_from(item_vs[x], #[trigger] phase_items@[x]),
                forall|x: int| 0 <= x < j ==> plan_item_readable(#[trigger] item_vs[x]),
                phase_problem(phase@) == items_problem(item_vs.skip(j as int)),
            decreases items@.len() - j,
        {
            let item = &items[j];
            proof {
                let rest = item_vs.skip(j as int);
                assert(rest[0] == item_vs[j as int]);
                assert(rest.drop_first() =~= item_vs.skip(j + 1));
            }
            proof {
                assert(item_vs[j as int] == item@);
                if plan_phase_readable(phase@) {
                    let its = json_get(phase@, "items"@)->0->Arr_0;
                    assert(its == item_vs);
                    assert(plan_item_readable(its[j as int]));
                }
            }
            let item_id = match optional_string(item, "itemId") {
                Some(x) => x,
                None => {
                    return Err(TransportProtocolError::invalid_params("itemId", "itemId must be present"));
                },
            };
            let item_title = match item.get("title") {
                Some(t) => match t.as_str() {
                    Some(t) => owned(t),
                    None => {
                        return Err(TransportProtocolError::invalid_params("title", "title must be present"));
                    },
                },
                None => {
                    return Err(TransportProtocolError::invalid_params("title", "title must be present"));
                },
            };
            let item_position = match item.get("position") {
                Some(p) => match p.as_i64() {
                    Some(p) => p,
                    None => {
                        return Err(
                            TransportProtocolError::invalid_params(
                                "position",
                                "position must be present",
                            ),
                        );
                    },
                },
                None => {
                    return Err(
                        TransportProtocolError::invalid_params("position", "position must be present"),
                    );
                },
            };
            phase_items.push(
                TrackPlanItemInput { item_id, title: item_title, position: Some(item_position) },
            );
            j += 1;
        }
        output.push(TrackPlanPhaseInput { phase_id, title, position, items: phase_items });
        i += 1;
    }
    Ok(output)
}

impl StdioTransportSession {
    /// The session's state is valid.
    pub closed spec fn wf(&self) -> bool {
        self.surface.wf()
    }

    /// What the session reports about itself.
    pub closed spec fn info_state(&self) -> StdioTransportInfo {
        self.info
    }

    /// The surface the session serves.
    pub closed spec fn surface_state(&self) -> EmberFlowSurface {
        self.surface
    }

    /// What the session reports about itself.
    pub fn info(&self) -> (r: &StdioTransportInfo)
        ensures
            *r == self.info_state(),
    {
        &self.info
    }

    /// The surface the session serves.
    pub fn surface(&self) -> (r: &EmberFlowSurface)
        ensures
            *r == self.surface_state(),
    {
        &self.surface
    }

    /// Ends the session, handing back the surface it served.
    pub fn into_surface(self) -> (r: EmberFlowSurface)
        ensures
            r == self.surface_state(),
            self.wf() ==> r.wf(),
    {
        self.surface
    }

    /// What a client learns when it initializes.
    pub fn initialize(&self) -> (r: Result<InitializeResponse, TransportProtocolError>)
        ensures
            r matches Ok(i) && initialize_is(self.surface_state().runtime_state().layout, i),
    {
        match self.surface.initialize() {
            Ok(i) => Ok(i),
            Err(e) => Err(TransportProtocolError::from_emberflow_error(e)),
        }
    }

    /// A diagnostic at the given level (an unknown level is reported as `info`), on stderr.
    pub fn emit_diagnostic(&self, level: &str, message: &str) -> (r: TransportDiagnostic)
        ensures
            r.channel@ == "stderr"@,
            r.level@ == diagnostic_level(level@),
            r.message@ == message@,
    {
        let level: &'static str = if str_eq(level, "debug") {
            "debug"
        } else if str_eq(level, "info") {
            "info"
        } else if str_eq(level, "warn") {
            "warn"
        } else if str_eq(level, "error") {
            "error"
        } else {
            "info"
        };
        TransportDiagnostic { channel: "stderr", level, message: owned(message) }
    }

    /// The line a diagnostic is written as: `<level>: <message>` and a line break.
    pub fn diagnostic_line(&self, level: &str, message: &str) -> (r: String)
        ensures
            r@ == diagnostic_level(level@) + ": "@ + message@ + "\n"@,
    {
        let d = self.emit_diagnostic(level, message);
        let head = cat3(d.level, ": ", d.message.as_str());
        cat(head.as_str(), "\n")
    }

    /// The resources a client can read now: the workspace overview, the views of each active
    /// track, the views of each task that is not on an archived track, and the client contract.
    #[verifier::loop_isolation(false)]
    pub fn list_resources(&self) -> (r: Result<Vec<TransportResourceDescriptor>, TransportProtocolError>)
        requires
            self.wf(),
        ensures
            r matches Ok(v) && descriptor_keys(v@) == listed_resources(
                self.surface_state().runtime_state().store.track_rows().filter(
                    |t: crate::records::TrackRow| t.status@ != "archived"@,
                ).map_values(|t: crate::records::TrackRow| crate::store::track_record_of(t)),
                self.surface_state().runtime_state().store.task_rows().map_values(
                    |t: crate::records::TaskRow| crate::store::task_record_of(t),
                ),
            ) && forall|i: int| 0 <= i < v@.len() ==> described(#[trigger] v@[i]),
    {
        proof {
            reveal_strlit("emberflow://workspace/overview");
            reveal_strlit("workspace-overview");
            reveal_strlit("application/json");
        }
        let mut resources: Vec<TransportResourceDescriptor> = vec![
            TransportResourceDescriptor {
                uri: owned("emberflow://workspace/overview"),
                name: "workspace-overview",
                description: "Workspace-level canonical track overview from EmberFlow.",
                mime_type: "application/json",
            },
        ];
        let tracks = match self.surface.list_active_tracks() {
            Ok(t) => t,
            Err(e) => {
                return Err(TransportProtocolError::from_emberflow_error(e));
            },
        };
        let ghost head = seq![("emberflow://workspace/overview"@, "workspace-overview"@)];
        proof {
            assert(descriptor_keys(resources@) =~= head);
            assert(resource_names()[0] == "workspace-overview"@ && resource_descriptions()[0]
                == "Workspace-level canonical track overview from EmberFlow."@);
            assert(described(resources@[0]));
        }
        let mut i: usize = 0;
        while i < tracks.len()
            invariant
                i <= tracks@.len(),
                descriptor_keys(resources@) == head + tracks_entries(tracks@.take(i as int)),
                forall|j: int| 0 <= j < resources@.len() ==> described(#[trigger] resources@[j]),
            decreases tracks@.len() - i,
        {
            let ghost before = resources@;
            let id = tracks[i].id.as_str();
            resources.push(track_resource(id, "/record", "track-record", "Canonical track record from EmberFlow."));
            resources.push(track_resource(id, "/resume", "track-resume", "Resume view for one track, combining metadata, summary, plan, and runtime visibility."));
            resources.push(track_resource(id, "/transparency", "track-transparency", "Display-ready canonical transparency state for one track."));
            resources.push(track_resource(id, "/context", "track-context", "Canonical track context combining metadata, brief, and plan."));
            resources.push(track_resource(id, "/brief", "track-brief", "Canonical resume summary for one track."));
            resources.push(track_resource(id, "/plan", "track-plan", "Canonical execution plan for one track."));
            resources.push(track_resource(id, "/runtime", "track-runtime", "Current runtime projection for one track."));
            resources.push(track_resource(id, "/events", "track-events", "Canonical event feed for one track."));
            proof {
                reveal_strlit("/record");
                reveal_strlit("/resume");
                reveal_strlit("/transparency");
                reveal_strlit("/context");
                reveal_strlit("/brief");
                reveal_strlit("/plan");
                reveal_strlit("/runtime");
                reveal_strlit("/events");
                reveal_strlit("track-record");
                reveal_strlit("track-resume");
                reveal_strlit("track-transparency");
                reveal_strlit("track-context");
                reveal_strlit("track-brief");
                reveal_strlit("track-plan");
                reveal_strlit("track-runtime");
                reveal_strlit("track-events");
                let taken = tracks@.take(i + 1);
                assert(taken.drop_last() =~= tracks@.take(i as int));
                assert(taken.last() == tracks@[i as int]);
                assert(descriptor_keys(resources@) =~= descriptor_keys(before) + track_entries(
                    id@,
                ));
                assert(resource_names()[1] == "track-record"@ && resource_descriptions()[1] == "Canonical track record from EmberFlow."@);
                assert(described(resources@[before.len() as int + 0]));
                assert(resource_names()[2] == "track-resume"@ && resource_descriptions()[2] == "Resume view for one track, combining metadata, summary, plan, and runtime visibility."@);
                assert(described(resources@[before.len() as int + 1]));
                assert(resource_names()[3] == "track-transparency"@ && resource_descriptions()[3] == "Display-ready canonical transparency state for one track."@);
                assert(described(resources@[before.len() as int + 2]));
                assert(resource_names()[4] == "track-context"@ && resource_descriptions()[4] == "Canonical track context combining metadata, brief, and plan."@);
                assert(described(resources@[before.len() as int + 3]));
                assert(resource_names()[5] == "track-brief"@ && resource_descriptions()[5] == "Canonical resume summary for one track."@);
                assert(described(resources@[before.len() as int + 4]));
                assert(resource_names()[6] == "track-plan"@ && resource_descriptions()[6] == "Canonical execution plan for one track."@);
                assert(described(resources@[before.len() as int + 5]));
                assert(resource_names()[7] == "track-runtime"@ && resource_descriptions()[7] == "Current runtime projection for one track."@);
                assert(described(resources@[before.len() as int + 6]));
                assert(resource_names()[8] == "track-events"@ && resource_descriptions()[8] == "Canonical event feed for one track."@);
                assert(described(resources@[before.len() as int + 7]));
                assert forall|j: int| 0 <= j < resources@.len() implies described(
                    #[trigger] resources@[j],
                ) by {
                    if j < before.len() {
                        assert(resources@[j] == before[j]);
                    }
                }
            }
            i += 1;
        }
        proof {
            assert(tracks@.take(tracks@.len() as int) =~= tracks@);
        }
        let tasks = match self.surface.list_tasks() {
            Ok(t) => t,
            Err(e) => {
                return Err(TransportProtocolError::from_emberflow_error(e));
            },
        };
        let ghost mid = head + tracks_entries(tracks@);
        let mut k: usize = 0;
        while k < tasks.len()
            invariant
                k <= tasks@.len(),
                descriptor_keys(resources@) == mid + tasks_entries(tasks@.take(k as int), tracks@),
                forall|j: int| 0 <= j < resources@.len() ==> described(#[trigger] resources@[j]),
            decreases tasks@.len() - k,
        {
            let ghost before = resources@;
            let task = &tasks[k];
            let listed = match &task.track_id {
                Some(t) => track_listed(&tracks, t.as_str()),
                None => true,
            };
            if listed {
                let a = cat3("emberflow://tasks/", task.id.as_str(), "/visibility");
                resources.push(
                    TransportResourceDescriptor {
                        uri: a,
                        name: "task-visibility",
                        description: "Task-level visibility fields plus current track status and next step when available.",
                        mime_type: "application/json",
                    },
                );
                let b = cat3("emberflow://tasks/", task.id.as_str(), "/events");
                resources.push(
                    TransportResourceDescriptor {
                        uri: b,
                        name: "task-events",
                        description: "Canonical event feed for one task.",
                        mime_type: "application/json",
                    },
                );
            }
            proof {
                reveal_strlit("emberflow://tasks/");
                reveal_strlit("/visibility");
                reveal_strlit("/events");
                reveal_strlit("task-visibility");
                reveal_strlit("task-events");
                let taken = tasks@.take(k + 1);
                assert(taken.drop_last() =~= tasks@.take(k as int));
                assert(taken.last() == tasks@[k as int]);
                assert(listed == task_listed(tasks@[k as int], tracks@));
                if listed {
                    assert(resource_names()[9] == "task-visibility"@ && resource_descriptions()[9]
                        == "Task-level visibility fields plus current track status and next step when available."@);
                    assert(resource_names()[10] == "task-events"@ && resource_descriptions()[10]
                        == "Canonical event feed for one task."@);
                    assert(described(resources@[before.len() as int + 0]));
                    assert(described(resources@[before.len() as int + 1]));
                    assert forall|j: int| 0 <= j < resources@.len() implies described(
                        #[trigger] resources@[j],
                    ) by {
                        if j < before.len() {
                            assert(resources@[j] == before[j]);
                        }
                    }
                    assert(descriptor_keys(resources@) =~= descriptor_keys(before) + seq![
                        ("emberflow://tasks/"@ + task.id@ + "/visibility"@, "task-visibility"@),
                        ("emberflow://tasks/"@ + task.id@ + "/events"@, "task-events"@),
                    ]);
                } else {
                    assert(descriptor_keys(resources@) =~= descriptor_keys(before) + Seq::<
                        (Seq<char>, Seq<char>),
                    >::empty());
                }
            }
            k += 1;
        }
        let ghost before_last = resources@;
        proof {
            assert(tasks@.take(tasks@.len() as int) =~= tasks@);
        }
        resources.push(
            TransportResourceDescriptor {
                uri: owned("emberflow://protocol/client-contract"),
                name: "client-contract",
                description: "Static client contract for EmberFlow bootstrap, mutation, and transparency.",
                mime_type: "application/json",
            },
        );
        proof {
            reveal_strlit("emberflow://protocol/client-contract");
            reveal_strlit("client-contract");
            assert(descriptor_keys(resources@) =~= descriptor_keys(before_last) + seq![
                ("emberflow://protocol/client-contract"@, "client-contract"@),
            ]);
            assert(resource_names()[11] == "client-contract"@ && resource_descriptions()[11]
                == "Static client contract for EmberFlow bootstrap, mutation, and transparency."@);
            assert(described(resources@[before_last.len() as int]));
            assert forall|j: int| 0 <= j < resources@.len() implies described(
                #[trigger] resources@[j],
            ) by {
                if j < before_last.len() {
                    assert(resources@[j] == before_last[j]);
                }
            }
        }
        Ok(resources)
    }

    /// The resource templates.
    pub fn list_resource_templates(&self) -> (r: Result<Vec<ResourceViewDescriptor>, TransportProtocolError>)
        ensures
            r matches Ok(v) && templates_are(v@),
    {
        Ok(self.surface.list_resources())
    }

    /// Reads a resource by URI.
    pub fn read_resource(&self, uri: &str) -> (r: Result<ResourceReadResponse, TransportProtocolError>)
        requires
            self.wf(),
        ensures
            resource_route(uri@) is None ==> (r matches Err(e) && e.code@ == "not_found"@),
            r matches Ok(resp) ==> resource_read_by(self.surface_state().runtime_state(), uri@, resp),
            exists|er: Result<ResourceReadResponse, EmberFlowError>|
                crate::service::resource_read_outcome(self.surface_state().runtime_state(), uri@, er)
                    && #[trigger] protocol_result_of(er, r),
    {
        let er = self.surface.read_resource(uri);
        let r = match er {
            Ok(x) => Ok(x),
            Err(e) => Err(TransportProtocolError::from_emberflow_error(e)),
        };
        proof {
            assert(protocol_result_of(er, r));
        }
        r
    }
}

/// A runtime result as the protocol answers it: the same value, or the protocol error for the
/// runtime's error.
pub open spec fn protocol_result_of<T>(
    er: Result<T, EmberFlowError>,
    r: Result<T, TransportProtocolError>,
) -> bool {
    match er {
        Ok(a) => r == Ok::<T, TransportProtocolError>(a),
        Err(e) => r matches Err(p) && protocol_error_of(e, p),
    }
}

/// A track resource descriptor: `emberflow://tracks/<id><suffix>`.
fn track_resource(
    track_id: &str,
    suffix: &str,
    name: &'static str,
    description: &'static str,
) -> (r: TransportResourceDescriptor)
    ensures
        r.uri@ == "emberflow://tracks/"@ + track_id@ + suffix@,
        r.name == name,
        r.description == description,
        r.mime_type@ == "application/json"@,
{
    TransportResourceDescriptor {
        uri: cat3("emberflow://tracks/", track_id, suffix),
        name,
        description,
        mime_type: "application/json",
    }
}

/// Whether a track id is among the listed tracks.
fn track_listed(tracks: &Vec<TrackRecord>, id: &str) -> (r: bool)
    ensures
        r == exists|i: int| 0 <= i < tracks@.len() && (#[trigger] tracks@[i]).id@ == id@,
{
    let mut i: usize = 0;
    while i < tracks.len()
        invariant
            i <= tracks@.len(),
            forall|k: int| 0 <= k < i ==> (#[trigger] tracks@[k]).id@ != id@,
        decreases tracks@.len() - i,
    {
        if str_eq(tracks[i].id.as_str(), id) {
            return true;
        }
        i += 1;
    }
    false
}


/// The version of this server, as it reports it to clients.
pub fn server_version() -> (r: &'static str)
    ensures
        r@ == "0.1.0"@,
{
    "0.1.0"
}

fn str_items(v: Vec<&'static str>) -> (r: JsonValue)
    ensures
        r@ == JsonV::Arr(views_of(v@).map_values(|s: Seq<char>| JsonV::Str(s))),
{
    let mut items: Vec<JsonValue> = Vec::new();
    let mut i: usize = 0;
    while i < v.len()
        invariant
            i <= v@.len(),
            json_view_seq(items@) == views_of(v@).take(i as int).map_values(
                |s: Seq<char>| JsonV::Str(s),
            ),
        decreases v@.len() - i,
    {
        let ghost before = items@;
        items.push(jstr(v[i]));
        proof {
            lemma_json_view_seq(before);
            lemma_json_view_seq(items@);
            assert forall|k: int| 0 <= k < i + 1 implies json_view_seq(items@)[k] == views_of(
                v@,
            ).take(i + 1).map_values(|s: Seq<char>| JsonV::Str(s))[k] by {
                if k < i {
                    assert(items@[k] == before[k]);
                    assert(json_view_seq(before)[k] == views_of(v@).take(i as int).map_values(
                        |s: Seq<char>| JsonV::Str(s),
                    )[k]);
                }
            }
            assert(json_view_seq(items@) =~= views_of(v@).take(i + 1).map_values(
                |s: Seq<char>| JsonV::Str(s),
            ));
        }
        i += 1;
    }
    proof {
        assert(views_of(v@).take(v@.len() as int) =~= views_of(v@));
    }
    JsonValue::Arr(items)
}

/// The schema of one property: its type, or anything when the type is empty.
pub open spec fn property_schema(ty: Seq<char>) -> JsonV {
    if ty.len() == 0 {
        JsonV::Obj(Seq::empty())
    } else {
        JsonV::Obj(seq![("type"@, JsonV::Str(ty))])
    }
}

/// The names and types of properties.
pub open spec fn props_view(props: Seq<(&'static str, &'static str)>) -> Seq<(Seq<char>, Seq<char>)> {
    props.map_values(|p: (&'static str, &'static str)| (p.0@, p.1@))
}

/// The input schema of a tool: an object with the given typed properties, the required ones,
/// and nothing else.
pub open spec fn schema_json(props: Seq<(Seq<char>, Seq<char>)>, required: Seq<Seq<char>>) -> JsonV {
    JsonV::Obj(
        seq![
            ("type"@, JsonV::Str("object"@)),
            ("properties"@, JsonV::Obj(
                props.map_values(|p: (Seq<char>, Seq<char>)| (p.0, property_schema(p.1))),
            )),
            ("required"@, JsonV::Arr(required.map_values(|s: Seq<char>| JsonV::Str(s)))),
            ("additionalProperties"@, JsonV::Bool(false)),
        ],
    )
}

/// The input schema of a tool: an object with the given typed properties (an empty type
/// accepts anything), the required ones, and nothing else.
fn input_schema(props: Vec<(&'static str, &'static str)>, required: Vec<&'static str>) -> (r: JsonValue)
    ensures
        r@ == schema_json(props_view(props@), views_of(required@)),
{
    let mut members: Vec<(String, JsonValue)> = Vec::new();
    let ghost want = props_view(props@).map_values(
        |p: (Seq<char>, Seq<char>)| (p.0, property_schema(p.1)),
    );
    let mut i: usize = 0;
    while i < props.len()
        invariant
            i <= props@.len(),
            want == props_view(props@).map_values(
                |p: (Seq<char>, Seq<char>)| (p.0, property_schema(p.1)),
            ),
            json_view_members(members@) == want.take(i as int),
        decreases props@.len() - i,
    {
        let (key, ty) = props[i];
        let schema = if ty.unicode_len() == 0 {
            let e: Vec<(String, JsonValue)> = Vec::new();
            proof {
                lemma_json_view_members(e@);
                assert(json_view_members(e@) =~= Seq::<(Seq<char>, JsonV)>::empty());
            }
            JsonValue::Obj(e)
        } else {
            let m = vec![member("type", jstr(ty))];
            proof {
                lemma_json_view_members(m@);
                assert(json_view_members(m@) =~= seq![("type"@, JsonV::Str(ty@))]);
            }
            JsonValue::Obj(m)
        };
        let ghost before = members@;
        members.push(member(key, schema));
        proof {
            lemma_json_view_members(before);
            lemma_json_view_members(members@);
            assert(schema@ == property_schema(ty@));
            assert(json_view_members(members@) =~= want.take(i + 1)) by {
                assert forall|k: int| 0 <= k < i + 1 implies json_view_members(members@)[k]
                    == want.take(i + 1)[k] by {
                    if k < i {
                        assert(members@[k] == before[k]);
                        assert(json_view_members(before)[k] == want.take(i as int)[k]);
                    }
                }
            }
        }
        i += 1;
    }
    proof {
        assert(want.take(props@.len() as int) =~= want);
    }
    let m = vec![
        member("type", jstr("object")),
        member("properties", JsonValue::Obj(members)),
        member("required", str_items(required)),
        member("additionalProperties", JsonValue::Bool(false)),
    ];
    proof {
        lemma_json_view_members(m@);
        assert(json_view_members(m@) =~= schema_json(props_view(props@), views_of(required@))->Obj_0);
    }
    JsonValue::Obj(m)
}

/// The parameters each tool requires, in the order of the tools.
pub open spec fn tool_required_params() -> Seq<Seq<Seq<char>>> {
    seq![
        seq!["trackId"@, "title"@, "status"@],
        seq!["trackId"@, "trackType"@, "status"@, "description"@, "branch"@],
        seq!["trackId"@, "sections"@],
        seq!["trackId"@, "phases"@],
        seq!["trackId"@],
        seq!["trackId"@],
        seq!["taskId"@, "title"@, "status"@, "phase"@],
        seq!["eventId"@, "kind"@],
        seq!["taskId"@, "holder"@],
        seq!["taskId"@, "holder"@],
    ]
}

/// A tool's answer: the result as structured content and as JSON text, not an error.
pub open spec fn tool_result_spec(result: JsonV) -> JsonV {
    JsonV::Obj(
        seq![
            ("structuredContent"@, result),
            ("content"@, JsonV::Arr(seq![JsonV::Obj(seq![
                ("type"@, JsonV::Str("text"@)),
                ("text"@, JsonV::Str(json_text(result))),
            ])])),
            ("isError"@, JsonV::Bool(false)),
        ],
    )
}

/// The arguments of a `tools/call` request: its `arguments`, or an empty object.
pub open spec fn call_arguments(params: JsonV) -> JsonV {
    match json_get(params, "arguments"@) {
        Some(a) => a,
        None => JsonV::Obj(Seq::empty()),
    }
}

/// The answer to `resources/read`, for a resource as read.
pub open spec fn resource_read_spec(resource: ResourceReadResponse) -> JsonV {
    JsonV::Obj(
        seq![
            (
                "contents"@,
                JsonV::Arr(
                    seq![
                        JsonV::Obj(
                            seq![
                                ("uri"@, JsonV::Str(resource.uri@)),
                                ("mimeType"@, JsonV::Str(resource.mime_type@)),
                                ("text"@, JsonV::Str(json_text(resource.content@))),
                            ],
                        ),
                    ],
                ),
            ),
            ("resource"@, resource_view_json(resource)),
        ],
    )
}

/// What a resource read answers: without a `uri`, invalid parameters; for a URI that names
/// no resource, not found; else the resource read at that URI, in the method's format.
pub open spec fn read_outcome(
    rt: EmberFlowRuntime,
    method: Seq<char>,
    params: JsonV,
    r: Result<JsonValue, TransportProtocolError>,
) -> bool {
    match param_text(params, "uri"@) {
        None => r matches Err(e) && is_invalid_params(e, "uri"@, must_be_present("uri"@)),
        Some(u) => {
            &&& resource_route(u) is None ==> (r matches Err(e) && e.code@ == "not_found"@)
            &&& r matches Ok(v) ==> exists|resp: ResourceReadResponse|
                resource_read_by(rt, u, resp) && v@ == #[trigger] read_answer(method, resp)
            &&& exists|er: Result<ResourceReadResponse, EmberFlowError>|
                #[trigger] crate::service::resource_read_outcome(rt, u, er) && (er is Ok
                    <==> r is Ok) && (er matches Err(e) ==> (r matches Err(p) && protocol_error_of(
                    e,
                    p,
                )))
        },
    }
}

/// The answer to a read of `resource`: the standard format for `resources/read`, else the
/// resource alone.
pub open spec fn read_answer(method: Seq<char>, resource: ResourceReadResponse) -> JsonV {
    if method == "resources/read"@ {
        resource_read_spec(resource)
    } else {
        JsonV::Obj(seq![("resource"@, resource_view_json(resource))])
    }
}

/// What `tools/call` answers, going from runtime state `rt0` to `rt1`: without a `name`,
/// invalid parameters; for a name that is no tool, method not found; without a string
/// parameter the tool requires, invalid parameters; else the tool result of the tool's write
/// (see `tool_effect`) with the call's arguments.
pub open spec fn tool_call_outcome(
    rt0: EmberFlowRuntime,
    rt1: EmberFlowRuntime,
    params: JsonV,
    r: Result<JsonValue, TransportProtocolError>,
) -> bool {
    match param_text(params, "name"@) {
        None => r matches Err(e) && is_invalid_params(e, "name"@, must_be_present("name"@))
            && rt1 == rt0,
        Some(n) => {
            &&& !standard_tools().contains(n) ==> (r matches Err(e) && e.code@ == "method_not_found"@
                && e.message@ == "unknown method: "@ + n) && rt1 == rt0
            &&& forall|i: int|
                0 <= i < 10 && #[trigger] standard_tools()[i] == n && lacks_required_string(
                    i,
                    call_arguments(params),
                ) ==> (r matches Err(e) && e.code@ == "invalid_params"@) && rt1 == rt0
            &&& r matches Ok(v) ==> exists|res: JsonV|
                v@ == tool_result_spec(res) && #[trigger] tool_effect(
                    rt0,
                    rt1,
                    n,
                    call_arguments(params),
                    res,
                )
            &&& r matches Err(p) ==> (standard_tools().contains(n) ==> ((!tool_params_readable(
                n,
                call_arguments(params),
            ) && p.code@ == "invalid_params"@ && rt1 == rt0) || exists|e: EmberFlowError|
                #[trigger] protocol_error_of(e, p) && tool_failed(
                    rt0,
                    rt1,
                    n,
                    call_arguments(params),
                    e,
                )))
        },
    }
}

/// The string parameters each tool requires, in the order of the tools.
pub open spec fn tool_string_params() -> Seq<Seq<Seq<char>>> {
    seq![
        seq!["trackId"@, "title"@, "status"@],
        seq!["trackId"@, "trackType"@, "status"@, "description"@, "branch"@],
        seq!["trackId"@],
        seq!["trackId"@],
        seq!["trackId"@],
        seq!["trackId"@],
        seq!["taskId"@, "title"@, "status"@, "phase"@],
        seq!["eventId"@, "kind"@],
        seq!["taskId"@, "holder"@],
        seq!["taskId"@, "holder"@],
    ]
}

/// Whether a call of tool `i` lacks a string parameter the tool requires.
pub open spec fn lacks_required_string(i: int, params: JsonV) -> bool {
    exists|j: int|
        0 <= j < tool_string_params()[i].len() && (#[trigger] param_text(
            params,
            tool_string_params()[i][j],
        )) is None
}

/// A tool: its name, description and input schema.
fn tool_descriptor(name: &str, description: &str, schema: JsonValue) -> (r: JsonValue)
    ensures
        r@ == JsonV::Obj(
            seq![
                ("name"@, JsonV::Str(name@)),
                ("description"@, JsonV::Str(description@)),
                ("inputSchema"@, schema@),
            ],
        ),
{
    let m = vec![
        member("name", jstr(name)),
        member("description", jstr(description)),
        member("inputSchema", schema),
    ];
    proof {
        lemma_json_view_members(m@);
        assert(json_view_members(m@) =~= seq![
            ("name"@, JsonV::Str(name@)),
            ("description"@, JsonV::Str(description@)),
            ("inputSchema"@, schema@),
        ]);
    }
    JsonValue::Obj(m)
}

/// The members of an object (none for another document).
pub open spec fn obj_members(v: JsonV) -> Seq<(Seq<char>, JsonV)> {
    match v {
        JsonV::Obj(m) => m,
        _ => Seq::empty(),
    }
}

/// The items of an array (none for another document).
pub open spec fn arr_items(v: JsonV) -> Seq<JsonV> {
    match v {
        JsonV::Arr(items) => items,
        _ => Seq::empty(),
    }
}

/// The name of a tool descriptor.
pub open spec fn tool_name(t: JsonV) -> Option<Seq<char>> {
    json_get_str(t, "name"@)
}

/// What each tool is for, in the order of the tools.
pub open spec fn tool_descriptions() -> Seq<Seq<char>> {
    seq![
        "Create a canonical track record in EmberFlow."@,
        "Create or update canonical track metadata in EmberFlow."@,
        "Replace the canonical brief sections for a track."@,
        "Replace the canonical execution plan for a track."@,
        "Archive a canonical track in EmberFlow without deleting its direct resources."@,
        "Delete a canonical track in EmberFlow."@,
        "Create a canonical task with visibility metadata in EmberFlow."@,
        "Record a canonical event in EmberFlow."@,
        "Claim an exclusive execution lease on a task in EmberFlow."@,
        "Release an execution lease on a task in EmberFlow."@,
    ]
}

/// The properties each tool takes, with their types, in the order of the tools.
pub open spec fn tool_properties() -> Seq<Seq<(Seq<char>, Seq<char>)>> {
    seq![
        seq![("trackId"@, "string"@), ("title"@, "string"@), ("status"@, "string"@)],
        seq![("trackId"@, "string"@), ("trackType"@, "string"@), ("status"@, "string"@), ("description"@, "string"@), ("branch"@, "string"@), ("specRef"@, "string"@)],
        seq![("trackId"@, "string"@), ("sections"@, "array"@)],
        seq![("trackId"@, "string"@), ("phases"@, "array"@)],
        seq![("trackId"@, "string"@)],
        seq![("trackId"@, "string"@)],
        seq![("taskId"@, "string"@), ("trackId"@, "string"@), ("title"@, "string"@), ("status"@, "string"@), ("phase"@, "string"@), ("executor"@, "string"@), ("agentInstanceId"@, "string"@), ("execution"@, "string"@), ("intentSummary"@, "string"@)],
        seq![("eventId"@, "string"@), ("trackId"@, "string"@), ("taskId"@, "string"@), ("kind"@, "string"@), ("payload"@, ""@)],
        seq![("taskId"@, "string"@), ("holder"@, "string"@), ("durationSecs"@, "integer"@)],
        seq![("taskId"@, "string"@), ("holder"@, "string"@)],
    ]
}

/// The descriptor of tool `i`: its name, description and input schema.
pub open spec fn tool_spec(i: int) -> JsonV {
    JsonV::Obj(
        seq![
            ("name"@, JsonV::Str(standard_tools()[i])),
            ("description"@, JsonV::Str(tool_descriptions()[i])),
            ("inputSchema"@, schema_json(tool_properties()[i], tool_required_params()[i])),
        ],
    )
}

/// The list of tools, as `tools/list` answers it.
pub open spec fn tools_spec() -> JsonV {
    JsonV::Obj(seq![("tools"@, JsonV::Arr(Seq::new(10, |i: int| tool_spec(i))))])
}

/// The write tools and their input schemas, in the order of the standard tool list.
pub fn tools_json() -> (r: JsonValue)
    ensures
        r@ == tools_spec(),
        r@ is Obj && obj_members(r@).len() == 1 && obj_members(r@)[0].0 == "tools"@ && arr_items(
            obj_members(r@)[0].1,
        ).len() == 10 && forall|i: int|
            0 <= i < 10 ==> obj_members(#[trigger] arr_items(obj_members(r@)[0].1)[i]).len() == 3
                && obj_members(arr_items(obj_members(r@)[0].1)[i])[0] == ("name"@, JsonV::Str(
                standard_tools()[i],
            )) && obj_members(arr_items(obj_members(r@)[0].1)[i])[2].0 == "inputSchema"@
                && obj_members(obj_members(arr_items(obj_members(r@)[0].1)[i])[2].1)[2] == (
                "required"@,
                JsonV::Arr(tool_required_params()[i].map_values(|s: Seq<char>| JsonV::Str(s))),
            ),
{
    let r0 = vec!["trackId", "title", "status"];
    let r1 = vec!["trackId", "trackType", "status", "description", "branch"];
    let r2 = vec!["trackId", "sections"];
    let r3 = vec!["trackId", "phases"];
    let r4 = vec!["trackId"];
    let r5 = vec!["trackId"];
    let r6 = vec!["taskId", "title", "status", "phase"];
    let r7 = vec!["eventId", "kind"];
    let r8 = vec!["taskId", "holder"];
    let r9 = vec!["taskId", "holder"];
    proof {
        let t = tool_required_params();
        assert(views_of(r0@) =~= t[0]);
        assert(views_of(r1@) =~= t[1]);
        assert(views_of(r2@) =~= t[2]);
        assert(views_of(r3@) =~= t[3]);
        assert(views_of(r4@) =~= t[4]);
        assert(views_of(r5@) =~= t[5]);
        assert(views_of(r6@) =~= t[6]);
        assert(views_of(r7@) =~= t[7]);
        assert(views_of(r8@) =~= t[8]);
        assert(views_of(r9@) =~= t[9]);
    }
    let p0: Vec<(&'static str, &'static str)> = vec![("trackId", "string"), ("title", "string"), ("status", "string")];
    let p1: Vec<(&'static str, &'static str)> = vec![("trackId", "string"), ("trackType", "string"), ("status", "string"), ("description", "string"), ("branch", "string"), ("specRef", "string")];
    let p2: Vec<(&'static str, &'static str)> = vec![("trackId", "string"), ("sections", "array")];
    let p3: Vec<(&'static str, &'static str)> = vec![("trackId", "string"), ("phases", "array")];
    let p4: Vec<(&'static str, &'static str)> = vec![("trackId", "string")];
    let p5: Vec<(&'static str, &'static str)> = vec![("trackId", "string")];
    let p6: Vec<(&'static str, &'static str)> = vec![("taskId", "string"), ("trackId", "string"), ("title", "string"), ("status", "string"), ("phase", "string"), ("executor", "string"), ("agentInstanceId", "string"), ("execution", "string"), ("intentSummary", "string")];
    let p7: Vec<(&'static str, &'static str)> = vec![("eventId", "string"), ("trackId", "string"), ("taskId", "string"), ("kind", "string"), ("payload", "")];
    let p8: Vec<(&'static str, &'static str)> = vec![("taskId", "string"), ("holder", "string"), ("durationSecs", "integer")];
    let p9: Vec<(&'static str, &'static str)> = vec![("taskId", "string"), ("holder", "string")];
    proof {
        assert(props_view(p0@) =~= tool_properties()[0]);
        assert(props_view(p1@) =~= tool_properties()[1]);
        assert(props_view(p2@) =~= tool_properties()[2]);
        assert(props_view(p3@) =~= tool_properties()[3]);
        assert(props_view(p4@) =~= tool_properties()[4]);
        assert(props_view(p5@) =~= tool_properties()[5]);
        assert(props_view(p6@) =~= tool_properties()[6]);
        assert(props_view(p7@) =~= tool_properties()[7]);
        assert(props_view(p8@) =~= tool_properties()[8]);
        assert(props_view(p9@) =~= tool_properties()[9]);
    }
    let tools = vec![
        tool_descriptor("emberflow-track-create", "Create a canonical track record in EmberFlow.", input_schema(p0, r0)),
        tool_descriptor("emberflow-track-metadata-upsert", "Create or update canonical track metadata in EmberFlow.", input_schema(p1, r1)),
        tool_descriptor("emberflow-track-brief-replace", "Replace the canonical brief sections for a track.", input_schema(p2, r2)),
        tool_descriptor("emberflow-track-plan-replace", "Replace the canonical execution plan for a track.", input_schema(p3, r3)),
        tool_descriptor("emberflow-track-archive", "Archive a canonical track in EmberFlow without deleting its direct resources.", input_schema(p4, r4)),
        tool_descriptor("emberflow-track-delete", "Delete a canonical track in EmberFlow.", input_schema(p5, r5)),
        tool_descriptor("emberflow-task-create", "Create a canonical task with visibility metadata in EmberFlow.", input_schema(p6, r6)),
        tool_descriptor("emberflow-event-record", "Record a canonical event in EmberFlow.", input_schema(p7, r7)),
        tool_descriptor("emberflow-task-claim", "Claim an exclusive execution lease on a task in EmberFlow.", input_schema(p8, r8)),
        tool_descriptor("emberflow-task-release", "Release an execution lease on a task in EmberFlow.", input_schema(p9, r9)),
    ];
    proof {
        lemma_json_view_seq(tools@);
        assert forall|i: int| 0 <= i < 10 implies json_view_seq(tools@)[i] == tool_spec(i) by {
            assert(json_view_seq(tools@)[i] == crate::json::json_view(tools@[i]));
        }
        assert(json_view_seq(tools@) =~= Seq::new(10, |i: int| tool_spec(i)));
    }
    let m = vec![member("tools", JsonValue::Arr(tools))];
    proof {
        lemma_json_view_members(m@);
        assert(json_view_members(m@) =~= tools_spec()->Obj_0);
    }
    JsonValue::Obj(m)
}

/// What a tool call answers: the result as structured content and as text, not an error.
pub fn tool_result_json(result: JsonValue) -> (r: JsonValue)
    ensures
        r@ == tool_result_spec(result@),
{
    let text = to_json_text(&result);
    let item = vec![member("type", jstr("text")), member("text", JsonValue::Str(text))];
    proof {
        lemma_json_view_members(item@);
        assert(json_view_members(item@) =~= seq![
            ("type"@, JsonV::Str("text"@)),
            ("text"@, JsonV::Str(json_text(result@))),
        ]);
    }
    let content = vec![JsonValue::Obj(item)];
    proof {
        lemma_json_view_seq(content@);
        assert(json_view_seq(content@) =~= seq![JsonV::Obj(seq![
            ("type"@, JsonV::Str("text"@)),
            ("text"@, JsonV::Str(json_text(result@))),
        ])]);
    }
    let ghost rv = result@;
    let m = vec![
        member("structuredContent", result),
        member("content", JsonValue::Arr(content)),
        member("isError", JsonValue::Bool(false)),
    ];
    proof {
        lemma_json_view_members(m@);
        assert(json_view_members(m@) =~= seq![
            ("structuredContent"@, rv),
            ("content"@, JsonV::Arr(seq![JsonV::Obj(seq![
                ("type"@, JsonV::Str("text"@)),
                ("text"@, JsonV::Str(json_text(rv))),
            ])])),
            ("isError"@, JsonV::Bool(false)),
        ]);
    }
    JsonValue::Obj(m)
}

/// The answer to `initialize` when the client asks for protocol version `asked`: that
/// version (else the one this server speaks), the server's name and version, and its
/// capabilities (resources without subscriptions, tools, neither with change notices).
pub open spec fn initialize_answer(asked: Option<Seq<char>>) -> JsonV {
    JsonV::Obj(
        seq![
            ("protocolVersion"@, JsonV::Str(
                match asked {
                    Some(v) => v,
                    None => "2024-11-05"@,
                },
            )),
            ("serverInfo"@, JsonV::Obj(
                seq![("name"@, JsonV::Str("emberflow"@)), ("version"@, JsonV::Str("0.1.0"@))],
            )),
            ("capabilities"@, JsonV::Obj(
                seq![
                    ("resources"@, JsonV::Obj(
                        seq![("subscribe"@, JsonV::Bool(false)), ("listChanged"@, JsonV::Bool(false))],
                    )),
                    ("tools"@, JsonV::Obj(seq![("listChanged"@, JsonV::Bool(false))])),
                ],
            )),
        ],
    )
}

/// The answer to `initialize`: the protocol version the client asked for (else the one this
/// server speaks), the server's name and version, and its capabilities.
pub fn initialize_response_json(params: &JsonValue) -> (r: JsonValue)
    ensures
        r@ == initialize_answer(param_text(params@, "protocolVersion"@)),
{
    let version = match optional_string(params, "protocolVersion") {
        Some(v) => v,
        None => owned("2024-11-05"),
    };
    let server = vec![member("name", jstr("emberflow")), member("version", jstr(server_version()))];
    let resources = vec![
        member("subscribe", JsonValue::Bool(false)),
        member("listChanged", JsonValue::Bool(false)),
    ];
    let tools = vec![member("listChanged", JsonValue::Bool(false))];
    let caps = vec![
        member("resources", JsonValue::Obj(resources)),
        member("tools", JsonValue::Obj(tools)),
    ];
    let m = vec![
        member("protocolVersion", JsonValue::Str(version)),
        member("serverInfo", JsonValue::Obj(server)),
        member("capabilities", JsonValue::Obj(caps)),
    ];
    proof {
        lemma_json_view_members(server@);
        lemma_json_view_members(resources@);
        lemma_json_view_members(tools@);
        lemma_json_view_members(caps@);
        lemma_json_view_members(m@);
        assert(json_view_members(server@) =~= seq![
            ("name"@, JsonV::Str("emberflow"@)),
            ("version"@, JsonV::Str("0.1.0"@)),
        ]);
        assert(json_view_members(resources@) =~= seq![
            ("subscribe"@, JsonV::Bool(false)),
            ("listChanged"@, JsonV::Bool(false)),
        ]);
        assert(json_view_members(tools@) =~= seq![("listChanged"@, JsonV::Bool(false))]);
        assert(json_view_members(caps@) =~= initialize_answer(
            param_text(params@, "protocolVersion"@),
        )->Obj_0[2].1->Obj_0);
        assert(json_view_members(m@) =~= initialize_answer(
            param_text(params@, "protocolVersion"@),
        )->Obj_0);
    }
    JsonValue::Obj(m)
}

/// A read resource as JSON: where it was read, what it is, and its content.
pub open spec fn resource_view_json(resource: ResourceReadResponse) -> JsonV {
    JsonV::Obj(
        seq![
            ("uri"@, JsonV::Str(resource.uri@)),
            ("name"@, JsonV::Str(resource.name@)),
            ("description"@, JsonV::Str(resource.description@)),
            ("mimeType"@, JsonV::Str(resource.mime_type@)),
            ("content"@, resource.content@),
        ],
    )
}

/// A listed resource as JSON.
pub open spec fn descriptor_json(d: TransportResourceDescriptor) -> JsonV {
    JsonV::Obj(
        seq![
            ("uri"@, JsonV::Str(d.uri@)),
            ("name"@, JsonV::Str(d.name@)),
            ("description"@, JsonV::Str(d.description@)),
            ("mimeType"@, JsonV::Str(d.mime_type@)),
        ],
    )
}

/// A resource template as JSON.
pub open spec fn template_json(d: ResourceViewDescriptor) -> JsonV {
    JsonV::Obj(
        seq![
            ("uriTemplate"@, JsonV::Str(d.uri_template@)),
            ("name"@, JsonV::Str(d.name@)),
            ("description"@, JsonV::Str(d.description@)),
            ("mimeType"@, JsonV::Str(d.mime_type@)),
        ],
    )
}

fn resource_json_members(resource: &ResourceReadResponse, content: JsonValue) -> (r: JsonValue)
    ensures
        r@ == JsonV::Obj(
            seq![
                ("uri"@, JsonV::Str(resource.uri@)),
                ("name"@, JsonV::Str(resource.name@)),
                ("description"@, JsonV::Str(resource.description@)),
                ("mimeType"@, JsonV::Str(resource.mime_type@)),
                ("content"@, content@),
            ],
        ),
{
    let ghost cv = content@;
    let m = vec![
        member("uri", jstr(resource.uri.as_str())),
        member("name", jstr(resource.name)),
        member("description", jstr(resource.description)),
        member("mimeType", jstr(resource.mime_type)),
        member("content", content),
    ];
    proof {
        lemma_json_view_members(m@);
        assert(json_view_members(m@) =~= seq![
            ("uri"@, JsonV::Str(resource.uri@)),
            ("name"@, JsonV::Str(resource.name@)),
            ("description"@, JsonV::Str(resource.description@)),
            ("mimeType"@, JsonV::Str(resource.mime_type@)),
            ("content"@, cv),
        ]);
    }
    JsonValue::Obj(m)
}

/// The legacy answer to a resource read: the resource with its content.
pub fn resource_json(resource: ResourceReadResponse) -> (r: JsonValue)
    ensures
        r@ == JsonV::Obj(seq![("resource"@, resource_view_json(resource))]),
{
    let ghost rv = resource_view_json(resource);
    let content = resource.content;
    let inner = resource_json_members(&ResourceReadResponse { content: JsonValue::Null, ..resource }, content);
    proof {
        assert(inner@ == rv);
    }
    let m = vec![member("resource", inner)];
    proof {
        lemma_json_view_members(m@);
        assert(json_view_members(m@) =~= seq![("resource"@, rv)]);
    }
    JsonValue::Obj(m)
}

/// The standard answer to `resources/read`: the content as JSON text, and the resource with
/// its content.
pub fn resource_read_json(resource: ResourceReadResponse) -> (r: JsonValue)
    ensures
        r@ == resource_read_spec(resource),
{
    let ghost rv = resource_view_json(resource);
    let ghost ev = JsonV::Obj(
        seq![
            ("uri"@, JsonV::Str(resource.uri@)),
            ("mimeType"@, JsonV::Str(resource.mime_type@)),
            ("text"@, JsonV::Str(json_text(resource.content@))),
        ],
    );
    let text = to_json_text(&resource.content);
    let entry = vec![
        member("uri", jstr(resource.uri.as_str())),
        member("mimeType", jstr(resource.mime_type)),
        member("text", JsonValue::Str(text)),
    ];
    proof {
        lemma_json_view_members(entry@);
        assert(json_view_members(entry@) =~= seq![
            ("uri"@, JsonV::Str(resource.uri@)),
            ("mimeType"@, JsonV::Str(resource.mime_type@)),
            ("text"@, JsonV::Str(json_text(resource.content@))),
        ]);
    }
    let entry_value = JsonValue::Obj(entry);
    let listed = vec![entry_value];
    proof {
        lemma_json_view_seq(listed@);
        assert(json_view_seq(listed@) =~= seq![ev]);
    }
    let content = resource.content;
    let inner = resource_json_members(&ResourceReadResponse { content: JsonValue::Null, ..resource }, content);
    let m = vec![
        member("contents", JsonValue::Arr(listed)),
        member("resource", inner),
    ];
    proof {
        lemma_json_view_members(m@);
        assert(json_view_members(m@) =~= seq![
            ("contents"@, JsonV::Arr(seq![ev])),
            ("resource"@, rv),
        ]);
    }
    JsonValue::Obj(m)
}

/// The resources a client can read now, as JSON.
pub fn resources_json(resources: &Vec<TransportResourceDescriptor>) -> (r: JsonValue)
    ensures
        r@ == JsonV::Obj(
            seq![
                (
                    "resources"@,
                    JsonV::Arr(
                        resources@.map_values(|d: TransportResourceDescriptor| descriptor_json(d)),
                    ),
                ),
            ],
        ),
{
    let mut items: Vec<JsonValue> = Vec::new();
    let mut i: usize = 0;
    while i < resources.len()
        invariant
            i <= resources@.len(),
            json_view_seq(items@) == resources@.take(i as int).map_values(
                |d: TransportResourceDescriptor| descriptor_json(d),
            ),
        decreases resources@.len() - i,
    {
        let d = &resources[i];
        let fields = vec![
            member("uri", jstr(d.uri.as_str())),
            member("name", jstr(d.name)),
            member("description", jstr(d.description)),
            member("mimeType", jstr(d.mime_type)),
        ];
        proof {
            lemma_json_view_members(fields@);
            assert(json_view_members(fields@) =~= seq![
                ("uri"@, JsonV::Str(d.uri@)),
                ("name"@, JsonV::Str(d.name@)),
                ("description"@, JsonV::Str(d.description@)),
                ("mimeType"@, JsonV::Str(d.mime_type@)),
            ]);
        }
        let ghost old_items = items@;
        items.push(JsonValue::Obj(fields));
        proof {
            lemma_json_view_seq(old_items);
            lemma_json_view_seq(items@);
            assert(json_view_seq(items@) =~= json_view_seq(old_items).push(descriptor_json(*d)));
            assert(resources@.take(i + 1).map_values(
                |d: TransportResourceDescriptor| descriptor_json(d),
            ) =~= resources@.take(i as int).map_values(
                |d: TransportResourceDescriptor| descriptor_json(d),
            ).push(descriptor_json(resources@[i as int])));
        }
        i += 1;
    }
    proof {
        assert(resources@.take(resources@.len() as int) =~= resources@);
    }
    let ghost iv = json_view_seq(items@);
    let m = vec![member("resources", JsonValue::Arr(items))];
    proof {
        lemma_json_view_members(m@);
        assert(json_view_members(m@) =~= seq![("resources"@, JsonV::Arr(iv))]);
    }
    JsonValue::Obj(m)
}

/// The resource templates, as JSON.
pub fn resource_templates_json(resources: &Vec<ResourceViewDescriptor>) -> (r: JsonValue)
    ensures
        r@ == JsonV::Obj(
            seq![
                (
                    "resourceTemplates"@,
                    JsonV::Arr(resources@.map_values(|d: ResourceViewDescriptor| template_json(d))),
                ),
            ],
        ),
{
    let mut items: Vec<JsonValue> = Vec::new();
    let mut i: usize = 0;
    while i < resources.len()
        invariant
            i <= resources@.len(),
            json_view_seq(items@) == resources@.take(i as int).map_values(
                |d: ResourceViewDescriptor| template_json(d),
            ),
        decreases resources@.len() - i,
    {
        let d = &resources[i];
        let fields = vec![
            member("uriTemplate", jstr(d.uri_template)),
            member("name", jstr(d.name)),
            member("description", jstr(d.description)),
            member("mimeType", jstr(d.mime_type)),
        ];
        proof {
            lemma_json_view_members(fields@);
            assert(json_view_members(fields@) =~= seq![
                ("uriTemplate"@, JsonV::Str(d.uri_template@)),
                ("name"@, JsonV::Str(d.name@)),
                ("description"@, JsonV::Str(d.description@)),
                ("mimeType"@, JsonV::Str(d.mime_type@)),
            ]);
        }
        let ghost old_items = items@;
        items.push(JsonValue::Obj(fields));
        proof {
            lemma_json_view_seq(old_items);
            lemma_json_view_seq(items@);
            assert(json_view_seq(items@) =~= json_view_seq(old_items).push(template_json(*d)));
            assert(resources@.take(i + 1).map_values(
                |d: ResourceViewDescriptor| template_json(d),
            ) =~= resources@.take(i as int).map_values(
                |d: ResourceViewDescriptor| template_json(d),
            ).push(template_json(resources@[i as int])));
        }
        i += 1;
    }
    proof {
        assert(resources@.take(resources@.len() as int) =~= resources@);
    }
    let ghost iv = json_view_seq(items@);
    let m = vec![member("resourceTemplates", JsonValue::Arr(items))];
    proof {
        lemma_json_view_members(m@);
        assert(json_view_members(m@) =~= seq![("resourceTemplates"@, JsonV::Arr(iv))]);
    }
    JsonValue::Obj(m)
}

/// A JSON-RPC success response.
pub fn protocol_response(id: JsonValue, result: JsonValue) -> (r: JsonValue)
    ensures
        r@ == JsonV::Obj(
            seq![("jsonrpc"@, JsonV::Str("2.0"@)), ("id"@, id@), ("result"@, result@)],
        ),
{
    let ghost iv = id@;
    let ghost rv = result@;
    let m = vec![member("jsonrpc", jstr("2.0")), member("id", id), member("result", result)];
    proof {
        lemma_json_view_members(m@);
        assert(json_view_members(m@) =~= seq![("jsonrpc"@, JsonV::Str("2.0"@)), ("id"@, iv), ("result"@, rv)]);
    }
    JsonValue::Obj(m)
}

/// A JSON-RPC error response.
pub fn error_response(id: JsonValue, error: &TransportProtocolError) -> (r: JsonValue)
    ensures
        r@ matches JsonV::Obj(m) && m.len() == 3 && m[0] == ("jsonrpc"@, JsonV::Str("2.0"@)) && m[1]
            == ("id"@, id@) && m[2].0 == "error"@,
{
    let ghost iv = id@;
    let m = vec![member("jsonrpc", jstr("2.0")), member("id", id), member("error", error.to_json())];
    proof {
        lemma_json_view_members(m@);
    }
    JsonValue::Obj(m)
}

/// Reads a JSON-RPC request: it needs a string `method`; `params` default to an empty object.
pub fn parse_stdio_request(request: JsonValue) -> (r: Result<TransportRequest, TransportProtocolError>)
    ensures
        json_get_str(request@, "method"@) is None ==> (r matches Err(e) && is_invalid_params(
            e,
            "method"@,
            "method must be present"@,
        )),
        r matches Ok(req) ==> json_get_str(request@, "method"@) == Some(req.method@) && match json_get(
            request@,
            "id"@,
        ) {
            Some(i) => req.id matches Some(x) && x@ == i,
            None => req.id is None,
        },
{
    let method = match request.get("method") {
        Some(m) => match m.as_str() {
            Some(m) => owned(m),
            None => {
                return Err(TransportProtocolError::invalid_params("method", "method must be present"));
            },
        },
        None => {
            return Err(TransportProtocolError::invalid_params("method", "method must be present"));
        },
    };
    let mut id: Option<JsonValue> = None;
    let mut params: JsonValue = JsonValue::Obj(Vec::new());
    let ghost rv = request@;
    match request {
        JsonValue::Obj(members) => {
            let ghost ms = json_view_members(members@);
            proof {
                lemma_json_view_members(members@);
                assert(ms.skip(0) =~= ms);
            }
            let mut found_id = false;
            let mut found_params = false;
            let mut members = members;
            let n = members.len();
            let mut i: usize = 0;
            let ghost orig = members@;
            while i < n
                invariant
                    n == orig.len(),
                    i <= n,
                    ms == json_view_members(orig),
                    ms.len() == n,
                    forall|k: int| 0 <= k < n ==> (#[trigger] ms[k]) == (orig[k].0@, crate::json::json_view(orig[k].1)),
                    members@.len() == n - i,
                    forall|k: int| 0 <= k < n - i ==> members@[k] == orig[k + i],
                    found_id ==> id is Some,
                    !found_id ==> id is None && crate::json::member_value(ms.skip(i as int), "id"@)
                        == crate::json::member_value(ms, "id"@),
                    found_id ==> (crate::json::member_value(ms, "id"@) is Some && id->0@
                        == crate::json::member_value(ms, "id"@)->0),
                    rv == JsonV::Obj(ms),
                decreases n - i,
            {
                proof {
                    assert(ms.skip(i as int).drop_first() =~= ms.skip(i + 1));
                    assert(ms.skip(i as int)[0] == ms[i as int]);
                }
                let (key, value) = members.remove(0);
                proof {
                    assert(key == orig[i as int].0);
                    assert(value == orig[i as int].1);
                    assert forall|k: int| 0 <= k < n - (i + 1) implies members@[k] == orig[k + i + 1] by {
                    }
                }
                if !found_id && str_eq(key.as_str(), "id") {
                    id = Some(value);
                    found_id = true;
                } else if !found_params && str_eq(key.as_str(), "params") {
                    params = value;
                    found_params = true;
                }
                i += 1;
            }
        },
        _ => {},
    }
    Ok(TransportRequest { id, method, params })
}


fn map_err<T>(r: Result<T, EmberFlowError>) -> (out: Result<T, TransportProtocolError>)
    ensures
        r is Ok <==> out is Ok,
        r matches Ok(v) ==> out == Ok::<T, TransportProtocolError>(v),
        r matches Err(e) ==> (out matches Err(p) && protocol_error_of(e, p)),
{
    match r {
        Ok(v) => Ok(v),
        Err(e) => Err(TransportProtocolError::from_emberflow_error(e)),
    }
}

/// The metadata a tool call writes: each field as the call gives it (trimmed).
pub open spec fn metadata_input_from(params: JsonV, input: TrackMetadataInput) -> bool {
    &&& param_text(params, "trackId"@) == Some(input.track_id@)
    &&& param_text(params, "trackType"@) == Some(input.track_type@)
    &&& param_text(params, "status"@) == Some(input.status@)
    &&& param_text(params, "description"@) == Some(input.description@)
    &&& param_text(params, "branch"@) == Some(input.branch@)
    &&& param_text(params, "specRef"@) == opt_view(input.spec_ref)
}

/// The task a tool call creates: each field as the call gives it (trimmed); the executor is
/// `executor`, else `agentType`.
pub open spec fn task_input_from(params: JsonV, input: TaskInput) -> bool {
    &&& param_text(params, "taskId"@) == Some(input.task_id@)
    &&& param_text(params, "trackId"@) == opt_view(input.track_id)
    &&& param_text(params, "title"@) == Some(input.title@)
    &&& param_text(params, "status"@) == Some(input.status@)
    &&& param_text(params, "phase"@) == Some(input.phase@)
    &&& crate::service::first_some(
        param_text(params, "executor"@),
        param_text(params, "agentType"@),
    ) == opt_view(input.executor)
    &&& param_text(params, "agentInstanceId"@) == opt_view(input.agent_instance_id)
    &&& param_text(params, "execution"@) == opt_view(input.execution)
    &&& param_text(params, "intentSummary"@) == opt_view(input.intent_summary)
}

/// The payload an event tool call records: its `payload` as JSON text, else `{}`.
pub open spec fn event_payload_from(params: JsonV) -> Seq<char> {
    match json_get(params, "payload"@) {
        Some(p) => json_text(p),
        None => "{}"@,
    }
}

/// Whether a claim tool call asks for a lease of a given length: `durationSecs` is a
/// non-negative integer.
pub open spec fn duration_given(params: JsonV) -> bool {
    json_get(params, "durationSecs"@) matches Some(JsonV::Int(i)) && i >= 0
}

/// Whether the parameters of the write tool `name` can be read: the strings it requires are
/// given (see `tool_string_params`), and so are a brief's sections or a plan's phases.
pub open spec fn tool_params_readable(name: Seq<char>, params: JsonV) -> bool {
    if name == "emberflow-track-create"@ {
        param_text(params, "trackId"@) is Some && param_text(params, "title"@) is Some
            && param_text(params, "status"@) is Some
    } else if name == "emberflow-track-metadata-upsert"@ {
        param_text(params, "trackId"@) is Some && param_text(params, "trackType"@) is Some
            && param_text(params, "status"@) is Some && param_text(params, "description"@) is Some
            && param_text(params, "branch"@) is Some
    } else if name == "emberflow-track-brief-replace"@ {
        param_text(params, "trackId"@) is Some && sections_readable(params)
    } else if name == "emberflow-track-plan-replace"@ {
        param_text(params, "trackId"@) is Some && phases_readable(params)
    } else if name == "emberflow-track-archive"@ || name == "emberflow-track-delete"@ {
        param_text(params, "trackId"@) is Some
    } else if name == "emberflow-task-create"@ {
        param_text(params, "taskId"@) is Some && param_text(params, "title"@) is Some
            && param_text(params, "status"@) is Some && param_text(params, "phase"@) is Some
    } else if name == "emberflow-event-record"@ {
        param_text(params, "eventId"@) is Some && param_text(params, "kind"@) is Some
    } else if name == "emberflow-task-claim"@ || name == "emberflow-task-release"@ {
        param_text(params, "taskId"@) is Some && param_text(params, "holder"@) is Some
    } else {
        true
    }
}

/// What a call of the write tool `name` left behind when the surface refused it with `e`,
/// from the parameters read as the tool reads them: the clock failed and nothing changed,
/// or the runtime's outcome for that error holds.
pub open spec fn tool_failed(
    rt0: EmberFlowRuntime,
    rt1: EmberFlowRuntime,
    name: Seq<char>,
    params: JsonV,
    e: EmberFlowError,
) -> bool {
    let unchanged = e is Sqlite && rt1 == rt0;
    let track_id = param_text(params, "trackId"@)->0;
    if name == "emberflow-track-create"@ {
        unchanged || create_track_outcome(
            rt0,
            rt1,
            track_id,
            param_text(params, "title"@)->0,
            param_text(params, "status"@)->0,
            Err::<TrackRecord, EmberFlowError>(e),
        )
    } else if name == "emberflow-track-metadata-upsert"@ {
        unchanged || exists|input: TrackMetadataInput|
            metadata_input_from(params, input) && #[trigger] metadata_outcome(
                rt0,
                rt1,
                input,
                Err::<TrackMetadataRecord, EmberFlowError>(e),
            )
    } else if name == "emberflow-track-brief-replace"@ {
        unchanged || exists|sections: Seq<TrackBriefSectionInput>, now: Seq<char>|
            sections_from(params, sections) && #[trigger] brief_outcome(
                rt0,
                rt1,
                track_id,
                sections,
                now,
                Err::<TrackBriefRecord, EmberFlowError>(e),
            )
    } else if name == "emberflow-track-plan-replace"@ {
        unchanged || exists|phases: Seq<TrackPlanPhaseInput>, now: Seq<char>|
            phases_from(params, phases) && #[trigger] plan_outcome(
                rt0,
                rt1,
                track_id,
                phases,
                now,
                Err::<TrackPlanRecord, EmberFlowError>(e),
            )
    } else if name == "emberflow-track-archive"@ {
        unchanged || archive_outcome(rt0, rt1, track_id, Err::<TrackRecord, EmberFlowError>(e))
    } else if name == "emberflow-track-delete"@ {
        delete_outcome(rt0, rt1, track_id, Err::<TrackRecord, EmberFlowError>(e))
    } else if name == "emberflow-task-create"@ {
        unchanged || exists|input: TaskInput, now: Seq<char>|
            task_input_from(params, input) && #[trigger] create_task_outcome(
                rt0,
                rt1,
                input,
                now,
                Err::<TaskRecord, EmberFlowError>(e),
            )
    } else if name == "emberflow-event-record"@ {
        unchanged || exists|now: Seq<char>|
            #[trigger] record_event_outcome(
                rt0,
                rt1,
                param_text(params, "eventId"@)->0,
                param_text(params, "trackId"@),
                param_text(params, "taskId"@),
                param_text(params, "kind"@)->0,
                event_payload_from(params),
                now,
                Err::<EventRecord, EmberFlowError>(e),
            )
    } else if name == "emberflow-task-claim"@ {
        unchanged || exists|now: Seq<char>, expires: Option<Seq<char>>|
            (expires is Some <==> duration_given(params)) && #[trigger] claim_outcome(
                rt0,
                rt1,
                param_text(params, "taskId"@)->0,
                param_text(params, "holder"@)->0,
                expires,
                now,
                Err::<LeaseInfo, EmberFlowError>(e),
            )
    } else if name == "emberflow-task-release"@ {
        unchanged || exists|now: Seq<char>|
            #[trigger] release_outcome(
                rt0,
                rt1,
                param_text(params, "taskId"@)->0,
                param_text(params, "holder"@)->0,
                now,
                Err::<(), EmberFlowError>(e),
            )
    } else {
        false
    }
}

/// What a successful call of the write tool `name` did and answered: the write it makes on
/// the runtime (its outcome, see the runtime's write operations), from the parameters read as
/// the tool reads them, and the JSON of the record written.
pub open spec fn tool_effect(
    rt0: EmberFlowRuntime,
    rt1: EmberFlowRuntime,
    name: Seq<char>,
    params: JsonV,
    v: JsonV,
) -> bool {
    if name == "emberflow-track-create"@ {
        exists|t: TrackRecord|
            #[trigger] create_track_outcome(
                rt0,
                rt1,
                param_text(params, "trackId"@)->0,
                param_text(params, "title"@)->0,
                param_text(params, "status"@)->0,
                Ok::<TrackRecord, EmberFlowError>(t),
            ) && v == crate::views::track_json(t)
    } else if name == "emberflow-track-metadata-upsert"@ {
        exists|input: TrackMetadataInput, m: TrackMetadataRecord|
            metadata_input_from(params, input) && #[trigger] metadata_outcome(
                rt0,
                rt1,
                input,
                Ok::<TrackMetadataRecord, EmberFlowError>(m),
            ) && v == crate::views::metadata_json(m)
    } else if name == "emberflow-track-brief-replace"@ {
        exists|sections: Seq<TrackBriefSectionInput>, now: Seq<char>, b: TrackBriefRecord|
            sections_from(params, sections) && #[trigger] brief_outcome(
                rt0,
                rt1,
                param_text(params, "trackId"@)->0,
                sections,
                now,
                Ok::<TrackBriefRecord, EmberFlowError>(b),
            ) && v == crate::views::brief_json(b)
    } else if name == "emberflow-track-plan-replace"@ {
        exists|phases: Seq<TrackPlanPhaseInput>, now: Seq<char>, p: TrackPlanRecord|
            phases_from(params, phases) && #[trigger] plan_outcome(
                rt0,
                rt1,
                param_text(params, "trackId"@)->0,
                phases,
                now,
                Ok::<TrackPlanRecord, EmberFlowError>(p),
            ) && v == crate::views::plan_json(p)
    } else if name == "emberflow-track-archive"@ {
        exists|t: TrackRecord|
            #[trigger] archive_outcome(
                rt0,
                rt1,
                param_text(params, "trackId"@)->0,
                Ok::<TrackRecord, EmberFlowError>(t),
            ) && v == crate::views::track_json(t)
    } else if name == "emberflow-track-delete"@ {
        exists|t: TrackRecord|
            #[trigger] delete_outcome(
                rt0,
                rt1,
                param_text(params, "trackId"@)->0,
                Ok::<TrackRecord, EmberFlowError>(t),
            ) && v == crate::views::track_json(t)
    } else if name == "emberflow-task-create"@ {
        exists|input: TaskInput, now: Seq<char>, t: TaskRecord|
            task_input_from(params, input) && #[trigger] create_task_outcome(
                rt0,
                rt1,
                input,
                now,
                Ok::<TaskRecord, EmberFlowError>(t),
            ) && v == crate::views::task_json(t)
    } else if name == "emberflow-event-record"@ {
        exists|now: Seq<char>, ev: EventRecord|
            #[trigger] record_event_outcome(
                rt0,
                rt1,
                param_text(params, "eventId"@)->0,
                param_text(params, "trackId"@),
                param_text(params, "taskId"@),
                param_text(params, "kind"@)->0,
                event_payload_from(params),
                now,
                Ok::<EventRecord, EmberFlowError>(ev),
            ) && v == crate::views::event_json(ev)
    } else if name == "emberflow-task-claim"@ {
        exists|now: Seq<char>, expires: Option<Seq<char>>, l: LeaseInfo|
            (expires is Some <==> duration_given(params)) && #[trigger] claim_outcome(
                rt0,
                rt1,
                param_text(params, "taskId"@)->0,
                param_text(params, "holder"@)->0,
                expires,
                now,
                Ok::<LeaseInfo, EmberFlowError>(l),
            ) && v == crate::views::lease_json(l)
    } else if name == "emberflow-task-release"@ {
        exists|now: Seq<char>|
            #[trigger] release_outcome(
                rt0,
                rt1,
                param_text(params, "taskId"@)->0,
                param_text(params, "holder"@)->0,
                now,
                Ok::<(), EmberFlowError>(()),
            ) && v == JsonV::Obj(
                seq![("released"@, JsonV::Bool(true)), ("taskId"@, JsonV::Str(param_text(params, "taskId"@)->0))],
            )
    } else {
        false
    }
}

impl StdioTransportSession {
    /// Creates a track.
    pub fn create_track(&mut self, track_id: &str, title: &str, status: &str) -> (r: Result<
        TrackRecord,
        TransportProtocolError,
    >)
        requires
            old(self).wf(),
        ensures
            final(self).wf(),
            r matches Ok(x) ==> create_track_outcome(old(self).surface_state().runtime_state(), final(self).surface_state().runtime_state(), track_id@, title@, status@, Ok::<TrackRecord, EmberFlowError>(x)),
            r matches Err(p) ==> exists|e: EmberFlowError|
                #[trigger] protocol_error_of(e, p) && ((e is Sqlite && final(self).surface_state().runtime_state() == old(self).surface_state().runtime_state())
                    || create_track_outcome(old(self).surface_state().runtime_state(), final(self).surface_state().runtime_state(), track_id@, title@, status@, Err::<TrackRecord, EmberFlowError>(e))),
    {
        map_err(self.surface.create_track(track_id, title, status))
    }

    /// Archives a track that is in review or done.
    pub fn archive_track(&mut self, track_id: &str) -> (r: Result<TrackRecord, TransportProtocolError>)
        requires
            old(self).wf(),
        ensures
            final(self).wf(),
            r matches Ok(x) ==> archive_outcome(old(self).surface_state().runtime_state(), final(self).surface_state().runtime_state(), track_id@, Ok::<TrackRecord, EmberFlowError>(x)),
            r matches Err(p) ==> exists|e: EmberFlowError|
                #[trigger] protocol_error_of(e, p) && ((e is Sqlite && final(self).surface_state().runtime_state() == old(self).surface_state().runtime_state())
                    || archive_outcome(old(self).surface_state().runtime_state(), final(self).surface_state().runtime_state(), track_id@, Err::<TrackRecord, EmberFlowError>(e))),
    {
        map_err(self.surface.archive_track(track_id))
    }

    /// Deletes a track with everything that hangs off it.
    pub fn delete_track(&mut self, track_id: &str) -> (r: Result<TrackRecord, TransportProtocolError>)
        requires
            old(self).wf(),
        ensures
            final(self).wf(),
            r matches Ok(x) ==> delete_outcome(
                old(self).surface_state().runtime_state(),
                final(self).surface_state().runtime_state(),
                track_id@,
                Ok::<TrackRecord, EmberFlowError>(x),
            ),
            r matches Err(p) ==> exists|e: EmberFlowError|
                #[trigger] protocol_error_of(e, p) && delete_outcome(
                    old(self).surface_state().runtime_state(),
                    final(self).surface_state().runtime_state(),
                    track_id@,
                    Err::<TrackRecord, EmberFlowError>(e),
                ),
    {
        map_err(self.surface.delete_track(track_id))
    }

    /// Creates or updates a track's metadata.
    pub fn upsert_track_metadata(&mut self, input: TrackMetadataInput) -> (r: Result<
        TrackMetadataRecord,
        TransportProtocolError,
    >)
        requires
            old(self).wf(),
        ensures
            final(self).wf(),
            r matches Ok(x) ==> metadata_outcome(old(self).surface_state().runtime_state(), final(self).surface_state().runtime_state(), input, Ok::<TrackMetadataRecord, EmberFlowError>(x)),
            r matches Err(p) ==> exists|e: EmberFlowError|
                #[trigger] protocol_error_of(e, p) && ((e is Sqlite && final(self).surface_state().runtime_state() == old(self).surface_state().runtime_state())
                    || metadata_outcome(old(self).surface_state().runtime_state(), final(self).surface_state().runtime_state(), input, Err::<TrackMetadataRecord, EmberFlowError>(e))),
    {
        map_err(self.surface.upsert_track_metadata(input))
    }

    /// Replaces a track's brief.
    pub fn replace_track_brief(&mut self, track_id: &str, sections: Vec<TrackBriefSectionInput>) -> (r:
        Result<TrackBriefRecord, TransportProtocolError>)
        requires
            old(self).wf(),
        ensures
            final(self).wf(),
            r matches Ok(x) ==> exists|now: Seq<char>|
                #[trigger] brief_outcome(old(self).surface_state().runtime_state(), final(self).surface_state().runtime_state(), track_id@, sections@, now, Ok::<TrackBriefRecord, EmberFlowError>(x)),
            r matches Err(p) ==> exists|e: EmberFlowError|
                #[trigger] protocol_error_of(e, p) && ((e is Sqlite && final(self).surface_state().runtime_state() == old(self).surface_state().runtime_state())
                    || exists|now: Seq<char>| brief_outcome(old(self).surface_state().runtime_state(), final(self).surface_state().runtime_state(), track_id@, sections@, now, Err::<TrackBriefRecord, EmberFlowError>(e))),
    {
        let ghost given = sections@;
        let r0 = self.surface.replace_track_brief(track_id, sections);
        let out = map_err(r0);
        proof {
            if out is Ok {
                let x = out->Ok_0;
                let now = choose|now: Seq<char>|
                    #[trigger] brief_outcome(
                        old(self).surface_state().runtime_state(),
                        self.surface_state().runtime_state(),
                        track_id@,
                        given,
                        now,
                        r0,
                    );
                assert(r0 == Ok::<TrackBriefRecord, EmberFlowError>(x));
                assert(brief_outcome(
                    old(self).surface_state().runtime_state(),
                    self.surface_state().runtime_state(),
                    track_id@,
                    sections@,
                    now,
                    Ok::<TrackBriefRecord, EmberFlowError>(x),
                ));
            }
        }
        out
    }

    /// Replaces a track's plan.
    pub fn replace_track_plan(&mut self, track_id: &str, phases: Vec<TrackPlanPhaseInput>) -> (r:
        Result<TrackPlanRecord, TransportProtocolError>)
        requires
            old(self).wf(),
        ensures
            final(self).wf(),
            r matches Ok(x) ==> exists|now: Seq<char>|
                #[trigger] plan_outcome(old(self).surface_state().runtime_state(), final(self).surface_state().runtime_state(), track_id@, phases@, now, Ok::<TrackPlanRecord, EmberFlowError>(x)),
            r matches Err(p) ==> exists|e: EmberFlowError|
                #[trigger] protocol_error_of(e, p) && ((e is Sqlite && final(self).surface_state().runtime_state() == old(self).surface_state().runtime_state())
                    || exists|now: Seq<char>| plan_outcome(old(self).surface_state().runtime_state(), final(self).surface_state().runtime_state(), track_id@, phases@, now, Err::<TrackPlanRecord, EmberFlowError>(e))),
    {
        let ghost given = phases@;
        let r0 = self.surface.replace_track_plan(track_id, phases);
        let out = map_err(r0);
        proof {
            if out is Ok {
                let x = out->Ok_0;
                let now = choose|now: Seq<char>|
                    #[trigger] plan_outcome(
                        old(self).surface_state().runtime_state(),
                        self.surface_state().runtime_state(),
                        track_id@,
                        given,
                        now,
                        r0,
                    );
                assert(r0 == Ok::<TrackPlanRecord, EmberFlowError>(x));
                assert(plan_outcome(
                    old(self).surface_state().runtime_state(),
                    self.surface_state().runtime_state(),
                    track_id@,
                    phases@,
                    now,
                    Ok::<TrackPlanRecord, EmberFlowError>(x),
                ));
            }
        }
        out
    }

    /// Creates a task.
    pub fn create_task(&mut self, input: TaskInput) -> (r: Result<TaskRecord, TransportProtocolError>)
        requires
            old(self).wf(),
        ensures
            final(self).wf(),
            r matches Ok(x) ==> exists|now: Seq<char>|
                #[trigger] create_task_outcome(old(self).surface_state().runtime_state(), final(self).surface_state().runtime_state(), input, now, Ok::<TaskRecord, EmberFlowError>(x)),
            r matches Err(p) ==> exists|e: EmberFlowError|
                #[trigger] protocol_error_of(e, p) && ((e is Sqlite && final(self).surface_state().runtime_state() == old(self).surface_state().runtime_state())
                    || exists|now: Seq<char>| create_task_outcome(old(self).surface_state().runtime_state(), final(self).surface_state().runtime_state(), input, now, Err::<TaskRecord, EmberFlowError>(e))),
    {
        map_err(self.surface.create_task(input))
    }

    /// Records an event with a JSON text payload.
    pub fn record_event(
        &mut self,
        event_id: &str,
        track_id: Option<&str>,
        task_id: Option<&str>,
        kind: &str,
        payload: &str,
    ) -> (r: Result<EventRecord, TransportProtocolError>)
        requires
            old(self).wf(),
        ensures
            final(self).wf(),
            r matches Ok(x) ==> exists|now: Seq<char>|
                #[trigger] record_event_outcome(
                    old(self).surface_state().runtime_state(),
                    final(self).surface_state().runtime_state(),
                    event_id@,
                    crate::text::opt_str_view(track_id),
                    crate::text::opt_str_view(task_id),
                    kind@,
                    payload@,
                    now,
                    Ok::<EventRecord, EmberFlowError>(x),
                ),
            r matches Err(p) ==> exists|e: EmberFlowError|
                #[trigger] protocol_error_of(e, p) && ((e is Sqlite && final(self).surface_state().runtime_state() == old(self).surface_state().runtime_state())
                    || exists|now: Seq<char>| record_event_outcome(
                        old(self).surface_state().runtime_state(),
                        final(self).surface_state().runtime_state(),
                        event_id@,
                        crate::text::opt_str_view(track_id),
                        crate::text::opt_str_view(task_id),
                        kind@,
                        payload@,
                        now,
                        Err::<EventRecord, EmberFlowError>(e),
                    )),
    {
        map_err(self.surface.record_event(event_id, track_id, task_id, kind, payload))
    }

    /// Claims the lease of a task.
    pub fn claim_task(&mut self, task_id: &str, holder: &str, duration_secs: Option<u64>) -> (r:
        Result<LeaseInfo, TransportProtocolError>)
        requires
            old(self).wf(),
        ensures
            final(self).wf(),
            r matches Ok(l) ==> match duration_secs {
                Some(secs) => l.expires_at matches Some(e) && crate::clock::datetime_seconds(e@)
                    == crate::clock::datetime_seconds(l.acquired_at@) + secs,
                None => l.expires_at is None,
            },
            r matches Ok(x) ==> exists|now: Seq<char>, expires: Option<Seq<char>>|
                (expires is Some <==> duration_secs is Some) && #[trigger] claim_outcome(
                    old(self).surface_state().runtime_state(),
                    final(self).surface_state().runtime_state(),
                    task_id@,
                    holder@,
                    expires,
                    now,
                    Ok::<LeaseInfo, EmberFlowError>(x),
                ),
            r matches Err(p) ==> exists|e: EmberFlowError|
                #[trigger] protocol_error_of(e, p) && ((e is Sqlite && final(self).surface_state().runtime_state() == old(self).surface_state().runtime_state())
                    || exists|now: Seq<char>, expires: Option<Seq<char>>| (expires is Some <==> duration_secs is Some) && claim_outcome(
                        old(self).surface_state().runtime_state(),
                        final(self).surface_state().runtime_state(),
                        task_id@,
                        holder@,
                        expires,
                        now,
                        Err::<LeaseInfo, EmberFlowError>(e),
                    )),
    {
        map_err(self.surface.claim_task(task_id, holder, duration_secs))
    }

    /// Releases the lease of a task.
    pub fn release_task(&mut self, task_id: &str, holder: &str) -> (r: Result<(), TransportProtocolError>)
        requires
            old(self).wf(),
        ensures
            final(self).wf(),
            r matches Ok(x) ==> exists|now: Seq<char>|
                #[trigger] release_outcome(old(self).surface_state().runtime_state(), final(self).surface_state().runtime_state(), task_id@, holder@, now, Ok::<(), EmberFlowError>(x)),
            r matches Err(p) ==> exists|e: EmberFlowError|
                #[trigger] protocol_error_of(e, p) && ((e is Sqlite && final(self).surface_state().runtime_state() == old(self).surface_state().runtime_state())
                    || exists|now: Seq<char>| release_outcome(old(self).surface_state().runtime_state(), final(self).surface_state().runtime_state(), task_id@, holder@, now, Err::<(), EmberFlowError>(e))),
    {
        map_err(self.surface.release_task(task_id, holder))
    }

    /// Runs a write tool with its arguments: the parameters are read (strings trimmed, a
    /// missing one refused), the surface does the write, and the record is answered as JSON.
    pub fn call_tool(&mut self, name: &str, params: &JsonValue) -> (r: Result<
        JsonValue,
        TransportProtocolError,
    >)
        requires
            old(self).wf(),
        ensures
            final(self).wf(),
            !standard_tools().contains(name@) ==> (r matches Err(e) && e.code@
                == "method_not_found"@ && e.message@ == "unknown method: "@ + name@)
                && *final(self) == *old(self),
            standard_tools().contains(name@) && (name@ == "emberflow-track-create"@ || name@
                == "emberflow-track-archive"@ || name@ == "emberflow-track-delete"@
                || name@ == "emberflow-track-brief-replace"@ || name@
                == "emberflow-track-plan-replace"@ || name@ == "emberflow-track-metadata-upsert"@)
                && param_text(params@, "trackId"@) is None ==> (r matches Err(e)
                && is_invalid_params(e, "trackId"@, must_be_present("trackId"@))),
            forall|i: int|
                0 <= i < 10 && #[trigger] standard_tools()[i] == name@ && lacks_required_string(
                    i,
                    params@,
                ) ==> (r matches Err(e) && e.code@ == "invalid_params"@) && *final(self) == *old(
                    self,
                ),
            r matches Ok(v) ==> tool_effect(
                old(self).surface_state().runtime_state(),
                final(self).surface_state().runtime_state(),
                name@,
                params@,
                v@,
            ),
            r matches Err(p) ==> (standard_tools().contains(name@) ==> ((!tool_params_readable(
                name@,
                params@,
            ) && p.code@ == "invalid_params"@ && *final(self) == *old(self)) || exists|
                e: EmberFlowError,
            |
                #[trigger] protocol_error_of(e, p) && tool_failed(
                    old(self).surface_state().runtime_state(),
                    final(self).surface_state().runtime_state(),
                    name@,
                    params@,
                    e,
                ))),
    {
        proof {
            reveal_strlit("emberflow-track-create");
            reveal_strlit("emberflow-track-metadata-upsert");
            reveal_strlit("emberflow-track-brief-replace");
            reveal_strlit("emberflow-track-plan-replace");
            reveal_strlit("emberflow-track-archive");
            reveal_strlit("emberflow-track-delete");
            reveal_strlit("emberflow-task-create");
            reveal_strlit("emberflow-event-record");
            reveal_strlit("emberflow-task-claim");
            reveal_strlit("emberflow-task-release");
        }
        if str_eq(name, "emberflow-track-create") {
            let track_id = required_string(params, "trackId")?;
            let title = required_string(params, "title")?;
            let status = required_string(params, "status")?;
            proof {
                lemma_standard_tools_distinct();
                let ps = tool_string_params()[0];
                assert(ps =~= seq!["trackId"@, "title"@, "status"@]);
                assert(!lacks_required_string(0, params@));
            }
            let t = self.create_track(track_id.as_str(), title.as_str(), status.as_str())?;
            let v = track_to_json(&t);
            proof {
                assert(create_track_outcome(
                    old(self).surface_state().runtime_state(),
                    self.surface_state().runtime_state(),
                    track_id@,
                    title@,
                    status@,
                    Ok::<TrackRecord, EmberFlowError>(t),
                ));
                assert(tool_effect(
                    old(self).surface_state().runtime_state(),
                    self.surface_state().runtime_state(),
                    name@,
                    params@,
                    v@,
                )) by {
                    reveal(tool_effect);
                }
            }
            Ok(v)
        } else if str_eq(name, "emberflow-track-metadata-upsert") {
            let track_id = required_string(params, "trackId")?;
            let input = TrackMetadataInput {
                track_id,
                track_type: required_string(params, "trackType")?,
                status: required_string(params, "status")?,
                description: required_string(params, "description")?,
                branch: required_string(params, "branch")?,
                spec_ref: optional_string(params, "specRef"),
            };
            proof {
                lemma_standard_tools_distinct();
                let ps = tool_string_params()[1];
                assert(ps =~= seq!["trackId"@, "trackType"@, "status"@, "description"@, "branch"@]);
                assert(!lacks_required_string(1, params@));
            }
            let ghost input0 = input;
            let m = self.upsert_track_metadata(input)?;
            let v = metadata_to_json(&m);
            proof {
                assert(metadata_input_from(params@, input0));
                assert(metadata_outcome(old(self).surface_state().runtime_state(), self.surface_state().runtime_state(), input0, Ok::<TrackMetadataRecord, EmberFlowError>(m)));
                assert(tool_effect(
                    old(self).surface_state().runtime_state(),
                    self.surface_state().runtime_state(),
                    name@,
                    params@,
                    v@,
                )) by {
                    reveal(tool_effect);
                }
            }
            Ok(v)
        } else if str_eq(name, "emberflow-track-brief-replace") {
            let track_id = required_string(params, "trackId")?;
            proof {
                lemma_standard_tools_distinct();
                let ps = tool_string_params()[2];
                assert(ps =~= seq!["trackId"@]);
                assert(!lacks_required_string(2, params@));
            }
            let sections = track_brief_sections_from_params(params)?;
            let ghost given = sections@;
            let b = self.replace_track_brief(track_id.as_str(), sections)?;
            let v = brief_to_json(&b);
            proof {
                let now = choose|now: Seq<char>|
                    #[trigger] brief_outcome(
                        old(self).surface_state().runtime_state(),
                        self.surface_state().runtime_state(),
                        track_id@,
                        given,
                        now,
                        Ok::<TrackBriefRecord, EmberFlowError>(b),
                    );
                assert(sections_from(params@, given));
                assert(brief_outcome(
                    old(self).surface_state().runtime_state(),
                    self.surface_state().runtime_state(),
                    track_id@,
                    given,
                    now,
                    Ok::<TrackBriefRecord, EmberFlowError>(b),
                ));
                assert(tool_effect(
                    old(self).surface_state().runtime_state(),
                    self.surface_state().runtime_state(),
                    name@,
                    params@,
                    v@,
                )) by {
                    reveal(tool_effect);
                }
            }
            Ok(v)
        } else if str_eq(name, "emberflow-track-plan-replace") {
            let track_id = required_string(params, "trackId")?;
            proof {
                lemma_standard_tools_distinct();
                let ps = tool_string_params()[3];
                assert(ps =~= seq!["trackId"@]);
                assert(!lacks_required_string(3, params@));
            }
            let phases = track_plan_from_params(params)?;
            let ghost given = phases@;
            let p = self.replace_track_plan(track_id.as_str(), phases)?;
            let v = plan_to_json(&p);
            proof {
                let now = choose|now: Seq<char>|
                    #[trigger] plan_outcome(
                        old(self).surface_state().runtime_state(),
                        self.surface_state().runtime_state(),
                        track_id@,
                        given,
                        now,
                        Ok::<TrackPlanRecord, EmberFlowError>(p),
                    );
                assert(phases_from(params@, given));
                assert(plan_outcome(
                    old(self).surface_state().runtime_state(),
                    self.surface_state().runtime_state(),
                    track_id@,
                    given,
                    now,
                    Ok::<TrackPlanRecord, EmberFlowError>(p),
                ));
                assert(tool_effect(
                    old(self).surface_state().runtime_state(),
                    self.surface_state().runtime_state(),
                    name@,
                    params@,
                    v@,
                )) by {
                    reveal(tool_effect);
                }
            }
            Ok(v)
        } else if str_eq(name, "emberflow-track-archive") {
            let track_id = required_string(params, "trackId")?;
            proof {
                lemma_standard_tools_distinct();
                let ps = tool_string_params()[4];
                assert(ps =~= seq!["trackId"@]);
                assert(!lacks_required_string(4, params@));
            }
            let t = self.archive_track(track_id.as_str())?;
            let v = track_to_json(&t);
            proof {
                assert(archive_outcome(old(self).surface_state().runtime_state(), self.surface_state().runtime_state(), track_id@, Ok::<TrackRecord, EmberFlowError>(t)));
                assert(tool_effect(
                    old(self).surface_state().runtime_state(),
                    self.surface_state().runtime_state(),
                    name@,
                    params@,
                    v@,
                )) by {
                    reveal(tool_effect);
                }
            }
            Ok(v)
        } else if str_eq(name, "emberflow-track-delete") {
            let track_id = required_string(params, "trackId")?;
            proof {
                lemma_standard_tools_distinct();
                let ps = tool_string_params()[5];
                assert(ps =~= seq!["trackId"@]);
                assert(!lacks_required_string(5, params@));
            }
            let t = self.delete_track(track_id.as_str())?;
            let v = track_to_json(&t);
            proof {
                assert(delete_outcome(old(self).surface_state().runtime_state(), self.surface_state().runtime_state(), track_id@, Ok::<TrackRecord, EmberFlowError>(t)));
                assert(tool_effect(
                    old(self).surface_state().runtime_state(),
                    self.surface_state().runtime_state(),
                    name@,
                    params@,
                    v@,
                )) by {
                    reveal(tool_effect);
                }
            }
            Ok(v)
        } else if str_eq(name, "emberflow-task-create") {
            let task_id = required_string(params, "taskId")?;
            let track_id = optional_string(params, "trackId");
            let title = required_string(params, "title")?;
            let status = required_string(params, "status")?;
            let phase = required_string(params, "phase")?;
            proof {
                lemma_standard_tools_distinct();
                let ps = tool_string_params()[6];
                assert(ps =~= seq!["taskId"@, "title"@, "status"@, "phase"@]);
                assert(!lacks_required_string(6, params@));
            }
            let executor = match optional_string(params, "executor") {
                Some(e) => Some(e),
                None => optional_string(params, "agentType"),
            };
            let input = TaskInput {
                task_id,
                track_id,
                title,
                status,
                phase,
                executor,
                agent_instance_id: optional_string(params, "agentInstanceId"),
                execution: optional_string(params, "execution"),
                intent_summary: optional_string(params, "intentSummary"),
            };
            let ghost input0 = input;
            let t = self.create_task(input)?;
            let v = task_to_json(&t);
            proof {
                let now = choose|now: Seq<char>|
                    #[trigger] create_task_outcome(
                        old(self).surface_state().runtime_state(),
                        self.surface_state().runtime_state(),
                        input0,
                        now,
                        Ok::<TaskRecord, EmberFlowError>(t),
                    );
                assert(task_input_from(params@, input0));
                assert(create_task_outcome(old(self).surface_state().runtime_state(), self.surface_state().runtime_state(), input0, now, Ok::<TaskRecord, EmberFlowError>(t)));
                assert(tool_effect(
                    old(self).surface_state().runtime_state(),
                    self.surface_state().runtime_state(),
                    name@,
                    params@,
                    v@,
                )) by {
                    reveal(tool_effect);
                }
            }
            Ok(v)
        } else if str_eq(name, "emberflow-event-record") {
            let payload = match params.get("payload") {
                Some(p) => to_json_text(p),
                None => owned("{}"),
            };
            let event_id = required_string(params, "eventId")?;
            let track_id = optional_string(params, "trackId");
            let task_id = optional_string(params, "taskId");
            let kind = required_string(params, "kind")?;
            proof {
                lemma_standard_tools_distinct();
                let ps = tool_string_params()[7];
                assert(ps =~= seq!["eventId"@, "kind"@]);
                assert(!lacks_required_string(7, params@));
            }
            let tr = opt_ref(&track_id);
            let tk = opt_ref(&task_id);
            proof {
                assert(payload@ == event_payload_from(params@));
                assert(crate::text::opt_str_view(tr) == param_text(params@, "trackId"@));
                assert(crate::text::opt_str_view(tk) == param_text(params@, "taskId"@));
            }
            let ev = self.record_event(event_id.as_str(), tr, tk, kind.as_str(), payload.as_str())?;
            let v = event_to_json(&ev);
            proof {
                let now = choose|now: Seq<char>|
                    #[trigger] record_event_outcome(
                        old(self).surface_state().runtime_state(),
                        self.surface_state().runtime_state(),
                        event_id@,
                        opt_view(track_id),
                        opt_view(task_id),
                        kind@,
                        payload@,
                        now,
                        Ok::<EventRecord, EmberFlowError>(ev),
                    );
                assert(payload@ == event_payload_from(params@));
                assert(record_event_outcome(
                    old(self).surface_state().runtime_state(),
                    self.surface_state().runtime_state(),
                    event_id@,
                    param_text(params@, "trackId"@),
                    param_text(params@, "taskId"@),
                    kind@,
                    event_payload_from(params@),
                    now,
                    Ok::<EventRecord, EmberFlowError>(ev),
                ));
                assert(tool_effect(
                    old(self).surface_state().runtime_state(),
                    self.surface_state().runtime_state(),
                    name@,
                    params@,
                    v@,
                )) by {
                    reveal(tool_effect);
                }
            }
            Ok(v)
        } else if str_eq(name, "emberflow-task-claim") {
            let task_id = required_string(params, "taskId")?;
            let holder = required_string(params, "holder")?;
            proof {
                lemma_standard_tools_distinct();
                let ps = tool_string_params()[8];
                assert(ps =~= seq!["taskId"@, "holder"@]);
                assert(!lacks_required_string(8, params@));
            }
            let duration = match params.get("durationSecs") {
                Some(d) => d.as_u64(),
                None => None,
            };
            let l = self.claim_task(task_id.as_str(), holder.as_str(), duration)?;
            let v = lease_to_json(&l);
            proof {
                let (now, expires) = choose|now: Seq<char>, expires: Option<Seq<char>>|
                    (expires is Some <==> duration is Some) && #[trigger] claim_outcome(
                        old(self).surface_state().runtime_state(),
                        self.surface_state().runtime_state(),
                        task_id@,
                        holder@,
                        expires,
                        now,
                        Ok::<LeaseInfo, EmberFlowError>(l),
                    );
                assert(duration is Some <==> duration_given(params@));
                assert(claim_outcome(
                    old(self).surface_state().runtime_state(),
                    self.surface_state().runtime_state(),
                    task_id@,
                    holder@,
                    expires,
                    now,
                    Ok::<LeaseInfo, EmberFlowError>(l),
                ));
                assert(tool_effect(
                    old(self).surface_state().runtime_state(),
                    self.surface_state().runtime_state(),
                    name@,
                    params@,
                    v@,
                )) by {
                    reveal(tool_effect);
                }
            }
            Ok(v)
        } else if str_eq(name, "emberflow-task-release") {
            let task_id = required_string(params, "taskId")?;
            let holder = required_string(params, "holder")?;
            proof {
                lemma_standard_tools_distinct();
                let ps = tool_string_params()[9];
                assert(ps =~= seq!["taskId"@, "holder"@]);
                assert(!lacks_required_string(9, params@));
            }
            self.release_task(task_id.as_str(), holder.as_str())?;
            let ghost tid = task_id@;
            let m = vec![member("released", JsonValue::Bool(true)), member("taskId", JsonValue::Str(task_id))];
            proof {
                lemma_json_view_members(m@);
                assert(json_view_members(m@) =~= seq![
                    ("released"@, JsonV::Bool(true)),
                    ("taskId"@, JsonV::Str(tid)),
                ]);
            }
            let v = JsonValue::Obj(m);
            proof {
                let now = choose|now: Seq<char>|
                    #[trigger] release_outcome(
                        old(self).surface_state().runtime_state(),
                        self.surface_state().runtime_state(),
                        tid,
                        holder@,
                        now,
                        Ok::<(), EmberFlowError>(()),
                    );
                assert(release_outcome(old(self).surface_state().runtime_state(), self.surface_state().runtime_state(), tid, holder@, now, Ok::<(), EmberFlowError>(())));
                assert(tool_effect(
                    old(self).surface_state().runtime_state(),
                    self.surface_state().runtime_state(),
                    name@,
                    params@,
                    v@,
                )) by {
                    reveal(tool_effect);
                }
            }
            Ok(v)
        } else {
            proof {
                assert(!standard_tools().contains(name@)) by {
                    if standard_tools().contains(name@) {
                        let i = choose|i: int| 0 <= i < standard_tools().len() && standard_tools()[i] == name@;
                        assert(standard_tools()[i] == name@);
                    }
                }
            }
            Err(TransportProtocolError::method_not_found(name))
        }
    }

    /// Answers a JSON-RPC method: initialization, resource listing and reading (standard and
    /// legacy names), the tool list and tool calls, and the write tools called directly.
    pub fn call(&mut self, method: &str, params: &JsonValue) -> (r: Result<
        JsonValue,
        TransportProtocolError,
    >)
        requires
            old(self).wf(),
        ensures
            final(self).wf(),
            !known_method(method@) ==> (r matches Err(e) && e.code@ == "method_not_found"@
                && e.message@ == "unknown method: "@ + method@),
            method@ == "notifications/initialized"@ ==> (r matches Ok(v) && v@ == JsonV::Obj(
                Seq::empty(),
            )),
            method@ == "resources/list"@ || method@ == "list-resources"@ || method@
                == "list_resources"@ ==> (r matches Ok(v) && exists|l: Seq<TransportResourceDescriptor>|
                descriptor_keys(l) == listed_resources(
                    old(self).surface_state().runtime_state().store.track_rows().filter(
                        |t: crate::records::TrackRow| t.status@ != "archived"@,
                    ).map_values(|t: crate::records::TrackRow| crate::store::track_record_of(t)),
                    old(self).surface_state().runtime_state().store.task_rows().map_values(
                        |t: crate::records::TaskRow| crate::store::task_record_of(t),
                    ),
                ) && (forall|i: int| 0 <= i < l.len() ==> described(#[trigger] l[i])) && v@
                    == JsonV::Obj(
                    seq![
                        (
                            "resources"@,
                            JsonV::Arr(
                                l.map_values(|d: TransportResourceDescriptor| descriptor_json(d)),
                            ),
                        ),
                    ],
                )),
            method@ == "resources/templates/list"@ ==> (r matches Ok(v) && exists|
                l: Seq<ResourceViewDescriptor>,
            |
                #[trigger] templates_are(l) && v@ == JsonV::Obj(
                    seq![
                        (
                            "resourceTemplates"@,
                            JsonV::Arr(l.map_values(|d: ResourceViewDescriptor| template_json(d))),
                        ),
                    ],
                )),
            method@ == "resources/read"@ || method@ == "read-resource"@ || method@
                == "read_resource"@ ==> read_outcome(
                old(self).surface_state().runtime_state(),
                method@,
                params@,
                r,
            ),
            method@ == "tools/call"@ ==> tool_call_outcome(
                old(self).surface_state().runtime_state(),
                final(self).surface_state().runtime_state(),
                params@,
                r,
            ),
            standard_tools().contains(method@) ==> (r matches Ok(v) ==> tool_effect(
                old(self).surface_state().runtime_state(),
                final(self).surface_state().runtime_state(),
                method@,
                params@,
                v@,
            )),
            r matches Err(p) ==> (standard_tools().contains(method@) ==> ((!tool_params_readable(
                method@,
                params@,
            ) && p.code@ == "invalid_params"@ && *final(self) == *old(self)) || exists|
                e: EmberFlowError,
            |
                #[trigger] protocol_error_of(e, p) && tool_failed(
                    old(self).surface_state().runtime_state(),
                    final(self).surface_state().runtime_state(),
                    method@,
                    params@,
                    e,
                ))),
            method@ == "tools/list"@ ==> (r matches Ok(v) && v@ == tools_spec()),
            method@ == "initialize"@ ==> (r matches Ok(v) && v@ == initialize_answer(
                param_text(params@, "protocolVersion"@),
            )),
            forall|i: int|
                0 <= i < 10 && #[trigger] standard_tools()[i] == method@ && lacks_required_string(
                    i,
                    params@,
                ) ==> (r matches Err(e) && e.code@ == "invalid_params"@) && *final(self) == *old(
                    self,
                ),
    {
        proof {
            reveal_strlit("initialize");
            reveal_strlit("notifications/initialized");
            reveal_strlit("resources/list");
            reveal_strlit("resources/templates/list");
            reveal_strlit("resources/read");
            reveal_strlit("tools/list");
            reveal_strlit("tools/call");
            reveal_strlit("list-resources");
            reveal_strlit("list_resources");
            reveal_strlit("read-resource");
            reveal_strlit("read_resource");
            assert("initialize"@.len() != "notifications/initialized"@.len());
            assert("initialize"@[0] != "tools/list"@[0]);
            assert("resources/read"@.len() != "tools/call"@.len());
            assert("read-resource"@.len() != "tools/call"@.len());
            assert("read_resource"@.len() != "tools/call"@.len());
            assert("tools/list"@[6] != "tools/call"@[6]);
            assert("resources/list"@[10] != "resources/read"@[10]);
            assert("list-resources"@[0] != "resources/read"@[0]);
            assert("list_resources"@[0] != "resources/read"@[0]);
            lemma_standard_tools_distinct();
        }
        if str_eq(method, "initialize") {
            self.initialize()?;
            Ok(initialize_response_json(params))
        } else if str_eq(method, "notifications/initialized") {
            let empty: Vec<(String, JsonValue)> = Vec::new();
            proof {
                lemma_json_view_members(empty@);
                assert(json_view_members(empty@) =~= Seq::<(Seq<char>, JsonV)>::empty());
            }
            Ok(JsonValue::Obj(empty))
        } else if str_eq(method, "resources/list") || str_eq(method, "list-resources") || str_eq(
            method,
            "list_resources",
        ) {
            let resources = self.list_resources()?;
            Ok(resources_json(&resources))
        } else if str_eq(method, "resources/templates/list") {
            let templates = self.list_resource_templates()?;
            Ok(resource_templates_json(&templates))
        } else if str_eq(method, "resources/read") {
            let uri = required_string(params, "uri")?;
            let resource = self.read_resource(uri.as_str())?;
            let ghost resp = resource;
            let v = resource_read_json(resource);
            proof {
                assert(v@ == resource_read_spec(resp));
                assert(resp.uri@ == uri@);
                assert(param_text(params@, "uri"@) == Some(uri@));
                assert(v@ == read_answer(method@, resp));
                assert(read_outcome(
                    old(self).surface_state().runtime_state(),
                    method@,
                    params@,
                    Ok::<JsonValue, TransportProtocolError>(v),
                ));
            }
            Ok(v)
        } else if str_eq(method, "read-resource") || str_eq(method, "read_resource") {
            let uri = required_string(params, "uri")?;
            let resource = self.read_resource(uri.as_str())?;
            let ghost resp = resource;
            let v = resource_json(resource);
            proof {
                assert(v@ == JsonV::Obj(seq![("resource"@, resource_view_json(resp))]));
                assert(resp.uri@ == uri@);
                assert(param_text(params@, "uri"@) == Some(uri@));
                assert(method@ != "resources/read"@);
                assert(v@ == read_answer(method@, resp));
                assert(read_outcome(
                    old(self).surface_state().runtime_state(),
                    method@,
                    params@,
                    Ok::<JsonValue, TransportProtocolError>(v),
                ));
            }
            Ok(v)
        } else if str_eq(method, "tools/list") {
            let v = tools_json();
            proof {
                assert(v@ == tools_spec());
            }
            Ok(v)
        } else if str_eq(method, "tools/call") {
            let name = required_string(params, "name")?;
            let no_members: Vec<(String, JsonValue)> = Vec::new();
            proof {
                lemma_json_view_members(no_members@);
                assert(json_view_members(no_members@) =~= Seq::<(Seq<char>, JsonV)>::empty());
                reveal_strlit("arguments");
            }
            let empty = JsonValue::Obj(no_members);
            let arguments = match params.get("arguments") {
                Some(a) => a,
                None => &empty,
            };
            proof {
                assert(arguments@ == call_arguments(params@));
            }
            let result = self.call_tool(name.as_str(), arguments)?;
            let ghost res = result@;
            let v = tool_result_json(result);
            proof {
                assert(v@ == tool_result_spec(res));
                assert(param_text(params@, "name"@) == Some(name@));
                assert(tool_call_outcome(
                    old(self).surface_state().runtime_state(),
                    self.surface_state().runtime_state(),
                    params@,
                    Ok::<JsonValue, TransportProtocolError>(v),
                ));
            }
            Ok(v)
        } else {
            self.call_tool(method, params)
        }
    }
}

} // verus!
