//! EmberFlow: the canonical runtime and visibility layer for tracked work. Tracks, their
//! briefs and plans, tasks with their leases, events and the projections derived from them
//! live in a verified in-memory store; the runtime turns events into runtime state and
//! read-only views, and the MCP surface and session answer clients.

use vstd::prelude::*;

pub mod clock;
pub mod error;
pub mod framing;
pub mod install;
pub mod json;
pub mod keys;
pub mod laws;
pub mod layout;
pub mod projections;
pub mod protocol;
pub mod records;
pub mod rows;
pub mod server;
pub mod service;
pub mod store;
pub mod surface;
pub mod text;
pub mod views;

pub use error::EmberFlowError;
pub use json::JsonValue;
pub use layout::{EmberFlowMode, EmberFlowProjectLayout};
pub use projections::{ProjectionEngine, RuntimeProjection, TrackProjection, UserProjection};
pub use records::{
    EventRecord, LeaseInfo, ProjectionDirtyTargetInput, ProjectionDirtyTargetRecord,
    ProjectionRecord, TaskInput, TaskRecord, TaskStateUpdate, TrackBriefRecord,
    TrackBriefSectionInput, TrackBriefSectionRecord, TrackMetadataInput, TrackMetadataRecord,
    TrackPlanItemInput, TrackPlanItemRecord, TrackPlanPhaseInput, TrackPlanPhaseRecord,
    TrackPlanRecord, TrackRecord,
};
pub use service::{
    EmberFlowRuntime, EventFeed, InitializeResponse, KnowledgeViewDescriptor,
    ResourceReadResponse, ResourceViewDescriptor, RuntimeStateResult, RuntimeStatusProjection,
    TaskVisibilityView, TrackBootstrapInfo, TrackContextRecord, TrackResumeView,
    TrackTransparencyView, WorkspaceDbInfo, WorkspaceOverview, WorkspaceOverviewTrack,
};
pub use store::RuntimeStore;
pub use surface::EmberFlowSurface;

verus! {

} // verus!
