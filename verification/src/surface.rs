use vstd::prelude::*;

use crate::error::EmberFlowError;
use crate::protocol::{standard_tools, views_of};
use crate::records::{
    EventRecord, LeaseInfo, TaskInput, TaskRecord, TrackBriefRecord, TrackBriefSectionInput,
    TrackMetadataInput, TrackMetadataRecord, TrackPlanPhaseInput, TrackPlanRecord, TrackRecord,
};
use crate::service::{
    archive_outcome, brief_outcome, claim_outcome, create_task_outcome, create_track_outcome,
    delete_outcome, initialize_is, metadata_outcome, plan_outcome, record_event_outcome, release_outcome,
    resource_descriptions, resource_names, resource_read_outcome, resource_uris,
    runtime_state_outcome, EmberFlowRuntime, InitializeResponse, ResourceReadResponse,
    ResourceViewDescriptor, RuntimeStateResult,
};

verus! {

/// The surface that MCP clients use: every read and write goes through the runtime.
pub struct EmberFlowSurface {
    runtime: EmberFlowRuntime,
}

impl EmberFlowSurface {
    /// The runtime behind the surface.
    pub closed spec fn runtime_state(&self) -> EmberFlowRuntime {
        self.runtime
    }

    /// The surface's runtime state is valid.
    pub closed spec fn wf(&self) -> bool {
        self.runtime.store.wf()
    }

    /// A surface over a runtime.
    pub fn from_runtime(runtime: EmberFlowRuntime) -> (r: Self)
        requires
            runtime.store.wf(),
        ensures
            r.wf(),
            r.runtime_state() == runtime,
    {
        EmberFlowSurface { runtime }
    }

    /// A surface over an empty store, laid out around the given database path.
    pub fn from_db_path(db_path: &str) -> (r: Result<Self, EmberFlowError>)
        ensures
            r matches Ok(s) && s.wf() && s.runtime_state().store.holds_nothing()
                && crate::layout::db_layout_is(s.runtime_state().layout, db_path@),
    {
        let runtime = EmberFlowRuntime::from_db_path(db_path)?;
        Ok(EmberFlowSurface { runtime })
    }

    /// The runtime behind the surface.
    pub fn runtime(&self) -> (r: &EmberFlowRuntime)
        ensures
            *r == self.runtime_state(),
    {
        &self.runtime
    }

    /// Gives the runtime back.
    pub fn into_runtime(self) -> (r: EmberFlowRuntime)
        ensures
            r == self.runtime_state(),
    {
        self.runtime
    }

    /// The names of the write tools.
    pub fn available_tools(&self) -> (r: Vec<&'static str>)
        ensures
            views_of(r@) == standard_tools(),
    {
        self.runtime.available_tools()
    }

    /// What a client learns when it initializes.
    pub fn initialize(&self) -> (r: Result<InitializeResponse, EmberFlowError>)
        ensures
            r matches Ok(i) && initialize_is(self.runtime_state().layout, i),
    {
        self.runtime.initialize()
    }

    /// The resource templates a client can read.
    pub fn list_resources(&self) -> (r: Vec<ResourceViewDescriptor>)
        ensures
            r@.len() == 12,
            forall|i: int|
                0 <= i < 12 ==> (#[trigger] r@[i]).uri_template@ == resource_uris()[i]
                    && r@[i].name@ == resource_names()[i] && r@[i].description@
                    == resource_descriptions()[i] && r@[i].mime_type@ == "application/json"@,
    {
        self.runtime.list_resource_views()
    }

    /// All tracks, oldest first.
    pub fn list_tracks(&self) -> (r: Result<Vec<TrackRecord>, EmberFlowError>)
        ensures
            r matches Ok(v) && v@ == self.runtime_state().store.track_rows().map_values(
                |t: crate::records::TrackRow| crate::store::track_record_of(t),
            ),
    {
        self.runtime.list_tracks()
    }

    /// The tracks that are not archived, oldest first.
    pub fn list_active_tracks(&self) -> (r: Result<Vec<TrackRecord>, EmberFlowError>)
        ensures
            r matches Ok(v) && v@ == self.runtime_state().store.track_rows().filter(
                |t: crate::records::TrackRow| t.status@ != "archived"@,
            ).map_values(|t: crate::records::TrackRow| crate::store::track_record_of(t)),
            r matches Ok(v) && forall|i: int|
                0 <= i < v@.len() ==> (#[trigger] v@[i]).status@ != "archived"@,
    {
        let r = self.runtime.list_active_tracks();
        proof {
            let rows = self.runtime.store.track_rows();
            let f = |t: crate::records::TrackRow| t.status@ != "archived"@;
            assert forall|i: int| 0 <= i < rows.filter(f).len() implies #[trigger] f(
                rows.filter(f)[i],
            ) by {
                rows.lemma_filter_pred(f, i);
            }
        }
        r
    }

    /// All tasks, oldest first.
    pub fn list_tasks(&self) -> (r: Result<Vec<TaskRecord>, EmberFlowError>)
        ensures
            r matches Ok(v) && v@ == self.runtime_state().store.task_rows().map_values(
                |t: crate::records::TaskRow| crate::store::task_record_of(t),
            ),
    {
        self.runtime.list_tasks()
    }

    /// Reads a resource by URI.
    pub fn read_resource(&self, uri: &str) -> (r: Result<ResourceReadResponse, EmberFlowError>)
        requires
            self.wf(),
        ensures
            resource_read_outcome(self.runtime_state(), uri@, r),
    {
        self.runtime.read_resource(uri)
    }

    /// Creates a track.
    pub fn create_track(&mut self, track_id: &str, title: &str, status: &str) -> (r: Result<
        TrackRecord,
        EmberFlowError,
    >)
        requires
            old(self).wf(),
        ensures
            final(self).wf(),
            (r matches Err(e) && e is Sqlite && final(self).runtime_state() == old(self).runtime_state())
                || create_track_outcome(old(self).runtime_state(), final(self).runtime_state(), track_id@, title@, status@, r),
            !crate::protocol::track_statuses().contains(
                crate::store::normalized_track_status(status@),
            ) ==> (r matches Err(e) && crate::error::is_unsupported(
                e,
                "status"@,
                crate::store::normalized_track_status(status@),
            ) && final(self).runtime_state() == old(self).runtime_state()),
    {
        self.runtime.create_track(track_id, title, status)
    }

    /// Archives a track that is in review or done.
    pub fn archive_track(&mut self, track_id: &str) -> (r: Result<TrackRecord, EmberFlowError>)
        requires
            old(self).wf(),
        ensures
            final(self).wf(),
            (r matches Err(e) && e is Sqlite && final(self).runtime_state() == old(self).runtime_state())
                || archive_outcome(old(self).runtime_state(), final(self).runtime_state(), track_id@, r),
    {
        self.runtime.archive_track(track_id)
    }

    /// Deletes a track with everything that hangs off it.
    pub fn delete_track(&mut self, track_id: &str) -> (r: Result<TrackRecord, EmberFlowError>)
        requires
            old(self).wf(),
        ensures
            final(self).wf(),
            delete_outcome(old(self).runtime_state(), final(self).runtime_state(), track_id@, r),
    {
        self.runtime.delete_track(track_id)
    }

    /// Creates a task.
    pub fn create_task(&mut self, input: TaskInput) -> (r: Result<TaskRecord, EmberFlowError>)
        requires
            old(self).wf(),
        ensures
            final(self).wf(),
            (r matches Err(e) && e is Sqlite && final(self).runtime_state() == old(self).runtime_state())
                || exists|now: Seq<char>|
                #[trigger] create_task_outcome(old(self).runtime_state(), final(self).runtime_state(), input, now, r),
            !crate::protocol::task_statuses().contains(input.status@) ==> (r matches Err(e)
                && crate::error::is_unsupported(e, "status"@, input.status@)
                && final(self).runtime_state() == old(self).runtime_state()),
            crate::protocol::task_statuses().contains(input.status@)
                && !crate::protocol::phases().contains(input.phase@) ==> (r matches Err(e)
                && crate::error::is_unsupported(e, "phase"@, input.phase@)
                && final(self).runtime_state() == old(self).runtime_state()),
    {
        self.runtime.create_task(input)
    }

    /// Records an event; an event on a task needs the task's active lease.
    pub fn record_event(
        &mut self,
        event_id: &str,
        track_id: Option<&str>,
        task_id: Option<&str>,
        kind: &str,
        payload: &str,
    ) -> (r: Result<EventRecord, EmberFlowError>)
        requires
            old(self).wf(),
        ensures
            final(self).wf(),
            (r matches Err(e) && e is Sqlite && final(self).runtime_state() == old(self).runtime_state())
                || exists|now: Seq<char>|
                #[trigger] record_event_outcome(
                    old(self).runtime_state(),
                    final(self).runtime_state(),
                    event_id@,
                    crate::text::opt_str_view(track_id),
                    crate::text::opt_str_view(task_id),
                    kind@,
                    payload@,
                    now,
                    r,
                ),
    {
        self.runtime.record_event(event_id, track_id, task_id, kind, payload)
    }

    /// Records a runtime state for a task on a track, creating both when missing.
    pub fn record_runtime_state(
        &mut self,
        track_id: &str,
        task_id: &str,
        event_kind: &str,
        payload: &str,
    ) -> (r: Result<RuntimeStateResult, EmberFlowError>)
        requires
            old(self).wf(),
        ensures
            final(self).wf(),
            (r matches Err(e) && e is Sqlite && final(self).runtime_state() == old(self).runtime_state())
                || runtime_state_outcome(old(self).runtime_state(), final(self).runtime_state(), track_id@, task_id@, event_kind@, r),
    {
        self.runtime.record_runtime_state(track_id, task_id, event_kind, payload)
    }

    /// Creates or updates a track's metadata.
    pub fn upsert_track_metadata(&mut self, input: TrackMetadataInput) -> (r: Result<
        TrackMetadataRecord,
        EmberFlowError,
    >)
        requires
            old(self).wf(),
        ensures
            final(self).wf(),
            (r matches Err(e) && e is Sqlite && final(self).runtime_state() == old(self).runtime_state())
                || metadata_outcome(old(self).runtime_state(), final(self).runtime_state(), input, r),
            !crate::protocol::track_statuses().contains(
                crate::store::normalized_track_status(input.status@),
            ) ==> (r matches Err(e) && crate::error::is_unsupported(
                e,
                "status"@,
                crate::store::normalized_track_status(input.status@),
            ) && final(self).runtime_state() == old(self).runtime_state()),
    {
        self.runtime.upsert_track_metadata(input)
    }

    /// Replaces a track's brief.
    pub fn replace_track_brief(&mut self, track_id: &str, sections: Vec<TrackBriefSectionInput>) -> (r:
        Result<TrackBriefRecord, EmberFlowError>)
        requires
            old(self).wf(),
        ensures
            final(self).wf(),
            (r matches Err(e) && e is Sqlite && final(self).runtime_state() == old(self).runtime_state())
                || exists|now: Seq<char>|
                #[trigger] brief_outcome(old(self).runtime_state(), final(self).runtime_state(), track_id@, sections@, now, r),
    {
        self.runtime.replace_track_brief(track_id, sections)
    }

    /// Replaces a track's plan.
    pub fn replace_track_plan(&mut self, track_id: &str, phases: Vec<TrackPlanPhaseInput>) -> (r:
        Result<TrackPlanRecord, EmberFlowError>)
        requires
            old(self).wf(),
        ensures
            final(self).wf(),
            (r matches Err(e) && e is Sqlite && final(self).runtime_state() == old(self).runtime_state())
                || exists|now: Seq<char>|
                #[trigger] plan_outcome(old(self).runtime_state(), final(self).runtime_state(), track_id@, phases@, now, r),
    {
        self.runtime.replace_track_plan(track_id, phases)
    }

    /// Claims the lease of a task.
    pub fn claim_task(&mut self, task_id: &str, holder: &str, duration_secs: Option<u64>) -> (r:
        Result<LeaseInfo, EmberFlowError>)
        requires
            old(self).wf(),
        ensures
            final(self).wf(),
            r matches Ok(l) ==> match duration_secs {
                Some(secs) => l.expires_at matches Some(e) && crate::clock::datetime_seconds(e@)
                    == crate::clock::datetime_seconds(l.acquired_at@) + secs,
                None => l.expires_at is None,
            },
            (r matches Err(e) && e is Sqlite && final(self).runtime_state() == old(self).runtime_state())
                || exists|now: Seq<char>, expires: Option<Seq<char>>|
                (expires is Some <==> duration_secs is Some) && #[trigger] claim_outcome(
                    old(self).runtime_state(),
                    final(self).runtime_state(),
                    task_id@,
                    holder@,
                    expires,
                    now,
                    r,
                ),
    {
        self.runtime.claim_task(task_id, holder, duration_secs)
    }

    /// Releases the lease of a task.
    pub fn release_task(&mut self, task_id: &str, holder: &str) -> (r: Result<(), EmberFlowError>)
        requires
            old(self).wf(),
        ensures
            final(self).wf(),
            (r matches Err(e) && e is Sqlite && final(self).runtime_state() == old(self).runtime_state())
                || exists|now: Seq<char>|
                #[trigger] release_outcome(old(self).runtime_state(), final(self).runtime_state(), task_id@, holder@, now, r),
    {
        self.runtime.release_task(task_id, holder)
    }
}

} // verus!
