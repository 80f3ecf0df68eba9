use vstd::prelude::*;

use crate::keys::{
    lemma_num_text_asymmetric, lemma_num_text_transitive, lemma_text_pair_asymmetric,
    lemma_text_pair_transitive, num_text_less, num_text_lt, text_pair_less, text_pair_lt,
};
use crate::rows::Row;
use crate::text::{opt_copy, str_eq};

verus! {

#[derive(Debug, Clone, PartialEq, Eq)]
pub struct TrackRecord {
    pub id: String,
    pub title: String,
    pub status: String,
    pub created_at: String,
    pub updated_at: String,
}

#[derive(Debug, Clone, PartialEq, Eq)]
pub struct TrackMetadataInput {
    pub track_id: String,
    pub track_type: String,
    pub status: String,
    pub description: String,
    pub branch: String,
    pub spec_ref: Option<String>,
}

#[derive(Debug, Clone, PartialEq, Eq)]
pub struct TrackMetadataRecord {
    pub track_id: String,
    pub track_type: String,
    pub status: String,
    pub description: String,
    pub branch: String,
    pub spec_ref: Option<String>,
    pub created_at: String,
    pub updated_at: String,
}

#[derive(Debug, Clone, PartialEq, Eq)]
pub struct TrackBriefSectionInput {
    pub section_key: String,
    pub section_text: String,
    pub position: i64,
}

#[derive(Debug, Clone, PartialEq, Eq)]
pub struct TrackBriefSectionRecord {
    pub track_id: String,
    pub section_key: String,
    pub section_text: String,
    pub position: i64,
    pub created_at: String,
    pub updated_at: String,
}

#[derive(Debug, Clone, PartialEq, Eq)]
pub struct TrackBriefRecord {
    pub track_id: String,
    pub sections: Vec<TrackBriefSectionRecord>,
}

#[derive(Debug, Clone, PartialEq, Eq)]
pub struct TrackPlanItemInput {
    pub item_id: String,
    pub title: String,
    pub position: Option<i64>,
}

#[derive(Debug, Clone, PartialEq, Eq)]
pub struct TrackPlanItemRecord {
    pub item_id: String,
    pub track_id: String,
    pub phase_id: String,
    pub title: String,
    pub position: i64,
    pub created_at: String,
    pub updated_at: String,
}

#[derive(Debug, Clone, PartialEq, Eq)]
pub struct TrackPlanPhaseInput {
    pub phase_id: String,
    pub title: String,
    pub position: i64,
    pub items: Vec<TrackPlanItemInput>,
}

#[derive(Debug, Clone, PartialEq, Eq)]
pub struct TrackPlanPhaseRecord {
    pub phase_id: String,
    pub track_id: String,
    pub title: String,
    pub position: i64,
    pub items: Vec<TrackPlanItemRecord>,
    pub created_at: String,
    pub updated_at: String,
}

#[derive(Debug, Clone, PartialEq, Eq)]
pub struct TrackPlanRecord {
    pub track_id: String,
    pub phases: Vec<TrackPlanPhaseRecord>,
}

#[derive(Debug, Clone, PartialEq, Eq)]
pub struct TaskRecord {
    pub id: String,
    pub track_id: Option<String>,
    pub plan_item_id: Option<String>,
    pub title: String,
    pub status: String,
    pub phase: String,
    pub executor: Option<String>,
    pub agent_instance_id: Option<String>,
    pub execution: Option<String>,
    pub intent_summary: Option<String>,
    pub created_at: String,
    pub updated_at: String,
    pub lease_holder: Option<String>,
    pub lease_expires_at: Option<String>,
}

#[derive(Debug, Clone, PartialEq, Eq)]
pub struct TaskInput {
    pub task_id: String,
    pub track_id: Option<String>,
    pub title: String,
    pub status: String,
    pub phase: String,
    pub executor: Option<String>,
    pub agent_instance_id: Option<String>,
    pub execution: Option<String>,
    pub intent_summary: Option<String>,
}

/// The fields of a task to change; `None` keeps the current value.
#[derive(Debug, Clone, Copy, Default)]
pub struct TaskStateUpdate<'a> {
    pub status: Option<&'a str>,
    pub phase: Option<&'a str>,
    pub track_id: Option<&'a str>,
    pub executor: Option<&'a str>,
    pub agent_instance_id: Option<&'a str>,
    pub execution: Option<&'a str>,
    pub intent_summary: Option<&'a str>,
}

/// An event. Its payload is the JSON text that was recorded with it.
#[derive(Debug, Clone, PartialEq, Eq)]
pub struct EventRecord {
    pub id: String,
    pub track_id: Option<String>,
    pub task_id: Option<String>,
    pub kind: String,
    pub payload: String,
    pub created_at: String,
}

/// A projection of an event. Its payload is JSON text.
#[derive(Debug, Clone, PartialEq, Eq)]
pub struct ProjectionRecord {
    pub id: String,
    pub event_id: String,
    pub projection_kind: String,
    pub target_path: Option<String>,
    pub payload: String,
    pub created_at: String,
}

#[derive(Debug, Clone, PartialEq, Eq)]
pub struct ProjectionDirtyTargetInput {
    pub track_id: Option<String>,
    pub projection_kind: String,
    pub target_path: String,
    pub reason: String,
    pub source_event_id: Option<String>,
}

#[derive(Debug, Clone, PartialEq, Eq)]
pub struct ProjectionDirtyTargetRecord {
    pub id: String,
    pub track_id: Option<String>,
    pub projection_kind: String,
    pub target_path: String,
    pub reason: String,
    pub source_event_id: Option<String>,
    pub created_at: String,
    pub updated_at: String,
}

#[derive(Debug, Clone, PartialEq, Eq)]
pub struct LeaseInfo {
    pub holder: String,
    pub acquired_at: String,
    pub expires_at: Option<String>,
}

/// A stored track: its record and its optional metadata columns.
#[derive(Debug, Clone, PartialEq, Eq)]
pub struct TrackRow {
    pub id: String,
    pub title: String,
    pub status: String,
    pub track_type: Option<String>,
    pub description: Option<String>,
    pub branch: Option<String>,
    pub spec_ref: Option<String>,
    pub created_at: String,
    pub updated_at: String,
}

/// A stored task: its record and the time its lease was taken.
#[derive(Debug, Clone, PartialEq, Eq)]
pub struct TaskRow {
    pub id: String,
    pub track_id: Option<String>,
    pub plan_item_id: Option<String>,
    pub title: String,
    pub status: String,
    pub phase: String,
    pub executor: Option<String>,
    pub agent_instance_id: Option<String>,
    pub execution: Option<String>,
    pub intent_summary: Option<String>,
    pub created_at: String,
    pub updated_at: String,
    pub lease_holder: Option<String>,
    pub lease_acquired_at: Option<String>,
    pub lease_expires_at: Option<String>,
}

/// A stored brief section; its key is `<track id>:brief:<section key>`.
#[derive(Debug, Clone, PartialEq, Eq)]
pub struct SectionRow {
    pub id: String,
    pub track_id: String,
    pub section_key: String,
    pub section_text: String,
    pub position: i64,
    pub created_at: String,
    pub updated_at: String,
}

/// A stored plan phase; its key is the phase id.
#[derive(Debug, Clone, PartialEq, Eq)]
pub struct PhaseRow {
    pub id: String,
    pub track_id: String,
    pub phase_key: String,
    pub title: String,
    pub position: i64,
    pub created_at: String,
    pub updated_at: String,
}

impl Row for TrackRow {
    open spec fn row_id(self) -> Seq<char> {
        self.id@
    }

    open spec fn key_lt(self, other: Self) -> bool {
        text_pair_lt(self.created_at@, self.id@, other.created_at@, other.id@)
    }

    proof fn lemma_key_lt_transitive(a: Self, b: Self, c: Self) {
        lemma_text_pair_transitive(
            a.created_at@,
            a.id@,
            b.created_at@,
            b.id@,
            c.created_at@,
            c.id@,
        );
    }

    proof fn lemma_key_lt_asymmetric(a: Self, b: Self) {
        lemma_text_pair_asymmetric(a.created_at@, a.id@, b.created_at@, b.id@);
    }

    fn comes_before(&self, other: &Self) -> (r: bool) {
        text_pair_less(
            self.created_at.as_str(),
            self.id.as_str(),
            other.created_at.as_str(),
            other.id.as_str(),
        )
    }

    fn id_text(&self) -> (r: &str) {
        self.id.as_str()
    }

    fn has_id(&self, id: &str) -> (r: bool) {
        str_eq(self.id.as_str(), id)
    }

    fn copy_row(&self) -> (r: Self) {
        TrackRow {
            id: self.id.clone(),
            title: self.title.clone(),
            status: self.status.clone(),
            track_type: opt_copy(&self.track_type),
            description: opt_copy(&self.description),
            branch: opt_copy(&self.branch),
            spec_ref: opt_copy(&self.spec_ref),
            created_at: self.created_at.clone(),
            updated_at: self.updated_at.clone(),
        }
    }
}

impl Row for TaskRow {
    open spec fn row_id(self) -> Seq<char> {
        self.id@
    }

    open spec fn key_lt(self, other: Self) -> bool {
        text_pair_lt(self.created_at@, self.id@, other.created_at@, other.id@)
    }

    proof fn lemma_key_lt_transitive(a: Self, b: Self, c: Self) {
        lemma_text_pair_transitive(
            a.created_at@,
            a.id@,
            b.created_at@,
            b.id@,
            c.created_at@,
            c.id@,
        );
    }

    proof fn lemma_key_lt_asymmetric(a: Self, b: Self) {
        lemma_text_pair_asymmetric(a.created_at@, a.id@, b.created_at@, b.id@);
    }

    fn comes_before(&self, other: &Self) -> (r: bool) {
        text_pair_less(
            self.created_at.as_str(),
            self.id.as_str(),
            other.created_at.as_str(),
            other.id.as_str(),
        )
    }

    fn id_text(&self) -> (r: &str) {
        self.id.as_str()
    }

    fn has_id(&self, id: &str) -> (r: bool) {
        str_eq(self.id.as_str(), id)
    }

    fn copy_row(&self) -> (r: Self) {
        TaskRow {
            id: self.id.clone(),
            track_id: opt_copy(&self.track_id),
            plan_item_id: opt_copy(&self.plan_item_id),
            title: self.title.clone(),
            status: self.status.clone(),
            phase: self.phase.clone(),
            executor: opt_copy(&self.executor),
            agent_instance_id: opt_copy(&self.agent_instance_id),
            execution: opt_copy(&self.execution),
            intent_summary: opt_copy(&self.intent_summary),
            created_at: self.created_at.clone(),
            updated_at: self.updated_at.clone(),
            lease_holder: opt_copy(&self.lease_holder),
            lease_acquired_at: opt_copy(&self.lease_acquired_at),
            lease_expires_at: opt_copy(&self.lease_expires_at),
        }
    }
}

impl Row for SectionRow {
    open spec fn row_id(self) -> Seq<char> {
        self.id@
    }

    open spec fn key_lt(self, other: Self) -> bool {
        num_text_lt(self.position as int, self.section_key@, other.position as int, other.section_key@)
    }

    proof fn lemma_key_lt_transitive(a: Self, b: Self, c: Self) {
        lemma_num_text_transitive(
            a.position as int,
            a.section_key@,
            b.position as int,
            b.section_key@,
            c.position as int,
            c.section_key@,
        );
    }

    proof fn lemma_key_lt_asymmetric(a: Self, b: Self) {
        lemma_num_text_asymmetric(a.position as int, a.section_key@, b.position as int, b.section_key@);
    }

    fn comes_before(&self, other: &Self) -> (r: bool) {
        num_text_less(self.position, self.section_key.as_str(), other.position, other.section_key.as_str())
    }

    fn id_text(&self) -> (r: &str) {
        self.id.as_str()
    }

    fn has_id(&self, id: &str) -> (r: bool) {
        str_eq(self.id.as_str(), id)
    }

    fn copy_row(&self) -> (r: Self) {
        SectionRow {
            id: self.id.clone(),
            track_id: self.track_id.clone(),
            section_key: self.section_key.clone(),
            section_text: self.section_text.clone(),
            position: self.position,
            created_at: self.created_at.clone(),
            updated_at: self.updated_at.clone(),
        }
    }
}

impl Row for PhaseRow {
    open spec fn row_id(self) -> Seq<char> {
        self.id@
    }

    open spec fn key_lt(self, other: Self) -> bool {
        num_text_lt(self.position as int, self.phase_key@, other.position as int, other.phase_key@)
    }

    proof fn lemma_key_lt_transitive(a: Self, b: Self, c: Self) {
        lemma_num_text_transitive(
            a.position as int,
            a.phase_key@,
            b.position as int,
            b.phase_key@,
            c.position as int,
            c.phase_key@,
        );
    }

    proof fn lemma_key_lt_asymmetric(a: Self, b: Self) {
        lemma_num_text_asymmetric(a.position as int, a.phase_key@, b.position as int, b.phase_key@);
    }

    fn comes_before(&self, other: &Self) -> (r: bool) {
        num_text_less(self.position, self.phase_key.as_str(), other.position, other.phase_key.as_str())
    }

    fn id_text(&self) -> (r: &str) {
        self.id.as_str()
    }

    fn has_id(&self, id: &str) -> (r: bool) {
        str_eq(self.id.as_str(), id)
    }

    fn copy_row(&self) -> (r: Self) {
        PhaseRow {
            id: self.id.clone(),
            track_id: self.track_id.clone(),
            phase_key: self.phase_key.clone(),
            title: self.title.clone(),
            position: self.position,
            created_at: self.created_at.clone(),
            updated_at: self.updated_at.clone(),
        }
    }
}

impl Row for TrackPlanItemRecord {
    open spec fn row_id(self) -> Seq<char> {
        self.item_id@
    }

    open spec fn key_lt(self, other: Self) -> bool {
        num_text_lt(self.position as int, self.item_id@, other.position as int, other.item_id@)
    }

    proof fn lemma_key_lt_transitive(a: Self, b: Self, c: Self) {
        lemma_num_text_transitive(
            a.position as int,
            a.item_id@,
            b.position as int,
            b.item_id@,
            c.position as int,
            c.item_id@,
        );
    }

    proof fn lemma_key_lt_asymmetric(a: Self, b: Self) {
        lemma_num_text_asymmetric(a.position as int, a.item_id@, b.position as int, b.item_id@);
    }

    fn comes_before(&self, other: &Self) -> (r: bool) {
        num_text_less(self.position, self.item_id.as_str(), other.position, other.item_id.as_str())
    }

    fn id_text(&self) -> (r: &str) {
        self.item_id.as_str()
    }

    fn has_id(&self, id: &str) -> (r: bool) {
        str_eq(self.item_id.as_str(), id)
    }

    fn copy_row(&self) -> (r: Self) {
        TrackPlanItemRecord {
            item_id: self.item_id.clone(),
            track_id: self.track_id.clone(),
            phase_id: self.phase_id.clone(),
            title: self.title.clone(),
            position: self.position,
            created_at: self.created_at.clone(),
            updated_at: self.updated_at.clone(),
        }
    }
}

impl Row for EventRecord {
    open spec fn row_id(self) -> Seq<char> {
        self.id@
    }

    open spec fn key_lt(self, other: Self) -> bool {
        text_pair_lt(self.created_at@, self.id@, other.created_at@, other.id@)
    }

    proof fn lemma_key_lt_transitive(a: Self, b: Self, c: Self) {
        lemma_text_pair_transitive(
            a.created_at@,
            a.id@,
            b.created_at@,
            b.id@,
            c.created_at@,
            c.id@,
        );
    }

    proof fn lemma_key_lt_asymmetric(a: Self, b: Self) {
        lemma_text_pair_asymmetric(a.created_at@, a.id@, b.created_at@, b.id@);
    }

    fn comes_before(&self, other: &Self) -> (r: bool) {
        text_pair_less(
            self.created_at.as_str(),
            self.id.as_str(),
            other.created_at.as_str(),
            other.id.as_str(),
        )
    }

    fn id_text(&self) -> (r: &str) {
        self.id.as_str()
    }

    fn has_id(&self, id: &str) -> (r: bool) {
        str_eq(self.id.as_str(), id)
    }

    fn copy_row(&self) -> (r: Self) {
        EventRecord {
            id: self.id.clone(),
            track_id: opt_copy(&self.track_id),
            task_id: opt_copy(&self.task_id),
            kind: self.kind.clone(),
            payload: self.payload.clone(),
            created_at: self.created_at.clone(),
        }
    }
}

impl Row for ProjectionRecord {
    open spec fn row_id(self) -> Seq<char> {
        self.id@
    }

    open spec fn key_lt(self, other: Self) -> bool {
        text_pair_lt(self.created_at@, self.id@, other.created_at@, other.id@)
    }

    proof fn lemma_key_lt_transitive(a: Self, b: Self, c: Self) {
        lemma_text_pair_transitive(
            a.created_at@,
            a.id@,
            b.created_at@,
            b.id@,
            c.created_at@,
            c.id@,
        );
    }

    proof fn lemma_key_lt_asymmetric(a: Self, b: Self) {
        lemma_text_pair_asymmetric(a.created_at@, a.id@, b.created_at@, b.id@);
    }

    fn comes_before(&self, other: &Self) -> (r: bool) {
        text_pair_less(
            self.created_at.as_str(),
            self.id.as_str(),
            other.created_at.as_str(),
            other.id.as_str(),
        )
    }

    fn id_text(&self) -> (r: &str) {
        self.id.as_str()
    }

    fn has_id(&self, id: &str) -> (r: bool) {
        str_eq(self.id.as_str(), id)
    }

    fn copy_row(&self) -> (r: Self) {
        ProjectionRecord {
            id: self.id.clone(),
            event_id: self.event_id.clone(),
            projection_kind: self.projection_kind.clone(),
            target_path: opt_copy(&self.target_path),
            payload: self.payload.clone(),
            created_at: self.created_at.clone(),
        }
    }
}

impl Row for ProjectionDirtyTargetRecord {
    open spec fn row_id(self) -> Seq<char> {
        self.target_path@
    }

    open spec fn key_lt(self, other: Self) -> bool {
        text_pair_lt(self.created_at@, self.id@, other.created_at@, other.id@)
    }

    proof fn lemma_key_lt_transitive(a: Self, b: Self, c: Self) {
        lemma_text_pair_transitive(
            a.created_at@,
            a.id@,
            b.created_at@,
            b.id@,
            c.created_at@,
            c.id@,
        );
    }

    proof fn lemma_key_lt_asymmetric(a: Self, b: Self) {
        lemma_text_pair_asymmetric(a.created_at@, a.id@, b.created_at@, b.id@);
    }

    fn comes_before(&self, other: &Self) -> (r: bool) {
        text_pair_less(
            self.created_at.as_str(),
            self.id.as_str(),
            other.created_at.as_str(),
            other.id.as_str(),
        )
    }

    fn id_text(&self) -> (r: &str) {
        self.target_path.as_str()
    }

    fn has_id(&self, id: &str) -> (r: bool) {
        str_eq(self.target_path.as_str(), id)
    }

    fn copy_row(&self) -> (r: Self) {
        ProjectionDirtyTargetRecord {
            id: self.id.clone(),
            track_id: opt_copy(&self.track_id),
            projection_kind: self.projection_kind.clone(),
            target_path: self.target_path.clone(),
            reason: self.reason.clone(),
            source_event_id: opt_copy(&self.source_event_id),
            created_at: self.created_at.clone(),
            updated_at: self.updated_at.clone(),
        }
    }
}

} // verus!
