use vstd::prelude::*;

use crate::clock::{current_timestamp, datetime_seconds, timestamps_for_duration};
use crate::error::{
    is_not_found, is_sqlite, is_unsupported, not_found, sqlite_failure, unsupported,
    EmberFlowError,
};
use crate::json::{json_error_message, json_parse_error, json_parses, JsonValue};
use crate::protocol::{
    phases, runtime_messages, task_statuses, track_statuses, validate_kind, validate_phase,
    validate_task_status, validate_track_status,
};
pub use crate::records::{
    EventRecord, LeaseInfo, PhaseRow, ProjectionDirtyTargetInput, ProjectionDirtyTargetRecord,
    ProjectionRecord, SectionRow, TaskInput, TaskRecord, TaskRow, TaskStateUpdate,
    TrackBriefRecord, TrackBriefSectionInput, TrackBriefSectionRecord, TrackMetadataInput,
    TrackMetadataRecord, TrackPlanItemInput, TrackPlanItemRecord, TrackPlanPhaseInput,
    TrackPlanPhaseRecord, TrackPlanRecord, TrackRecord, TrackRow,
};
use crate::rows::{
    build_table, filter_rows, find_row, has_row, insert_sorted, lemma_insert_sorted_ok, sorted,
    sorted_insert, table_ok, unique, Row, RowPred,
};
use crate::keys::{lemma_text_pair_transitive, text_pair_less, text_pair_lt};
use crate::text::{
    lemma_seq_lt_irreflexive, lemma_seq_lt_transitive, seq_lt, str_lt,
    cat, cat3, is_blank, is_blank_spec, opt_copy, opt_owned, opt_str_view, opt_view, owned, seq_le,
    str_eq, str_le,
};

verus! {

/// A status as the store keeps it: `done` is stored as `archived`.
pub open spec fn normalized_track_status(s: Seq<char>) -> Seq<char> {
    if s == "done"@ {
        "archived"@
    } else {
        s
    }
}

pub open spec fn track_record_of(r: TrackRow) -> TrackRecord {
    TrackRecord {
        id: r.id,
        title: r.title,
        status: r.status,
        created_at: r.created_at,
        updated_at: r.updated_at,
    }
}

pub open spec fn task_record_of(r: TaskRow) -> TaskRecord {
    TaskRecord {
        id: r.id,
        track_id: r.track_id,
        plan_item_id: r.plan_item_id,
        title: r.title,
        status: r.status,
        phase: r.phase,
        executor: r.executor,
        agent_instance_id: r.agent_instance_id,
        execution: r.execution,
        intent_summary: r.intent_summary,
        created_at: r.created_at,
        updated_at: r.updated_at,
        lease_holder: r.lease_holder,
        lease_expires_at: r.lease_expires_at,
    }
}

/// The text of an optional column, empty when the column is null.
pub open spec fn text_or_empty(o: Option<String>) -> Seq<char> {
    match o {
        Some(s) => s@,
        None => Seq::empty(),
    }
}

/// `m` is the metadata that the stored track `r` carries.
pub open spec fn metadata_of_row(m: TrackMetadataRecord, r: TrackRow) -> bool {
    &&& r.track_type is Some
    &&& m.track_id@ == r.id@
    &&& m.track_type@ == r.track_type->0@
    &&& m.status@ == r.status@
    &&& m.description@ == text_or_empty(r.description)
    &&& m.branch@ == text_or_empty(r.branch)
    &&& opt_view(m.spec_ref) == opt_view(r.spec_ref)
    &&& m.created_at@ == r.created_at@
    &&& m.updated_at@ == r.updated_at@
}

/// The index of the stored row with primary key `id`.
pub open spec fn row_index<T: Row>(s: Seq<T>, id: Seq<char>) -> int {
    choose|i: int| 0 <= i < s.len() && s[i].row_id() == id
}

/// The stored row with primary key `id`.
pub open spec fn row_with<T: Row>(s: Seq<T>, id: Seq<char>) -> T {
    s[row_index(s, id)]
}

pub proof fn lemma_row_with<T: Row>(s: Seq<T>, id: Seq<char>, i: int)
    requires
        unique(s),
        0 <= i < s.len(),
        s[i].row_id() == id,
    ensures
        row_index(s, id) == i,
        row_with(s, id) == s[i],
{
    let j = row_index(s, id);
    assert(0 <= j < s.len() && s[j].row_id() == id);
}

/// Replacing a row by one with the same primary key and sort key keeps a table valid.
pub proof fn lemma_update_same_key<T: Row>(s: Seq<T>, i: int, b: T)
    requires
        table_ok(s),
        0 <= i < s.len(),
        b.row_id() == s[i].row_id(),
        forall|y: T| #[trigger] b.key_lt(y) == s[i].key_lt(y),
        forall|y: T| #[trigger] y.key_lt(b) == y.key_lt(s[i]),
    ensures
        table_ok(s.update(i, b)),
{
    let t = s.update(i, b);
    assert forall|x: int, y: int| 0 <= x < y < t.len() implies !(#[trigger] t[y]).key_lt(
        #[trigger] t[x],
    ) by {
        if x == i {
            assert(!s[y].key_lt(s[i]));
        } else if y == i {
            assert(!s[i].key_lt(s[x]));
        }
    }
    assert forall|x: int, y: int|
        0 <= x < t.len() && 0 <= y < t.len() && x != y implies (#[trigger] t[x]).row_id() != (
        #[trigger] t[y]).row_id() by {
        assert(s[x].row_id() != s[y].row_id());
    }
}

struct StatusIs<'a> {
    negate: bool,
    status: &'a str,
}

impl<'a> RowPred<TrackRow> for StatusIs<'a> {
    closed spec fn holds(&self, r: TrackRow) -> bool {
        (r.status@ == self.status@) != self.negate
    }

    fn test(&self, r: &TrackRow) -> (b: bool) {
        str_eq(r.status.as_str(), self.status) != self.negate
    }
}

/// The canonical runtime state: tracks, their briefs and plans, tasks, events, the
/// projections derived from events, and the projection targets waiting to be refreshed.
/// Each table is kept in the order its listings use, without duplicate primary keys.
pub struct RuntimeStore {
    tracks: Vec<TrackRow>,
    tasks: Vec<TaskRow>,
    sections: Vec<SectionRow>,
    phases: Vec<PhaseRow>,
    items: Vec<TrackPlanItemRecord>,
    events: Vec<EventRecord>,
    projections: Vec<ProjectionRecord>,
    dirty: Vec<ProjectionDirtyTargetRecord>,
}

/// What creating a track at time `now` does (see `create_track_at`).
pub open spec fn track_created(
    s0: RuntimeStore,
    s1: RuntimeStore,
    track_id: Seq<char>,
    title: Seq<char>,
    status: Seq<char>,
    now: Seq<char>,
    r: Result<TrackRecord, EmberFlowError>,
) -> bool {
    let st = normalized_track_status(status);
    &&& !track_statuses().contains(st) ==> (r matches Err(e) && is_unsupported(
        e,
        "status"@,
        st,
    ))
    &&& track_statuses().contains(st) && has_row(s0.track_rows(), track_id)
        ==> (r matches Err(e) && is_sqlite(e, "UNIQUE constraint failed: tracks.id"@))
    &&& r is Err ==> s1 == s0
    &&& r is Ok <==> track_statuses().contains(st) && !has_row(
        s0.track_rows(),
        track_id,
    )
    &&& r matches Ok(t) ==> {
        &&& t.id@ == track_id
        &&& t.title@ == title
        &&& t.status@ == st
        &&& t.created_at@ == now
        &&& t.updated_at@ == now
        &&& s1.track_rows() == insert_sorted(
            s0.track_rows(),
            bare_track_row(t),
        )
        &&& s1.task_rows() == s0.task_rows()
        &&& s1.same_plans(&s0)
        &&& s1.same_activity(&s0)
    }

}

impl RuntimeStore {
    pub closed spec fn track_rows(&self) -> Seq<TrackRow> {
        self.tracks@
    }

    pub closed spec fn task_rows(&self) -> Seq<TaskRow> {
        self.tasks@
    }

    pub closed spec fn section_rows(&self) -> Seq<SectionRow> {
        self.sections@
    }

    pub closed spec fn phase_rows(&self) -> Seq<PhaseRow> {
        self.phases@
    }

    pub closed spec fn item_rows(&self) -> Seq<TrackPlanItemRecord> {
        self.items@
    }

    pub closed spec fn event_rows(&self) -> Seq<EventRecord> {
        self.events@
    }

    pub closed spec fn projection_rows(&self) -> Seq<ProjectionRecord> {
        self.projections@
    }

    pub closed spec fn dirty_rows(&self) -> Seq<ProjectionDirtyTargetRecord> {
        self.dirty@
    }

    /// Every table is in its listing order and has no duplicate primary key.
    pub open spec fn wf(&self) -> bool {
        &&& table_ok(self.track_rows())
        &&& table_ok(self.task_rows())
        &&& table_ok(self.section_rows())
        &&& table_ok(self.phase_rows())
        &&& table_ok(self.item_rows())
        &&& table_ok(self.event_rows())
        &&& table_ok(self.projection_rows())
        &&& table_ok(self.dirty_rows())
    }

    /// Every table of the store is empty.
    pub open spec fn holds_nothing(&self) -> bool {
        &&& self.track_rows().len() == 0
        &&& self.task_rows().len() == 0
        &&& self.section_rows().len() == 0
        &&& self.phase_rows().len() == 0
        &&& self.item_rows().len() == 0
        &&& self.event_rows().len() == 0
        &&& self.projection_rows().len() == 0
        &&& self.dirty_rows().len() == 0
    }

    /// The brief and plan tables of two stores are the same.
    pub open spec fn same_plans(&self, other: &Self) -> bool {
        &&& self.section_rows() == other.section_rows()
        &&& self.phase_rows() == other.phase_rows()
        &&& self.item_rows() == other.item_rows()
    }

    /// The event, projection and dirty-target tables of two stores are the same.
    pub open spec fn same_activity(&self, other: &Self) -> bool {
        &&& self.event_rows() == other.event_rows()
        &&& self.projection_rows() == other.projection_rows()
        &&& self.dirty_rows() == other.dirty_rows()
    }

    /// An empty store.
    pub fn new() -> (s: Self)
        ensures
            s.wf(),
            s.track_rows().len() == 0,
            s.task_rows().len() == 0,
            s.section_rows().len() == 0,
            s.phase_rows().len() == 0,
            s.item_rows().len() == 0,
            s.event_rows().len() == 0,
            s.projection_rows().len() == 0,
            s.dirty_rows().len() == 0,
    {
        RuntimeStore {
            tracks: Vec::new(),
            tasks: Vec::new(),
            sections: Vec::new(),
            phases: Vec::new(),
            items: Vec::new(),
            events: Vec::new(),
            projections: Vec::new(),
            dirty: Vec::new(),
        }
    }

    fn track_record(row: &TrackRow) -> (r: TrackRecord)
        ensures
            r == track_record_of(*row),
    {
        TrackRecord {
            id: row.id.clone(),
            title: row.title.clone(),
            status: row.status.clone(),
            created_at: row.created_at.clone(),
            updated_at: row.updated_at.clone(),
        }
    }

    fn task_record(row: &TaskRow) -> (r: TaskRecord)
        ensures
            r == task_record_of(*row),
    {
        TaskRecord {
            id: row.id.clone(),
            track_id: opt_copy(&row.track_id),
            plan_item_id: opt_copy(&row.plan_item_id),
            title: row.title.clone(),
            status: row.status.clone(),
            phase: row.phase.clone(),
            executor: opt_copy(&row.executor),
            agent_instance_id: opt_copy(&row.agent_instance_id),
            execution: opt_copy(&row.execution),
            intent_summary: opt_copy(&row.intent_summary),
            created_at: row.created_at.clone(),
            updated_at: row.updated_at.clone(),
            lease_holder: opt_copy(&row.lease_holder),
            lease_expires_at: opt_copy(&row.lease_expires_at),
        }
    }

    fn track_records(rows: &Vec<TrackRow>) -> (r: Vec<TrackRecord>)
        ensures
            r@ == rows@.map_values(|t: TrackRow| track_record_of(t)),
    {
        let mut out: Vec<TrackRecord> = Vec::new();
        let mut i: usize = 0;
        while i < rows.len()
            invariant
                i <= rows@.len(),
                out@ == rows@.take(i as int).map_values(|t: TrackRow| track_record_of(t)),
            decreases rows@.len() - i,
        {
            out.push(Self::track_record(&rows[i]));
            proof {
                assert(rows@.take(i + 1) =~= rows@.take(i as int).push(rows@[i as int]));
                assert(out@ =~= rows@.take(i + 1).map_values(|t: TrackRow| track_record_of(t)));
            }
            i += 1;
        }
        proof {
            assert(rows@.take(rows@.len() as int) =~= rows@);
        }
        out
    }

    /// All tracks, oldest first (by creation time, then id).
    pub fn list_tracks(&self) -> (r: Result<Vec<TrackRecord>, EmberFlowError>)
        ensures
            r matches Ok(v) && v@ == self.track_rows().map_values(|t: TrackRow| track_record_of(t)),
    {
        Ok(Self::track_records(&self.tracks))
    }

    /// The tracks that are not archived, oldest first.
    pub fn list_active_tracks(&self) -> (r: Result<Vec<TrackRecord>, EmberFlowError>)
        ensures
            r matches Ok(v) && v@ == self.track_rows().filter(
                |t: TrackRow| t.status@ != "archived"@,
            ).map_values(|t: TrackRow| track_record_of(t)),
    {
        let pred = StatusIs { negate: true, status: "archived" };
        let active = filter_rows(&self.tracks, &pred);
        proof {
            assert((|x: TrackRow| pred.holds(x)) =~= (|t: TrackRow| t.status@ != "archived"@));
        }
        Ok(Self::track_records(&active))
    }

    /// All tasks, oldest first (by creation time, then id).
    pub fn list_tasks(&self) -> (r: Result<Vec<TaskRecord>, EmberFlowError>)
        ensures
            r matches Ok(v) && v@ == self.task_rows().map_values(|t: TaskRow| task_record_of(t)),
    {
        let mut out: Vec<TaskRecord> = Vec::new();
        let mut i: usize = 0;
        while i < self.tasks.len()
            invariant
                i <= self.tasks@.len(),
                out@ == self.tasks@.take(i as int).map_values(|t: TaskRow| task_record_of(t)),
            decreases self.tasks@.len() - i,
        {
            out.push(Self::task_record(&self.tasks[i]));
            proof {
                assert(self.tasks@.take(i + 1) =~= self.tasks@.take(i as int).push(
                    self.tasks@[i as int],
                ));
                assert(out@ =~= self.tasks@.take(i + 1).map_values(
                    |t: TaskRow| task_record_of(t),
                ));
            }
            i += 1;
        }
        proof {
            assert(self.tasks@.take(self.tasks@.len() as int) =~= self.tasks@);
        }
        Ok(out)
    }

    /// The track with the given id.
    pub fn get_track(&self, track_id: &str) -> (r: Result<TrackRecord, EmberFlowError>)
        requires
            self.wf(),
        ensures
            r is Ok <==> has_row(self.track_rows(), track_id@),
            r matches Ok(t) ==> t == track_record_of(row_with(self.track_rows(), track_id@)),
            r matches Err(e) ==> is_not_found(e, track_id@),
    {
        match find_row(&self.tracks, track_id) {
            Some(i) => {
                proof {
                    lemma_row_with(self.tracks@, track_id@, i as int);
                }
                Ok(Self::track_record(&self.tracks[i]))
            },
            None => Err(not_found(track_id)),
        }
    }

    /// The metadata of a track, if the track exists and has metadata.
    pub fn get_track_metadata_optional(&self, track_id: &str) -> (r: Result<
        Option<TrackMetadataRecord>,
        EmberFlowError,
    >)
        requires
            self.wf(),
        ensures
            r is Ok,
            r matches Ok(o) ==> (o is Some <==> (has_row(self.track_rows(), track_id@) && row_with(
                self.track_rows(),
                track_id@,
            ).track_type is Some)),
            r matches Ok(Some(m)) ==> metadata_of_row(m, row_with(self.track_rows(), track_id@)),
    {
        match find_row(&self.tracks, track_id) {
            Some(i) => {
                proof {
                    lemma_row_with(self.tracks@, track_id@, i as int);
                }
                let row = &self.tracks[i];
                match &row.track_type {
                    Some(track_type) => {
                        let description = match &row.description {
                            Some(d) => d.clone(),
                            None => String::new(),
                        };
                        let branch = match &row.branch {
                            Some(b) => b.clone(),
                            None => String::new(),
                        };
                        Ok(
                            Some(
                                TrackMetadataRecord {
                                    track_id: row.id.clone(),
                                    track_type: track_type.clone(),
                                    status: row.status.clone(),
                                    description,
                                    branch,
                                    spec_ref: opt_copy(&row.spec_ref),
                                    created_at: row.created_at.clone(),
                                    updated_at: row.updated_at.clone(),
                                },
                            ),
                        )
                    },
                    None => Ok(None),
                }
            },
            None => Ok(None),
        }
    }

    /// The metadata of a track; a track without metadata is reported as not found.
    pub fn get_track_metadata(&self, track_id: &str) -> (r: Result<
        TrackMetadataRecord,
        EmberFlowError,
    >)
        requires
            self.wf(),
        ensures
            r is Ok <==> (has_row(self.track_rows(), track_id@) && row_with(
                self.track_rows(),
                track_id@,
            ).track_type is Some),
            r matches Ok(m) ==> metadata_of_row(m, row_with(self.track_rows(), track_id@)),
            r matches Err(e) ==> is_not_found(e, track_id@),
    {
        match self.get_track_metadata_optional(track_id) {
            Ok(Some(m)) => Ok(m),
            _ => Err(not_found(track_id)),
        }
    }

    /// Creates a track at time `now`. `done` is stored as `archived`; another unknown status
    /// is refused, and so is an id that is already taken.
    pub fn create_track_at(&mut self, track_id: &str, title: &str, status: &str, now: &str) -> (r:
        Result<TrackRecord, EmberFlowError>)
        requires
            old(self).wf(),
        ensures
            final(self).wf(),
            track_created(*old(self), *final(self), track_id@, title@, status@, now@, r),
    {
        let st: &str = if str_eq(status, "done") {
            "archived"
        } else {
            status
        };
        validate_track_status(st)?;
        if find_row(&self.tracks, track_id).is_some() {
            return Err(sqlite_failure("UNIQUE constraint failed: tracks.id"));
        }
        let row = TrackRow {
            id: owned(track_id),
            title: owned(title),
            status: owned(st),
            track_type: None,
            description: None,
            branch: None,
            spec_ref: None,
            created_at: owned(now),
            updated_at: owned(now),
        };
        let rec = Self::track_record(&row);
        proof {
            lemma_insert_sorted_ok(self.tracks@, row);
        }
        sorted_insert(&mut self.tracks, row);
        Ok(rec)
    }

    /// Creates a track, stamped with the current time.
    pub fn create_track(&mut self, track_id: &str, title: &str, status: &str) -> (r: Result<
        TrackRecord,
        EmberFlowError,
    >)
        requires
            old(self).wf(),
        ensures
            final(self).wf(),
            (r matches Err(e) && e is Sqlite && *final(self) == *old(self)) || exists|now: Seq<char>|
                #[trigger] track_created(*old(self), *final(self), track_id@, title@, status@, now, r),
            !track_statuses().contains(normalized_track_status(status@)) ==> (r matches Err(e)
                && is_unsupported(e, "status"@, normalized_track_status(status@)) && *final(self)
                == *old(self)),
    {
        match check_track_status(status) {
            Ok(()) => {},
            Err(e) => {
                let r = Err(e);
                proof {
                    assert(track_created(*old(self), *self, track_id@, title@, status@, Seq::<char>::empty(), r));
                }
                return r;
            },
        }
        let now = current_timestamp()?;
        let r = self.create_track_at(track_id, title, status, now.as_str());
        proof {
            assert(track_created(*old(self), *self, track_id@, title@, status@, now@, r));
        }
        r
    }
}

/// The status a track would be stored with, checked before anything is read or written:
/// `done` is read as `archived`, and another unknown status is refused.
pub fn check_track_status(status: &str) -> (r: Result<(), EmberFlowError>)
    ensures
        r is Ok <==> track_statuses().contains(normalized_track_status(status@)),
        r matches Err(e) ==> is_unsupported(e, "status"@, normalized_track_status(status@)),
{
    proof {
        reveal_strlit("done");
        reveal_strlit("archived");
    }
    let st: &str = if str_eq(status, "done") {
        "archived"
    } else {
        status
    };
    validate_track_status(st)
}

/// The stored form of a track that has no metadata.
pub open spec fn bare_track_row(t: TrackRecord) -> TrackRow {
    TrackRow {
        id: t.id,
        title: t.title,
        status: t.status,
        track_type: None,
        description: None,
        branch: None,
        spec_ref: None,
        created_at: t.created_at,
        updated_at: t.updated_at,
    }
}

} // verus!

verus! {

/// The fields of a stored track, by their texts.
pub open spec fn track_row_is(
    r: TrackRow,
    id: Seq<char>,
    title: Seq<char>,
    status: Seq<char>,
    track_type: Option<Seq<char>>,
    description: Option<Seq<char>>,
    branch: Option<Seq<char>>,
    spec_ref: Option<Seq<char>>,
    created_at: Seq<char>,
    updated_at: Seq<char>,
) -> bool {
    &&& r.id@ == id
    &&& r.title@ == title
    &&& r.status@ == status
    &&& opt_view(r.track_type) == track_type
    &&& opt_view(r.description) == description
    &&& opt_view(r.branch) == branch
    &&& opt_view(r.spec_ref) == spec_ref
    &&& r.created_at@ == created_at
    &&& r.updated_at@ == updated_at
}

/// The title that metadata gives a track: its description, or its id when the description is blank.
pub open spec fn metadata_title(input: TrackMetadataInput) -> Seq<char> {
    if is_blank_spec(input.description@) {
        input.track_id@
    } else {
        input.description@
    }
}

/// What setting a track's status at time `now` does (see `update_track_status_at`).
pub open spec fn track_status_updated(
    s0: RuntimeStore,
    s1: RuntimeStore,
    track_id: Seq<char>,
    status: Seq<char>,
    now: Seq<char>,
    r: Result<TrackRecord, EmberFlowError>,
) -> bool {
    let st = normalized_track_status(status);
    let old_row = row_with(s0.track_rows(), track_id);
    &&& !track_statuses().contains(st) ==> (r matches Err(e) && is_unsupported(
        e,
        "status"@,
        st,
    ))
    &&& track_statuses().contains(st) && !has_row(s0.track_rows(), track_id)
        ==> (r matches Err(e) && is_not_found(e, track_id))
    &&& r is Ok <==> track_statuses().contains(st) && has_row(
        s0.track_rows(),
        track_id,
    )
    &&& r is Err ==> s1 == s0
    &&& r matches Ok(t) ==> {
        let row = row_with(s1.track_rows(), track_id);
        &&& t == track_record_of(row)
        &&& track_row_is(
            row,
            track_id,
            old_row.title@,
            st,
            opt_view(old_row.track_type),
            opt_view(old_row.description),
            opt_view(old_row.branch),
            opt_view(old_row.spec_ref),
            old_row.created_at@,
            now,
        )
        &&& s1.track_rows() == s0.track_rows().update(
            row_index(s0.track_rows(), track_id),
            row,
        )
        &&& s1.task_rows() == s0.task_rows()
        &&& s1.same_plans(&s0)
        &&& s1.same_activity(&s0)
    }

}

/// What writing a track's metadata at time `now` does (see `upsert_track_metadata_at`).
pub open spec fn track_metadata_written(
    s0: RuntimeStore,
    s1: RuntimeStore,
    input: TrackMetadataInput,
    now: Seq<char>,
    r: Result<TrackMetadataRecord, EmberFlowError>,
) -> bool {
    let st = normalized_track_status(input.status@);
    let id = input.track_id@;
    let existed = has_row(s0.track_rows(), id);
    &&& !track_statuses().contains(st) ==> (r matches Err(e) && is_unsupported(
        e,
        "status"@,
        st,
    ))
    &&& track_statuses().contains(st) && is_blank_spec(id) ==> (r matches Err(e)
        && is_unsupported(e, "track_id"@, "track id must be present"@))
    &&& r is Ok <==> track_statuses().contains(st) && !is_blank_spec(id)
    &&& r is Err ==> s1 == s0
    &&& r matches Ok(m) ==> {
        let row = row_with(s1.track_rows(), id);
        let created = if existed {
            row_with(s0.track_rows(), id).created_at@
        } else {
            now
        };
        &&& has_row(s1.track_rows(), id)
        &&& track_row_is(
            row,
            id,
            metadata_title(input),
            st,
            Some(input.track_type@),
            Some(input.description@),
            Some(input.branch@),
            opt_view(input.spec_ref),
            created,
            now,
        )
        &&& metadata_of_row(m, row)
        &&& existed ==> s1.track_rows() == s0.track_rows().update(
            row_index(s0.track_rows(), id),
            row,
        )
        &&& !existed ==> s1.track_rows() == insert_sorted(
            s0.track_rows(),
            row,
        )
        &&& s1.task_rows() == s0.task_rows()
        &&& s1.same_plans(&s0)
        &&& s1.same_activity(&s0)
    }

}

impl RuntimeStore {
    /// Creates a track with metadata, or replaces the metadata, title and status of an
    /// existing one (keeping its creation time), at time `now`.
    pub fn upsert_track_metadata_at(&mut self, input: TrackMetadataInput, now: &str) -> (r: Result<
        TrackMetadataRecord,
        EmberFlowError,
    >)
        requires
            old(self).wf(),
        ensures
            final(self).wf(),
            track_metadata_written(*old(self), *final(self), input, now@, r),
    {
        let st: &str = if str_eq(input.status.as_str(), "done") {
            "archived"
        } else {
            input.status.as_str()
        };
        validate_track_status(st)?;
        if is_blank(input.track_id.as_str()) {
            return Err(unsupported("track_id", "track id must be present"));
        }
        let title = if is_blank(input.description.as_str()) {
            input.track_id.clone()
        } else {
            input.description.clone()
        };
        match find_row(&self.tracks, input.track_id.as_str()) {
            Some(i) => {
                proof {
                    lemma_row_with(self.tracks@, input.track_id@, i as int);
                }
                let created = self.tracks[i].created_at.clone();
                let row = TrackRow {
                    id: input.track_id.clone(),
                    title,
                    status: owned(st),
                    track_type: Some(input.track_type.clone()),
                    description: Some(input.description.clone()),
                    branch: Some(input.branch.clone()),
                    spec_ref: opt_copy(&input.spec_ref),
                    created_at: created,
                    updated_at: owned(now),
                };
                proof {
                    lemma_update_same_key(self.tracks@, i as int, row);
                }
                self.tracks.set(i, row);
                proof {
                    lemma_row_with(self.tracks@, input.track_id@, i as int);
                }
            },
            None => {
                let row = TrackRow {
                    id: input.track_id.clone(),
                    title,
                    status: owned(st),
                    track_type: Some(input.track_type.clone()),
                    description: Some(input.description.clone()),
                    branch: Some(input.branch.clone()),
                    spec_ref: opt_copy(&input.spec_ref),
                    created_at: owned(now),
                    updated_at: owned(now),
                };
                proof {
                    lemma_insert_sorted_ok(self.tracks@, row);
                    let t = insert_sorted(old(self).tracks@, row);
                    assert(t.contains(row));
                    let k = choose|k: int| 0 <= k < t.len() && t[k] == row;
                    lemma_row_with(t, input.track_id@, k);
                }
                sorted_insert(&mut self.tracks, row);
            },
        }
        let m = self.get_track_metadata(input.track_id.as_str());
        match m {
            Ok(m) => Ok(m),
            Err(e) => Err(e),
        }
    }

    /// Sets the status of a track at time `now`; `done` is stored as `archived`.
    pub fn update_track_status_at(&mut self, track_id: &str, status: &str, now: &str) -> (r: Result<
        TrackRecord,
        EmberFlowError,
    >)
        requires
            old(self).wf(),
        ensures
            final(self).wf(),
            track_status_updated(*old(self), *final(self), track_id@, status@, now@, r),
    {
        let st: &str = if str_eq(status, "done") {
            "archived"
        } else {
            status
        };
        validate_track_status(st)?;
        match find_row(&self.tracks, track_id) {
            Some(i) => {
                proof {
                    lemma_row_with(self.tracks@, track_id@, i as int);
                }
                let mut row = self.tracks[i].copy_row();
                row.status = owned(st);
                row.updated_at = owned(now);
                proof {
                    lemma_update_same_key(self.tracks@, i as int, row);
                }
                let rec = Self::track_record(&row);
                self.tracks.set(i, row);
                proof {
                    lemma_row_with(self.tracks@, track_id@, i as int);
                }
                Ok(rec)
            },
            None => Err(not_found(track_id)),
        }
    }
}

} // verus!

verus! {

/// The key of a stored brief section.
pub open spec fn brief_section_id(track_id: Seq<char>, key: Seq<char>) -> Seq<char> {
    track_id + ":brief:"@ + key
}

pub open spec fn section_record_of(r: SectionRow) -> TrackBriefSectionRecord {
    TrackBriefSectionRecord {
        track_id: r.track_id,
        section_key: r.section_key,
        section_text: r.section_text,
        position: r.position,
        created_at: r.created_at,
        updated_at: r.updated_at,
    }
}

/// `r` is the stored form of the brief section `sec`, written for `track_id` at `now`.
pub open spec fn section_row_matches(
    r: SectionRow,
    track_id: Seq<char>,
    sec: TrackBriefSectionInput,
    now: Seq<char>,
) -> bool {
    &&& r.id@ == brief_section_id(track_id, sec.section_key@)
    &&& r.track_id@ == track_id
    &&& r.section_key@ == sec.section_key@
    &&& r.section_text@ == sec.section_text@
    &&& r.position == sec.position
    &&& r.created_at@ == now
    &&& r.updated_at@ == now
}

/// `r` is the stored form of one of `sections`, written for `track_id` at `now`.
pub open spec fn section_row_for(
    r: SectionRow,
    track_id: Seq<char>,
    sections: Seq<TrackBriefSectionInput>,
    now: Seq<char>,
) -> bool {
    exists|k: int|
        0 <= k < sections.len() && section_row_matches(r, track_id, #[trigger] sections[k], now)
}

/// Each of `sections` has its stored form among `rows`.
pub open spec fn sections_stored(
    rows: Seq<SectionRow>,
    track_id: Seq<char>,
    sections: Seq<TrackBriefSectionInput>,
    now: Seq<char>,
) -> bool {
    forall|k: int|
        0 <= k < sections.len() ==> section_stored(rows, track_id, #[trigger] sections[k], now)
}

/// The brief section `sec` has its stored form among `rows`.
pub open spec fn section_stored(
    rows: Seq<SectionRow>,
    track_id: Seq<char>,
    sec: TrackBriefSectionInput,
    now: Seq<char>,
) -> bool {
    exists|j: int| 0 <= j < rows.len() && section_row_matches(#[trigger] rows[j], track_id, sec, now)
}

proof fn lemma_sections_stored(
    rows: Seq<SectionRow>,
    track_id: Seq<char>,
    sections: Seq<TrackBriefSectionInput>,
    now: Seq<char>,
    witness: Seq<SectionRow>,
)
    requires
        witness.len() == sections.len(),
        forall|k: int|
            0 <= k < sections.len() ==> rows.contains(#[trigger] witness[k]) && section_row_matches(
                witness[k],
                track_id,
                sections[k],
                now,
            ),
    ensures
        sections_stored(rows, track_id, sections, now),
{
    assert forall|k: int| 0 <= k < sections.len() implies section_stored(
        rows,
        track_id,
        #[trigger] sections[k],
        now,
    ) by {
        assert(rows.contains(witness[k]));
        let j = choose|j: int| 0 <= j < rows.len() && rows[j] == witness[k];
        assert(section_row_matches(rows[j], track_id, sections[k], now));
    }
}

/// Whether some section of `sections` has a blank key.
pub open spec fn has_blank_section_key(sections: Seq<TrackBriefSectionInput>) -> bool {
    exists|k: int| 0 <= k < sections.len() && is_blank_spec((#[trigger] sections[k]).section_key@)
}

/// Whether writing `sections` for `track_id` would give two sections the same key: two of
/// them share a key, or one's key is held by a section of another track.
pub open spec fn brief_ids_collide(
    rows: Seq<SectionRow>,
    track_id: Seq<char>,
    sections: Seq<TrackBriefSectionInput>,
) -> bool {
    ||| exists|a: int, b: int|
        0 <= a < b < sections.len() && brief_section_id(track_id, (#[trigger] sections[a]).section_key@)
            == brief_section_id(track_id, (#[trigger] sections[b]).section_key@)
    ||| exists|a: int, j: int|
        0 <= a < sections.len() && 0 <= j < rows.len() && (#[trigger] rows[j]).track_id@
            != track_id && rows[j].id@ == brief_section_id(track_id, (#[trigger] sections[a]).section_key@)
}

struct SectionOfTrack<'a> {
    track_id: &'a str,
    keep: bool,
}

impl<'a> RowPred<SectionRow> for SectionOfTrack<'a> {
    closed spec fn holds(&self, r: SectionRow) -> bool {
        (r.track_id@ == self.track_id@) == self.keep
    }

    fn test(&self, r: &SectionRow) -> (b: bool) {
        str_eq(r.track_id.as_str(), self.track_id) == self.keep
    }
}

/// What replacing a track's brief at time `now` does (see `replace_track_brief_at`).
pub open spec fn track_brief_replaced(
    s0: RuntimeStore,
    s1: RuntimeStore,
    track_id: Seq<char>,
    sections: Seq<TrackBriefSectionInput>,
    now: Seq<char>,
    r: Result<TrackBriefRecord, EmberFlowError>,
) -> bool {
    let exists = has_row(s0.track_rows(), track_id);
    let blank = has_blank_section_key(sections);
    let collide = brief_ids_collide(s0.section_rows(), track_id, sections);
    &&& !exists ==> (r matches Err(e) && is_not_found(e, track_id))
    &&& exists && blank ==> (r matches Err(e) && is_unsupported(
        e,
        "section_key"@,
        "section key must be present"@,
    ))
    &&& exists && !blank && collide ==> (r matches Err(e) && is_sqlite(
        e,
        "UNIQUE constraint failed: track_brief_sections.id"@,
    ))
    &&& r is Ok <==> exists && !blank && !collide
    &&& r is Err ==> s1 == s0
    &&& r matches Ok(b) ==> {
        &&& b.track_id@ == track_id
        &&& b.sections@ == s1.section_rows().filter(
            |s: SectionRow| s.track_id@ == track_id,
        ).map_values(|s: SectionRow| section_record_of(s))
        &&& forall|s: SectionRow| #[trigger]
            s1.section_rows().contains(s) ==> ((s0.section_rows().contains(s) && s.track_id@ != track_id)
                || section_row_for(s, track_id, sections, now))
        &&& forall|s: SectionRow|
            #[trigger] s0.section_rows().contains(s) && s.track_id@ != track_id
                ==> s1.section_rows().contains(s)
        &&& sections_stored(s1.section_rows(), track_id, sections, now)
        &&& s1.section_rows().len() == s0.section_rows().filter(
            |s: SectionRow| s.track_id@ != track_id,
        ).len() + sections.len()
        &&& s1.track_rows() == s0.track_rows()
        &&& s1.task_rows() == s0.task_rows()
        &&& s1.phase_rows() == s0.phase_rows()
        &&& s1.item_rows() == s0.item_rows()
        &&& s1.same_activity(&s0)
    }

}

impl RuntimeStore {
    /// The brief sections of a track, ordered by position then key.
    pub fn get_track_brief(&self, track_id: &str) -> (r: Result<TrackBriefRecord, EmberFlowError>)
        requires
            self.wf(),
        ensures
            r is Ok <==> has_row(self.track_rows(), track_id@),
            r matches Err(e) ==> is_not_found(e, track_id@),
            r matches Ok(b) ==> b.track_id@ == track_id@ && b.sections@ == self.section_rows().filter(
                |s: SectionRow| s.track_id@ == track_id@,
            ).map_values(|s: SectionRow| section_record_of(s)),
    {
        if find_row(&self.tracks, track_id).is_none() {
            return Err(not_found(track_id));
        }
        let pred = SectionOfTrack { track_id, keep: true };
        let rows = filter_rows(&self.sections, &pred);
        proof {
            assert((|x: SectionRow| pred.holds(x)) =~= (|s: SectionRow| s.track_id@ == track_id@));
        }
        let mut out: Vec<TrackBriefSectionRecord> = Vec::new();
        let mut i: usize = 0;
        while i < rows.len()
            invariant
                i <= rows@.len(),
                out@ == rows@.take(i as int).map_values(|s: SectionRow| section_record_of(s)),
            decreases rows@.len() - i,
        {
            let row = &rows[i];
            out.push(
                TrackBriefSectionRecord {
                    track_id: row.track_id.clone(),
                    section_key: row.section_key.clone(),
                    section_text: row.section_text.clone(),
                    position: row.position,
                    created_at: row.created_at.clone(),
                    updated_at: row.updated_at.clone(),
                },
            );
            proof {
                assert(rows@.take(i + 1) =~= rows@.take(i as int).push(rows@[i as int]));
                assert(out@ =~= rows@.take(i + 1).map_values(|s: SectionRow| section_record_of(s)));
            }
            i += 1;
        }
        proof {
            assert(rows@.take(rows@.len() as int) =~= rows@);
        }
        Ok(TrackBriefRecord { track_id: owned(track_id), sections: out })
    }

    /// Replaces all brief sections of a track with `sections`, written at time `now`.
    pub fn replace_track_brief_at(
        &mut self,
        track_id: &str,
        sections: Vec<TrackBriefSectionInput>,
        now: &str,
    ) -> (r: Result<TrackBriefRecord, EmberFlowError>)
        requires
            old(self).wf(),
        ensures
            final(self).wf(),
            track_brief_replaced(*old(self), *final(self), track_id@, sections@, now@, r),
    {
        if find_row(&self.tracks, track_id).is_none() {
            return Err(not_found(track_id));
        }
        let n = sections.len();
        let mut k: usize = 0;
        while k < n
            invariant
                n == sections@.len(),
                k <= n,
                forall|j: int| 0 <= j < k ==> !is_blank_spec((#[trigger] sections@[j]).section_key@),
                old(self).wf(),
                *self == *old(self),
                has_row(old(self).tracks@, track_id@),
            decreases n - k,
        {
            if is_blank(sections[k].section_key.as_str()) {
                proof {
                    assert(is_blank_spec(sections@[k as int].section_key@));
                    assert(has_blank_section_key(sections@));
                }
                return Err(unsupported("section_key", "section key must be present"));
            }
            k += 1;
        }
        let pred = SectionOfTrack { track_id, keep: false };
        let mut kept = filter_rows(&self.sections, &pred);
        let ghost kept0 = kept@;
        proof {
            assert((|x: SectionRow| pred.holds(x)) =~= (|s: SectionRow| s.track_id@ != track_id@));
        }
        // The keys of the new sections must be free, and distinct from each other.
        let mut ids: Vec<String> = Vec::new();
        let mut k: usize = 0;
        while k < n
            invariant
                n == sections@.len(),
                k <= n,
                ids@.len() == k,
                kept0 == kept@,
                kept@ == old(self).sections@.filter(|s: SectionRow| s.track_id@ != track_id@),
                forall|j: int|
                    0 <= j < k ==> (#[trigger] ids@[j])@ == brief_section_id(
                        track_id@,
                        sections@[j].section_key@,
                    ),
                forall|a: int, b: int| 0 <= a < b < k ==> (#[trigger] ids@[a])@ != (#[trigger] ids@[b])@,
                forall|a: int| 0 <= a < k ==> !has_row(kept@, (#[trigger] ids@[a])@),
                forall|j: int| 0 <= j < n ==> !is_blank_spec((#[trigger] sections@[j]).section_key@),
                old(self).wf(),
                *self == *old(self),
                has_row(old(self).tracks@, track_id@),
            decreases n - k,
        {
            let id = cat3(track_id, ":brief:", sections[k].section_key.as_str());
            let mut j: usize = 0;
            while j < k
                invariant
                    n == sections@.len(),
                    k < n,
                    ids@.len() == k,
                    j <= k,
                    forall|a: int| 0 <= a < j ==> (#[trigger] ids@[a])@ != id@,
                    id@ == brief_section_id(track_id@, sections@[k as int].section_key@),
                    forall|q: int|
                        0 <= q < k ==> (#[trigger] ids@[q])@ == brief_section_id(
                            track_id@,
                            sections@[q].section_key@,
                        ),
                    forall|j: int| 0 <= j < n ==> !is_blank_spec((#[trigger] sections@[j]).section_key@),
                    old(self).wf(),
                    *self == *old(self),
                    has_row(old(self).tracks@, track_id@),
                decreases k - j,
            {
                if str_eq(ids[j].as_str(), id.as_str()) {
                    proof {
                        assert(brief_section_id(track_id@, sections@[j as int].section_key@)
                            == brief_section_id(track_id@, sections@[k as int].section_key@));
                    }
                    return Err(sqlite_failure("UNIQUE constraint failed: track_brief_sections.id"));
                }
                j += 1;
            }
            if find_row(&kept, id.as_str()).is_some() {
                proof {
                    let jj = choose|jj: int| 0 <= jj < kept@.len() && kept@[jj].row_id() == id@;
                    assert(kept@.contains(kept@[jj]));
                    old(self).sections@.lemma_filter_contains_rev(|s: SectionRow| s.track_id@ != track_id@, kept@[jj]);
                    let jo = choose|jo: int| 0 <= jo < old(self).sections@.len() && old(self).sections@[jo] == kept@[jj];
                    assert(old(self).sections@[jo].track_id@ != track_id@);
                }
                return Err(sqlite_failure("UNIQUE constraint failed: track_brief_sections.id"));
            }
            ids.push(id);
            k += 1;
        }
        proof {
            // Nothing collides.
            assert forall|a: int, b: int| 0 <= a < b < sections@.len() implies brief_section_id(
                track_id@,
                (#[trigger] sections@[a]).section_key@,
            ) != brief_section_id(track_id@, (#[trigger] sections@[b]).section_key@) by {
                assert(ids@[a]@ != ids@[b]@);
            }
            assert forall|a: int, j: int|
                0 <= a < sections@.len() && 0 <= j < old(self).sections@.len() && (#[trigger] old(
                    self,
                ).sections@[j]).track_id@ != track_id@ implies old(self).sections@[j].id@
                != brief_section_id(track_id@, (#[trigger] sections@[a]).section_key@) by {
                let s = old(self).sections@[j];
                old(self).sections@.lemma_filter_contains(|s: SectionRow| s.track_id@ != track_id@, j);
                if s.id@ == brief_section_id(track_id@, sections@[a].section_key@) {
                    let q = choose|q: int| 0 <= q < kept@.len() && kept@[q] == s;
                    assert(kept@[q].row_id() == ids@[a]@);
                }
            }
            assert(!brief_ids_collide(old(self).sections@, track_id@, sections@));
        }
        let ghost mut new_rows: Seq<SectionRow> = Seq::empty();
        let mut k: usize = 0;
        while k < n
            invariant
                n == sections@.len(),
                k <= n,
                ids@.len() == n,
                table_ok(kept@),
                forall|j: int|
                    0 <= j < n ==> (#[trigger] ids@[j])@ == brief_section_id(
                        track_id@,
                        sections@[j].section_key@,
                    ),
                forall|a: int, b: int| 0 <= a < b < n ==> (#[trigger] ids@[a])@ != (#[trigger] ids@[b])@,
                forall|a: int| 0 <= a < n ==> !has_row(kept0, (#[trigger] ids@[a])@),
                forall|a: int|
                    k <= a < n ==> !has_row(kept@, (#[trigger] ids@[a])@),
                forall|s: SectionRow| #[trigger]
                    kept@.contains(s) ==> (kept0.contains(s) || exists|q: int|
                        0 <= q < k && section_row_matches(s, track_id@, #[trigger] sections@[q], now@)),
                forall|s: SectionRow| #[trigger] kept0.contains(s) ==> kept@.contains(s),
                new_rows.len() == k,
                forall|q: int|
                    0 <= q < k ==> kept@.contains(#[trigger] new_rows[q]) && section_row_matches(
                        new_rows[q],
                        track_id@,
                        sections@[q],
                        now@,
                    ),
                kept@.len() == kept0.len() + k,
                forall|j: int| 0 <= j < n ==> !is_blank_spec((#[trigger] sections@[j]).section_key@),
                old(self).wf(),
                *self == *old(self),
                has_row(old(self).tracks@, track_id@),
                !brief_ids_collide(old(self).sections@, track_id@, sections@),
                kept0 == old(self).sections@.filter(|s: SectionRow| s.track_id@ != track_id@),
            decreases n - k,
        {
            let sec = &sections[k];
            let row = SectionRow {
                id: ids[k].clone(),
                track_id: owned(track_id),
                section_key: sec.section_key.clone(),
                section_text: sec.section_text.clone(),
                position: sec.position,
                created_at: owned(now),
                updated_at: owned(now),
            };
            proof {
                lemma_insert_sorted_ok(kept@, row);
                assert forall|a: int| k + 1 <= a < n implies !has_row(
                    insert_sorted(kept@, row),
                    (#[trigger] ids@[a])@,
                ) by {
                    if has_row(insert_sorted(kept@, row), ids@[a]@) {
                        let t = insert_sorted(kept@, row);
                        let q = choose|q: int| 0 <= q < t.len() && t[q].row_id() == ids@[a]@;
                        assert(t.contains(t[q]));
                        if kept@.contains(t[q]) {
                            let w = choose|w: int| 0 <= w < kept@.len() && kept@[w] == t[q];
                            assert(kept@[w].row_id() == ids@[a]@);
                        } else {
                            assert(ids@[k as int]@ != ids@[a]@);
                        }
                    }
                }
                let t = insert_sorted(kept@, row);
                assert(section_row_matches(row, track_id@, sections@[k as int], now@));
                assert(t.contains(row));
                assert forall|s: SectionRow| #[trigger] t.contains(s) implies (kept0.contains(s)
                    || exists|q: int|
                    0 <= q < k + 1 && section_row_matches(s, track_id@, #[trigger] sections@[q], now@)) by {
                    if s == row {
                        assert(section_row_matches(s, track_id@, sections@[k as int], now@));
                    } else {
                        assert(kept@.contains(s));
                    }
                }
                assert forall|q: int| 0 <= q < k implies t.contains(#[trigger] new_rows[q]) by {
                    assert(kept@.contains(new_rows[q]));
                }
            }
            proof {
                new_rows = new_rows.push(row);
            }
            sorted_insert(&mut kept, row);
            k += 1;
        }
        proof {
            assert forall|s: SectionRow| #[trigger] kept@.contains(s) implies ((old(
                self,
            ).sections@.contains(s) && s.track_id@ != track_id@) || section_row_for(
                s,
                track_id@,
                sections@,
                now@,
            )) by {
                if kept0.contains(s) {
                    old(self).sections@.lemma_filter_contains_rev(
                        |s: SectionRow| s.track_id@ != track_id@,
                        s,
                    );
                } else {
                    let q = choose|q: int|
                        0 <= q < n && section_row_matches(s, track_id@, #[trigger] sections@[q], now@);
                    assert(section_row_matches(s, track_id@, sections@[q], now@));
                }
            }
            assert forall|s: SectionRow|
                #[trigger] old(self).sections@.contains(s) && s.track_id@ != track_id@ implies kept@.contains(
                s,
            ) by {
                let j = choose|j: int| 0 <= j < old(self).sections@.len() && old(self).sections@[j] == s;
                old(self).sections@.lemma_filter_contains(|s: SectionRow| s.track_id@ != track_id@, j);
                let q = choose|q: int| 0 <= q < kept0.len() && kept0[q] == s;
                assert(kept0.contains(s));
            }
            assert(!has_blank_section_key(sections@));
        }
        proof {
            assert forall|q: int| 0 <= q < sections@.len() implies exists|s: SectionRow|
                #[trigger] kept@.contains(s) && section_row_matches(
                    s,
                    track_id@,
                    #[trigger] sections@[q],
                    now@,
                ) by {
                assert(kept@.contains(new_rows[q]));
            }
        }
        self.sections = kept;
        let r = self.get_track_brief(track_id);
        proof {
            lemma_sections_stored(self.section_rows(), track_id@, sections@, now@, new_rows);
            assert(sections_stored(self.section_rows(), track_id@, sections@, now@));
        }
        r
    }
}

} // verus!

verus! {

/// A plan item that cannot be placed: it has no id or no position.
pub open spec fn item_unplaceable(it: TrackPlanItemInput) -> bool {
    is_blank_spec(it.item_id@) || it.position is None
}

pub open spec fn phase_has_unplaceable_item(p: TrackPlanPhaseInput) -> bool {
    exists|i: int| 0 <= i < p.items@.len() && item_unplaceable(#[trigger] p.items@[i])
}

/// The first problem in a plan, in input order: `Some(true)` for a phase without id,
/// `Some(false)` for an item that cannot be placed, `None` when there is none.
pub open spec fn plan_problem(phases: Seq<TrackPlanPhaseInput>) -> Option<bool>
    decreases phases.len(),
{
    if phases.len() == 0 {
        None
    } else if is_blank_spec(phases[0].phase_id@) {
        Some(true)
    } else if phase_has_unplaceable_item(phases[0]) {
        Some(false)
    } else {
        plan_problem(phases.drop_first())
    }
}

/// Whether two phases of the plan share an id, or one's id is held by a phase of another track.
pub open spec fn plan_phase_ids_collide(
    rows: Seq<PhaseRow>,
    track_id: Seq<char>,
    phases: Seq<TrackPlanPhaseInput>,
) -> bool {
    ||| exists|a: int, b: int|
        0 <= a < b < phases.len() && (#[trigger] phases[a]).phase_id@ == (
        #[trigger] phases[b]).phase_id@
    ||| exists|a: int, j: int|
        0 <= a < phases.len() && 0 <= j < rows.len() && (#[trigger] rows[j]).track_id@ != track_id
            && rows[j].id@ == (#[trigger] phases[a]).phase_id@
}

/// Whether two items of the plan share an id, or one's id is held by an item of another track.
pub open spec fn plan_item_ids_collide(
    rows: Seq<TrackPlanItemRecord>,
    track_id: Seq<char>,
    phases: Seq<TrackPlanPhaseInput>,
) -> bool {
    ||| exists|a: int, i: int, b: int, j: int|
        0 <= a < phases.len() && 0 <= b < phases.len() && 0 <= i < phases[a].items@.len() && 0
            <= j < phases[b].items@.len() && (a != b || i != j) && (#[trigger] phases[a].items@[i]).item_id@
            == (#[trigger] phases[b].items@[j]).item_id@
    ||| exists|a: int, i: int, j: int|
        0 <= a < phases.len() && 0 <= i < phases[a].items@.len() && 0 <= j < rows.len() && (
        #[trigger] rows[j]).track_id@ != track_id && rows[j].item_id@ == (
        #[trigger] phases[a].items@[i]).item_id@
}

/// `r` is the stored form of the plan phase `p`, written for `track_id` at `now`.
pub open spec fn phase_row_matches(
    r: PhaseRow,
    track_id: Seq<char>,
    p: TrackPlanPhaseInput,
    now: Seq<char>,
) -> bool {
    &&& r.id@ == p.phase_id@
    &&& r.track_id@ == track_id
    &&& r.phase_key@ == p.phase_id@
    &&& r.title@ == p.title@
    &&& r.position == p.position
    &&& r.created_at@ == now
    &&& r.updated_at@ == now
}

/// `r` is the stored form of the item `it` of the phase `p`, written for `track_id` at `now`.
pub open spec fn item_row_matches(
    r: TrackPlanItemRecord,
    track_id: Seq<char>,
    p: TrackPlanPhaseInput,
    it: TrackPlanItemInput,
    now: Seq<char>,
) -> bool {
    &&& r.item_id@ == it.item_id@
    &&& r.track_id@ == track_id
    &&& r.phase_id@ == p.phase_id@
    &&& r.title@ == it.title@
    &&& it.position == Some(r.position)
    &&& r.created_at@ == now
    &&& r.updated_at@ == now
}

pub open spec fn phase_stored(
    rows: Seq<PhaseRow>,
    track_id: Seq<char>,
    p: TrackPlanPhaseInput,
    now: Seq<char>,
) -> bool {
    exists|j: int| 0 <= j < rows.len() && phase_row_matches(#[trigger] rows[j], track_id, p, now)
}

pub open spec fn item_stored(
    rows: Seq<TrackPlanItemRecord>,
    track_id: Seq<char>,
    p: TrackPlanPhaseInput,
    it: TrackPlanItemInput,
    now: Seq<char>,
) -> bool {
    exists|j: int| 0 <= j < rows.len() && item_row_matches(#[trigger] rows[j], track_id, p, it, now)
}

/// `r` is the stored form of one of the phases of the plan.
pub open spec fn phase_row_for(
    r: PhaseRow,
    track_id: Seq<char>,
    phases: Seq<TrackPlanPhaseInput>,
    now: Seq<char>,
) -> bool {
    exists|a: int| 0 <= a < phases.len() && phase_row_matches(r, track_id, #[trigger] phases[a], now)
}

/// `r` is the stored form of one of the items of the plan.
pub open spec fn item_row_for(
    r: TrackPlanItemRecord,
    track_id: Seq<char>,
    phases: Seq<TrackPlanPhaseInput>,
    now: Seq<char>,
) -> bool {
    exists|a: int, i: int|
        0 <= a < phases.len() && 0 <= i < phases[a].items@.len() && item_row_matches(
            r,
            track_id,
            phases[a],
            #[trigger] phases[a].items@[i],
            now,
        )
}

/// Every phase and every item of the plan has its stored form in the tables.
pub open spec fn plan_stored(
    phase_rows: Seq<PhaseRow>,
    item_rows: Seq<TrackPlanItemRecord>,
    track_id: Seq<char>,
    phases: Seq<TrackPlanPhaseInput>,
    now: Seq<char>,
) -> bool {
    &&& forall|a: int|
        0 <= a < phases.len() ==> phase_stored(phase_rows, track_id, #[trigger] phases[a], now)
    &&& forall|a: int, i: int|
        0 <= a < phases.len() && 0 <= i < phases[a].items@.len() ==> item_stored(
            item_rows,
            track_id,
            phases[a],
            #[trigger] phases[a].items@[i],
            now,
        )
}

/// The number of items in a plan.
pub open spec fn plan_item_count(phases: Seq<TrackPlanPhaseInput>) -> nat
    decreases phases.len(),
{
    if phases.len() == 0 {
        0
    } else {
        plan_item_count(phases.drop_last()) + phases.last().items@.len()
    }
}

/// `p` is the phase record of the stored phase `r`, listing `items`.
pub open spec fn phase_record_of_row(
    p: TrackPlanPhaseRecord,
    r: PhaseRow,
    items: Seq<TrackPlanItemRecord>,
) -> bool {
    &&& p.phase_id == r.phase_key
    &&& p.track_id == r.track_id
    &&& p.title == r.title
    &&& p.position == r.position
    &&& p.created_at == r.created_at
    &&& p.updated_at == r.updated_at
    &&& p.items@ == items.filter(|it: TrackPlanItemRecord| it.phase_id@ == r.id@)
}

/// `plan` lists the phases of `track_id` among `phase_rows`, in order, each with its items.
pub open spec fn plan_of_rows(
    plan: TrackPlanRecord,
    track_id: Seq<char>,
    phase_rows: Seq<PhaseRow>,
    item_rows: Seq<TrackPlanItemRecord>,
) -> bool {
    let own = phase_rows.filter(|p: PhaseRow| p.track_id@ == track_id);
    &&& plan.track_id@ == track_id
    &&& plan.phases@.len() == own.len()
    &&& forall|k: int|
        0 <= k < own.len() ==> phase_record_of_row(#[trigger] plan.phases@[k], own[k], item_rows)
}

struct PhaseOfTrack<'a> {
    track_id: &'a str,
    keep: bool,
}

impl<'a> RowPred<PhaseRow> for PhaseOfTrack<'a> {
    closed spec fn holds(&self, r: PhaseRow) -> bool {
        (r.track_id@ == self.track_id@) == self.keep
    }

    fn test(&self, r: &PhaseRow) -> (b: bool) {
        str_eq(r.track_id.as_str(), self.track_id) == self.keep
    }
}

struct ItemOfTrack<'a> {
    track_id: &'a str,
}

impl<'a> RowPred<TrackPlanItemRecord> for ItemOfTrack<'a> {
    closed spec fn holds(&self, r: TrackPlanItemRecord) -> bool {
        r.track_id@ != self.track_id@
    }

    fn test(&self, r: &TrackPlanItemRecord) -> (b: bool) {
        !str_eq(r.track_id.as_str(), self.track_id)
    }
}

struct ItemOfPhase<'a> {
    phase_id: &'a str,
}

impl<'a> RowPred<TrackPlanItemRecord> for ItemOfPhase<'a> {
    closed spec fn holds(&self, r: TrackPlanItemRecord) -> bool {
        r.phase_id@ == self.phase_id@
    }

    fn test(&self, r: &TrackPlanItemRecord) -> (b: bool) {
        str_eq(r.phase_id.as_str(), self.phase_id)
    }
}

impl RuntimeStore {
    /// The plan of a track: its phases ordered by position then key, each with its items
    /// ordered by position then id.
    pub fn get_track_plan(&self, track_id: &str) -> (r: Result<TrackPlanRecord, EmberFlowError>)
        requires
            self.wf(),
        ensures
            r is Ok <==> has_row(self.track_rows(), track_id@),
            r matches Err(e) ==> is_not_found(e, track_id@),
            r matches Ok(p) ==> plan_of_rows(p, track_id@, self.phase_rows(), self.item_rows()),
    {
        if find_row(&self.tracks, track_id).is_none() {
            return Err(not_found(track_id));
        }
        let pred = PhaseOfTrack { track_id, keep: true };
        let own = filter_rows(&self.phases, &pred);
        proof {
            assert((|x: PhaseRow| pred.holds(x)) =~= (|p: PhaseRow| p.track_id@ == track_id@));
        }
        let mut out: Vec<TrackPlanPhaseRecord> = Vec::new();
        let mut k: usize = 0;
        while k < own.len()
            invariant
                k <= own@.len(),
                out@.len() == k,
                forall|q: int|
                    0 <= q < k ==> phase_record_of_row(#[trigger] out@[q], own@[q], self.items@),
            decreases own@.len() - k,
        {
            let row = &own[k];
            let ipred = ItemOfPhase { phase_id: row.id.as_str() };
            let items = filter_rows(&self.items, &ipred);
            proof {
                assert((|x: TrackPlanItemRecord| ipred.holds(x)) =~= (|it: TrackPlanItemRecord|
                    it.phase_id@ == row.id@));
            }
            let rec = TrackPlanPhaseRecord {
                phase_id: row.phase_key.clone(),
                track_id: row.track_id.clone(),
                title: row.title.clone(),
                position: row.position,
                items,
                created_at: row.created_at.clone(),
                updated_at: row.updated_at.clone(),
            };
            let ghost before = out@;
            out.push(rec);
            proof {
                assert forall|q: int|
                    0 <= q < k + 1 implies phase_record_of_row(#[trigger] out@[q], own@[q], self.items@) by {
                    if q < k {
                        assert(out@[q] == before[q]);
                    }
                }
            }
            k += 1;
        }
        Ok(TrackPlanRecord { track_id: owned(track_id), phases: out })
    }
}

} // verus!

verus! {

proof fn lemma_plan_problem_skip(phases: Seq<TrackPlanPhaseInput>, a: int)
    requires
        0 <= a < phases.len(),
    ensures
        plan_problem(phases.skip(a)) == (if is_blank_spec(phases[a].phase_id@) {
            Some(true)
        } else if phase_has_unplaceable_item(phases[a]) {
            Some(false)
        } else {
            plan_problem(phases.skip(a + 1))
        }),
{
    assert(phases.skip(a)[0] == phases[a]);
    assert(phases.skip(a).drop_first() =~= phases.skip(a + 1));
}

proof fn lemma_plan_problem_none(phases: Seq<TrackPlanPhaseInput>, a: int)
    requires
        0 <= a < phases.len(),
        plan_problem(phases) is None,
    ensures
        !is_blank_spec(phases[a].phase_id@),
        !phase_has_unplaceable_item(phases[a]),
    decreases a,
{
    if a > 0 {
        assert(phases.drop_first()[a - 1] == phases[a]);
        lemma_plan_problem_none(phases.drop_first(), a - 1);
    }
}

proof fn lemma_plan_stored(
    phase_rows: Seq<PhaseRow>,
    item_rows: Seq<TrackPlanItemRecord>,
    track_id: Seq<char>,
    phases: Seq<TrackPlanPhaseInput>,
    now: Seq<char>,
    phase_w: Seq<PhaseRow>,
    item_w: Seq<Seq<TrackPlanItemRecord>>,
)
    requires
        phase_w.len() == phases.len(),
        item_w.len() == phases.len(),
        forall|p: int|
            0 <= p < phases.len() ==> phase_rows.contains(#[trigger] phase_w[p]) && phase_row_matches(
                phase_w[p],
                track_id,
                phases[p],
                now,
            ),
        forall|p: int| 0 <= p < phases.len() ==> (#[trigger] item_w[p]).len() == phases[p].items@.len(),
        forall|p: int, x: int|
            0 <= p < phases.len() && 0 <= x < phases[p].items@.len() ==> item_rows.contains(
                #[trigger] item_w[p][x],
            ) && item_row_matches(item_w[p][x], track_id, phases[p], phases[p].items@[x], now),
    ensures
        plan_stored(phase_rows, item_rows, track_id, phases, now),
{
    assert forall|p: int| 0 <= p < phases.len() implies phase_stored(
        phase_rows,
        track_id,
        #[trigger] phases[p],
        now,
    ) by {
        assert(phase_rows.contains(phase_w[p]));
        let j = choose|j: int| 0 <= j < phase_rows.len() && phase_rows[j] == phase_w[p];
        assert(phase_row_matches(phase_rows[j], track_id, phases[p], now));
    }
    assert forall|p: int, x: int| 0 <= p < phases.len() && 0 <= x < phases[p].items@.len() implies item_stored(
        item_rows,
        track_id,
        phases[p],
        #[trigger] phases[p].items@[x],
        now,
    ) by {
        assert(item_rows.contains(item_w[p][x]));
        let j = choose|j: int| 0 <= j < item_rows.len() && item_rows[j] == item_w[p][x];
        assert(item_row_matches(item_rows[j], track_id, phases[p], phases[p].items@[x], now));
    }
}

/// Processed before item `j` of phase `a`, in the order the plan is written.
pub open spec fn item_before(p: int, i: int, a: int, j: int) -> bool {
    p < a || (p == a && i < j)
}

/// What replacing a track's plan at time `now` does (see `replace_track_plan_at`).
pub open spec fn track_plan_replaced(
    s0: RuntimeStore,
    s1: RuntimeStore,
    track_id: Seq<char>,
    phases: Seq<TrackPlanPhaseInput>,
    now: Seq<char>,
    r: Result<TrackPlanRecord, EmberFlowError>,
) -> bool {
    let exists = has_row(s0.track_rows(), track_id);
    let problem = plan_problem(phases);
    let pc = plan_phase_ids_collide(s0.phase_rows(), track_id, phases);
    let ic = plan_item_ids_collide(s0.item_rows(), track_id, phases);
    &&& !exists ==> (r matches Err(e) && is_not_found(e, track_id))
    &&& exists && problem == Some(true) ==> (r matches Err(e) && is_unsupported(
        e,
        "phase_id"@,
        "phase id must be present"@,
    ))
    &&& exists && problem == Some(false) ==> (r matches Err(e) && is_unsupported(
        e,
        "item"@,
        "stable placement requires a phase item id and position"@,
    ))
    &&& exists && problem is None && (pc || ic) ==> (r matches Err(e) && (is_sqlite(
        e,
        "UNIQUE constraint failed: track_plan_phases.id"@,
    ) || is_sqlite(e, "UNIQUE constraint failed: track_plan_items.id"@)) && (!ic
        ==> is_sqlite(e, "UNIQUE constraint failed: track_plan_phases.id"@)) && (!pc
        ==> is_sqlite(e, "UNIQUE constraint failed: track_plan_items.id"@)))
    &&& r is Ok <==> exists && problem is None && !pc && !ic
    &&& r is Err ==> s1 == s0
    &&& r matches Ok(p) ==> {
        &&& plan_of_rows(p, track_id, s1.phase_rows(), s1.item_rows())
        &&& forall|x: PhaseRow| #[trigger]
            s1.phase_rows().contains(x) ==> ((s0.phase_rows().contains(x)
                && x.track_id@ != track_id) || phase_row_for(x, track_id, phases, now))
        &&& forall|x: PhaseRow|
            #[trigger] s0.phase_rows().contains(x) && x.track_id@ != track_id
                ==> s1.phase_rows().contains(x)
        &&& forall|x: TrackPlanItemRecord| #[trigger]
            s1.item_rows().contains(x) ==> ((s0.item_rows().contains(x)
                && x.track_id@ != track_id) || item_row_for(x, track_id, phases, now))
        &&& forall|x: TrackPlanItemRecord|
            #[trigger] s0.item_rows().contains(x) && x.track_id@ != track_id
                ==> s1.item_rows().contains(x)
        &&& plan_stored(
            s1.phase_rows(),
            s1.item_rows(),
            track_id,
            phases,
            now,
        )
        &&& s1.phase_rows().len() == s0.phase_rows().filter(
            |x: PhaseRow| x.track_id@ != track_id,
        ).len() + phases.len()
        &&& s1.item_rows().len() == s0.item_rows().filter(
            |x: TrackPlanItemRecord| x.track_id@ != track_id,
        ).len() + plan_item_count(phases)
        &&& s1.track_rows() == s0.track_rows()
        &&& s1.task_rows() == s0.task_rows()
        &&& s1.section_rows() == s0.section_rows()
        &&& s1.same_activity(&s0)
    }

}

impl RuntimeStore {
    /// Replaces the plan of a track with `phases` and their items, written at time `now`.
    #[verifier::loop_isolation(false)]
    #[verifier::spinoff_prover]
    #[verifier::rlimit(40)]
    pub fn replace_track_plan_at(
        &mut self,
        track_id: &str,
        phases: Vec<TrackPlanPhaseInput>,
        now: &str,
    ) -> (r: Result<TrackPlanRecord, EmberFlowError>)
        requires
            old(self).wf(),
        ensures
            final(self).wf(),
            track_plan_replaced(*old(self), *final(self), track_id@, phases@, now@, r),
    {
        if find_row(&self.tracks, track_id).is_none() {
            return Err(not_found(track_id));
        }
        let n = phases.len();
        // The first phase without id, or item without stable placement, is reported.
        proof {
            assert(phases@.skip(0) =~= phases@);
        }
        let mut a: usize = 0;
        while a < n
            invariant
                n == phases@.len(),
                a <= n,
                plan_problem(phases@) == plan_problem(phases@.skip(a as int)),
                old(self).wf(),
                *self == *old(self),
                has_row(old(self).tracks@, track_id@),
            decreases n - a,
        {
            proof {
                lemma_plan_problem_skip(phases@, a as int);
            }
            let ph = &phases[a];
            if is_blank(ph.phase_id.as_str()) {
                return Err(unsupported("phase_id", "phase id must be present"));
            }
            let m = ph.items.len();
            let mut i: usize = 0;
            while i < m
                invariant
                    m == ph.items@.len(),
                    i <= m,
                    forall|q: int| 0 <= q < i ==> !item_unplaceable(#[trigger] ph.items@[q]),
                decreases m - i,
            {
                let it = &ph.items[i];
                if is_blank(it.item_id.as_str()) || it.position.is_none() {
                    proof {
                        assert(item_unplaceable(ph.items@[i as int]));
                        assert(phase_has_unplaceable_item(phases@[a as int]));
                    }
                    return Err(
                        unsupported("item", "stable placement requires a phase item id and position"),
                    );
                }
                i += 1;
            }
            a += 1;
        }
        proof {
            assert(phases@.skip(n as int) =~= Seq::<TrackPlanPhaseInput>::empty());
        }
        let ppred = PhaseOfTrack { track_id, keep: false };
        let mut kept_phases = filter_rows(&self.phases, &ppred);
        let ipred = ItemOfTrack { track_id };
        let mut kept_items = filter_rows(&self.items, &ipred);
        let ghost kp0 = kept_phases@;
        let ghost ki0 = kept_items@;
        proof {
            assert((|x: PhaseRow| ppred.holds(x)) =~= (|x: PhaseRow| x.track_id@ != track_id@));
            assert((|x: TrackPlanItemRecord| ipred.holds(x)) =~= (|x: TrackPlanItemRecord|
                x.track_id@ != track_id@));
        }
        // Ids are checked in the order the rows are written: each phase, then its items.
        let mut a: usize = 0;
        while a < n
            invariant
                n == phases@.len(),
                a <= n,
                kp0 == kept_phases@,
                ki0 == kept_items@,
                kp0 == old(self).phases@.filter(|x: PhaseRow| x.track_id@ != track_id@),
                ki0 == old(self).items@.filter(|x: TrackPlanItemRecord| x.track_id@ != track_id@),
                plan_problem(phases@) is None,
                old(self).wf(),
                *self == *old(self),
                has_row(old(self).tracks@, track_id@),
                forall|p: int, q: int|
                    0 <= p < q < a ==> (#[trigger] phases@[p]).phase_id@ != (
                    #[trigger] phases@[q]).phase_id@,
                forall|p: int| 0 <= p < a ==> !has_row(kp0, (#[trigger] phases@[p]).phase_id@),
                forall|p: int, i: int, q: int, j: int|
                    0 <= p < a && 0 <= q < a && 0 <= i < phases@[p].items@.len() && 0 <= j
                        < phases@[q].items@.len() && (p != q || i != j) ==> (
                    #[trigger] phases@[p].items@[i]).item_id@ != (
                    #[trigger] phases@[q].items@[j]).item_id@,
                forall|p: int, i: int|
                    0 <= p < a && 0 <= i < phases@[p].items@.len() ==> !has_row(
                        ki0,
                        (#[trigger] phases@[p].items@[i]).item_id@,
                    ),
            decreases n - a,
        {
            let pid = phases[a].phase_id.as_str();
            let mut q: usize = 0;
            while q < a
                invariant
                    n == phases@.len(),
                    a < n,
                    q <= a,
                    pid@ == phases@[a as int].phase_id@,
                    forall|p: int| 0 <= p < q ==> (#[trigger] phases@[p]).phase_id@ != pid@,
                decreases a - q,
            {
                if str_eq(phases[q].phase_id.as_str(), pid) {
                    proof {
                        assert(phases@[q as int].phase_id@ == phases@[a as int].phase_id@);
                        assert(plan_phase_ids_collide(old(self).phases@, track_id@, phases@));
                    }
                    return Err(sqlite_failure("UNIQUE constraint failed: track_plan_phases.id"));
                }
                q += 1;
            }
            if find_row(&kept_phases, pid).is_some() {
                proof {
                    let jj = choose|jj: int| 0 <= jj < kp0.len() && kp0[jj].row_id() == pid@;
                    assert(kp0.contains(kp0[jj]));
                    old(self).phases@.lemma_filter_contains_rev(
                        |x: PhaseRow| x.track_id@ != track_id@,
                        kp0[jj],
                    );
                    let jo = choose|jo: int|
                        0 <= jo < old(self).phases@.len() && old(self).phases@[jo] == kp0[jj];
                    assert(old(self).phases@[jo].track_id@ != track_id@);
                    assert(old(self).phases@[jo].id@ == phases@[a as int].phase_id@);
                    assert(plan_phase_ids_collide(old(self).phases@, track_id@, phases@));
                }
                return Err(sqlite_failure("UNIQUE constraint failed: track_plan_phases.id"));
            }
            let m = phases[a].items.len();
            let mut i: usize = 0;
            while i < m
                invariant
                    n == phases@.len(),
                    a < n,
                    m == phases@[a as int].items@.len(),
                    i <= m,
                    ki0 == kept_items@,
                    forall|p: int, x: int, q: int, j: int|
                        0 <= p <= a && 0 <= q <= a && 0 <= x < phases@[p].items@.len() && 0 <= j
                            < phases@[q].items@.len() && (p != q || x != j) && item_before(
                            p,
                            x,
                            a as int,
                            i as int,
                        ) && item_before(q, j, a as int, i as int) ==> (
                        #[trigger] phases@[p].items@[x]).item_id@ != (
                        #[trigger] phases@[q].items@[j]).item_id@,
                    forall|p: int, x: int|
                        0 <= p <= a && 0 <= x < phases@[p].items@.len() && item_before(
                            p,
                            x,
                            a as int,
                            i as int,
                        ) ==> !has_row(ki0, (#[trigger] phases@[p].items@[x]).item_id@),
                decreases m - i,
            {
                let iid = phases[a].items[i].item_id.as_str();
                let mut q: usize = 0;
                while q <= a
                    invariant
                        n == phases@.len(),
                        a < n,
                        q <= a + 1,
                        i < phases@[a as int].items@.len(),
                        iid@ == phases@[a as int].items@[i as int].item_id@,
                        forall|p: int, x: int|
                            0 <= p < q && 0 <= x < phases@[p].items@.len() && item_before(
                                p,
                                x,
                                a as int,
                                i as int,
                            ) ==> (#[trigger] phases@[p].items@[x]).item_id@ != iid@,
                    decreases a + 1 - q,
                {
                    let mq = if q == a {
                        i
                    } else {
                        phases[q].items.len()
                    };
                    let mut j: usize = 0;
                    while j < mq
                        invariant
                            n == phases@.len(),
                            a < n,
                            q <= a,
                            mq <= phases@[q as int].items@.len(),
                            q == a ==> mq == i,
                            q < a ==> mq == phases@[q as int].items@.len(),
                            j <= mq,
                            forall|x: int|
                                0 <= x < j ==> (#[trigger] phases@[q as int].items@[x]).item_id@
                                    != iid@,
                        decreases mq - j,
                    {
                        if str_eq(phases[q].items[j].item_id.as_str(), iid) {
                            proof {
                                assert(phases@[q as int].items@[j as int].item_id@
                                    == phases@[a as int].items@[i as int].item_id@);
                                assert(plan_item_ids_collide(old(self).items@, track_id@, phases@));
                            }
                            return Err(sqlite_failure("UNIQUE constraint failed: track_plan_items.id"));
                        }
                        j += 1;
                    }
                    q += 1;
                }
                if find_row(&kept_items, iid).is_some() {
                    proof {
                        let jj = choose|jj: int| 0 <= jj < ki0.len() && ki0[jj].row_id() == iid@;
                        assert(ki0.contains(ki0[jj]));
                        old(self).items@.lemma_filter_contains_rev(
                            |x: TrackPlanItemRecord| x.track_id@ != track_id@,
                            ki0[jj],
                        );
                        let jo = choose|jo: int|
                            0 <= jo < old(self).items@.len() && old(self).items@[jo] == ki0[jj];
                        assert(old(self).items@[jo].track_id@ != track_id@);
                        assert(old(self).items@[jo].item_id@ == phases@[a as int].items@[i as int].item_id@);
                        assert(plan_item_ids_collide(old(self).items@, track_id@, phases@));
                    }
                    return Err(sqlite_failure("UNIQUE constraint failed: track_plan_items.id"));
                }
                i += 1;
            }
            a += 1;
        }
        proof {
            assert(!plan_phase_ids_collide(old(self).phases@, track_id@, phases@)) by {
                assert forall|p: int, j: int|
                    0 <= p < phases@.len() && 0 <= j < old(self).phases@.len() && (#[trigger] old(
                        self,
                    ).phases@[j]).track_id@ != track_id@ implies old(self).phases@[j].id@ != (
                    #[trigger] phases@[p]).phase_id@ by {
                    old(self).phases@.lemma_filter_contains(|x: PhaseRow| x.track_id@ != track_id@, j);
                    if old(self).phases@[j].id@ == phases@[p].phase_id@ {
                        let w = choose|w: int| 0 <= w < kp0.len() && kp0[w] == old(self).phases@[j];
                        assert(kp0[w].row_id() == phases@[p].phase_id@);
                    }
                }
            }
            assert(!plan_item_ids_collide(old(self).items@, track_id@, phases@)) by {
                assert forall|p: int, x: int, j: int|
                    0 <= p < phases@.len() && 0 <= x < phases@[p].items@.len() && 0 <= j < old(
                        self,
                    ).items@.len() && (#[trigger] old(self).items@[j]).track_id@ != track_id@ implies old(
                    self,
                ).items@[j].item_id@ != (#[trigger] phases@[p].items@[x]).item_id@ by {
                    old(self).items@.lemma_filter_contains(
                        |x: TrackPlanItemRecord| x.track_id@ != track_id@,
                        j,
                    );
                    if old(self).items@[j].item_id@ == phases@[p].items@[x].item_id@ {
                        let w = choose|w: int| 0 <= w < ki0.len() && ki0[w] == old(self).items@[j];
                        assert(ki0[w].row_id() == phases@[p].items@[x].item_id@);
                    }
                }
            }
        }
        let ghost mut phase_w: Seq<PhaseRow> = Seq::empty();
        let ghost mut item_w: Seq<Seq<TrackPlanItemRecord>> = Seq::empty();
        let mut a: usize = 0;
        while a < n
            invariant
                n == phases@.len(),
                a <= n,
                table_ok(kept_phases@),
                table_ok(kept_items@),
                forall|p: int| a <= p < n ==> !has_row(kept_phases@, (#[trigger] phases@[p]).phase_id@),
                forall|p: int, x: int|
                    a <= p < n && 0 <= x < phases@[p].items@.len() ==> !has_row(
                        kept_items@,
                        (#[trigger] phases@[p].items@[x]).item_id@,
                    ),
                phase_w.len() == a,
                item_w.len() == a,
                forall|p: int|
                    0 <= p < a ==> kept_phases@.contains(#[trigger] phase_w[p]) && phase_row_matches(
                        phase_w[p],
                        track_id@,
                        phases@[p],
                        now@,
                    ),
                forall|p: int| 0 <= p < a ==> (#[trigger] item_w[p]).len() == phases@[p].items@.len(),
                forall|p: int, x: int|
                    0 <= p < a && 0 <= x < phases@[p].items@.len() ==> kept_items@.contains(
                        #[trigger] item_w[p][x],
                    ) && item_row_matches(item_w[p][x], track_id@, phases@[p], phases@[p].items@[x], now@),
                forall|x: PhaseRow| #[trigger]
                    kept_phases@.contains(x) ==> (kp0.contains(x) || exists|p: int|
                        0 <= p < a && phase_row_matches(x, track_id@, #[trigger] phases@[p], now@)),
                forall|x: PhaseRow| #[trigger] kp0.contains(x) ==> kept_phases@.contains(x),
                forall|x: TrackPlanItemRecord| #[trigger]
                    kept_items@.contains(x) ==> (ki0.contains(x) || exists|p: int, y: int|
                        0 <= p < a && 0 <= y < phases@[p].items@.len() && item_row_matches(
                            x,
                            track_id@,
                            phases@[p],
                            #[trigger] phases@[p].items@[y],
                            now@,
                        )),
                forall|x: TrackPlanItemRecord| #[trigger] ki0.contains(x) ==> kept_items@.contains(x),
                kept_phases@.len() == kp0.len() + a,
                kept_items@.len() == ki0.len() + plan_item_count(phases@.take(a as int)),
            decreases n - a,
        {
            let ph = &phases[a];
            let prow = PhaseRow {
                id: ph.phase_id.clone(),
                track_id: owned(track_id),
                phase_key: ph.phase_id.clone(),
                title: ph.title.clone(),
                position: ph.position,
                created_at: owned(now),
                updated_at: owned(now),
            };
            proof {
                lemma_insert_sorted_ok(kept_phases@, prow);
                let t = insert_sorted(kept_phases@, prow);
                assert forall|p: int| a + 1 <= p < n implies !has_row(t, (#[trigger] phases@[p]).phase_id@) by {
                    if has_row(t, phases@[p].phase_id@) {
                        let q = choose|q: int| 0 <= q < t.len() && t[q].row_id() == phases@[p].phase_id@;
                        assert(t.contains(t[q]));
                        if kept_phases@.contains(t[q]) {
                            let w = choose|w: int| 0 <= w < kept_phases@.len() && kept_phases@[w] == t[q];
                            assert(kept_phases@[w].row_id() == phases@[p].phase_id@);
                        } else {
                            assert(phases@[a as int].phase_id@ != phases@[p].phase_id@);
                        }
                    }
                }
                assert forall|p: int| 0 <= p < a implies t.contains(#[trigger] phase_w[p]) by {
                    assert(kept_phases@.contains(phase_w[p]));
                }
                assert forall|x: PhaseRow| #[trigger] t.contains(x) implies (kp0.contains(x) || exists|p: int|
                    0 <= p < a + 1 && phase_row_matches(x, track_id@, #[trigger] phases@[p], now@)) by {
                    if x == prow {
                        assert(phase_row_matches(x, track_id@, phases@[a as int], now@));
                    } else {
                        assert(kept_phases@.contains(x));
                    }
                }
                phase_w = phase_w.push(prow);
            }
            sorted_insert(&mut kept_phases, prow);
            let m = ph.items.len();
            let ghost mut cur: Seq<TrackPlanItemRecord> = Seq::empty();
            let ghost items_before = kept_items@.len();
            let mut i: usize = 0;
            while i < m
                invariant
                    n == phases@.len(),
                    a < n,
                    m == phases@[a as int].items@.len(),
                    i <= m,
                    plan_problem(phases@) is None,
                    table_ok(kept_items@),
                    forall|p: int, x: int|
                        (a < p < n || (p == a && i <= x)) && 0 <= x < phases@[p].items@.len()
                            ==> !has_row(kept_items@, (#[trigger] phases@[p].items@[x]).item_id@),
                    cur.len() == i,
                    forall|p: int, x: int|
                        0 <= p < a && 0 <= x < phases@[p].items@.len() ==> kept_items@.contains(
                            #[trigger] item_w[p][x],
                        ),
                    forall|x: int|
                        0 <= x < i ==> kept_items@.contains(#[trigger] cur[x]) && item_row_matches(
                            cur[x],
                            track_id@,
                            phases@[a as int],
                            phases@[a as int].items@[x],
                            now@,
                        ),
                    forall|x: TrackPlanItemRecord| #[trigger]
                        kept_items@.contains(x) ==> (ki0.contains(x) || exists|p: int, y: int|
                            0 <= p <= a && 0 <= y < phases@[p].items@.len() && (p < a || y < i)
                                && item_row_matches(
                                x,
                                track_id@,
                                phases@[p],
                                #[trigger] phases@[p].items@[y],
                                now@,
                            )),
                    forall|x: TrackPlanItemRecord| #[trigger] ki0.contains(x) ==> kept_items@.contains(x),
                    kept_items@.len() == items_before + i,
                decreases m - i,
            {
                let it = &ph.items[i];
                let pos: i64 = match it.position {
                    Some(p) => p,
                    None => {
                        proof {
                            assert(item_unplaceable(phases@[a as int].items@[i as int]));
                            assert(phase_has_unplaceable_item(phases@[a as int]));
                            lemma_plan_problem_none(phases@, a as int);
                        }
                        0
                    },
                };
                let irow = TrackPlanItemRecord {
                    item_id: it.item_id.clone(),
                    track_id: owned(track_id),
                    phase_id: ph.phase_id.clone(),
                    title: it.title.clone(),
                    position: pos,
                    created_at: owned(now),
                    updated_at: owned(now),
                };
                proof {
                    if it.position is None {
                        assert(item_unplaceable(phases@[a as int].items@[i as int]));
                        assert(phase_has_unplaceable_item(phases@[a as int]));
                        lemma_plan_problem_none(phases@, a as int);
                    }
                    lemma_insert_sorted_ok(kept_items@, irow);
                    let t = insert_sorted(kept_items@, irow);
                    assert forall|p: int, x: int|
                        (a < p < n || (p == a && i + 1 <= x)) && 0 <= x < phases@[p].items@.len()
                            implies !has_row(t, (#[trigger] phases@[p].items@[x]).item_id@) by {
                        if has_row(t, phases@[p].items@[x].item_id@) {
                            let q = choose|q: int|
                                0 <= q < t.len() && t[q].row_id() == phases@[p].items@[x].item_id@;
                            assert(t.contains(t[q]));
                            if kept_items@.contains(t[q]) {
                                let w = choose|w: int| 0 <= w < kept_items@.len() && kept_items@[w] == t[q];
                                assert(kept_items@[w].row_id() == phases@[p].items@[x].item_id@);
                            } else {
                                assert(phases@[a as int].items@[i as int].item_id@
                                    != phases@[p].items@[x].item_id@);
                            }
                        }
                    }
                    assert forall|p: int, x: int|
                        0 <= p < a && 0 <= x < phases@[p].items@.len() implies t.contains(
                            #[trigger] item_w[p][x],
                        ) by {
                        assert(kept_items@.contains(item_w[p][x]));
                    }
                    assert forall|x: int| 0 <= x < i implies t.contains(#[trigger] cur[x]) by {
                        assert(kept_items@.contains(cur[x]));
                    }
                    assert forall|x: TrackPlanItemRecord| #[trigger] t.contains(x) implies (ki0.contains(x)
                        || exists|p: int, y: int|
                        0 <= p <= a && 0 <= y < phases@[p].items@.len() && (p < a || y < i + 1)
                            && item_row_matches(
                            x,
                            track_id@,
                            phases@[p],
                            #[trigger] phases@[p].items@[y],
                            now@,
                        )) by {
                        if x == irow {
                            assert(item_row_matches(
                                x,
                                track_id@,
                                phases@[a as int],
                                phases@[a as int].items@[i as int],
                                now@,
                            ));
                        } else {
                            assert(kept_items@.contains(x));
                        }
                    }
                    cur = cur.push(irow);
                }
                sorted_insert(&mut kept_items, irow);
                i += 1;
            }
            proof {
                item_w = item_w.push(cur);
                assert(phases@.take(a + 1).drop_last() =~= phases@.take(a as int));
                assert(phases@.take(a + 1).last() == phases@[a as int]);
            }
            a += 1;
        }
        proof {
            assert(phases@.take(n as int) =~= phases@);
            assert forall|x: PhaseRow| #[trigger] kept_phases@.contains(x) implies ((old(
                self,
            ).phases@.contains(x) && x.track_id@ != track_id@) || phase_row_for(x, track_id@, phases@, now@)) by {
                if kp0.contains(x) {
                    old(self).phases@.lemma_filter_contains_rev(|x: PhaseRow| x.track_id@ != track_id@, x);
                }
            }
            assert forall|x: PhaseRow|
                #[trigger] old(self).phases@.contains(x) && x.track_id@ != track_id@ implies kept_phases@.contains(
                x,
            ) by {
                let j = choose|j: int| 0 <= j < old(self).phases@.len() && old(self).phases@[j] == x;
                old(self).phases@.lemma_filter_contains(|x: PhaseRow| x.track_id@ != track_id@, j);
                assert(kp0.contains(x));
            }
            assert forall|x: TrackPlanItemRecord| #[trigger] kept_items@.contains(x) implies ((old(
                self,
            ).items@.contains(x) && x.track_id@ != track_id@) || item_row_for(x, track_id@, phases@, now@)) by {
                if ki0.contains(x) {
                    old(self).items@.lemma_filter_contains_rev(
                        |x: TrackPlanItemRecord| x.track_id@ != track_id@,
                        x,
                    );
                }
            }
            assert forall|x: TrackPlanItemRecord|
                #[trigger] old(self).items@.contains(x) && x.track_id@ != track_id@ implies kept_items@.contains(
                x,
            ) by {
                let j = choose|j: int| 0 <= j < old(self).items@.len() && old(self).items@[j] == x;
                old(self).items@.lemma_filter_contains(|x: TrackPlanItemRecord| x.track_id@ != track_id@, j);
                assert(ki0.contains(x));
            }
            lemma_plan_stored(kept_phases@, kept_items@, track_id@, phases@, now@, phase_w, item_w);
        }
        self.phases = kept_phases;
        self.items = kept_items;
        self.get_track_plan(track_id)
    }
}


/// Whether the plan item `item_id` belongs to the track `track_id`.
pub open spec fn item_in_track(
    items: Seq<TrackPlanItemRecord>,
    item_id: Seq<char>,
    track_id: Seq<char>,
) -> bool {
    exists|j: int|
        0 <= j < items.len() && (#[trigger] items[j]).item_id@ == item_id && items[j].track_id@
            == track_id
}

/// A task goes with a track when it is on the track or works on one of its plan items.
pub open spec fn task_goes_with_track(
    t: TaskRow,
    items: Seq<TrackPlanItemRecord>,
    track_id: Seq<char>,
) -> bool {
    ||| (t.track_id matches Some(x) && x@ == track_id)
    ||| (t.plan_item_id matches Some(p) && item_in_track(items, p@, track_id))
}

/// Whether a task with this id goes with the track.
pub open spec fn task_id_goes(
    tasks: Seq<TaskRow>,
    items: Seq<TrackPlanItemRecord>,
    track_id: Seq<char>,
    id: Seq<char>,
) -> bool {
    exists|i: int|
        0 <= i < tasks.len() && (#[trigger] tasks[i]).id@ == id && task_goes_with_track(
            tasks[i],
            items,
            track_id,
        )
}

/// An event goes with a track when it is on the track or on one of the tasks that go.
pub open spec fn event_goes_with_track(
    e: EventRecord,
    tasks: Seq<TaskRow>,
    items: Seq<TrackPlanItemRecord>,
    track_id: Seq<char>,
) -> bool {
    ||| (e.track_id matches Some(x) && x@ == track_id)
    ||| (e.task_id matches Some(t) && task_id_goes(tasks, items, track_id, t@))
}

/// Whether an event with this id goes with the track.
pub open spec fn event_id_goes(
    events: Seq<EventRecord>,
    tasks: Seq<TaskRow>,
    items: Seq<TrackPlanItemRecord>,
    track_id: Seq<char>,
    id: Seq<char>,
) -> bool {
    exists|i: int|
        0 <= i < events.len() && (#[trigger] events[i]).id@ == id && event_goes_with_track(
            events[i],
            tasks,
            items,
            track_id,
        )
}

/// A dirty target goes with a track when it is on the track or came from an event that goes.
pub open spec fn dirty_goes_with_track(
    d: ProjectionDirtyTargetRecord,
    events: Seq<EventRecord>,
    tasks: Seq<TaskRow>,
    items: Seq<TrackPlanItemRecord>,
    track_id: Seq<char>,
) -> bool {
    ||| (d.track_id matches Some(x) && x@ == track_id)
    ||| (d.source_event_id matches Some(s) && event_id_goes(events, tasks, items, track_id, s@))
}

fn item_in_track_exec(items: &Vec<TrackPlanItemRecord>, item_id: &str, track_id: &str) -> (r:
    bool)
    ensures
        r == item_in_track(items@, item_id@, track_id@),
{
    let mut j: usize = 0;
    while j < items.len()
        invariant
            j <= items@.len(),
            forall|k: int|
                0 <= k < j ==> !((#[trigger] items@[k]).item_id@ == item_id@ && items@[k].track_id@
                    == track_id@),
        decreases items@.len() - j,
    {
        if str_eq(items[j].item_id.as_str(), item_id) && str_eq(
            items[j].track_id.as_str(),
            track_id,
        ) {
            return true;
        }
        j += 1;
    }
    false
}

fn opt_is(o: &Option<String>, s: &str) -> (r: bool)
    ensures
        r == (o matches Some(x) && x@ == s@),
{
    match o {
        Some(x) => str_eq(x.as_str(), s),
        None => false,
    }
}

fn task_goes_exec(t: &TaskRow, items: &Vec<TrackPlanItemRecord>, track_id: &str) -> (r: bool)
    ensures
        r == task_goes_with_track(*t, items@, track_id@),
{
    if opt_is(&t.track_id, track_id) {
        return true;
    }
    match &t.plan_item_id {
        Some(p) => item_in_track_exec(items, p.as_str(), track_id),
        None => false,
    }
}

fn task_id_goes_exec(
    tasks: &Vec<TaskRow>,
    items: &Vec<TrackPlanItemRecord>,
    track_id: &str,
    id: &str,
) -> (r: bool)
    ensures
        r == task_id_goes(tasks@, items@, track_id@, id@),
{
    let mut i: usize = 0;
    while i < tasks.len()
        invariant
            i <= tasks@.len(),
            forall|k: int|
                0 <= k < i ==> !((#[trigger] tasks@[k]).id@ == id@ && task_goes_with_track(
                    tasks@[k],
                    items@,
                    track_id@,
                )),
        decreases tasks@.len() - i,
    {
        if str_eq(tasks[i].id.as_str(), id) && task_goes_exec(&tasks[i], items, track_id) {
            return true;
        }
        i += 1;
    }
    false
}

fn event_goes_exec(
    e: &EventRecord,
    tasks: &Vec<TaskRow>,
    items: &Vec<TrackPlanItemRecord>,
    track_id: &str,
) -> (r: bool)
    ensures
        r == event_goes_with_track(*e, tasks@, items@, track_id@),
{
    if opt_is(&e.track_id, track_id) {
        return true;
    }
    match &e.task_id {
        Some(t) => task_id_goes_exec(tasks, items, track_id, t.as_str()),
        None => false,
    }
}

fn event_id_goes_exec(
    events: &Vec<EventRecord>,
    tasks: &Vec<TaskRow>,
    items: &Vec<TrackPlanItemRecord>,
    track_id: &str,
    id: &str,
) -> (r: bool)
    ensures
        r == event_id_goes(events@, tasks@, items@, track_id@, id@),
{
    let mut i: usize = 0;
    while i < events.len()
        invariant
            i <= events@.len(),
            forall|k: int|
                0 <= k < i ==> !((#[trigger] events@[k]).id@ == id@ && event_goes_with_track(
                    events@[k],
                    tasks@,
                    items@,
                    track_id@,
                )),
        decreases events@.len() - i,
    {
        if str_eq(events[i].id.as_str(), id) && event_goes_exec(&events[i], tasks, items, track_id) {
            return true;
        }
        i += 1;
    }
    false
}

struct TrackIdIsNot<'a> {
    track_id: &'a str,
}

impl<'a> RowPred<TrackRow> for TrackIdIsNot<'a> {
    closed spec fn holds(&self, r: TrackRow) -> bool {
        r.id@ != self.track_id@
    }

    fn test(&self, r: &TrackRow) -> (b: bool) {
        !str_eq(r.id.as_str(), self.track_id)
    }
}

impl<'a> RowPred<SectionRow> for TrackIdIsNot<'a> {
    closed spec fn holds(&self, r: SectionRow) -> bool {
        r.track_id@ != self.track_id@
    }

    fn test(&self, r: &SectionRow) -> (b: bool) {
        !str_eq(r.track_id.as_str(), self.track_id)
    }
}

impl<'a> RowPred<PhaseRow> for TrackIdIsNot<'a> {
    closed spec fn holds(&self, r: PhaseRow) -> bool {
        r.track_id@ != self.track_id@
    }

    fn test(&self, r: &PhaseRow) -> (b: bool) {
        !str_eq(r.track_id.as_str(), self.track_id)
    }
}

impl<'a> RowPred<TrackPlanItemRecord> for TrackIdIsNot<'a> {
    closed spec fn holds(&self, r: TrackPlanItemRecord) -> bool {
        r.track_id@ != self.track_id@
    }

    fn test(&self, r: &TrackPlanItemRecord) -> (b: bool) {
        !str_eq(r.track_id.as_str(), self.track_id)
    }
}

/// The rows that stay when a track is deleted, judged against the tables before the delete.
struct StaysAfterDelete<'a> {
    track_id: &'a str,
    tasks: &'a Vec<TaskRow>,
    items: &'a Vec<TrackPlanItemRecord>,
    events: &'a Vec<EventRecord>,
}

impl<'a> RowPred<TaskRow> for StaysAfterDelete<'a> {
    closed spec fn holds(&self, r: TaskRow) -> bool {
        !task_goes_with_track(r, self.items@, self.track_id@)
    }

    fn test(&self, r: &TaskRow) -> (b: bool) {
        !task_goes_exec(r, self.items, self.track_id)
    }
}

impl<'a> RowPred<EventRecord> for StaysAfterDelete<'a> {
    closed spec fn holds(&self, r: EventRecord) -> bool {
        !event_goes_with_track(r, self.tasks@, self.items@, self.track_id@)
    }

    fn test(&self, r: &EventRecord) -> (b: bool) {
        !event_goes_exec(r, self.tasks, self.items, self.track_id)
    }
}

impl<'a> RowPred<ProjectionRecord> for StaysAfterDelete<'a> {
    closed spec fn holds(&self, r: ProjectionRecord) -> bool {
        !event_id_goes(self.events@, self.tasks@, self.items@, self.track_id@, r.event_id@)
    }

    fn test(&self, r: &ProjectionRecord) -> (b: bool) {
        !event_id_goes_exec(self.events, self.tasks, self.items, self.track_id, r.event_id.as_str())
    }
}

impl<'a> RowPred<ProjectionDirtyTargetRecord> for StaysAfterDelete<'a> {
    closed spec fn holds(&self, r: ProjectionDirtyTargetRecord) -> bool {
        !dirty_goes_with_track(r, self.events@, self.tasks@, self.items@, self.track_id@)
    }

    fn test(&self, r: &ProjectionDirtyTargetRecord) -> (b: bool) {
        if opt_is(&r.track_id, self.track_id) {
            return false;
        }
        match &r.source_event_id {
            Some(s) => !event_id_goes_exec(
                self.events,
                self.tasks,
                self.items,
                self.track_id,
                s.as_str(),
            ),
            None => true,
        }
    }
}

/// What deleting a track does to the store: the track, its brief and plan, the tasks that go
/// with it, their events, those events' projections and the dirty targets that go with them are
/// removed, and everything else stays.
pub open spec fn track_deleted(s0: RuntimeStore, s1: RuntimeStore, track_id: Seq<char>, t: TrackRecord) -> bool {
    let tasks0 = s0.task_rows();
    let items0 = s0.item_rows();
    let events0 = s0.event_rows();
    &&& t == track_record_of(row_with(s0.track_rows(), track_id))
    &&& s1.track_rows() == s0.track_rows().filter(
        |x: TrackRow| x.id@ != track_id,
    )
    &&& s1.section_rows() == s0.section_rows().filter(
        |x: SectionRow| x.track_id@ != track_id,
    )
    &&& s1.phase_rows() == s0.phase_rows().filter(
        |x: PhaseRow| x.track_id@ != track_id,
    )
    &&& s1.item_rows() == items0.filter(
        |x: TrackPlanItemRecord| x.track_id@ != track_id,
    )
    &&& s1.task_rows() == tasks0.filter(
        |x: TaskRow| !task_goes_with_track(x, items0, track_id),
    )
    &&& s1.event_rows() == events0.filter(
        |x: EventRecord| !event_goes_with_track(x, tasks0, items0, track_id),
    )
    &&& s1.projection_rows() == s0.projection_rows().filter(
        |x: ProjectionRecord| !event_id_goes(
            events0,
            tasks0,
            items0,
            track_id,
            x.event_id@,
        ),
    )
    &&& s1.dirty_rows() == s0.dirty_rows().filter(
        |x: ProjectionDirtyTargetRecord| !dirty_goes_with_track(
            x,
            events0,
            tasks0,
            items0,
            track_id,
        ),
    )
}

impl RuntimeStore {
    /// Deletes a track with everything that hangs off it: its brief and plan, the tasks on it
    /// or on its plan items, the events on the track or on those tasks, the projections of
    /// those events, and the dirty targets of the track or of those events. Returns the track
    /// as it was.
    pub fn delete_track(&mut self, track_id: &str) -> (r: Result<TrackRecord, EmberFlowError>)
        requires
            old(self).wf(),
        ensures
            final(self).wf(),
            r is Ok <==> has_row(old(self).track_rows(), track_id@),
            r matches Err(e) ==> is_not_found(e, track_id@) && *final(self) == *old(self),
            r matches Ok(t) ==> track_deleted(*old(self), *final(self), track_id@, t),
    {
        let track = self.get_track(track_id)?;
        let keep_track = TrackIdIsNot { track_id };
        let stays = StaysAfterDelete {
            track_id,
            tasks: &self.tasks,
            items: &self.items,
            events: &self.events,
        };
        let dirty = filter_rows(&self.dirty, &stays);
        let projections = filter_rows(&self.projections, &stays);
        let events = filter_rows(&self.events, &stays);
        let tasks = filter_rows(&self.tasks, &stays);
        let tracks = filter_rows(&self.tracks, &keep_track);
        let sections = filter_rows(&self.sections, &keep_track);
        let phases = filter_rows(&self.phases, &keep_track);
        let items = filter_rows(&self.items, &keep_track);
        proof {
            assert((|x: TrackRow| keep_track.holds(x)) =~= (|x: TrackRow| x.id@ != track_id@));
            assert((|x: SectionRow| keep_track.holds(x)) =~= (|x: SectionRow| x.track_id@
                != track_id@));
            assert((|x: PhaseRow| keep_track.holds(x)) =~= (|x: PhaseRow| x.track_id@
                != track_id@));
            assert((|x: TrackPlanItemRecord| keep_track.holds(x)) =~= (|x: TrackPlanItemRecord|
                x.track_id@ != track_id@));
            assert((|x: TaskRow| stays.holds(x)) =~= (|x: TaskRow| !task_goes_with_track(
                x,
                self.items@,
                track_id@,
            )));
            assert((|x: EventRecord| stays.holds(x)) =~= (|x: EventRecord| !event_goes_with_track(
                x,
                self.tasks@,
                self.items@,
                track_id@,
            )));
            assert((|x: ProjectionRecord| stays.holds(x)) =~= (|x: ProjectionRecord|
                !event_id_goes(self.events@, self.tasks@, self.items@, track_id@, x.event_id@)));
            assert((|x: ProjectionDirtyTargetRecord| stays.holds(x)) =~= (
            |x: ProjectionDirtyTargetRecord|
                !dirty_goes_with_track(x, self.events@, self.tasks@, self.items@, track_id@)));
        }
        self.dirty = dirty;
        self.projections = projections;
        self.events = events;
        self.tasks = tasks;
        self.tracks = tracks;
        self.sections = sections;
        self.phases = phases;
        self.items = items;
        Ok(track)
    }
}


/// The stored form of a task record, with the time its lease was taken.
pub open spec fn task_row_of(t: TaskRecord, lease_acquired_at: Option<String>) -> TaskRow {
    TaskRow {
        id: t.id,
        track_id: t.track_id,
        plan_item_id: t.plan_item_id,
        title: t.title,
        status: t.status,
        phase: t.phase,
        executor: t.executor,
        agent_instance_id: t.agent_instance_id,
        execution: t.execution,
        intent_summary: t.intent_summary,
        created_at: t.created_at,
        updated_at: t.updated_at,
        lease_holder: t.lease_holder,
        lease_acquired_at,
        lease_expires_at: t.lease_expires_at,
    }
}

/// The track a new task lands on: the one it names, else that of its plan item, if any.
pub open spec fn resolved_task_track(
    s: RuntimeStore,
    track_id: Option<String>,
    plan_item_id: Option<Seq<char>>,
) -> Option<Seq<char>> {
    match track_id {
        Some(t) => Some(t@),
        None => match plan_item_id {
            Some(p) => Some(row_with(s.item_rows(), p).track_id@),
            None => None,
        },
    }
}

/// The message for a task that names a track other than its plan item's.
pub open spec fn track_mismatch_message(item_track: Seq<char>, task_track: Seq<char>) -> Seq<
    char,
> {
    "track mismatch: plan item belongs to "@ + item_track + " but task targets "@ + task_track
}

/// What inserting a task does to the store `s0`, giving `s1` and the result `r`: the status and
/// phase are checked, then the plan item and the track must exist and agree, and the task id
/// must be new.
pub open spec fn insert_task_outcome(
    s0: RuntimeStore,
    s1: RuntimeStore,
    input: TaskInput,
    plan_item_id: Option<Seq<char>>,
    now: Seq<char>,
    r: Result<TaskRecord, EmberFlowError>,
) -> bool {
    let status_ok = task_statuses().contains(input.status@);
    let phase_ok = phases().contains(input.phase@);
    let item_missing = plan_item_id is Some && !has_row(s0.item_rows(), plan_item_id->0);
    let track_missing = input.track_id is Some && !has_row(s0.track_rows(), input.track_id->0@);
    let mismatch = input.track_id is Some && plan_item_id is Some && row_with(
        s0.item_rows(),
        plan_item_id->0,
    ).track_id@ != input.track_id->0@;
    let duplicate = has_row(s0.task_rows(), input.task_id@);
    &&& !status_ok ==> (r matches Err(e) && is_unsupported(e, "status"@, input.status@))
    &&& status_ok && !phase_ok ==> (r matches Err(e) && is_unsupported(e, "phase"@, input.phase@))
    &&& status_ok && phase_ok && item_missing ==> (r matches Err(e) && is_not_found(
        e,
        plan_item_id->0,
    ))
    &&& status_ok && phase_ok && !item_missing && track_missing ==> (r matches Err(e)
        && is_not_found(e, input.track_id->0@))
    &&& status_ok && phase_ok && !item_missing && !track_missing && mismatch ==> (r matches Err(e)
        && is_unsupported(
        e,
        "plan_item_id"@,
        track_mismatch_message(
            row_with(s0.item_rows(), plan_item_id->0).track_id@,
            input.track_id->0@,
        ),
    ))
    &&& status_ok && phase_ok && !item_missing && !track_missing && !mismatch && duplicate ==> (
    r matches Err(e) && is_sqlite(e, "UNIQUE constraint failed: tasks.id"@))
    &&& r is Ok <==> (status_ok && phase_ok && !item_missing && !track_missing && !mismatch
        && !duplicate)
    &&& r is Err ==> s1 == s0
    &&& r matches Ok(t) ==> {
        &&& t.id == input.task_id
        &&& opt_view(t.track_id) == resolved_task_track(s0, input.track_id, plan_item_id)
        &&& opt_view(t.plan_item_id) == plan_item_id
        &&& t.title == input.title
        &&& t.status == input.status
        &&& t.phase == input.phase
        &&& t.executor == input.executor
        &&& t.agent_instance_id == input.agent_instance_id
        &&& t.execution == input.execution
        &&& t.intent_summary == input.intent_summary
        &&& t.created_at@ == now
        &&& t.updated_at@ == now
        &&& t.lease_holder is None
        &&& t.lease_expires_at is None
        &&& s1.task_rows() == insert_sorted(s0.task_rows(), task_row_of(t, None))
        &&& s1.track_rows() == s0.track_rows()
        &&& s1.same_plans(&s0)
        &&& s1.same_activity(&s0)
    }
}

impl RuntimeStore {
    fn insert_task_at(&mut self, input: TaskInput, plan_item_id: Option<&str>, now: &str) -> (r:
        Result<TaskRecord, EmberFlowError>)
        requires
            old(self).wf(),
        ensures
            final(self).wf(),
            insert_task_outcome(*old(self), *final(self), input, opt_str_view(plan_item_id), now@, r),
    {
        let ghost input0 = input;
        let TaskInput {
            task_id,
            track_id,
            title,
            status,
            phase,
            executor,
            agent_instance_id,
            execution,
            intent_summary,
        } = input;
        validate_task_status(status.as_str())?;
        validate_phase(phase.as_str())?;
        let item_track: Option<String> = match plan_item_id {
            Some(p) => match find_row(&self.items, p) {
                Some(j) => {
                    proof {
                        lemma_row_with(self.items@, p@, j as int);
                    }
                    Some(self.items[j].track_id.clone())
                },
                None => {
                    return Err(not_found(p));
                },
            },
            None => None,
        };
        if let Some(t) = &track_id {
            if find_row(&self.tracks, t.as_str()).is_none() {
                return Err(not_found(t.as_str()));
            }
        }
        let resolved: Option<String> = match (&track_id, &item_track) {
            (Some(t), Some(it)) => {
                if !str_eq(it.as_str(), t.as_str()) {
                    let head = cat3("track mismatch: plan item belongs to ", it.as_str(), " but task targets ");
                    let msg = cat(head.as_str(), t.as_str());
                    return Err(unsupported("plan_item_id", msg.as_str()));
                }
                Some(t.clone())
            },
            (Some(t), None) => Some(t.clone()),
            (None, Some(it)) => Some(it.clone()),
            (None, None) => None,
        };
        if find_row(&self.tasks, task_id.as_str()).is_some() {
            return Err(sqlite_failure("UNIQUE constraint failed: tasks.id"));
        }
        let row = TaskRow {
            id: task_id,
            track_id: resolved,
            plan_item_id: opt_owned(plan_item_id),
            title,
            status,
            phase,
            executor,
            agent_instance_id,
            execution,
            intent_summary,
            created_at: owned(now),
            updated_at: owned(now),
            lease_holder: None,
            lease_acquired_at: None,
            lease_expires_at: None,
        };
        let rec = Self::task_record(&row);
        proof {
            lemma_insert_sorted_ok(self.tasks@, row);
            assert(task_row_of(rec, None) == row);
        }
        sorted_insert(&mut self.tasks, row);
        Ok(rec)
    }

    /// Creates a task at time `now`, on the track it names if any.
    pub fn create_task_at(&mut self, input: TaskInput, now: &str) -> (r: Result<
        TaskRecord,
        EmberFlowError,
    >)
        requires
            old(self).wf(),
        ensures
            final(self).wf(),
            insert_task_outcome(*old(self), *final(self), input, None, now@, r),
    {
        self.insert_task_at(input, None, now)
    }

    /// Creates a task at time `now` that works on the given plan item; it lands on the plan
    /// item's track unless it names one, which must then be the same.
    pub fn create_task_for_plan_item_at(
        &mut self,
        input: TaskInput,
        plan_item_id: &str,
        now: &str,
    ) -> (r: Result<TaskRecord, EmberFlowError>)
        requires
            old(self).wf(),
        ensures
            final(self).wf(),
            insert_task_outcome(*old(self), *final(self), input, Some(plan_item_id@), now@, r),
    {
        self.insert_task_at(input, Some(plan_item_id), now)
    }

    /// Creates a task, stamped with the current time.
    pub fn create_task(&mut self, input: TaskInput) -> (r: Result<TaskRecord, EmberFlowError>)
        requires
            old(self).wf(),
        ensures
            final(self).wf(),
            (r matches Err(e) && e is Sqlite && *final(self) == *old(self)) || exists|now: Seq<char>|
                #[trigger] insert_task_outcome(*old(self), *final(self), input, None, now, r),
            !task_statuses().contains(input.status@) ==> (r matches Err(e) && is_unsupported(
                e,
                "status"@,
                input.status@,
            ) && *final(self) == *old(self)),
            task_statuses().contains(input.status@) && !phases().contains(input.phase@) ==> (
            r matches Err(e) && is_unsupported(e, "phase"@, input.phase@) && *final(self) == *old(
                self,
            )),
    {
        let ghost input0 = input;
        match validate_task_status(input.status.as_str()) {
            Ok(()) => {},
            Err(e) => {
                let r = Err(e);
                proof {
                    assert(insert_task_outcome(*old(self), *self, input0, None, Seq::<char>::empty(), r));
                }
                return r;
            },
        }
        match validate_phase(input.phase.as_str()) {
            Ok(()) => {},
            Err(e) => {
                let r = Err(e);
                proof {
                    assert(insert_task_outcome(*old(self), *self, input0, None, Seq::<char>::empty(), r));
                }
                return r;
            },
        }
        let now = current_timestamp()?;
        let r = self.insert_task_at(input, None, now.as_str());
        proof {
            assert(insert_task_outcome(*old(self), *self, input0, None, now@, r));
        }
        r
    }

    /// Creates a task for a plan item, stamped with the current time.
    pub fn create_task_for_plan_item(&mut self, input: TaskInput, plan_item_id: &str) -> (r:
        Result<TaskRecord, EmberFlowError>)
        requires
            old(self).wf(),
        ensures
            final(self).wf(),
            (r matches Err(e) && e is Sqlite && *final(self) == *old(self)) || exists|now: Seq<char>|
                #[trigger] insert_task_outcome(
                    *old(self),
                    *final(self),
                    input,
                    Some(plan_item_id@),
                    now,
                    r,
                ),
            !task_statuses().contains(input.status@) ==> (r matches Err(e) && is_unsupported(
                e,
                "status"@,
                input.status@,
            ) && *final(self) == *old(self)),
            task_statuses().contains(input.status@) && !phases().contains(input.phase@) ==> (
            r matches Err(e) && is_unsupported(e, "phase"@, input.phase@) && *final(self) == *old(
                self,
            )),
    {
        let ghost input0 = input;
        match validate_task_status(input.status.as_str()) {
            Ok(()) => {},
            Err(e) => {
                let r = Err(e);
                proof {
                    assert(insert_task_outcome(*old(self), *self, input0, Some(plan_item_id@), Seq::<char>::empty(), r));
                }
                return r;
            },
        }
        match validate_phase(input.phase.as_str()) {
            Ok(()) => {},
            Err(e) => {
                let r = Err(e);
                proof {
                    assert(insert_task_outcome(*old(self), *self, input0, Some(plan_item_id@), Seq::<char>::empty(), r));
                }
                return r;
            },
        }
        let now = current_timestamp()?;
        let r = self.insert_task_at(input, Some(plan_item_id), now.as_str());
        proof {
            assert(insert_task_outcome(*old(self), *self, input0, Some(plan_item_id@), now@, r));
        }
        r
    }

    /// The task with the given id.
    pub fn get_task(&self, task_id: &str) -> (r: Result<TaskRecord, EmberFlowError>)
        requires
            self.wf(),
        ensures
            r is Ok <==> has_row(self.task_rows(), task_id@),
            r matches Ok(t) ==> t == task_record_of(row_with(self.task_rows(), task_id@)),
            r matches Err(e) ==> is_not_found(e, task_id@),
    {
        match find_row(&self.tasks, task_id) {
            Some(i) => {
                proof {
                    lemma_row_with(self.tasks@, task_id@, i as int);
                }
                Ok(Self::task_record(&self.tasks[i]))
            },
            None => Err(not_found(task_id)),
        }
    }
}


/// Order of tasks by recency: last update, then creation time, then id.
pub open spec fn task_recency_lt(a: TaskRow, b: TaskRow) -> bool {
    ||| seq_lt(a.updated_at@, b.updated_at@)
    ||| (a.updated_at@ == b.updated_at@ && text_pair_lt(
        a.created_at@,
        a.id@,
        b.created_at@,
        b.id@,
    ))
}

proof fn lemma_task_recency_transitive(a: TaskRow, b: TaskRow, c: TaskRow)
    requires
        task_recency_lt(a, b),
        task_recency_lt(b, c),
    ensures
        task_recency_lt(a, c),
{
    if seq_lt(a.updated_at@, b.updated_at@) && seq_lt(b.updated_at@, c.updated_at@) {
        lemma_seq_lt_transitive(a.updated_at@, b.updated_at@, c.updated_at@);
    } else if a.updated_at@ == b.updated_at@ && b.updated_at@ == c.updated_at@ {
        lemma_text_pair_transitive(
            a.created_at@,
            a.id@,
            b.created_at@,
            b.id@,
            c.created_at@,
            c.id@,
        );
    }
}

fn task_recency_less(a: &TaskRow, b: &TaskRow) -> (r: bool)
    ensures
        r == task_recency_lt(*a, *b),
{
    if str_lt(a.updated_at.as_str(), b.updated_at.as_str()) {
        true
    } else if str_eq(a.updated_at.as_str(), b.updated_at.as_str()) {
        text_pair_less(a.created_at.as_str(), a.id.as_str(), b.created_at.as_str(), b.id.as_str())
    } else {
        false
    }
}

/// Whether a task is on the given track.
pub open spec fn task_on_track(t: TaskRow, track_id: Seq<char>) -> bool {
    t.track_id matches Some(x) && x@ == track_id
}

/// The value a field takes after an update that may leave it as it was.
pub open spec fn updated_field(new: Option<&str>, current: Option<String>) -> Option<Seq<char>> {
    match new {
        Some(s) => Some(s@),
        None => opt_view(current),
    }
}

fn updated_field_exec(new: Option<&str>, current: &Option<String>) -> (r: Option<String>)
    ensures
        opt_view(r) == updated_field(new, *current),
{
    match new {
        Some(s) => Some(owned(s)),
        None => opt_copy(current),
    }
}

/// What updating a task's state at time `now` does (see `update_task_state_at`).
pub open spec fn task_state_updated(
    s0: RuntimeStore,
    s1: RuntimeStore,
    task_id: Seq<char>,
    update: TaskStateUpdate,
    now: Seq<char>,
    r: Result<TaskRecord, EmberFlowError>,
) -> bool {
    let found = has_row(s0.task_rows(), task_id);
    let cur = row_with(s0.task_rows(), task_id);
    let status = updated_field(update.status, Some(cur.status))->0;
    let phase = updated_field(update.phase, Some(cur.phase))->0;
    let track_missing = update.track_id is Some && !has_row(
        s0.track_rows(),
        update.track_id->0@,
    );
    &&& !found ==> (r matches Err(e) && is_not_found(e, task_id))
    &&& found && !task_statuses().contains(status) ==> (r matches Err(e)
        && is_unsupported(e, "status"@, status))
    &&& found && task_statuses().contains(status) && !phases().contains(phase) ==> (
    r matches Err(e) && is_unsupported(e, "phase"@, phase))
    &&& found && task_statuses().contains(status) && phases().contains(phase)
        && track_missing ==> (r matches Err(e) && is_not_found(
        e,
        update.track_id->0@,
    ))
    &&& r is Ok <==> found && task_statuses().contains(status) && phases().contains(
        phase,
    ) && !track_missing
    &&& r is Err ==> s1 == s0
    &&& r matches Ok(t) ==> {
        &&& t.id@ == task_id
        &&& t.status@ == status
        &&& t.phase@ == phase
        &&& opt_view(t.track_id) == updated_field(update.track_id, cur.track_id)
        &&& opt_view(t.executor) == updated_field(update.executor, cur.executor)
        &&& opt_view(t.agent_instance_id) == updated_field(
            update.agent_instance_id,
            cur.agent_instance_id,
        )
        &&& opt_view(t.execution) == updated_field(update.execution, cur.execution)
        &&& opt_view(t.intent_summary) == updated_field(
            update.intent_summary,
            cur.intent_summary,
        )
        &&& t.plan_item_id == cur.plan_item_id
        &&& t.title == cur.title
        &&& t.created_at == cur.created_at
        &&& t.updated_at@ == now
        &&& t.lease_holder == cur.lease_holder
        &&& t.lease_expires_at == cur.lease_expires_at
        &&& s1.task_rows() == s0.task_rows().update(
            row_index(s0.task_rows(), task_id),
            task_row_of(t, cur.lease_acquired_at),
        )
        &&& s1.track_rows() == s0.track_rows()
        &&& s1.same_plans(&s0)
        &&& s1.same_activity(&s0)
    }

}

impl RuntimeStore {
    /// The task on the track that was updated last (ties broken by the later creation time,
    /// then the greater id), if the track has any task.
    pub fn get_latest_task_for_track(&self, track_id: &str) -> (r: Result<
        Option<TaskRecord>,
        EmberFlowError,
    >)
        ensures
            r matches Ok(o) && (o is None <==> !exists|i: int|
                0 <= i < self.task_rows().len() && task_on_track(
                    #[trigger] self.task_rows()[i],
                    track_id@,
                )),
            r matches Ok(Some(t)) ==> exists|i: int|
                0 <= i < self.task_rows().len() && t == task_record_of(
                    #[trigger] self.task_rows()[i],
                ) && task_on_track(self.task_rows()[i], track_id@) && forall|k: int|
                    0 <= k < self.task_rows().len() && task_on_track(
                        #[trigger] self.task_rows()[k],
                        track_id@,
                    ) ==> !task_recency_lt(self.task_rows()[i], self.task_rows()[k]),
    {
        let mut best: Option<usize> = None;
        let mut i: usize = 0;
        while i < self.tasks.len()
            invariant
                i <= self.tasks@.len(),
                best matches Some(b) ==> b < i && task_on_track(self.tasks@[b as int], track_id@),
                best is None ==> forall|k: int|
                    0 <= k < i ==> !task_on_track(#[trigger] self.tasks@[k], track_id@),
                best matches Some(b) ==> forall|k: int|
                    0 <= k < i && task_on_track(#[trigger] self.tasks@[k], track_id@)
                        ==> !task_recency_lt(self.tasks@[b as int], self.tasks@[k]),
            decreases self.tasks@.len() - i,
        {
            if opt_is(&self.tasks[i].track_id, track_id) {
                match best {
                    None => {
                        proof {
                            lemma_seq_lt_irreflexive(self.tasks@[i as int].updated_at@);
                            lemma_seq_lt_irreflexive(self.tasks@[i as int].created_at@);
                            lemma_seq_lt_irreflexive(self.tasks@[i as int].id@);
                        }
                        best = Some(i);
                    },
                    Some(b) => {
                        if task_recency_less(&self.tasks[b], &self.tasks[i]) {
                            proof {
                                assert forall|k: int|
                                    0 <= k < i + 1 && task_on_track(
                                        #[trigger] self.tasks@[k],
                                        track_id@,
                                    ) implies !task_recency_lt(
                                    self.tasks@[i as int],
                                    self.tasks@[k],
                                ) by {
                                    if k == i {
                                        lemma_seq_lt_irreflexive(self.tasks@[k].updated_at@);
                                        lemma_seq_lt_irreflexive(self.tasks@[k].created_at@);
                                        lemma_seq_lt_irreflexive(self.tasks@[k].id@);
                                    } else if task_recency_lt(self.tasks@[i as int], self.tasks@[k]) {
                                        lemma_task_recency_transitive(
                                            self.tasks@[b as int],
                                            self.tasks@[i as int],
                                            self.tasks@[k],
                                        );
                                    }
                                }
                            }
                            best = Some(i);
                        }
                    },
                }
            }
            i += 1;
        }
        match best {
            None => {
                assert(!exists|k: int|
                    0 <= k < self.task_rows().len() && task_on_track(
                        #[trigger] self.task_rows()[k],
                        track_id@,
                    )) by {
                    assert forall|k: int| 0 <= k < self.task_rows().len() implies !task_on_track(
                        #[trigger] self.task_rows()[k],
                        track_id@,
                    ) by {
                        assert(self.task_rows()[k] == self.tasks@[k]);
                    }
                }
                Ok(None)
            },
            Some(b) => {
                let rec = Self::task_record(&self.tasks[b]);
                assert(self.task_rows()[b as int] == self.tasks@[b as int]);
                assert(rec == task_record_of(self.task_rows()[b as int]));
                Ok(Some(rec))
            },
        }
    }

    /// Changes the given fields of a task at time `now`; a field left out keeps its value.
    pub fn update_task_state_at(&mut self, task_id: &str, update: TaskStateUpdate, now: &str) -> (r:
        Result<TaskRecord, EmberFlowError>)
        requires
            old(self).wf(),
        ensures
            final(self).wf(),
            task_state_updated(*old(self), *final(self), task_id@, update, now@, r),
    {
        let i = match find_row(&self.tasks, task_id) {
            Some(i) => i,
            None => {
                return Err(not_found(task_id));
            },
        };
        proof {
            lemma_row_with(self.tasks@, task_id@, i as int);
        }
        let status = updated_field_exec(update.status, &Some(self.tasks[i].status.clone()));
        let phase = updated_field_exec(update.phase, &Some(self.tasks[i].phase.clone()));
        let status = match status {
            Some(s) => s,
            None => String::new(),
        };
        let phase = match phase {
            Some(s) => s,
            None => String::new(),
        };
        validate_task_status(status.as_str())?;
        validate_phase(phase.as_str())?;
        if let Some(t) = update.track_id {
            if find_row(&self.tracks, t).is_none() {
                return Err(not_found(t));
            }
        }
        let cur = &self.tasks[i];
        let row = TaskRow {
            id: cur.id.clone(),
            track_id: updated_field_exec(update.track_id, &cur.track_id),
            plan_item_id: opt_copy(&cur.plan_item_id),
            title: cur.title.clone(),
            status,
            phase,
            executor: updated_field_exec(update.executor, &cur.executor),
            agent_instance_id: updated_field_exec(update.agent_instance_id, &cur.agent_instance_id),
            execution: updated_field_exec(update.execution, &cur.execution),
            intent_summary: updated_field_exec(update.intent_summary, &cur.intent_summary),
            created_at: cur.created_at.clone(),
            updated_at: owned(now),
            lease_holder: opt_copy(&cur.lease_holder),
            lease_acquired_at: opt_copy(&cur.lease_acquired_at),
            lease_expires_at: opt_copy(&cur.lease_expires_at),
        };
        let rec = Self::task_record(&row);
        proof {
            lemma_update_same_key(self.tasks@, i as int, row);
            assert(task_row_of(rec, self.tasks@[i as int].lease_acquired_at) == row);
        }
        self.tasks.set(i, row);
        Ok(rec)
    }

    /// Changes the given fields of a task, stamped with the current time.
    pub fn update_task_state(&mut self, task_id: &str, update: TaskStateUpdate) -> (r: Result<
        TaskRecord,
        EmberFlowError,
    >)
        requires
            old(self).wf(),
        ensures
            final(self).wf(),
            (r matches Err(e) && e is Sqlite && *final(self) == *old(self)) || exists|now: Seq<char>|
                #[trigger] task_state_updated(*old(self), *final(self), task_id@, update, now, r),
    {
        let ghost update0 = update;
        let now = current_timestamp()?;
        let r = self.update_task_state_at(task_id, update, now.as_str());
        proof {
            assert(task_state_updated(*old(self), *self, task_id@, update0, now@, r));
        }
        r
    }
}


/// Whether an optional column holds the given text.
pub open spec fn opt_holds(o: Option<String>, s: Seq<char>) -> bool {
    o matches Some(x) && x@ == s
}

/// An event passes the filters that are given: on the track, on the task.
pub open spec fn event_selected(
    e: EventRecord,
    track_id: Option<Seq<char>>,
    task_id: Option<Seq<char>>,
) -> bool {
    &&& (track_id matches Some(t) ==> opt_holds(e.track_id, t))
    &&& (task_id matches Some(k) ==> opt_holds(e.task_id, k))
}

/// The first `limit` rows, or all of them when there is no limit.
pub open spec fn limited<T>(s: Seq<T>, limit: Option<usize>) -> Seq<T> {
    match limit {
        Some(n) => if n < s.len() {
            s.take(n as int)
        } else {
            s
        },
        None => s,
    }
}

/// A projection passes the filters that are given: of the event, of the kind.
pub open spec fn projection_selected(
    p: ProjectionRecord,
    event_id: Option<Seq<char>>,
    kind: Option<Seq<char>>,
) -> bool {
    &&& (event_id matches Some(e) ==> p.event_id@ == e)
    &&& (kind matches Some(k) ==> p.projection_kind@ == k)
}

/// A dirty target passes the track filter, when one is given.
pub open spec fn dirty_selected(d: ProjectionDirtyTargetRecord, track_id: Option<Seq<char>>) -> bool {
    track_id matches Some(t) ==> opt_holds(d.track_id, t)
}

/// Whether the event with this id is on the given track.
pub open spec fn event_id_on_track(
    events: Seq<EventRecord>,
    event_id: Seq<char>,
    track_id: Seq<char>,
) -> bool {
    exists|i: int|
        0 <= i < events.len() && (#[trigger] events[i]).id@ == event_id && opt_holds(
            events[i].track_id,
            track_id,
        )
}

/// The last element of a sequence, if it has one.
pub open spec fn last_of<T>(s: Seq<T>) -> Option<T> {
    if s.len() == 0 {
        None
    } else {
        Some(s.last())
    }
}

fn opt_str_is(o: Option<&str>, s: &str) -> (r: bool)
    ensures
        r == (o matches Some(x) && x@ == s@),
{
    match o {
        Some(x) => str_eq(x, s),
        None => false,
    }
}

struct EventFilter<'a> {
    track_id: Option<&'a str>,
    task_id: Option<&'a str>,
}

impl<'a> RowPred<EventRecord> for EventFilter<'a> {
    closed spec fn holds(&self, r: EventRecord) -> bool {
        event_selected(r, opt_str_view(self.track_id), opt_str_view(self.task_id))
    }

    fn test(&self, r: &EventRecord) -> (b: bool) {
        let track_ok = match self.track_id {
            Some(t) => opt_is(&r.track_id, t),
            None => true,
        };
        let task_ok = match self.task_id {
            Some(k) => opt_is(&r.task_id, k),
            None => true,
        };
        track_ok && task_ok
    }
}

struct ProjectionFilter<'a> {
    event_id: Option<&'a str>,
    kind: Option<&'a str>,
}

impl<'a> RowPred<ProjectionRecord> for ProjectionFilter<'a> {
    closed spec fn holds(&self, r: ProjectionRecord) -> bool {
        projection_selected(r, opt_str_view(self.event_id), opt_str_view(self.kind))
    }

    fn test(&self, r: &ProjectionRecord) -> (b: bool) {
        let event_ok = match self.event_id {
            Some(e) => str_eq(r.event_id.as_str(), e),
            None => true,
        };
        let kind_ok = match self.kind {
            Some(k) => str_eq(r.projection_kind.as_str(), k),
            None => true,
        };
        event_ok && kind_ok
    }
}

struct DirtyFilter<'a> {
    track_id: Option<&'a str>,
}

impl<'a> RowPred<ProjectionDirtyTargetRecord> for DirtyFilter<'a> {
    closed spec fn holds(&self, r: ProjectionDirtyTargetRecord) -> bool {
        dirty_selected(r, opt_str_view(self.track_id))
    }

    fn test(&self, r: &ProjectionDirtyTargetRecord) -> (b: bool) {
        match self.track_id {
            Some(t) => opt_is(&r.track_id, t),
            None => true,
        }
    }
}

struct LatestProjectionFilter<'a> {
    track_id: &'a str,
    kind: &'a str,
    events: &'a Vec<EventRecord>,
}

fn event_id_on_track_exec(events: &Vec<EventRecord>, event_id: &str, track_id: &str) -> (r: bool)
    ensures
        r == event_id_on_track(events@, event_id@, track_id@),
{
    let mut i: usize = 0;
    while i < events.len()
        invariant
            i <= events@.len(),
            forall|k: int|
                0 <= k < i ==> !((#[trigger] events@[k]).id@ == event_id@ && opt_holds(
                    events@[k].track_id,
                    track_id@,
                )),
        decreases events@.len() - i,
    {
        if str_eq(events[i].id.as_str(), event_id) && opt_is(&events[i].track_id, track_id) {
            return true;
        }
        i += 1;
    }
    false
}

impl<'a> RowPred<ProjectionRecord> for LatestProjectionFilter<'a> {
    closed spec fn holds(&self, r: ProjectionRecord) -> bool {
        r.projection_kind@ == self.kind@ && event_id_on_track(
            self.events@,
            r.event_id@,
            self.track_id@,
        )
    }

    fn test(&self, r: &ProjectionRecord) -> (b: bool) {
        str_eq(r.projection_kind.as_str(), self.kind) && event_id_on_track_exec(
            self.events,
            r.event_id.as_str(),
            self.track_id,
        )
    }
}

fn event_copy(e: &EventRecord) -> (r: EventRecord)
    ensures
        r == *e,
{
    e.copy_row()
}

fn events_copy(v: &Vec<EventRecord>) -> (r: Vec<EventRecord>)
    ensures
        r@ == v@,
{
    let mut out: Vec<EventRecord> = Vec::new();
    let mut i: usize = 0;
    while i < v.len()
        invariant
            i <= v@.len(),
            out@ == v@.take(i as int),
        decreases v@.len() - i,
    {
        out.push(event_copy(&v[i]));
        proof {
            assert(v@.take(i + 1) =~= v@.take(i as int).push(v@[i as int]));
        }
        i += 1;
    }
    proof {
        assert(v@.take(v@.len() as int) =~= v@);
    }
    out
}

/// What recording an event at time `now` does (see `record_event_at`).
pub open spec fn event_recorded(
    s0: RuntimeStore,
    s1: RuntimeStore,
    event_id: Seq<char>,
    track_id: Option<Seq<char>>,
    task_id: Option<Seq<char>>,
    kind: Seq<char>,
    payload: Seq<char>,
    now: Seq<char>,
    r: Result<EventRecord, EmberFlowError>,
) -> bool {
    let kind_ok = runtime_messages().contains(kind);
    let track_missing = track_id is Some && !has_row(
        s0.track_rows(),
        track_id->0,
    );
    let task_missing = task_id is Some && !has_row(s0.task_rows(), task_id->0);
    let duplicate = has_row(s0.event_rows(), event_id);
    &&& !kind_ok ==> (r matches Err(e) && is_unsupported(e, "kind"@, kind))
    &&& kind_ok && track_missing ==> (r matches Err(e) && is_not_found(
        e,
        track_id->0,
    ))
    &&& kind_ok && !track_missing && task_missing ==> (r matches Err(e)
        && is_not_found(e, task_id->0))
    &&& kind_ok && !track_missing && !task_missing && !json_parses(payload) ==> (
    r matches Err(e) && e matches EmberFlowError::Json(m) && m@ == json_error_message(payload))
    &&& kind_ok && !track_missing && !task_missing && json_parses(payload)
        && duplicate ==> (r matches Err(e) && is_sqlite(
        e,
        "UNIQUE constraint failed: events.id"@,
    ))
    &&& r is Ok <==> kind_ok && !track_missing && !task_missing && json_parses(
        payload,
    ) && !duplicate
    &&& r is Err ==> s1 == s0
    &&& r matches Ok(ev) ==> {
        &&& ev.id@ == event_id
        &&& opt_view(ev.track_id) == track_id
        &&& opt_view(ev.task_id) == task_id
        &&& ev.kind@ == kind
        &&& ev.payload@ == payload
        &&& ev.created_at@ == now
        &&& s1.event_rows() == insert_sorted(s0.event_rows(), ev)
        &&& s1.track_rows() == s0.track_rows()
        &&& s1.task_rows() == s0.task_rows()
        &&& s1.same_plans(&s0)
        &&& s1.projection_rows() == s0.projection_rows()
        &&& s1.dirty_rows() == s0.dirty_rows()
    }

}

/// What recording a projection at time `now` does (see `record_projection_at`).
pub open spec fn projection_recorded(
    s0: RuntimeStore,
    s1: RuntimeStore,
    event_id: Seq<char>,
    projection_kind: Seq<char>,
    target_path: Option<Seq<char>>,
    payload: crate::json::JsonV,
    now: Seq<char>,
    r: Result<ProjectionRecord, EmberFlowError>,
) -> bool {
    let id = event_id + ":"@ + projection_kind;
    let duplicate = has_row(s0.projection_rows(), id);
    let no_event = !has_row(s0.event_rows(), event_id);
    &&& duplicate ==> (r matches Err(e) && is_sqlite(
        e,
        "UNIQUE constraint failed: projections.id"@,
    ))
    &&& !duplicate && no_event ==> (r matches Err(e)
        && is_sqlite(e, "FOREIGN KEY constraint failed"@))
    &&& r is Ok <==> !duplicate && !no_event
    &&& r is Err ==> s1 == s0
    &&& r matches Ok(p) ==> {
        &&& p.id@ == id
        &&& p.event_id@ == event_id
        &&& p.projection_kind@ == projection_kind
        &&& opt_view(p.target_path) == target_path
        &&& p.payload@ == crate::json::json_text(payload)
        &&& p.created_at@ == now
        &&& s1.projection_rows() == insert_sorted(
            s0.projection_rows(),
            p,
        )
        &&& s1.track_rows() == s0.track_rows()
        &&& s1.task_rows() == s0.task_rows()
        &&& s1.same_plans(&s0)
        &&& s1.event_rows() == s0.event_rows()
        &&& s1.dirty_rows() == s0.dirty_rows()
    }

}

impl RuntimeStore {
    /// Records an event at time `now`. The kind must be a runtime message, the track and the
    /// task must exist when given, the payload must be JSON text, and the id must be new.
    pub fn record_event_at(
        &mut self,
        event_id: &str,
        track_id: Option<&str>,
        task_id: Option<&str>,
        kind: &str,
        payload: &str,
        now: &str,
    ) -> (r: Result<EventRecord, EmberFlowError>)
        requires
            old(self).wf(),
        ensures
            final(self).wf(),
            event_recorded(*old(self), *final(self), event_id@, opt_str_view(track_id), opt_str_view(task_id), kind@, payload@, now@, r),
    {
        validate_kind(kind)?;
        if let Some(t) = track_id {
            if find_row(&self.tracks, t).is_none() {
                return Err(not_found(t));
            }
        }
        if let Some(k) = task_id {
            if find_row(&self.tasks, k).is_none() {
                return Err(not_found(k));
            }
        }
        if let Some(message) = json_parse_error(payload) {
            return Err(EmberFlowError::Json(message));
        }
        if find_row(&self.events, event_id).is_some() {
            return Err(sqlite_failure("UNIQUE constraint failed: events.id"));
        }
        let ev = EventRecord {
            id: owned(event_id),
            track_id: opt_owned(track_id),
            task_id: opt_owned(task_id),
            kind: owned(kind),
            payload: owned(payload),
            created_at: owned(now),
        };
        let out = event_copy(&ev);
        proof {
            lemma_insert_sorted_ok(self.events@, ev);
        }
        sorted_insert(&mut self.events, ev);
        Ok(out)
    }

    /// Records an event, stamped with the current time.
    pub fn record_event(
        &mut self,
        event_id: &str,
        track_id: Option<&str>,
        task_id: Option<&str>,
        kind: &str,
        payload: &str,
    ) -> (r: Result<EventRecord, EmberFlowError>)
        requires
            old(self).wf(),
        ensures
            final(self).wf(),
            (r matches Err(e) && e is Sqlite && *final(self) == *old(self)) || exists|now: Seq<char>|
                #[trigger] event_recorded(*old(self), *final(self), event_id@, opt_str_view(track_id), opt_str_view(task_id), kind@, payload@, now, r),
            !runtime_messages().contains(kind@) ==> (r matches Err(e) && is_unsupported(
                e,
                "kind"@,
                kind@,
            ) && *final(self) == *old(self)),
    {
        match validate_kind(kind) {
            Ok(()) => {},
            Err(e) => {
                let r = Err(e);
                proof {
                    assert(event_recorded(*old(self), *self, event_id@, opt_str_view(track_id), opt_str_view(task_id), kind@, payload@, Seq::<char>::empty(), r));
                }
                return r;
            },
        }
        let now = current_timestamp()?;
        let r = self.record_event_at(event_id, track_id, task_id, kind, payload, now.as_str());
        proof {
            assert(event_recorded(*old(self), *self, event_id@, opt_str_view(track_id), opt_str_view(task_id), kind@, payload@, now@, r));
        }
        r
    }

    /// The event with the given id.
    pub fn get_event(&self, event_id: &str) -> (r: Result<EventRecord, EmberFlowError>)
        requires
            self.wf(),
        ensures
            r is Ok <==> has_row(self.event_rows(), event_id@),
            r matches Ok(e) ==> e == row_with(self.event_rows(), event_id@),
            r matches Err(e) ==> is_not_found(e, event_id@),
    {
        match find_row(&self.events, event_id) {
            Some(i) => {
                proof {
                    lemma_row_with(self.events@, event_id@, i as int);
                }
                Ok(event_copy(&self.events[i]))
            },
            None => Err(not_found(event_id)),
        }
    }

    /// The events on the given track and task (each filter only when given), oldest first,
    /// at most `limit` of them.
    pub fn list_events(
        &self,
        track_id: Option<&str>,
        task_id: Option<&str>,
        limit: Option<usize>,
    ) -> (r: Result<Vec<EventRecord>, EmberFlowError>)
        ensures
            r matches Ok(v) && v@ == limited(
                self.event_rows().filter(
                    |e: EventRecord|
                        event_selected(e, opt_str_view(track_id), opt_str_view(task_id)),
                ),
                limit,
            ),
            r matches Ok(v) ==> forall|i: int| 0 <= i < v.len() ==> {
                &&& (track_id matches Some(t) ==> opt_view(#[trigger] v@[i].track_id) == Some(t@))
                &&& (task_id matches Some(k) ==> opt_view(v@[i].task_id) == Some(k@))
            },
            limit is None ==> (r matches Ok(v) ==> forall|i: int|
                0 <= i < self.event_rows().len() && (track_id matches Some(t) ==> opt_view(
                    self.event_rows()[i].track_id,
                ) == Some(t@)) && (task_id matches Some(k) ==> opt_view(
                    self.event_rows()[i].task_id,
                ) == Some(k@)) ==> #[trigger] v@.contains(self.event_rows()[i])),
    {
        let pred = EventFilter { track_id, task_id };
        let mut v = filter_rows(&self.events, &pred);
        let ghost sel = |e: EventRecord|
            event_selected(e, opt_str_view(track_id), opt_str_view(task_id));
        proof {
            assert((|x: EventRecord| pred.holds(x)) =~= sel);
            let rows = self.event_rows();
            assert forall|i: int| 0 <= i < v@.len() implies sel(#[trigger] v@[i]) by {
                rows.lemma_filter_pred(sel, i);
            }
            assert forall|i: int|
                0 <= i < rows.len() && (track_id matches Some(t) ==> opt_view(
                    rows[i].track_id,
                ) == Some(t@)) && (task_id matches Some(k) ==> opt_view(
                    rows[i].task_id,
                ) == Some(k@)) implies #[trigger] v@.contains(rows[i]) by {
                rows.lemma_filter_contains(sel, i);
            }
        }
        if let Some(n) = limit {
            if n < v.len() {
                v.truncate(n);
                proof {
                    assert(v@ =~= v@.take(n as int));
                }
            }
        }
        Ok(v)
    }

    /// The most recent event on the track, if any.
    pub fn get_latest_event_for_track(&self, track_id: &str) -> (r: Result<
        Option<EventRecord>,
        EmberFlowError,
    >)
        ensures
            r matches Ok(o) && o == last_of(
                self.event_rows().filter(|e: EventRecord| opt_holds(e.track_id, track_id@)),
            ),
    {
        let pred = EventFilter { track_id: Some(track_id), task_id: None };
        let mut v = filter_rows(&self.events, &pred);
        proof {
            assert((|x: EventRecord| pred.holds(x)) =~= (|e: EventRecord|
                opt_holds(e.track_id, track_id@)));
        }
        let ghost all = v@;
        let last = v.pop();
        Ok(last)
    }

    /// Records a projection of an event at time `now`, under the id `<event id>:<kind>`.
    pub fn record_projection_at(
        &mut self,
        event_id: &str,
        projection_kind: &str,
        target_path: Option<&str>,
        payload: &JsonValue,
        now: &str,
    ) -> (r: Result<ProjectionRecord, EmberFlowError>)
        requires
            old(self).wf(),
        ensures
            final(self).wf(),
            projection_recorded(*old(self), *final(self), event_id@, projection_kind@, opt_str_view(target_path), payload@, now@, r),
    {
        let id = cat3(event_id, ":", projection_kind);
        if find_row(&self.projections, id.as_str()).is_some() {
            return Err(sqlite_failure("UNIQUE constraint failed: projections.id"));
        }
        if find_row(&self.events, event_id).is_none() {
            return Err(sqlite_failure("FOREIGN KEY constraint failed"));
        }
        let p = ProjectionRecord {
            id,
            event_id: owned(event_id),
            projection_kind: owned(projection_kind),
            target_path: opt_owned(target_path),
            payload: crate::json::to_json_text(payload),
            created_at: owned(now),
        };
        let out = p.copy_row();
        proof {
            lemma_insert_sorted_ok(self.projections@, p);
        }
        sorted_insert(&mut self.projections, p);
        Ok(out)
    }

    /// Records a projection of an event, stamped with the current time.
    pub fn record_projection(
        &mut self,
        event_id: &str,
        projection_kind: &str,
        target_path: Option<&str>,
        payload: &JsonValue,
    ) -> (r: Result<ProjectionRecord, EmberFlowError>)
        requires
            old(self).wf(),
        ensures
            final(self).wf(),
            (r matches Err(e) && e is Sqlite && *final(self) == *old(self)) || exists|now: Seq<char>|
                #[trigger] projection_recorded(*old(self), *final(self), event_id@, projection_kind@, opt_str_view(target_path), payload@, now, r),
    {
        let now = current_timestamp()?;
        let r = self.record_projection_at(event_id, projection_kind, target_path, payload, now.as_str());
        proof {
            assert(projection_recorded(*old(self), *self, event_id@, projection_kind@, opt_str_view(target_path), payload@, now@, r));
        }
        r
    }

    /// The projection of the given kind for an event.
    pub fn get_projection(&self, event_id: &str, projection_kind: &str) -> (r: Result<
        ProjectionRecord,
        EmberFlowError,
    >)
        ensures
            ({
                let found = self.projection_rows().filter(
                    |p: ProjectionRecord|
                        projection_selected(p, Some(event_id@), Some(projection_kind@)),
                );
                &&& r is Ok <==> found.len() > 0
                &&& r matches Ok(p) ==> p == found[0]
                &&& r matches Err(e) ==> is_not_found(e, event_id@ + ":"@ + projection_kind@)
            }),
    {
        let pred = ProjectionFilter { event_id: Some(event_id), kind: Some(projection_kind) };
        let v = filter_rows(&self.projections, &pred);
        proof {
            assert((|x: ProjectionRecord| pred.holds(x)) =~= (|p: ProjectionRecord|
                projection_selected(p, Some(event_id@), Some(projection_kind@))));
        }
        if v.len() > 0 {
            Ok(v[0].copy_row())
        } else {
            let key = cat3(event_id, ":", projection_kind);
            Err(not_found(key.as_str()))
        }
    }

    /// The projections of the given event and kind (each filter only when given), oldest first.
    pub fn list_projections(&self, event_id: Option<&str>, projection_kind: Option<&str>) -> (r:
        Result<Vec<ProjectionRecord>, EmberFlowError>)
        ensures
            r matches Ok(v) && v@ == self.projection_rows().filter(
                |p: ProjectionRecord|
                    projection_selected(p, opt_str_view(event_id), opt_str_view(projection_kind)),
            ),
    {
        let pred = ProjectionFilter { event_id, kind: projection_kind };
        let v = filter_rows(&self.projections, &pred);
        proof {
            assert((|x: ProjectionRecord| pred.holds(x)) =~= (|p: ProjectionRecord|
                projection_selected(p, opt_str_view(event_id), opt_str_view(projection_kind))));
        }
        Ok(v)
    }

    /// The most recent projection of the given kind for an event on the track, if any.
    pub fn get_latest_projection_for_track(&self, track_id: &str, projection_kind: &str) -> (r:
        Result<Option<ProjectionRecord>, EmberFlowError>)
        ensures
            r matches Ok(o) && o == last_of(
                self.projection_rows().filter(
                    |p: ProjectionRecord|
                        p.projection_kind@ == projection_kind@ && event_id_on_track(
                            self.event_rows(),
                            p.event_id@,
                            track_id@,
                        ),
                ),
            ),
    {
        let pred = LatestProjectionFilter { track_id, kind: projection_kind, events: &self.events };
        let mut v = filter_rows(&self.projections, &pred);
        proof {
            assert((|x: ProjectionRecord| pred.holds(x)) =~= (|p: ProjectionRecord|
                p.projection_kind@ == projection_kind@ && event_id_on_track(
                    self.event_rows(),
                    p.event_id@,
                    track_id@,
                )));
        }
        Ok(v.pop())
    }
}


/// What recording a dirty target does to the dirty table `d0`: with `target_path` already
/// there, that row takes the new track, kind, reason and source at time `now`; otherwise a
/// row with id `target_path` is added, created at `now`.
pub open spec fn dirty_upserted(
    d0: Seq<ProjectionDirtyTargetRecord>,
    d1: Seq<ProjectionDirtyTargetRecord>,
    input: ProjectionDirtyTargetInput,
    now: Seq<char>,
    r: ProjectionDirtyTargetRecord,
) -> bool {
    &&& r.target_path == input.target_path
    &&& r.track_id == input.track_id
    &&& r.projection_kind == input.projection_kind
    &&& r.reason == input.reason
    &&& r.source_event_id == input.source_event_id
    &&& r.updated_at@ == now
    &&& if has_row(d0, input.target_path@) {
        let old_row = row_with(d0, input.target_path@);
        &&& r.id == old_row.id
        &&& r.created_at == old_row.created_at
        &&& d1 == d0.update(row_index(d0, input.target_path@), r)
    } else {
        &&& r.id@ == input.target_path@
        &&& r.created_at@ == now
        &&& d1 == insert_sorted(d0, r)
    }
}

struct DirtyPathIsNot<'a> {
    target_path: &'a str,
}

impl<'a> RowPred<ProjectionDirtyTargetRecord> for DirtyPathIsNot<'a> {
    closed spec fn holds(&self, r: ProjectionDirtyTargetRecord) -> bool {
        r.target_path@ != self.target_path@
    }

    fn test(&self, r: &ProjectionDirtyTargetRecord) -> (b: bool) {
        !str_eq(r.target_path.as_str(), self.target_path)
    }
}

/// What marking a projection target dirty at time `now` does (see
/// `record_dirty_projection_target_at`).
pub open spec fn dirty_target_recorded(
    s0: RuntimeStore,
    s1: RuntimeStore,
    input: ProjectionDirtyTargetInput,
    now: Seq<char>,
    r: Result<ProjectionDirtyTargetRecord, EmberFlowError>,
) -> bool {
    let track_missing = input.track_id is Some && !has_row(
        s0.track_rows(),
        input.track_id->0@,
    );
    let event_missing = input.source_event_id is Some && !has_row(
        s0.event_rows(),
        input.source_event_id->0@,
    );
    &&& r is Ok <==> !track_missing && !event_missing
    &&& r matches Err(e) ==> is_sqlite(e, "FOREIGN KEY constraint failed"@)
        && s1 == s0
    &&& r matches Ok(d) ==> {
        &&& dirty_upserted(s0.dirty_rows(), s1.dirty_rows(), input, now, d)
        &&& s1.track_rows() == s0.track_rows()
        &&& s1.task_rows() == s0.task_rows()
        &&& s1.same_plans(&s0)
        &&& s1.event_rows() == s0.event_rows()
        &&& s1.projection_rows() == s0.projection_rows()
    }

}

impl RuntimeStore {
    /// Marks a projection target as dirty at time `now`: a target that is already dirty is
    /// updated in place, keeping its id and creation time. The track and the source event
    /// must exist when given.
    pub fn record_dirty_projection_target_at(
        &mut self,
        input: ProjectionDirtyTargetInput,
        now: &str,
    ) -> (r: Result<ProjectionDirtyTargetRecord, EmberFlowError>)
        requires
            old(self).wf(),
        ensures
            final(self).wf(),
            dirty_target_recorded(*old(self), *final(self), input, now@, r),
    {
        let ghost input0 = input;
        let ProjectionDirtyTargetInput {
            track_id,
            projection_kind,
            target_path,
            reason,
            source_event_id,
        } = input;
        if let Some(t) = &track_id {
            if find_row(&self.tracks, t.as_str()).is_none() {
                return Err(sqlite_failure("FOREIGN KEY constraint failed"));
            }
        }
        if let Some(ev) = &source_event_id {
            if find_row(&self.events, ev.as_str()).is_none() {
                return Err(sqlite_failure("FOREIGN KEY constraint failed"));
            }
        }
        match find_row(&self.dirty, target_path.as_str()) {
            Some(i) => {
                proof {
                    lemma_row_with(self.dirty@, target_path@, i as int);
                }
                let row = ProjectionDirtyTargetRecord {
                    id: self.dirty[i].id.clone(),
                    track_id,
                    projection_kind,
                    target_path,
                    reason,
                    source_event_id,
                    created_at: self.dirty[i].created_at.clone(),
                    updated_at: owned(now),
                };
                let out = row.copy_row();
                proof {
                    lemma_update_same_key(self.dirty@, i as int, row);
                }
                self.dirty.set(i, row);
                Ok(out)
            },
            None => {
                let row = ProjectionDirtyTargetRecord {
                    id: target_path.clone(),
                    track_id,
                    projection_kind,
                    target_path,
                    reason,
                    source_event_id,
                    created_at: owned(now),
                    updated_at: owned(now),
                };
                let out = row.copy_row();
                proof {
                    lemma_insert_sorted_ok(self.dirty@, row);
                }
                sorted_insert(&mut self.dirty, row);
                Ok(out)
            },
        }
    }

    /// Marks a projection target as dirty, stamped with the current time.
    pub fn record_dirty_projection_target(&mut self, input: ProjectionDirtyTargetInput) -> (r:
        Result<ProjectionDirtyTargetRecord, EmberFlowError>)
        requires
            old(self).wf(),
        ensures
            final(self).wf(),
            (r matches Err(e) && e is Sqlite && *final(self) == *old(self)) || exists|now: Seq<char>|
                #[trigger] dirty_target_recorded(*old(self), *final(self), input, now, r),
    {
        let ghost input0 = input;
        let now = current_timestamp()?;
        let r = self.record_dirty_projection_target_at(input, now.as_str());
        proof {
            assert(dirty_target_recorded(*old(self), *self, input0, now@, r));
        }
        r
    }

    /// The dirty targets of the track (all of them when no track is given), oldest first.
    pub fn list_dirty_projection_targets(&self, track_id: Option<&str>) -> (r: Result<
        Vec<ProjectionDirtyTargetRecord>,
        EmberFlowError,
    >)
        ensures
            r matches Ok(v) && v@ == self.dirty_rows().filter(
                |d: ProjectionDirtyTargetRecord| dirty_selected(d, opt_str_view(track_id)),
            ),
    {
        let pred = DirtyFilter { track_id };
        let v = filter_rows(&self.dirty, &pred);
        proof {
            assert((|x: ProjectionDirtyTargetRecord| pred.holds(x)) =~= (
            |d: ProjectionDirtyTargetRecord| dirty_selected(d, opt_str_view(track_id))));
        }
        Ok(v)
    }

    /// Removes the dirty mark of a target; says whether there was one.
    pub fn clear_dirty_projection_target(&mut self, target_path: &str) -> (r: Result<
        bool,
        EmberFlowError,
    >)
        requires
            old(self).wf(),
        ensures
            final(self).wf(),
            r matches Ok(b) && b == has_row(old(self).dirty_rows(), target_path@),
            final(self).dirty_rows() == old(self).dirty_rows().filter(
                |d: ProjectionDirtyTargetRecord| d.target_path@ != target_path@,
            ),
            final(self).track_rows() == old(self).track_rows(),
            final(self).task_rows() == old(self).task_rows(),
            final(self).same_plans(old(self)),
            final(self).event_rows() == old(self).event_rows(),
            final(self).projection_rows() == old(self).projection_rows(),
    {
        let found = find_row(&self.dirty, target_path).is_some();
        let pred = DirtyPathIsNot { target_path };
        let kept = filter_rows(&self.dirty, &pred);
        proof {
            assert((|x: ProjectionDirtyTargetRecord| pred.holds(x)) =~= (
            |d: ProjectionDirtyTargetRecord| d.target_path@ != target_path@));
        }
        self.dirty = kept;
        Ok(found)
    }
}

/// A task row with its lease columns replaced.
pub open spec fn with_lease(
    t: TaskRow,
    holder: Option<String>,
    acquired_at: Option<String>,
    expires_at: Option<String>,
) -> TaskRow {
    TaskRow {
        id: t.id,
        track_id: t.track_id,
        plan_item_id: t.plan_item_id,
        title: t.title,
        status: t.status,
        phase: t.phase,
        executor: t.executor,
        agent_instance_id: t.agent_instance_id,
        execution: t.execution,
        intent_summary: t.intent_summary,
        created_at: t.created_at,
        updated_at: t.updated_at,
        lease_holder: holder,
        lease_acquired_at: acquired_at,
        lease_expires_at: expires_at,
    }
}

/// The task tables `t0` and `t1` differ at most in the lease columns of task `id`, which in
/// `t1` hold the given texts.
pub open spec fn lease_written(
    t0: Seq<TaskRow>,
    t1: Seq<TaskRow>,
    id: Seq<char>,
    holder: Option<Seq<char>>,
    acquired_at: Option<Seq<char>>,
    expires_at: Option<Seq<char>>,
) -> bool {
    let i = row_index(t0, id);
    &&& t1.len() == t0.len()
    &&& forall|k: int| 0 <= k < t0.len() && k != i ==> t1[k] == t0[k]
    &&& t1[i] == with_lease(
        t0[i],
        t1[i].lease_holder,
        t1[i].lease_acquired_at,
        t1[i].lease_expires_at,
    )
    &&& opt_view(t1[i].lease_holder) == holder
    &&& opt_view(t1[i].lease_acquired_at) == acquired_at
    &&& opt_view(t1[i].lease_expires_at) == expires_at
}

/// The lease of a task has run out: it has an expiry that is not after `now`.
pub open spec fn lease_expired(t: TaskRow, now: Seq<char>) -> bool {
    t.lease_expires_at matches Some(x) && seq_le(x@, now)
}

/// The lease a task holds at `now`: one with a holder that has not run out.
pub open spec fn lease_active(t: TaskRow, now: Seq<char>) -> bool {
    t.lease_holder is Some && !lease_expired(t, now)
}

/// `l` describes the lease that the task row holds.
pub open spec fn lease_info_of(l: LeaseInfo, t: TaskRow) -> bool {
    &&& t.lease_holder matches Some(h) && l.holder@ == h@
    &&& l.acquired_at@ == text_or_empty(t.lease_acquired_at)
    &&& opt_view(l.expires_at) == opt_view(t.lease_expires_at)
}

/// The task table after the lease of task `id` is looked at, at time `now`: a lease with a
/// holder that has run out is cleared.
pub open spec fn lease_looked_at(
    t0: Seq<TaskRow>,
    t1: Seq<TaskRow>,
    id: Seq<char>,
    now: Seq<char>,
) -> bool {
    if has_row(t0, id) && row_with(t0, id).lease_holder is Some && lease_expired(
        row_with(t0, id),
        now,
    ) {
        lease_written(t0, t1, id, None, None, None)
    } else {
        t1 == t0
    }
}

/// A lease with a holder that has run out at `now`, which a bulk expiry clears.
pub open spec fn lease_stale(t: TaskRow, now: Seq<char>) -> bool {
    lease_expired(t, now)
}

fn expiry_passed(t: &TaskRow, now: &str) -> (r: bool)
    ensures
        r == lease_expired(*t, now@),
{
    match &t.lease_expires_at {
        Some(x) => str_le(x.as_str(), now),
        None => false,
    }
}

/// What looking at a task's lease at time `now` does (see `check_lease_at`).
pub open spec fn lease_checked(
    s0: RuntimeStore,
    s1: RuntimeStore,
    task_id: Seq<char>,
    now: Seq<char>,
    r: Result<Option<LeaseInfo>, EmberFlowError>,
) -> bool {
    &&& lease_looked_at(s0.task_rows(), s1.task_rows(), task_id, now)
    &&& r matches Ok(o) && (o is Some <==> has_row(s0.task_rows(), task_id)
        && lease_active(row_with(s0.task_rows(), task_id), now))
    &&& r matches Ok(Some(l)) ==> lease_info_of(l, row_with(s0.task_rows(), task_id))
    &&& s1.track_rows() == s0.track_rows()
    &&& s1.same_plans(&s0)
    &&& s1.same_activity(&s0)
}

/// What claiming a task's lease at time `now` does (see `claim_task_at`).
pub open spec fn task_claimed(
    s0: RuntimeStore,
    s1: RuntimeStore,
    task_id: Seq<char>,
    holder: Seq<char>,
    expires_at: Option<Seq<char>>,
    now: Seq<char>,
    r: Result<LeaseInfo, EmberFlowError>,
) -> bool {
    let t0 = s0.task_rows();
    let found = has_row(t0, task_id);
    let cur = row_with(t0, task_id);
    let taken = lease_active(cur, now) && cur.lease_holder->0@ != holder;
    let at_once = expires_at matches Some(x) && seq_le(x, now);
    &&& !found ==> (r matches Err(e) && is_not_found(e, task_id))
    &&& found && taken ==> (r matches Err(e) && is_unsupported(
        e,
        "lease_holder"@,
        "task "@ + task_id + " is already held by "@ + cur.lease_holder->0@,
    ))
    &&& found && !taken && at_once ==> (r matches Err(e) && is_not_found(
        e,
        task_id,
    ))
    &&& r is Ok <==> found && !taken && !at_once
    &&& (!found || taken) ==> s1.task_rows() == t0
    &&& found && !taken && at_once ==> lease_written(
        t0,
        s1.task_rows(),
        task_id,
        None,
        None,
        None,
    )
    &&& r matches Ok(l) ==> {
        &&& l.holder@ == holder
        &&& l.acquired_at@ == now
        &&& opt_view(l.expires_at) == expires_at
        &&& lease_written(
            t0,
            s1.task_rows(),
            task_id,
            Some(holder),
            Some(now),
            expires_at,
        )
    }

    &&& s1.track_rows() == s0.track_rows()
    &&& s1.same_plans(&s0)
    &&& s1.same_activity(&s0)
}

/// What releasing a task's lease at time `now` does (see `release_task_at`).
pub open spec fn task_released(
    s0: RuntimeStore,
    s1: RuntimeStore,
    task_id: Seq<char>,
    holder: Seq<char>,
    now: Seq<char>,
    r: Result<(), EmberFlowError>,
) -> bool {
    let t0 = s0.task_rows();
    let found = has_row(t0, task_id);
    let cur = row_with(t0, task_id);
    let active = lease_active(cur, now);
    let mine = active && cur.lease_holder->0@ == holder;
    &&& !found ==> (r matches Err(e) && is_not_found(e, task_id))
    &&& found && active && !mine ==> (r matches Err(e) && is_unsupported(
        e,
        "lease_holder"@,
        holder + " is not the lease holder for task "@ + task_id + " (held by "@
            + cur.lease_holder->0@ + ")"@,
    ))
    &&& r is Ok <==> found && (!active || mine)
    &&& r is Err ==> s1.task_rows() == t0
    &&& found && !active ==> lease_looked_at(t0, s1.task_rows(), task_id, now)
    &&& found && mine ==> lease_written(
        t0,
        s1.task_rows(),
        task_id,
        None,
        None,
        None,
    )

    &&& s1.track_rows() == s0.track_rows()
    &&& s1.same_plans(&s0)
    &&& s1.same_activity(&s0)
}

/// What clearing the stale leases at time `now` does (see `expire_stale_leases_at`).
pub open spec fn stale_leases_expired(
    s0: RuntimeStore,
    s1: RuntimeStore,
    now: Seq<char>,
    r: Result<u64, EmberFlowError>,
) -> bool {
    &&& r matches Ok(n) && n == s0.task_rows().filter(
        |t: TaskRow| lease_stale(t, now),
    ).len()
    &&& s1.task_rows().len() == s0.task_rows().len()
    &&& forall|k: int|
        0 <= k < s0.task_rows().len() ==> (#[trigger] s1.task_rows()[k])
            == if lease_stale(s0.task_rows()[k], now) {
            with_lease(s0.task_rows()[k], None, None, None)
        } else {
            s0.task_rows()[k]
        }
    &&& s1.track_rows() == s0.track_rows()
    &&& s1.same_plans(&s0)
    &&& s1.same_activity(&s0)
}

/// What giving a task's lease until `expires_at` at time `now` does (see
/// `claim_task_with_expiry_at`).
pub open spec fn task_claimed_until(
    s0: RuntimeStore,
    s1: RuntimeStore,
    task_id: Seq<char>,
    holder: Seq<char>,
    expires_at: Seq<char>,
    now: Seq<char>,
    r: Result<(), EmberFlowError>,
) -> bool {
    &&& r is Ok <==> has_row(s0.task_rows(), task_id)
    &&& r matches Err(e) ==> is_not_found(e, task_id) && s1 == s0
    &&& r is Ok ==> lease_written(
        s0.task_rows(),
        s1.task_rows(),
        task_id,
        Some(holder),
        Some(now),
        Some(expires_at),
    )
    &&& s1.track_rows() == s0.track_rows()
    &&& s1.same_plans(&s0)
    &&& s1.same_activity(&s0)
}

impl RuntimeStore {
    fn set_lease(
        &mut self,
        i: usize,
        holder: Option<String>,
        acquired_at: Option<String>,
        expires_at: Option<String>,
    )
        requires
            old(self).wf(),
            i < old(self).task_rows().len(),
        ensures
            final(self).wf(),
            final(self).task_rows() == old(self).task_rows().update(
                i as int,
                with_lease(old(self).task_rows()[i as int], holder, acquired_at, expires_at),
            ),
            final(self).track_rows() == old(self).track_rows(),
            final(self).same_plans(old(self)),
            final(self).same_activity(old(self)),
    {
        let cur = &self.tasks[i];
        let row = TaskRow {
            id: cur.id.clone(),
            track_id: opt_copy(&cur.track_id),
            plan_item_id: opt_copy(&cur.plan_item_id),
            title: cur.title.clone(),
            status: cur.status.clone(),
            phase: cur.phase.clone(),
            executor: opt_copy(&cur.executor),
            agent_instance_id: opt_copy(&cur.agent_instance_id),
            execution: opt_copy(&cur.execution),
            intent_summary: opt_copy(&cur.intent_summary),
            created_at: cur.created_at.clone(),
            updated_at: cur.updated_at.clone(),
            lease_holder: holder,
            lease_acquired_at: acquired_at,
            lease_expires_at: expires_at,
        };
        proof {
            lemma_update_same_key(self.tasks@, i as int, row);
        }
        self.tasks.set(i, row);
    }

    /// Reads the lease of the task at row `i` at time `now`, clearing it when it has run out.
    fn load_lease(&mut self, i: usize, now: &str) -> (r: Option<LeaseInfo>)
        requires
            old(self).wf(),
            i < old(self).task_rows().len(),
        ensures
            final(self).wf(),
            lease_looked_at(
                old(self).task_rows(),
                final(self).task_rows(),
                old(self).task_rows()[i as int].id@,
                now@,
            ),
            r is Some <==> lease_active(old(self).task_rows()[i as int], now@),
            r matches Some(l) ==> lease_info_of(l, old(self).task_rows()[i as int]),
            final(self).track_rows() == old(self).track_rows(),
            final(self).same_plans(old(self)),
            final(self).same_activity(old(self)),
    {
        proof {
            lemma_row_with(self.tasks@, self.tasks@[i as int].id@, i as int);
        }
        let holder = match &self.tasks[i].lease_holder {
            None => {
                return None;
            },
            Some(h) => h.clone(),
        };
        if expiry_passed(&self.tasks[i], now) {
            self.set_lease(i, None, None, None);
            return None;
        }
        let acquired_at = match &self.tasks[i].lease_acquired_at {
            Some(a) => a.clone(),
            None => String::new(),
        };
        Some(LeaseInfo { holder, acquired_at, expires_at: opt_copy(&self.tasks[i].lease_expires_at) })
    }

    /// The lease a task holds at time `now`, if any; a lease that has run out is cleared and
    /// not reported.
    pub fn check_lease_at(&mut self, task_id: &str, now: &str) -> (r: Result<
        Option<LeaseInfo>,
        EmberFlowError,
    >)
        requires
            old(self).wf(),
        ensures
            final(self).wf(),
            lease_checked(*old(self), *final(self), task_id@, now@, r),
    {
        match find_row(&self.tasks, task_id) {
            None => Ok(None),
            Some(i) => {
                proof {
                    lemma_row_with(self.tasks@, task_id@, i as int);
                }
                Ok(self.load_lease(i, now))
            },
        }
    }

    /// The lease a task holds now, if any.
    pub fn check_lease(&mut self, task_id: &str) -> (r: Result<Option<LeaseInfo>, EmberFlowError>)
        requires
            old(self).wf(),
        ensures
            final(self).wf(),
            (r matches Err(e) && e is Sqlite && *final(self) == *old(self)) || exists|now: Seq<char>|
                #[trigger] lease_checked(*old(self), *final(self), task_id@, now, r),
    {
        let now = current_timestamp()?;
        let r = self.check_lease_at(task_id, now.as_str());
        proof {
            assert(lease_checked(*old(self), *self, task_id@, now@, r));
        }
        r
    }

    /// Gives `holder` the lease of a task at time `now`, until `expires_at` when given. A
    /// holder that already has the lease refreshes it; a lease held by another holder that
    /// has not run out is refused.
    pub fn claim_task_at(
        &mut self,
        task_id: &str,
        holder: &str,
        expires_at: Option<&str>,
        now: &str,
    ) -> (r: Result<LeaseInfo, EmberFlowError>)
        requires
            old(self).wf(),
        ensures
            final(self).wf(),
            task_claimed(*old(self), *final(self), task_id@, holder@, opt_str_view(expires_at), now@, r),
    {
        let i = match find_row(&self.tasks, task_id) {
            Some(i) => i,
            None => {
                return Err(not_found(task_id));
            },
        };
        proof {
            lemma_row_with(self.tasks@, task_id@, i as int);
        }
        let ghost t0 = self.tasks@;
        if let Some(l) = self.load_lease(i, now) {
            if !str_eq(l.holder.as_str(), holder) {
                let head = cat3("task ", task_id, " is already held by ");
                let msg = cat(head.as_str(), l.holder.as_str());
                return Err(unsupported("lease_holder", msg.as_str()));
            }
        }
        let ghost t1 = self.tasks@;
        self.set_lease(i, Some(owned(holder)), Some(owned(now)), opt_owned(expires_at));
        let ghost t2 = self.tasks@;
        proof {
            assert forall|k: int| 0 <= k < t0.len() && k != i implies t2[k] == t0[k] by {
                assert(t1[k] == t0[k]);
            }
        }
        match self.load_lease(i, now) {
            Some(l) => Ok(l),
            None => {
                proof {
                    assert forall|k: int| 0 <= k < t0.len() && k != i implies self.tasks@[k]
                        == t0[k] by {
                        assert(t2[k] == t0[k]);
                    }
                }
                Err(not_found(task_id))
            },
        }
    }

    /// Gives `holder` the lease of a task, for `duration_secs` seconds when given.
    pub fn claim_task(&mut self, task_id: &str, holder: &str, duration_secs: Option<u64>) -> (r:
        Result<LeaseInfo, EmberFlowError>)
        requires
            old(self).wf(),
        ensures
            final(self).wf(),
            (r matches Err(e) && e is Sqlite && *final(self) == *old(self)) || exists|now: Seq<char>, expires: Option<Seq<char>>|
                (expires is Some <==> duration_secs is Some) && #[trigger] task_claimed(
                    *old(self),
                    *final(self),
                    task_id@,
                    holder@,
                    expires,
                    now,
                    r,
                ),
            r matches Ok(l) ==> match duration_secs {
                Some(secs) => l.expires_at matches Some(e) && datetime_seconds(e@) == datetime_seconds(
                    l.acquired_at@,
                ) + secs,
                None => l.expires_at is None,
            },
    {
        let (now, expires) = match duration_secs {
            Some(secs) => {
                let (start, later) = timestamps_for_duration(secs)?;
                (start, Some(later))
            },
            None => (current_timestamp()?, None),
        };
        let expires_ref: Option<&str> = match &expires {
            Some(x) => Some(x.as_str()),
            None => None,
        };
        let r = self.claim_task_at(task_id, holder, expires_ref, now.as_str());
        proof {
            assert(task_claimed(*old(self), *self, task_id@, holder@, opt_str_view(expires_ref), now@, r));
        }
        r
    }

    /// Gives up the lease `holder` has on a task, looked at at time `now`. A task without an
    /// active lease is left as it is; a lease held by someone else is refused.
    pub fn release_task_at(&mut self, task_id: &str, holder: &str, now: &str) -> (r: Result<
        (),
        EmberFlowError,
    >)
        requires
            old(self).wf(),
        ensures
            final(self).wf(),
            task_released(*old(self), *final(self), task_id@, holder@, now@, r),
    {
        let i = match find_row(&self.tasks, task_id) {
            Some(i) => i,
            None => {
                return Err(not_found(task_id));
            },
        };
        proof {
            lemma_row_with(self.tasks@, task_id@, i as int);
        }
        match self.load_lease(i, now) {
            None => Ok(()),
            Some(l) => {
                if str_eq(l.holder.as_str(), holder) {
                    self.set_lease(i, None, None, None);
                    Ok(())
                } else {
                    let a = cat3(holder, " is not the lease holder for task ", task_id);
                    let b = cat3(a.as_str(), " (held by ", l.holder.as_str());
                    let msg = cat(b.as_str(), ")");
                    Err(unsupported("lease_holder", msg.as_str()))
                }
            },
        }
    }

    /// Gives up the lease `holder` has on a task.
    pub fn release_task(&mut self, task_id: &str, holder: &str) -> (r: Result<(), EmberFlowError>)
        requires
            old(self).wf(),
        ensures
            final(self).wf(),
            (r matches Err(e) && e is Sqlite && *final(self) == *old(self)) || exists|now: Seq<char>|
                #[trigger] task_released(*old(self), *final(self), task_id@, holder@, now, r),
    {
        let now = current_timestamp()?;
        let r = self.release_task_at(task_id, holder, now.as_str());
        proof {
            assert(task_released(*old(self), *self, task_id@, holder@, now@, r));
        }
        r
    }

    /// Clears every lease whose expiry is not after `now`; returns how many were cleared.
    pub fn expire_stale_leases_at(&mut self, now: &str) -> (r: Result<u64, EmberFlowError>)
        requires
            old(self).wf(),
        ensures
            final(self).wf(),
            stale_leases_expired(*old(self), *final(self), now@, r),
    {
        let ghost t0 = self.tasks@;
        let ghost stale = |t: TaskRow| lease_stale(t, now@);
        let mut count: u64 = 0;
        let mut i: usize = 0;
        while i < self.tasks.len()
            invariant
                self.wf(),
                i <= self.tasks@.len(),
                self.tasks@.len() == t0.len(),
                stale == (|t: TaskRow| lease_stale(t, now@)),
                count == t0.take(i as int).filter(stale).len(),
                count <= i,
                forall|k: int|
                    0 <= k < i ==> (#[trigger] self.tasks@[k]) == if lease_stale(t0[k], now@) {
                        with_lease(t0[k], None, None, None)
                    } else {
                        t0[k]
                    },
                forall|k: int| i <= k < t0.len() ==> (#[trigger] self.tasks@[k]) == t0[k],
                self.track_rows() == old(self).track_rows(),
                self.same_plans(old(self)),
                self.same_activity(old(self)),
            decreases t0.len() - i,
        {
            proof {
                assert(t0.take(i + 1) =~= t0.take(i as int).push(t0[i as int]));
                t0.take(i as int).lemma_filter_push(t0[i as int], stale);
            }
            if expiry_passed(&self.tasks[i], now) {
                let ghost before = self.tasks@;
                self.set_lease(i, None, None, None);
                count = count + 1;
                proof {
                    assert forall|k: int| 0 <= k < i implies (#[trigger] self.tasks@[k]) == (if lease_stale(t0[k], now@) {
                        with_lease(t0[k], None, None, None)
                    } else {
                        t0[k]
                    }) by {
                        assert(self.tasks@[k] == before[k]);
                    }
                }
            }
            i += 1;
        }
        proof {
            assert(t0.take(t0.len() as int) =~= t0);
        }
        Ok(count)
    }

    /// Clears every lease that has run out now; returns how many were cleared.
    pub fn expire_stale_leases(&mut self) -> (r: Result<u64, EmberFlowError>)
        requires
            old(self).wf(),
        ensures
            final(self).wf(),
            (r matches Err(e) && e is Sqlite && *final(self) == *old(self)) || exists|now: Seq<char>|
                #[trigger] stale_leases_expired(*old(self), *final(self), now, r),
    {
        let now = current_timestamp()?;
        let r = self.expire_stale_leases_at(now.as_str());
        proof {
            assert(stale_leases_expired(*old(self), *self, now@, r));
        }
        r
    }

    /// Gives `holder` the lease of a task at time `now`, with the given expiry, whatever lease
    /// the task had.
    pub fn claim_task_with_expiry_at(
        &mut self,
        task_id: &str,
        holder: &str,
        expires_at: &str,
        now: &str,
    ) -> (r: Result<(), EmberFlowError>)
        requires
            old(self).wf(),
        ensures
            final(self).wf(),
            task_claimed_until(*old(self), *final(self), task_id@, holder@, expires_at@, now@, r),
    {
        let i = match find_row(&self.tasks, task_id) {
            Some(i) => i,
            None => {
                return Err(not_found(task_id));
            },
        };
        proof {
            lemma_row_with(self.tasks@, task_id@, i as int);
        }
        self.set_lease(i, Some(owned(holder)), Some(owned(now)), Some(owned(expires_at)));
        Ok(())
    }

    /// Gives `holder` the lease of a task with the given expiry, whatever lease it had.
    pub fn claim_task_with_expiry(&mut self, task_id: &str, holder: &str, expires_at: &str) -> (r:
        Result<(), EmberFlowError>)
        requires
            old(self).wf(),
        ensures
            final(self).wf(),
            (r matches Err(e) && e is Sqlite && *final(self) == *old(self)) || exists|now: Seq<char>|
                #[trigger] task_claimed_until(*old(self), *final(self), task_id@, holder@, expires_at@, now, r),
    {
        let now = current_timestamp()?;
        let r = self.claim_task_with_expiry_at(task_id, holder, expires_at, now.as_str());
        proof {
            assert(task_claimed_until(*old(self), *self, task_id@, holder@, expires_at@, now@, r));
        }
        r
    }
}


/// What making sure a track exists at time `now` does (see `ensure_track_at`).
pub open spec fn track_ensured(
    s0: RuntimeStore,
    s1: RuntimeStore,
    track_id: Seq<char>,
    now: Seq<char>,
    r: Result<TrackRecord, EmberFlowError>,
) -> bool {
    &&& r is Ok
    &&& has_row(s0.track_rows(), track_id) ==> s1 == s0 && r
        == Ok::<TrackRecord, EmberFlowError>(
        track_record_of(row_with(s0.track_rows(), track_id)),
    )
    &&& !has_row(s0.track_rows(), track_id) ==> (r matches Ok(t) && t.id@
        == track_id && t.title@ == track_id && t.status@ == "planning"@
        && t.created_at@ == now && s1.track_rows() == insert_sorted(
        s0.track_rows(),
        bare_track_row(t),
    ) && s1.task_rows() == s0.task_rows() && s1.same_plans(&s0) && s1.same_activity(&s0))
}

/// What making sure a task exists at time `now` does (see `ensure_task_at`).
pub open spec fn task_ensured(
    s0: RuntimeStore,
    s1: RuntimeStore,
    task_id: Seq<char>,
    track_id: Seq<char>,
    now: Seq<char>,
    r: Result<TaskRecord, EmberFlowError>,
) -> bool {
    &&& s1.same_activity(&s0)
    &&& has_row(s0.task_rows(), task_id) ==> s1 == s0 && r
        == Ok::<TaskRecord, EmberFlowError>(
        task_record_of(row_with(s0.task_rows(), task_id)),
    )
    &&& !has_row(s0.task_rows(), task_id) ==> (r is Ok <==> has_row(
        s0.track_rows(),
        track_id,
    ))
    &&& !has_row(s0.task_rows(), task_id) && !has_row(s0.track_rows(), track_id)
        ==> (r matches Err(e) && is_not_found(e, track_id)) && s1 == s0
    &&& !has_row(s0.task_rows(), task_id) ==> (r matches Ok(t) ==> t.id@ == task_id
        && opt_view(t.track_id) == Some(track_id) && t.title@ == task_id && t.status@
        == "queued"@ && t.phase@ == "planning"@ && t.created_at@ == now
        && s1.task_rows() == insert_sorted(
        s0.task_rows(),
        task_row_of(t, None),
    ))
}

impl RuntimeStore {
    /// Sets the status of a track, stamped with the current time.
    pub fn update_track_status(&mut self, track_id: &str, status: &str) -> (r: Result<
        TrackRecord,
        EmberFlowError,
    >)
        requires
            old(self).wf(),
        ensures
            final(self).wf(),
            (r matches Err(e) && e is Sqlite && *final(self) == *old(self)) || exists|now: Seq<char>|
                #[trigger] track_status_updated(*old(self), *final(self), track_id@, status@, now, r),
            !track_statuses().contains(normalized_track_status(status@)) ==> (r matches Err(e)
                && is_unsupported(e, "status"@, normalized_track_status(status@)) && *final(self)
                == *old(self)),
    {
        match check_track_status(status) {
            Ok(()) => {},
            Err(e) => {
                let r = Err(e);
                proof {
                    assert(track_status_updated(*old(self), *self, track_id@, status@, Seq::<char>::empty(), r));
                }
                return r;
            },
        }
        let now = current_timestamp()?;
        let r = self.update_track_status_at(track_id, status, now.as_str());
        proof {
            assert(track_status_updated(*old(self), *self, track_id@, status@, now@, r));
        }
        r
    }

    /// Creates or updates the metadata of a track, stamped with the current time.
    pub fn upsert_track_metadata(&mut self, input: TrackMetadataInput) -> (r: Result<
        TrackMetadataRecord,
        EmberFlowError,
    >)
        requires
            old(self).wf(),
        ensures
            final(self).wf(),
            (r matches Err(e) && e is Sqlite && *final(self) == *old(self)) || exists|now: Seq<char>|
                #[trigger] track_metadata_written(*old(self), *final(self), input, now, r),
            !track_statuses().contains(normalized_track_status(input.status@)) ==> (r matches Err(e)
                && is_unsupported(e, "status"@, normalized_track_status(input.status@))
                && *final(self) == *old(self)),
            track_statuses().contains(normalized_track_status(input.status@)) && is_blank_spec(
                input.track_id@,
            ) ==> (r matches Err(e) && is_unsupported(e, "track_id"@, "track id must be present"@)
                && *final(self) == *old(self)),
    {
        let ghost input0 = input;
        match check_track_status(input.status.as_str()) {
            Ok(()) => {},
            Err(e) => {
                let r = Err(e);
                proof {
                    assert(track_metadata_written(*old(self), *self, input0, Seq::<char>::empty(), r));
                }
                return r;
            },
        }
        if is_blank(input.track_id.as_str()) {
            let r = Err(unsupported("track_id", "track id must be present"));
            proof {
                assert(track_metadata_written(*old(self), *self, input0, Seq::<char>::empty(), r));
            }
            return r;
        }
        let now = current_timestamp()?;
        let r = self.upsert_track_metadata_at(input, now.as_str());
        proof {
            assert(track_metadata_written(*old(self), *self, input0, now@, r));
        }
        r
    }

    /// Replaces the brief of a track, stamped with the current time.
    pub fn replace_track_brief(&mut self, track_id: &str, sections: Vec<TrackBriefSectionInput>) -> (r:
        Result<TrackBriefRecord, EmberFlowError>)
        requires
            old(self).wf(),
        ensures
            final(self).wf(),
            (r matches Err(e) && e is Sqlite && *final(self) == *old(self)) || exists|now: Seq<char>|
                #[trigger] track_brief_replaced(*old(self), *final(self), track_id@, sections@, now, r),
    {
        let ghost given = sections@;
        let now = current_timestamp()?;
        let r = self.replace_track_brief_at(track_id, sections, now.as_str());
        proof {
            assert(track_brief_replaced(*old(self), *self, track_id@, given, now@, r));
        }
        r
    }

    /// Replaces the plan of a track, stamped with the current time.
    pub fn replace_track_plan(&mut self, track_id: &str, phases: Vec<TrackPlanPhaseInput>) -> (r:
        Result<TrackPlanRecord, EmberFlowError>)
        requires
            old(self).wf(),
        ensures
            final(self).wf(),
            (r matches Err(e) && e is Sqlite && *final(self) == *old(self)) || exists|now: Seq<char>|
                #[trigger] track_plan_replaced(*old(self), *final(self), track_id@, phases@, now, r),
    {
        let ghost given = phases@;
        let now = current_timestamp()?;
        let r = self.replace_track_plan_at(track_id, phases, now.as_str());
        proof {
            assert(track_plan_replaced(*old(self), *self, track_id@, given, now@, r));
        }
        r
    }

    /// The track with the given id; when there is none, one is created at time `now`, titled
    /// by its id and in planning.
    pub fn ensure_track_at(&mut self, track_id: &str, now: &str) -> (r: Result<
        TrackRecord,
        EmberFlowError,
    >)
        requires
            old(self).wf(),
        ensures
            final(self).wf(),
            track_ensured(*old(self), *final(self), track_id@, now@, r),
    {
        match self.get_track(track_id) {
            Ok(t) => Ok(t),
            Err(_) => {
                proof {
                    reveal_strlit("planning");
                    assert(track_statuses().contains("planning"@)) by {
                        assert(track_statuses()[0] == "planning"@);
                    }
                    assert(normalized_track_status("planning"@) == "planning"@) by {
                        reveal_strlit("done");
                    }
                }
                self.create_track_at(track_id, track_id, "planning", now)
            },
        }
    }

    /// The track with the given id, created now when there is none.
    pub fn ensure_track(&mut self, track_id: &str) -> (r: Result<TrackRecord, EmberFlowError>)
        requires
            old(self).wf(),
        ensures
            final(self).wf(),
            has_row(old(self).track_rows(), track_id@) ==> *final(self) == *old(self) && r == Ok::<
                TrackRecord,
                EmberFlowError,
            >(track_record_of(row_with(old(self).track_rows(), track_id@))),
            (r matches Err(e) && e is Sqlite && *final(self) == *old(self)) || exists|now: Seq<char>|
                #[trigger] track_ensured(*old(self), *final(self), track_id@, now, r),
    {
        match self.get_track(track_id) {
            Ok(t) => {
                proof {
                    assert(track_ensured(*old(self), *self, track_id@, Seq::empty(), Ok::<TrackRecord, EmberFlowError>(t)));
                }
                Ok(t)
            },
            Err(_) => {
                let now = current_timestamp()?;
                let r = self.ensure_track_at(track_id, now.as_str());
                proof {
                    assert(track_ensured(*old(self), *self, track_id@, now@, r));
                }
                r
            },
        }
    }

    /// The task with the given id; when there is none, one is created at time `now` on the
    /// given track, titled by its id, queued and in planning.
    pub fn ensure_task_at(&mut self, task_id: &str, track_id: &str, now: &str) -> (r: Result<
        TaskRecord,
        EmberFlowError,
    >)
        requires
            old(self).wf(),
        ensures
            final(self).wf(),
            task_ensured(*old(self), *final(self), task_id@, track_id@, now@, r),
    {
        match self.get_task(task_id) {
            Ok(t) => Ok(t),
            Err(_) => {
                let input = TaskInput {
                    task_id: owned(task_id),
                    track_id: Some(owned(track_id)),
                    title: owned(task_id),
                    status: owned("queued"),
                    phase: owned("planning"),
                    executor: None,
                    agent_instance_id: None,
                    execution: None,
                    intent_summary: None,
                };
                proof {
                    reveal_strlit("queued");
                    reveal_strlit("planning");
                    assert(task_statuses()[0] == "queued"@);
                    assert(phases()[1] == "planning"@);
                }
                self.create_task_at(input, now)
            },
        }
    }

    /// The task with the given id, created now on the given track when there is none.
    pub fn ensure_task(&mut self, task_id: &str, track_id: &str) -> (r: Result<
        TaskRecord,
        EmberFlowError,
    >)
        requires
            old(self).wf(),
        ensures
            final(self).wf(),
            has_row(old(self).task_rows(), task_id@) ==> *final(self) == *old(self) && r == Ok::<
                TaskRecord,
                EmberFlowError,
            >(task_record_of(row_with(old(self).task_rows(), task_id@))),
            (r matches Err(e) && e is Sqlite && *final(self) == *old(self)) || exists|now: Seq<char>|
                #[trigger] task_ensured(*old(self), *final(self), task_id@, track_id@, now, r),
    {
        match self.get_task(task_id) {
            Ok(t) => {
                proof {
                    assert(task_ensured(*old(self), *self, task_id@, track_id@, Seq::empty(), Ok::<TaskRecord, EmberFlowError>(t)));
                }
                Ok(t)
            },
            Err(_) => {
                let now = current_timestamp()?;
                let r = self.ensure_task_at(task_id, track_id, now.as_str());
                proof {
                    assert(task_ensured(*old(self), *self, task_id@, track_id@, now@, r));
                }
                r
            },
        }
    }
}


impl RuntimeStore {
    /// The stored rows of the table, in listing order.
    pub fn track_table(&self) -> (r: &Vec<TrackRow>)
        ensures
            r@ == self.track_rows(),
    {
        &self.tracks
    }

    /// The stored rows of the table, in listing order.
    pub fn task_table(&self) -> (r: &Vec<TaskRow>)
        ensures
            r@ == self.task_rows(),
    {
        &self.tasks
    }

    /// The stored rows of the table, in listing order.
    pub fn section_table(&self) -> (r: &Vec<SectionRow>)
        ensures
            r@ == self.section_rows(),
    {
        &self.sections
    }

    /// The stored rows of the table, in listing order.
    pub fn phase_table(&self) -> (r: &Vec<PhaseRow>)
        ensures
            r@ == self.phase_rows(),
    {
        &self.phases
    }

    /// The stored rows of the table, in listing order.
    pub fn item_table(&self) -> (r: &Vec<TrackPlanItemRecord>)
        ensures
            r@ == self.item_rows(),
    {
        &self.items
    }

    /// The stored rows of the table, in listing order.
    pub fn event_table(&self) -> (r: &Vec<EventRecord>)
        ensures
            r@ == self.event_rows(),
    {
        &self.events
    }

    /// The stored rows of the table, in listing order.
    pub fn projection_table(&self) -> (r: &Vec<ProjectionRecord>)
        ensures
            r@ == self.projection_rows(),
    {
        &self.projections
    }

    /// The stored rows of the table, in listing order.
    pub fn dirty_table(&self) -> (r: &Vec<ProjectionDirtyTargetRecord>)
        ensures
            r@ == self.dirty_rows(),
    {
        &self.dirty
    }

    /// A store holding the given rows, each table put in its listing order. Rows that share a
    /// primary key are refused.
    pub fn from_rows(
        tracks: Vec<TrackRow>,
        tasks: Vec<TaskRow>,
        sections: Vec<SectionRow>,
        phases: Vec<PhaseRow>,
        items: Vec<TrackPlanItemRecord>,
        events: Vec<EventRecord>,
        projections: Vec<ProjectionRecord>,
        dirty: Vec<ProjectionDirtyTargetRecord>,
    ) -> (r: Result<Self, EmberFlowError>)
        ensures
            r matches Ok(s) ==> s.wf(),
            r matches Ok(s) ==> s.track_rows().len() == tracks@.len() && forall|x: TrackRow| #[trigger] s.track_rows().contains(x) <==> tracks@.contains(x),
            r matches Ok(s) ==> s.task_rows().len() == tasks@.len() && forall|x: TaskRow| #[trigger] s.task_rows().contains(x) <==> tasks@.contains(x),
            r matches Ok(s) ==> s.section_rows().len() == sections@.len() && forall|x: SectionRow| #[trigger] s.section_rows().contains(x) <==> sections@.contains(x),
            r matches Ok(s) ==> s.phase_rows().len() == phases@.len() && forall|x: PhaseRow| #[trigger] s.phase_rows().contains(x) <==> phases@.contains(x),
            r matches Ok(s) ==> s.item_rows().len() == items@.len() && forall|x: TrackPlanItemRecord| #[trigger] s.item_rows().contains(x) <==> items@.contains(x),
            r matches Ok(s) ==> s.event_rows().len() == events@.len() && forall|x: EventRecord| #[trigger] s.event_rows().contains(x) <==> events@.contains(x),
            r matches Ok(s) ==> s.projection_rows().len() == projections@.len() && forall|x: ProjectionRecord| #[trigger] s.projection_rows().contains(x) <==> projections@.contains(x),
            r matches Ok(s) ==> s.dirty_rows().len() == dirty@.len() && forall|x: ProjectionDirtyTargetRecord| #[trigger] s.dirty_rows().contains(x) <==> dirty@.contains(x),
            r matches Err(e) ==> is_sqlite(e, "duplicate primary key in stored rows"@),
            r is Ok <==> crate::rows::keys_distinct(tracks@) && crate::rows::keys_distinct(tasks@)
                && crate::rows::keys_distinct(sections@) && crate::rows::keys_distinct(phases@)
                && crate::rows::keys_distinct(items@) && crate::rows::keys_distinct(events@)
                && crate::rows::keys_distinct(projections@) && crate::rows::keys_distinct(dirty@),
    {
        let tracks = match build_table(tracks) {
            Some(t) => t,
            None => {
                return Err(sqlite_failure("duplicate primary key in stored rows"));
            },
        };
        let tasks = match build_table(tasks) {
            Some(t) => t,
            None => {
                return Err(sqlite_failure("duplicate primary key in stored rows"));
            },
        };
        let sections = match build_table(sections) {
            Some(t) => t,
            None => {
                return Err(sqlite_failure("duplicate primary key in stored rows"));
            },
        };
        let phases = match build_table(phases) {
            Some(t) => t,
            None => {
                return Err(sqlite_failure("duplicate primary key in stored rows"));
            },
        };
        let items = match build_table(items) {
            Some(t) => t,
            None => {
                return Err(sqlite_failure("duplicate primary key in stored rows"));
            },
        };
        let events = match build_table(events) {
            Some(t) => t,
            None => {
                return Err(sqlite_failure("duplicate primary key in stored rows"));
            },
        };
        let projections = match build_table(projections) {
            Some(t) => t,
            None => {
                return Err(sqlite_failure("duplicate primary key in stored rows"));
            },
        };
        let dirty = match build_table(dirty) {
            Some(t) => t,
            None => {
                return Err(sqlite_failure("duplicate primary key in stored rows"));
            },
        };
        Ok(RuntimeStore { tracks, tasks, sections, phases, items, events, projections, dirty })
    }
}

} // verus!
