use vstd::prelude::*;

use crate::install::{
    contract_end_marker, contract_start_marker, find_from, is_contract_block,
    lemma_find_from_first, lemma_find_from_occurs, lemma_first_match_in_block, lemma_marker_chars, lemma_prefix_clean,
    markers_in_order, merged_contract, occurs_at, paragraph_then, then_paragraph, allowed_tools, child_items, child_members, hook_present, lemma_with_hook_runs,
    lemma_with_member_get, lemma_with_member_other, lemma_with_member_same,
    lemma_with_string_twice, lemma_with_strings_twice, object_members, updated_settings,
    with_hook, with_member, with_string, with_strings,
};
use crate::json::JsonV;
use crate::layout::joined_path;
use crate::error::EmberFlowError;
use crate::json::json_top_level_string;
use crate::projections::{default_status_spec, lemma_event_kinds_distinct, runtime_field};
use crate::service::{
    brief_markdown, brief_next_step, section_bullets, task_feed_is, task_state_spec, track_feed_is, EventFeed,
};
use crate::service::event_applied;
use crate::server::{listed_resources, task_listed, tasks_entries, track_entries, tracks_entries};
use crate::records::{
    TaskRecord, TrackBriefSectionRecord, TrackRecord, EventRecord, PhaseRow, ProjectionDirtyTargetRecord, SectionRow, TaskRow, TrackMetadataInput,
    TrackMetadataRecord, TrackPlanItemRecord, TrackRow,
};
use crate::rows::{has_row, table_ok, Row};
use crate::store::{
    dirty_goes_with_track, event_goes_with_track, event_selected, lease_active, lease_written, metadata_of_row,
    metadata_title, row_index, row_with, task_goes_with_track, task_on_track, track_row_is, RuntimeStore,
    lemma_row_with,
};
use crate::text::{
    is_ws, lemma_trim_end_blank_suffix, lemma_trim_end_prefix, lemma_trim_start_blank_prefix,
    lemma_trim_start_suffix, opt_view, seq_le, trim_end_spec, trim_start_spec,
};

verus! {

/// The lease of task `id` in `tasks` is active at `now` and held by someone other than `holder`:
/// a claim by `holder` at `now` is then refused.
pub open spec fn lease_taken(tasks: Seq<TaskRow>, id: Seq<char>, holder: Seq<char>, now: Seq<char>) -> bool {
    let row = row_with(tasks, id);
    has_row(tasks, id) && lease_active(row, now) && row.lease_holder->0@ != holder
}

/// Writing the lease columns of one task keeps the table valid, and the task is found at the
/// same place with the new columns.
pub proof fn lemma_lease_written_row(
    t0: Seq<TaskRow>,
    t1: Seq<TaskRow>,
    id: Seq<char>,
    holder: Option<Seq<char>>,
    acquired_at: Option<Seq<char>>,
    expires_at: Option<Seq<char>>,
)
    requires
        table_ok(t0),
        has_row(t0, id),
        lease_written(t0, t1, id, holder, acquired_at, expires_at),
    ensures
        has_row(t1, id),
        row_with(t1, id) == t1[row_index(t0, id)],
        opt_view(row_with(t1, id).lease_holder) == holder,
        opt_view(row_with(t1, id).lease_expires_at) == expires_at,
{
    let i = choose|i: int| 0 <= i < t0.len() && (#[trigger] t0[i]).row_id() == id;
    lemma_row_with(t0, id, i);
    assert(t1[i].row_id() == id);
    assert forall|a: int, b: int|
        0 <= a < t1.len() && 0 <= b < t1.len() && a != b implies (#[trigger] t1[a]).row_id() != (
        #[trigger] t1[b]).row_id() by {
        assert(t1[a].row_id() == t0[a].row_id());
        assert(t1[b].row_id() == t0[b].row_id());
    }
    lemma_row_with(t1, id, i);
}

/// Lease exclusivity: once `holder` has claimed a task's lease, another holder's claim is
/// refused for as long as the lease has not run out (a lease without expiry never does).
pub proof fn lemma_claim_excludes_other_holders(
    t0: Seq<TaskRow>,
    t1: Seq<TaskRow>,
    id: Seq<char>,
    holder: Seq<char>,
    now: Seq<char>,
    expires_at: Option<Seq<char>>,
    other: Seq<char>,
    later: Seq<char>,
)
    requires
        table_ok(t0),
        has_row(t0, id),
        lease_written(t0, t1, id, Some(holder), Some(now), expires_at),
        other != holder,
        expires_at matches Some(x) ==> !seq_le(x, later),
    ensures
        lease_taken(t1, id, other, later),
        row_with(t1, id).lease_holder->0@ == holder,
{
    lemma_lease_written_row(t0, t1, id, Some(holder), Some(now), expires_at);
}

/// Releasing a lease frees the task: afterwards no claim, by anyone, finds it taken.
pub proof fn lemma_release_frees_task(
    t0: Seq<TaskRow>,
    t1: Seq<TaskRow>,
    id: Seq<char>,
    anyone: Seq<char>,
    later: Seq<char>,
)
    requires
        table_ok(t0),
        has_row(t0, id),
        lease_written(t0, t1, id, None, None, None),
    ensures
        !lease_taken(t1, id, anyone, later),
        !lease_active(row_with(t1, id), later),
{
    lemma_lease_written_row(t0, t1, id, None, None, None);
}

/// A lease that has run out is not active, whoever holds it.
pub proof fn lemma_expired_lease_is_inactive(t: TaskRow, now: Seq<char>)
    requires
        t.lease_expires_at matches Some(x) && seq_le(x@, now),
    ensures
        !lease_active(t, now),
{
}

/// The brief sections that stay when a track is deleted.
pub open spec fn sections_kept(s: Seq<SectionRow>, track_id: Seq<char>) -> Seq<SectionRow> {
    s.filter(|x: SectionRow| x.track_id@ != track_id)
}

/// The plan phases that stay when a track is deleted.
pub open spec fn phases_kept(s: Seq<PhaseRow>, track_id: Seq<char>) -> Seq<PhaseRow> {
    s.filter(|x: PhaseRow| x.track_id@ != track_id)
}

/// The plan items that stay when a track is deleted.
pub open spec fn items_kept(s: Seq<TrackPlanItemRecord>, track_id: Seq<char>) -> Seq<
    TrackPlanItemRecord,
> {
    s.filter(|x: TrackPlanItemRecord| x.track_id@ != track_id)
}

/// The tasks that stay when a track is deleted.
pub open spec fn tasks_kept(
    s: Seq<TaskRow>,
    items: Seq<TrackPlanItemRecord>,
    track_id: Seq<char>,
) -> Seq<TaskRow> {
    s.filter(|x: TaskRow| !task_goes_with_track(x, items, track_id))
}

/// The events that stay when a track is deleted.
pub open spec fn events_kept(
    s: Seq<EventRecord>,
    tasks: Seq<TaskRow>,
    items: Seq<TrackPlanItemRecord>,
    track_id: Seq<char>,
) -> Seq<EventRecord> {
    s.filter(|x: EventRecord| !event_goes_with_track(x, tasks, items, track_id))
}

/// The dirty targets that stay when a track is deleted.
pub open spec fn dirty_kept(
    s: Seq<ProjectionDirtyTargetRecord>,
    events: Seq<EventRecord>,
    tasks: Seq<TaskRow>,
    items: Seq<TrackPlanItemRecord>,
    track_id: Seq<char>,
) -> Seq<ProjectionDirtyTargetRecord> {
    s.filter(|x: ProjectionDirtyTargetRecord| !dirty_goes_with_track(x, events, tasks, items, track_id))
}

/// Deleting a track leaves nothing of it: not the track, nor brief sections, plan phases or
/// plan items of it, nor tasks or events on it, nor dirty targets of it. (The tables after
/// `RuntimeStore::delete_track` are the ones kept here.)
pub proof fn lemma_delete_leaves_nothing_of_track(
    tracks0: Seq<TrackRow>,
    sections0: Seq<SectionRow>,
    phases0: Seq<PhaseRow>,
    items0: Seq<TrackPlanItemRecord>,
    tasks0: Seq<TaskRow>,
    events0: Seq<EventRecord>,
    dirty0: Seq<ProjectionDirtyTargetRecord>,
    track_id: Seq<char>,
)
    ensures
        !has_row(tracks0.filter(|x: TrackRow| x.id@ != track_id), track_id),
        forall|s: SectionRow| #[trigger] sections_kept(sections0, track_id).contains(s) ==> s.track_id@
            != track_id,
        forall|p: PhaseRow| #[trigger] phases_kept(phases0, track_id).contains(p) ==> p.track_id@
            != track_id,
        forall|it: TrackPlanItemRecord| #[trigger] items_kept(items0, track_id).contains(it)
            ==> it.track_id@ != track_id,
        forall|t: TaskRow| #[trigger] tasks_kept(tasks0, items0, track_id).contains(t)
            ==> !task_on_track(t, track_id),
        forall|e: EventRecord| #[trigger] events_kept(events0, tasks0, items0, track_id).contains(e)
            ==> !(e.track_id matches Some(x) && x@ == track_id),
        forall|d: ProjectionDirtyTargetRecord| #[trigger] dirty_kept(
            dirty0,
            events0,
            tasks0,
            items0,
            track_id,
        ).contains(d) ==> !(d.track_id matches Some(x) && x@ == track_id),
{
    broadcast use vstd::seq_lib::group_filter_ensures;

    let f = |x: TrackRow| x.id@ != track_id;
    let kept = tracks0.filter(f);
    assert forall|i: int| 0 <= i < kept.len() implies (#[trigger] kept[i]).row_id() != track_id by {
        assert(kept.contains(kept[i]));
    }
}

/// Reading metadata back gives what was written: a track row written from `input` carries
/// metadata with the input's type, status, description, branch and spec reference.
pub proof fn lemma_metadata_reads_back(
    m: TrackMetadataRecord,
    row: TrackRow,
    input: TrackMetadataInput,
    status: Seq<char>,
    created_at: Seq<char>,
    updated_at: Seq<char>,
)
    requires
        track_row_is(
            row,
            input.track_id@,
            metadata_title(input),
            status,
            Some(input.track_type@),
            Some(input.description@),
            Some(input.branch@),
            opt_view(input.spec_ref),
            created_at,
            updated_at,
        ),
        metadata_of_row(m, row),
    ensures
        m.track_id@ == input.track_id@,
        m.track_type@ == input.track_type@,
        m.status@ == status,
        m.description@ == input.description@,
        m.branch@ == input.branch@,
        opt_view(m.spec_ref) == opt_view(input.spec_ref),
        m.updated_at@ == updated_at,
{
}

/// Installing is idempotent: updating settings that the update already produced changes
/// nothing, so a second install adds no permission, directory or hook twice.
pub proof fn lemma_settings_update_idempotent(
    settings: JsonV,
    hooks_dir: Seq<char>,
    project_dir: Option<Seq<char>>,
)
    ensures
        updated_settings(updated_settings(settings, hooks_dir, project_dir), hooks_dir, project_dir)
            == updated_settings(settings, hooks_dir, project_dir),
{
    reveal_strlit("permissions");
    reveal_strlit("allow");
    reveal_strlit("additionalDirectories");
    reveal_strlit("hooks");
    reveal_strlit("PreToolUse");
    assert("hooks"@.len() != "permissions"@.len());
    assert("allow"@.len() != "additionalDirectories"@.len());
    let root = object_members(settings);
    let perm = child_members(root, "permissions"@);
    let a1 = with_strings(child_items(perm, "allow"@), allowed_tools());
    let perm1 = with_member(perm, "allow"@, JsonV::Arr(a1));
    let dirs = child_items(perm1, "additionalDirectories"@);
    let d1 = match project_dir {
        Some(d) => with_string(dirs, d),
        None => dirs,
    };
    let perm2 = with_member(perm1, "additionalDirectories"@, JsonV::Arr(d1));
    let root1 = with_member(root, "permissions"@, JsonV::Obj(perm2));
    let hooks = child_members(root1, "hooks"@);
    let bash = joined_path(hooks_dir, "emberflow-bash-guard.sh"@);
    let write = joined_path(hooks_dir, "emberflow-write-guard.sh"@);
    let p0 = child_items(hooks, "PreToolUse"@);
    let p1 = with_hook(p0, "Bash"@, bash);
    let p2 = with_hook(p1, "Edit"@, write);
    let pre = with_hook(p2, "Write"@, write);
    let hooks1 = with_member(hooks, "PreToolUse"@, JsonV::Arr(pre));
    let root2 = with_member(root1, "hooks"@, JsonV::Obj(hooks1));
    assert(updated_settings(settings, hooks_dir, project_dir) == JsonV::Obj(root2));
    assert(object_members(JsonV::Obj(root2)) == root2);

    lemma_with_member_other(root1, "hooks"@, JsonV::Obj(hooks1), "permissions"@);
    lemma_with_member_get(root, "permissions"@, JsonV::Obj(perm2));
    assert(child_members(root2, "permissions"@) == perm2);

    lemma_with_member_other(perm1, "additionalDirectories"@, JsonV::Arr(d1), "allow"@);
    lemma_with_member_get(perm, "allow"@, JsonV::Arr(a1));
    assert(child_items(perm2, "allow"@) == a1);
    lemma_with_strings_twice(child_items(perm, "allow"@), allowed_tools());
    lemma_with_member_same(perm2, "allow"@, JsonV::Arr(a1));

    lemma_with_member_get(perm1, "additionalDirectories"@, JsonV::Arr(d1));
    assert(child_items(perm2, "additionalDirectories"@) == d1);
    match project_dir {
        Some(d) => {
            lemma_with_string_twice(dirs, d);
        },
        None => {},
    }
    lemma_with_member_same(perm2, "additionalDirectories"@, JsonV::Arr(d1));
    lemma_with_member_same(root2, "permissions"@, JsonV::Obj(perm2));

    lemma_with_member_get(root1, "hooks"@, JsonV::Obj(hooks1));
    assert(child_members(root2, "hooks"@) == hooks1);
    lemma_with_member_get(hooks, "PreToolUse"@, JsonV::Arr(pre));
    assert(child_items(hooks1, "PreToolUse"@) == pre);
    lemma_with_hook_runs(p0, "Bash"@, bash);
    lemma_with_hook_runs(p1, "Edit"@, write);
    lemma_with_hook_runs(p2, "Write"@, write);
    assert(hook_present(p2, "Bash"@, bash));
    assert(hook_present(pre, "Bash"@, bash));
    assert(hook_present(pre, "Edit"@, write));
    assert(hook_present(pre, "Write"@, write));
    assert(with_hook(pre, "Bash"@, bash) == pre);
    assert(with_hook(pre, "Edit"@, write) == pre);
    assert(with_hook(pre, "Write"@, write) == pre);
    lemma_with_member_same(hooks1, "PreToolUse"@, JsonV::Arr(pre));
    lemma_with_member_same(root2, "hooks"@, JsonV::Obj(hooks1));
}

/// Merging the contract is idempotent: merging it into a file that the merge produced gives
/// the same file, for a template that is one contract block and a file whose markers, if
/// any, come in order.
pub proof fn lemma_contract_merge_idempotent(existing: Seq<char>, template: Seq<char>)
    requires
        is_contract_block(template),
        markers_in_order(existing),
    ensures
        merged_contract(merged_contract(existing, template), template) == merged_contract(
            existing,
            template,
        ),
{
    let sm = contract_start_marker();
    let em = contract_end_marker();
    lemma_marker_chars();
    reveal_strlit("\n\n");
    assert(is_ws('\n'));
    assert(forall|j: int| 0 <= j < 2 ==> #[trigger] "\n\n"@[j] == '\n');
    let block = trim_end_spec(template);
    let n = block.len() as int;
    lemma_find_from_occurs(block, sm, 0);
    lemma_find_from_occurs(block, em, 0);
    lemma_find_from_first(block, sm, 0);
    lemma_find_from_first(block, em, 0);
    let fs = find_from(existing, sm, 0);
    let fe = find_from(existing, em, 0);
    lemma_find_from_occurs(existing, sm, 0);
    lemma_find_from_occurs(existing, em, 0);
    let p: Seq<char>;
    let g: Seq<char>;
    if fs is Some {
        let start = fs->0;
        let end = fe->0;
        let before = existing.take(start);
        p = trim_end_spec(before);
        lemma_trim_end_prefix(before);
        assert(p == existing.take(p.len() as int)) by {
            assert(before.take(p.len() as int) =~= existing.take(p.len() as int));
        }
        let after = existing.skip(end + em.len());
        let q = trim_start_spec(after);
        lemma_trim_start_suffix(after);
        g = then_paragraph(q);
        lemma_prefix_clean(existing, p, sm, fs);
        lemma_prefix_clean(existing, p, em, fe);
        if q.len() > 0 {
            lemma_trim_start_blank_prefix("\n\n"@, q);
        } else {
            assert(g =~= Seq::<char>::empty());
        }
        assert(trim_start_spec(g) == q);
    } else {
        p = trim_end_spec(existing);
        lemma_trim_end_prefix(existing);
        g = Seq::empty();
        lemma_prefix_clean(existing, p, sm, fs);
        lemma_prefix_clean(existing, p, em, fe);
        assert(trim_start_spec(g) == g);
    }
    let h = paragraph_then(p);
    let r = h + block + g;
    assert(merged_contract(existing, template) == r) by {
        if fs is None {
            assert(h + block =~= h + block + g);
        }
    }
    lemma_first_match_in_block(p, block, g, sm, 0);
    lemma_first_match_in_block(p, block, g, em, n - em.len());
    let hl = h.len() as int;
    assert(r.take(hl) =~= h);
    assert(r.skip(hl + (n - em.len()) + em.len()) =~= g);
    if p.len() > 0 {
        lemma_trim_end_blank_suffix(p, "\n\n"@);
    } else {
        assert(h =~= Seq::<char>::empty());
    }
    assert(trim_end_spec(h) == p);
    assert(paragraph_then(trim_end_spec(r.take(hl))) == h);
    assert(then_paragraph(trim_start_spec(r.skip(hl + n))) == g);
}

proof fn lemma_tracks_entries_shape(tracks: Seq<TrackRecord>)
    ensures
        tracks_entries(tracks).len() == 8 * tracks.len(),
        forall|i: int, k: int|
            0 <= i < tracks.len() && 0 <= k < 8 ==> tracks_entries(tracks)[8 * i + k]
                == #[trigger] track_entries(tracks[i].id@)[k],
    decreases tracks.len(),
{
    if tracks.len() > 0 {
        let init = tracks.drop_last();
        lemma_tracks_entries_shape(init);
        assert forall|i: int, k: int|
            0 <= i < tracks.len() && 0 <= k < 8 implies tracks_entries(tracks)[8 * i + k]
            == #[trigger] track_entries(tracks[i].id@)[k] by {
            if i < init.len() {
                assert(init[i] == tracks[i]);
            }
        }
    }
}

proof fn lemma_tasks_entries_len(tasks: Seq<TaskRecord>, tracks: Seq<TrackRecord>)
    ensures
        tasks_entries(tasks, tracks).len() == 2 * tasks.filter(
            |t: TaskRecord| task_listed(t, tracks),
        ).len(),
    decreases tasks.len(),
{
    if tasks.len() > 0 {
        let init = tasks.drop_last();
        lemma_tasks_entries_len(init, tracks);
        assert(tasks =~= init.push(tasks.last()));
        init.lemma_filter_push(tasks.last(), |t: TaskRecord| task_listed(t, tracks));
    } else {
        reveal(Seq::filter);
    }
}

/// The resource catalog starts with the workspace overview and ends with the client contract;
/// between them come the eight views of each active track, in track order, then two views for
/// each listed task: one whose track is active or that has none.
pub proof fn lemma_resource_catalog_shape(tracks: Seq<TrackRecord>, tasks: Seq<TaskRecord>)
    ensures
        listed_resources(tracks, tasks).len() == 2 + 8 * tracks.len() + 2 * tasks.filter(
            |t: TaskRecord| task_listed(t, tracks),
        ).len(),
        listed_resources(tracks, tasks)[0] == ("emberflow://workspace/overview"@,
        "workspace-overview"@),
        listed_resources(tracks, tasks).last() == ("emberflow://protocol/client-contract"@,
        "client-contract"@),
        forall|i: int, k: int|
            0 <= i < tracks.len() && 0 <= k < 8 ==> listed_resources(tracks, tasks)[1 + 8 * i + k]
                == #[trigger] track_entries(tracks[i].id@)[k],
{
    lemma_tracks_entries_shape(tracks);
    lemma_tasks_entries_len(tasks, tracks);
    let te = tracks_entries(tracks);
    let ke = tasks_entries(tasks, tracks);
    let all = listed_resources(tracks, tasks);
    assert forall|i: int, k: int|
        0 <= i < tracks.len() && 0 <= k < 8 implies all[1 + 8 * i + k]
        == #[trigger] track_entries(tracks[i].id@)[k] by {
        assert(all[1 + 8 * i + k] == te[8 * i + k]);
    }
}

/// An optional text, or a default when it is absent.
pub open spec fn text_or(o: Option<Seq<char>>, d: Seq<char>) -> Seq<char> {
    match o {
        Some(v) => v,
        None => d,
    }
}

/// Recording an event moves its task and its track as the protocol's table says. The task:
/// assign queues it, ack starts it in planning, progress takes the payload's status, blocker
/// blocks it, handoff puts it up for review and close finishes it; the payload's phase is
/// taken where it gives one, else assign, progress and blocker keep the phase and handoff and
/// close go to verifying. The track: a blocker blocks it, a handoff puts it in review and a
/// close archives it (a track still marked with the legacy status `done` keeps it). Any other
/// kind leaves both as they were.
pub proof fn lemma_event_moves_task_and_track(s0: RuntimeStore, s1: RuntimeStore, ev: EventRecord)
    requires
        event_applied(s0, s1, ev),
    ensures
        ev.task_id matches Some(t) ==> {
            let cur = row_with(s0.task_rows(), t@);
            let row = row_with(s1.task_rows(), t@);
            let ph = json_top_level_string(ev.payload@, "phase"@);
            let st = json_top_level_string(ev.payload@, "status"@);
            let k = ev.kind@;
            &&& k == "assign"@ ==> row.status@ == "queued"@ && row.phase@ == text_or(ph, cur.phase@)
            &&& k == "ack"@ ==> row.status@ == "running"@ && row.phase@ == "planning"@
            &&& k == "progress"@ ==> row.status@ == text_or(st, cur.status@) && row.phase@
                == text_or(ph, cur.phase@)
            &&& k == "blocker"@ ==> row.status@ == "blocked"@ && row.phase@ == text_or(ph, cur.phase@)
            &&& k == "handoff"@ ==> row.status@ == "awaiting-review"@ && row.phase@ == text_or(
                ph,
                "verifying"@,
            )
            &&& k == "close"@ ==> row.status@ == "done"@ && row.phase@ == text_or(ph, "verifying"@)
            &&& !(seq!["assign"@, "ack"@, "progress"@, "blocker"@, "handoff"@, "close"@].contains(
                k,
            )) ==> row.status@ == cur.status@ && row.phase@ == cur.phase@
        },
        ev.track_id matches Some(t) ==> {
            let before = row_with(s0.track_rows(), t@).status@;
            let after = row_with(s1.track_rows(), t@).status@;
            let k = ev.kind@;
            &&& k == "blocker"@ ==> after == "blocked"@
            &&& k == "handoff"@ ==> after == "review"@
            &&& k == "close"@ && before != "done"@ ==> after == "archived"@
            &&& !(seq!["blocker"@, "handoff"@, "close"@].contains(k)) ==> after == before
        },
{
    let k = ev.kind@;
    if !(seq!["assign"@, "ack"@, "progress"@, "blocker"@, "handoff"@, "close"@].contains(k)) {
        assert(seq!["assign"@, "ack"@, "progress"@, "blocker"@, "handoff"@, "close"@][0] == "assign"@);
        assert(seq!["assign"@, "ack"@, "progress"@, "blocker"@, "handoff"@, "close"@][1] == "ack"@);
        assert(seq!["assign"@, "ack"@, "progress"@, "blocker"@, "handoff"@, "close"@][2]
            == "progress"@);
        assert(seq!["assign"@, "ack"@, "progress"@, "blocker"@, "handoff"@, "close"@][3]
            == "blocker"@);
        assert(seq!["assign"@, "ack"@, "progress"@, "blocker"@, "handoff"@, "close"@][4]
            == "handoff"@);
        assert(seq!["assign"@, "ack"@, "progress"@, "blocker"@, "handoff"@, "close"@][5] == "close"@);
    }
    if !(seq!["blocker"@, "handoff"@, "close"@].contains(k)) {
        assert(seq!["blocker"@, "handoff"@, "close"@][0] == "blocker"@);
        assert(seq!["blocker"@, "handoff"@, "close"@][1] == "handoff"@);
        assert(seq!["blocker"@, "handoff"@, "close"@][2] == "close"@);
    }
    reveal_strlit("assign");
    reveal_strlit("ack");
    reveal_strlit("progress");
    reveal_strlit("blocker");
    reveal_strlit("handoff");
    reveal_strlit("close");
    reveal_strlit("done");
    reveal_strlit("archived");
    reveal_strlit("blocked");
    reveal_strlit("review");
    assert("assign"@[1] != "ack"@[1]);
    assert("assign"@[0] != "progress"@[0]);
    assert("ack"@[0] != "progress"@[0] && "ack"@[0] != "blocker"@[0] && "ack"@[0] != "handoff"@[0]
        && "ack"@[0] != "close"@[0]);
    assert("assign"@ != "ack"@ && "assign"@ != "progress"@ && "assign"@ != "blocker"@
        && "assign"@ != "handoff"@ && "assign"@ != "close"@);
    assert("ack"@ != "progress"@ && "ack"@ != "blocker"@ && "ack"@ != "handoff"@ && "ack"@
        != "close"@);
    assert("progress"@ != "blocker"@ && "progress"@ != "handoff"@ && "progress"@ != "close"@);
    assert("blocker"@ != "handoff"@ && "blocker"@ != "close"@ && "handoff"@ != "close"@);
    if let Some(t) = ev.task_id {
        let cur = row_with(s0.task_rows(), t@);
        let state = crate::service::task_state_spec(
            k,
            ev.payload@,
            crate::store::task_record_of(cur),
        );
        let ph = json_top_level_string(ev.payload@, "phase"@);
        let st = json_top_level_string(ev.payload@, "status"@);
        if k == "ack"@ {
            assert(state == ("running"@, "planning"@));
        } else if k == "progress"@ {
            assert(state == (text_or(st, cur.status@), text_or(ph, cur.phase@)));
        }
    }
}

/// A call that keeps the runtime's layout and, in canonical mode, marks nothing dirty: every
/// dirty target afterwards was one before.
pub open spec fn keeps_canonical_clean(
    rt0: crate::service::EmberFlowRuntime,
    rt1: crate::service::EmberFlowRuntime,
) -> bool {
    &&& rt1.layout == rt0.layout
    &&& rt0.layout.mode is Canonical ==> forall|d: ProjectionDirtyTargetRecord|
        #[trigger] rt1.store.dirty_rows().contains(d) ==> rt0.store.dirty_rows().contains(d)
}

/// What one write of the runtime did, as its outcome says: creating, archiving or deleting a
/// track, writing its metadata, brief or plan, creating a task, recording an event or a
/// runtime state, claiming or releasing a lease (each at some time).
pub open spec fn runtime_write(
    rt0: crate::service::EmberFlowRuntime,
    rt1: crate::service::EmberFlowRuntime,
) -> bool {
    ||| exists|a: Seq<char>, b: Seq<char>, c: Seq<char>, r: Result<TrackRecord, EmberFlowError>|
        #[trigger] crate::service::create_track_outcome(rt0, rt1, a, b, c, r)
    ||| exists|a: Seq<char>, r: Result<TrackRecord, EmberFlowError>|
        #[trigger] crate::service::archive_outcome(rt0, rt1, a, r)
    ||| exists|a: Seq<char>, r: Result<TrackRecord, EmberFlowError>|
        #[trigger] crate::service::delete_outcome(rt0, rt1, a, r)
    ||| exists|i: TrackMetadataInput, r: Result<TrackMetadataRecord, EmberFlowError>|
        #[trigger] crate::service::metadata_outcome(rt0, rt1, i, r)
    ||| exists|a: Seq<char>, x: Seq<crate::records::TrackBriefSectionInput>, n: Seq<char>, r: Result<
        crate::records::TrackBriefRecord,
        EmberFlowError,
    >| #[trigger] crate::service::brief_outcome(rt0, rt1, a, x, n, r)
    ||| exists|a: Seq<char>, x: Seq<crate::records::TrackPlanPhaseInput>, n: Seq<char>, r: Result<
        crate::records::TrackPlanRecord,
        EmberFlowError,
    >| #[trigger] crate::service::plan_outcome(rt0, rt1, a, x, n, r)
    ||| exists|i: crate::records::TaskInput, n: Seq<char>, r: Result<TaskRecord, EmberFlowError>|
        #[trigger] crate::service::create_task_outcome(rt0, rt1, i, n, r)
    ||| exists|
        a: Seq<char>,
        tr: Option<Seq<char>>,
        tk: Option<Seq<char>>,
        k: Seq<char>,
        p: Seq<char>,
        n: Seq<char>,
        r: Result<EventRecord, EmberFlowError>,
    | #[trigger] crate::service::record_event_outcome(rt0, rt1, a, tr, tk, k, p, n, r)
    ||| exists|a: Seq<char>, b: Seq<char>, k: Seq<char>, r: Result<
        crate::service::RuntimeStateResult,
        EmberFlowError,
    >| #[trigger] crate::service::runtime_state_outcome(rt0, rt1, a, b, k, r)
    ||| exists|
        a: Seq<char>,
        h: Seq<char>,
        x: Option<Seq<char>>,
        n: Seq<char>,
        r: Result<crate::records::LeaseInfo, EmberFlowError>,
    | #[trigger] crate::service::claim_outcome(rt0, rt1, a, h, x, n, r)
    ||| exists|a: Seq<char>, h: Seq<char>, n: Seq<char>, r: Result<(), EmberFlowError>|
        #[trigger] crate::service::release_outcome(rt0, rt1, a, h, n, r)
}

/// Every write of the runtime keeps canonical mode clean.
pub proof fn lemma_writes_keep_canonical_clean(
    rt0: crate::service::EmberFlowRuntime,
    rt1: crate::service::EmberFlowRuntime,
)
    requires
        runtime_write(rt0, rt1),
    ensures
        keeps_canonical_clean(rt0, rt1),
{
    if exists|a: Seq<char>, r: Result<TrackRecord, EmberFlowError>|
        #[trigger] crate::service::delete_outcome(rt0, rt1, a, r) {
        let (a, r) = choose|a: Seq<char>, r: Result<TrackRecord, EmberFlowError>|
            #[trigger] crate::service::delete_outcome(rt0, rt1, a, r);
        if let Ok(t) = r {
            assert forall|d: ProjectionDirtyTargetRecord|
                #[trigger] rt1.store.dirty_rows().contains(d) implies rt0.store.dirty_rows().contains(
                d,
            ) by {
                assert(crate::store::track_deleted(rt0.store, rt1.store, a, t));
                let pred = |x: ProjectionDirtyTargetRecord|
                    !dirty_goes_with_track(
                        x,
                        rt0.store.event_rows(),
                        rt0.store.task_rows(),
                        rt0.store.item_rows(),
                        a,
                    );
                assert(rt1.store.dirty_rows() == rt0.store.dirty_rows().filter(pred));
                rt0.store.dirty_rows().lemma_filter_contains_rev(pred, d);
            }
        }
    }
}

/// In canonical mode the runtime never marks a projected file dirty: along any run of calls
/// that each keep canonical mode clean (as every write does, see
/// `runtime_write` and `lemma_writes_keep_canonical_clean`; reads change nothing), a canonical runtime that
/// starts with no dirty target never has one.
pub proof fn lemma_canonical_never_dirty(rts: Seq<crate::service::EmberFlowRuntime>)
    requires
        rts.len() > 0,
        rts[0].layout.mode is Canonical,
        rts[0].store.dirty_rows().len() == 0,
        forall|i: int| 0 <= i < rts.len() - 1 ==> #[trigger] keeps_canonical_clean(rts[i], rts[i + 1]),
    ensures
        forall|i: int|
            0 <= i < rts.len() ==> (#[trigger] rts[i]).layout.mode is Canonical
                && rts[i].store.dirty_rows().len() == 0,
    decreases rts.len(),
{
    if rts.len() > 1 {
        let init = rts.drop_last();
        assert forall|i: int| 0 <= i < init.len() - 1 implies #[trigger] keeps_canonical_clean(
            init[i],
            init[i + 1],
        ) by {
            assert(keeps_canonical_clean(rts[i], rts[i + 1]));
        }
        lemma_canonical_never_dirty(init);
        let n = rts.len() - 1;
        assert(init[n - 1] == rts[n - 1]);
        let j = n - 1;
        assert(keeps_canonical_clean(rts[j], rts[j + 1]));
        assert(j + 1 == n);
        let d1 = rts[n].store.dirty_rows();
        if d1.len() > 0 {
            assert(d1.contains(d1[0]));
            assert(rts[n - 1].store.dirty_rows().contains(d1[0]));
        }
        assert forall|i: int| 0 <= i < rts.len() implies (#[trigger] rts[i]).layout.mode is Canonical
            && rts[i].store.dirty_rows().len() == 0 by {
            if i < n {
                assert(init[i] == rts[i]);
            }
        }
    }
}

/// A track has at most one latest task: recency orders tasks by update time, then creation
/// time, then id, so two stored tasks never tie, and the runtime status, resume and overview
/// of a track speak of one task.
pub proof fn lemma_latest_task_unique(
    store: RuntimeStore,
    track_id: Seq<char>,
    a: TaskRecord,
    b: TaskRecord,
)
    requires
        store.wf(),
        crate::service::is_latest_task(store, track_id, Some(a)),
        crate::service::is_latest_task(store, track_id, Some(b)),
    ensures
        a == b,
{
    let tasks = store.task_rows();
    let i = choose|i: int|
        0 <= i < tasks.len() && a == crate::store::task_record_of(#[trigger] tasks[i])
            && task_on_track(tasks[i], track_id) && forall|k: int|
            0 <= k < tasks.len() && task_on_track(#[trigger] tasks[k], track_id)
                ==> !crate::store::task_recency_lt(tasks[i], tasks[k]);
    let j = choose|j: int|
        0 <= j < tasks.len() && b == crate::store::task_record_of(#[trigger] tasks[j])
            && task_on_track(tasks[j], track_id) && forall|k: int|
            0 <= k < tasks.len() && task_on_track(#[trigger] tasks[k], track_id)
                ==> !crate::store::task_recency_lt(tasks[j], tasks[k]);
    assert(!crate::store::task_recency_lt(tasks[i], tasks[j]));
    assert(!crate::store::task_recency_lt(tasks[j], tasks[i]));
    crate::text::lemma_seq_lt_total(tasks[i].updated_at@, tasks[j].updated_at@);
    crate::text::lemma_seq_lt_total(tasks[i].created_at@, tasks[j].created_at@);
    crate::text::lemma_seq_lt_total(tasks[i].id@, tasks[j].id@);
    assert(tasks[i].row_id() == tasks[j].row_id());
    crate::rows::lemma_unique_index(tasks, i, j);
}

/// Merging the contract into a file that holds no marker keeps the file's text in front and
/// adds the template's block, so that the merged file holds both markers (and merging again
/// changes nothing, see `lemma_contract_merge_idempotent`).
pub proof fn lemma_contract_merge_appends(existing: Seq<char>, template: Seq<char>)
    requires
        find_from(existing, contract_start_marker(), 0) is None,
        find_from(existing, contract_end_marker(), 0) is None,
        is_contract_block(template),
    ensures
        merged_contract(existing, template).take(trim_end_spec(existing).len() as int)
            == trim_end_spec(existing),
        exists|k: int| occurs_at(merged_contract(existing, template), contract_start_marker(), k),
        exists|k: int| occurs_at(merged_contract(existing, template), contract_end_marker(), k),
        merged_contract(merged_contract(existing, template), template) == merged_contract(
            existing,
            template,
        ),
{
    let m = merged_contract(existing, template);
    let p = paragraph_then(trim_end_spec(existing));
    let b = trim_end_spec(template);
    assert(m == p + b);
    assert(m.take(trim_end_spec(existing).len() as int) =~= trim_end_spec(existing));
    lemma_find_from_occurs(b, contract_start_marker(), 0);
    lemma_find_from_occurs(b, contract_end_marker(), 0);
    let sm = contract_start_marker();
    let em = contract_end_marker();
    let ke: int = b.len() - em.len();
    assert(m.subrange(p.len() as int, (p.len() + sm.len()) as int) =~= b.subrange(0, sm.len() as int));
    assert(occurs_at(m, sm, p.len() as int));
    assert(m.subrange(p.len() + ke, p.len() + ke + em.len()) =~= b.subrange(ke, ke + em.len()));
    assert(occurs_at(m, em, p.len() + ke));
    lemma_contract_merge_idempotent(existing, template);
}

/// When an event's payload names no status, the status on the runtime line is the one the
/// event's kind gives the task: assign queues it, ack runs it, a blocker blocks it, a handoff
/// awaits review and a close is done, whatever the task's own status was.
pub proof fn lemma_fallback_status_is_task_status(
    kind: Seq<char>,
    payload: Seq<char>,
    task: TaskRecord,
    task_status: Option<Seq<char>>,
)
    requires
        json_top_level_string(payload, "status"@) is None,
        kind == "assign"@ || kind == "ack"@ || kind == "blocker"@ || kind == "handoff"@ || kind
            == "close"@,
    ensures
        ({
            let shown = runtime_field(payload, "status"@, kind, task_status, default_status_spec(kind));
            &&& shown == task_state_spec(kind, payload, task).0
            &&& kind == "assign"@ ==> shown == "queued"@
            &&& kind == "ack"@ ==> shown == "running"@
            &&& kind == "blocker"@ ==> shown == "blocked"@
            &&& kind == "handoff"@ ==> shown == "awaiting-review"@
            &&& kind == "close"@ ==> shown == "done"@
        }),
{
    lemma_event_kinds_distinct();
}

/// The sections that carry a key.
pub open spec fn keyed(key: Seq<char>) -> spec_fn(TrackBriefSectionRecord) -> bool {
    |s: TrackBriefSectionRecord| s.section_key@ == key
}

/// A section's bullet line.
pub open spec fn bullet_line() -> spec_fn(TrackBriefSectionRecord) -> Seq<char> {
    |s: TrackBriefSectionRecord| "- "@ + s.section_text@ + "\n"@
}

/// The bullet lines for a key: one `- <text>` line for each section with that key, in the
/// sections' order.
pub open spec fn keyed_bullets(sections: Seq<TrackBriefSectionRecord>, key: Seq<char>) -> Seq<char> {
    sections.filter(keyed(key)).map_values(bullet_line()).flatten()
}

proof fn lemma_section_bullets_are_keyed(sections: Seq<TrackBriefSectionRecord>, key: Seq<char>)
    ensures
        section_bullets(sections, key) == keyed_bullets(sections, key),
    decreases sections.len(),
{
    let p = keyed(key);
    let g = bullet_line();
    if sections.len() == 0 {
        sections.lemma_filter_len(p);
        assert(sections.filter(p).map_values(g) =~= Seq::<Seq<char>>::empty());
    } else {
        let init = sections.drop_last();
        let e = sections.last();
        lemma_section_bullets_are_keyed(init, key);
        assert(init.push(e) =~= sections);
        init.lemma_filter_push(e, p);
        if p(e) {
            assert(init.filter(p).push(e).map_values(g) =~= init.filter(p).map_values(g).push(g(e)));
            init.filter(p).map_values(g).lemma_flatten_push(g(e));
        }
    }
}

/// The brief file lists, under `## Objective`, one bullet for each section whose key is
/// `objective` and, under `## Context`, one for each section whose key is `context`, each with
/// the section's text and in the sections' order; the next heading follows.
pub proof fn lemma_brief_lists_sections_by_key(
    title: Seq<char>,
    sections: Seq<TrackBriefSectionRecord>,
    root: Seq<char>,
    branch: Seq<char>,
)
    ensures
        ("# Track Brief: "@ + title + "\n\n"@
            + "This brief is the durable human-readable resume context for the track.\n\n"@
            + "## Objective\n"@ + keyed_bullets(sections, "objective"@) + "\n## Context\n"@
            + keyed_bullets(sections, "context"@) + "\n## Decisions already made\n"@).is_prefix_of(
            brief_markdown(title, sections, root, branch),
        ),
{
    lemma_section_bullets_are_keyed(sections, "objective"@);
    lemma_section_bullets_are_keyed(sections, "context"@);
    let h0 = "# Track Brief: "@ + title + "\n\n"@
        + "This brief is the durable human-readable resume context for the track.\n\n"@
        + "## Objective\n"@ + keyed_bullets(sections, "objective"@) + "\n## Context\n"@
        + keyed_bullets(sections, "context"@);
    let d = "\n## Decisions already made\n"@;
    let l1 = "\n## Decisions already made\n- <recorded decisions that should not be re-litigated>\n\n"@;
    let rest = "## Non-goals\n- <what is intentionally out of scope>\n\n"@
        + "## Current state\n- <what is done and what remains>\n\n"@
        + "## Workspace / branch / PR context\n"@ + "- Workspace: "@ + root + "\n- Branch: "@
        + branch + "\n- PRs: none\n\n"@ + "## Next step\n"@
        + "- <the very next action a fresh workspace should take>\n"@;
    let full = brief_markdown(title, sections, root, branch);
    assert(full =~= h0 + (l1 + rest));
    reveal_strlit("\n## Decisions already made\n");
    reveal_strlit("\n## Decisions already made\n- <recorded decisions that should not be re-litigated>\n\n");
    assert((l1 + rest).subrange(0, d.len() as int) =~= d);
    assert(full.subrange(0, (h0 + d).len() as int) =~= h0 + d);
}

/// The next step read from a brief is the text of its first section whose key is `next_step`,
/// and there is one exactly when some section has that key.
pub proof fn lemma_next_step_is_first_next_step_section(sections: Seq<TrackBriefSectionRecord>)
    ensures
        brief_next_step(sections) is Some <==> exists|i: int|
            0 <= i < sections.len() && #[trigger] sections[i].section_key@ == "next_step"@,
        brief_next_step(sections) matches Some(t) ==> exists|i: int|
            0 <= i < sections.len() && #[trigger] sections[i].section_key@ == "next_step"@
                && sections[i].section_text@ == t && forall|j: int|
                0 <= j < i ==> #[trigger] sections[j].section_key@ != "next_step"@,
    decreases sections.len(),
{
    if sections.len() > 0 {
        let rest = sections.drop_first();
        lemma_next_step_is_first_next_step_section(rest);
        if sections[0].section_key@ == "next_step"@ {
            assert(sections[0].section_key@ == "next_step"@);
        } else {
            if exists|i: int| 0 <= i < sections.len() && #[trigger] sections[i].section_key@ == "next_step"@ {
                let i = choose|i: int| 0 <= i < sections.len() && #[trigger] sections[i].section_key@ == "next_step"@;
                assert(rest[i - 1].section_key@ == "next_step"@);
            }
            if brief_next_step(sections) is Some {
                let t = brief_next_step(sections)->0;
                let k = choose|i: int|
                    0 <= i < rest.len() && #[trigger] rest[i].section_key@ == "next_step"@
                        && rest[i].section_text@ == t && forall|j: int|
                        0 <= j < i ==> #[trigger] rest[j].section_key@ != "next_step"@;
                assert(sections[k + 1].section_key@ == "next_step"@);
                assert forall|j: int| 0 <= j < k + 1 implies #[trigger] sections[j].section_key@ != "next_step"@ by {
                    if j > 0 {
                        assert(sections[j] == rest[j - 1]);
                    }
                }
            }
            if brief_next_step(sections) is None {
                assert forall|i: int| 0 <= i < sections.len() implies #[trigger] sections[i].section_key@ != "next_step"@ by {
                    if i > 0 {
                        assert(sections[i] == rest[i - 1]);
                    }
                }
            }
        }
    }
}

/// An event listing filtered on a track holds only events of that track, and one filtered on a
/// task only events of that task; and it holds every stored event that has those ids.
pub proof fn lemma_event_listing_keeps_exactly_matching_events(
    events: Seq<EventRecord>,
    track_id: Option<Seq<char>>,
    task_id: Option<Seq<char>>,
)
    ensures
        ({
            let listed = events.filter(|e: EventRecord| event_selected(e, track_id, task_id));
            &&& forall|i: int| 0 <= i < listed.len() ==> {
                &&& (track_id matches Some(t) ==> opt_view(#[trigger] listed[i].track_id) == Some(t))
                &&& (task_id matches Some(k) ==> opt_view(listed[i].task_id) == Some(k))
            }
            &&& forall|i: int|
                0 <= i < events.len() && (track_id matches Some(t) ==> opt_view(events[i].track_id)
                    == Some(t)) && (task_id matches Some(k) ==> opt_view(events[i].task_id) == Some(
                    k,
                )) ==> #[trigger] listed.contains(events[i])
        }),
{
    let sel = |e: EventRecord| event_selected(e, track_id, task_id);
    let listed = events.filter(sel);
    assert forall|i: int| 0 <= i < listed.len() implies sel(#[trigger] listed[i]) by {
        events.lemma_filter_pred(sel, i);
    }
    assert forall|i: int|
        0 <= i < events.len() && (track_id matches Some(t) ==> opt_view(events[i].track_id) == Some(
            t,
        )) && (task_id matches Some(k) ==> opt_view(events[i].task_id) == Some(
            k,
        )) implies #[trigger] listed.contains(events[i]) by {
        events.lemma_filter_contains(sel, i);
    }
}

/// A task's event feed holds exactly the stored events of that task, and a track's event feed
/// exactly those of that track.
pub proof fn lemma_event_feeds_hold_their_own_events(
    store: RuntimeStore,
    id: Seq<char>,
    f: EventFeed,
)
    ensures
        task_feed_is(store, id, f) ==> {
            &&& forall|i: int| 0 <= i < f.items.len() ==> opt_view(#[trigger] f.items@[i].task_id) == Some(id)
            &&& forall|i: int|
                0 <= i < store.event_rows().len() && opt_view(store.event_rows()[i].task_id) == Some(id)
                    ==> #[trigger] f.items@.contains(store.event_rows()[i])
        },
        track_feed_is(store, id, f) ==> {
            &&& forall|i: int| 0 <= i < f.items.len() ==> opt_view(#[trigger] f.items@[i].track_id) == Some(id)
            &&& forall|i: int|
                0 <= i < store.event_rows().len() && opt_view(store.event_rows()[i].track_id) == Some(id)
                    ==> #[trigger] f.items@.contains(store.event_rows()[i])
        },
{
    lemma_event_listing_keeps_exactly_matching_events(store.event_rows(), None, Some(id));
    lemma_event_listing_keeps_exactly_matching_events(store.event_rows(), Some(id), None);
}

} // verus!
