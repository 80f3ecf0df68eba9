use vstd::prelude::*;

use crate::json::{
    jint, jopt, jopt_spec, jstr, json_view_members, json_view_seq, lemma_json_view_members,
    lemma_json_view_seq, member, JsonV, JsonValue,
};
use crate::records::{
    EventRecord, LeaseInfo, TaskRecord, TrackBriefRecord, TrackBriefSectionRecord,
    TrackMetadataRecord, TrackPlanItemRecord, TrackPlanPhaseRecord, TrackPlanRecord, TrackRecord,
};
use crate::text::opt_view;

verus! {

/// A JSON object from its members.
pub open spec fn jobj(m: Seq<(Seq<char>, JsonV)>) -> JsonV {
    JsonV::Obj(m)
}

/// The JSON of a brief section, keyed in camel case.
pub open spec fn section_json(s: TrackBriefSectionRecord) -> JsonV {
    jobj(
        seq![
            ("trackId"@, JsonV::Str(s.track_id@)),
            ("sectionKey"@, JsonV::Str(s.section_key@)),
            ("sectionText"@, JsonV::Str(s.section_text@)),
            ("position"@, JsonV::Int(s.position as int)),
            ("createdAt"@, JsonV::Str(s.created_at@)),
            ("updatedAt"@, JsonV::Str(s.updated_at@)),
        ],
    )
}

/// The JSON of a brief.
pub open spec fn brief_json(b: TrackBriefRecord) -> JsonV {
    jobj(
        seq![
            ("trackId"@, JsonV::Str(b.track_id@)),
            ("sections"@, JsonV::Arr(b.sections@.map_values(|s: TrackBriefSectionRecord| section_json(s)))),
        ],
    )
}

/// The JSON of a plan item.
pub open spec fn item_json(i: TrackPlanItemRecord) -> JsonV {
    jobj(
        seq![
            ("itemId"@, JsonV::Str(i.item_id@)),
            ("trackId"@, JsonV::Str(i.track_id@)),
            ("phaseId"@, JsonV::Str(i.phase_id@)),
            ("title"@, JsonV::Str(i.title@)),
            ("position"@, JsonV::Int(i.position as int)),
            ("createdAt"@, JsonV::Str(i.created_at@)),
            ("updatedAt"@, JsonV::Str(i.updated_at@)),
        ],
    )
}

/// The JSON of a plan phase with its items.
pub open spec fn phase_json(p: TrackPlanPhaseRecord) -> JsonV {
    jobj(
        seq![
            ("phaseId"@, JsonV::Str(p.phase_id@)),
            ("trackId"@, JsonV::Str(p.track_id@)),
            ("title"@, JsonV::Str(p.title@)),
            ("position"@, JsonV::Int(p.position as int)),
            ("items"@, JsonV::Arr(p.items@.map_values(|i: TrackPlanItemRecord| item_json(i)))),
            ("createdAt"@, JsonV::Str(p.created_at@)),
            ("updatedAt"@, JsonV::Str(p.updated_at@)),
        ],
    )
}

/// The JSON of a plan.
pub open spec fn plan_json(p: TrackPlanRecord) -> JsonV {
    jobj(
        seq![
            ("trackId"@, JsonV::Str(p.track_id@)),
            ("phases"@, JsonV::Arr(p.phases@.map_values(|x: TrackPlanPhaseRecord| phase_json(x)))),
        ],
    )
}

/// The JSON of track metadata.
pub open spec fn metadata_json(m: TrackMetadataRecord) -> JsonV {
    jobj(
        seq![
            ("trackId"@, JsonV::Str(m.track_id@)),
            ("trackType"@, JsonV::Str(m.track_type@)),
            ("status"@, JsonV::Str(m.status@)),
            ("description"@, JsonV::Str(m.description@)),
            ("branch"@, JsonV::Str(m.branch@)),
            ("specRef"@, jopt_spec(opt_view(m.spec_ref))),
            ("createdAt"@, JsonV::Str(m.created_at@)),
            ("updatedAt"@, JsonV::Str(m.updated_at@)),
        ],
    )
}

/// The JSON of a track as a tool returns it.
pub open spec fn track_json(t: TrackRecord) -> JsonV {
    jobj(
        seq![
            ("id"@, JsonV::Str(t.id@)),
            ("title"@, JsonV::Str(t.title@)),
            ("status"@, JsonV::Str(t.status@)),
            ("createdAt"@, JsonV::Str(t.created_at@)),
            ("updatedAt"@, JsonV::Str(t.updated_at@)),
        ],
    )
}

/// The JSON of a task as a tool returns it; the executor is also given as `agentType`.
pub open spec fn task_json(t: TaskRecord) -> JsonV {
    jobj(
        seq![
            ("id"@, JsonV::Str(t.id@)),
            ("trackId"@, jopt_spec(opt_view(t.track_id))),
            ("planItemId"@, jopt_spec(opt_view(t.plan_item_id))),
            ("title"@, JsonV::Str(t.title@)),
            ("status"@, JsonV::Str(t.status@)),
            ("phase"@, JsonV::Str(t.phase@)),
            ("executor"@, jopt_spec(opt_view(t.executor))),
            ("agentType"@, jopt_spec(opt_view(t.executor))),
            ("agentInstanceId"@, jopt_spec(opt_view(t.agent_instance_id))),
            ("execution"@, jopt_spec(opt_view(t.execution))),
            ("intentSummary"@, jopt_spec(opt_view(t.intent_summary))),
            ("createdAt"@, JsonV::Str(t.created_at@)),
            ("updatedAt"@, JsonV::Str(t.updated_at@)),
        ],
    )
}

/// The JSON of an event; its payload is kept as the JSON text it was recorded with.
pub open spec fn event_json(e: EventRecord) -> JsonV {
    jobj(
        seq![
            ("id"@, JsonV::Str(e.id@)),
            ("trackId"@, jopt_spec(opt_view(e.track_id))),
            ("taskId"@, jopt_spec(opt_view(e.task_id))),
            ("kind"@, JsonV::Str(e.kind@)),
            ("payload"@, JsonV::Raw(e.payload@)),
            ("createdAt"@, JsonV::Str(e.created_at@)),
        ],
    )
}

/// The JSON of a lease.
pub open spec fn lease_json(l: LeaseInfo) -> JsonV {
    jobj(
        seq![
            ("holder"@, JsonV::Str(l.holder@)),
            ("acquiredAt"@, JsonV::Str(l.acquired_at@)),
            ("expiresAt"@, jopt_spec(opt_view(l.expires_at))),
        ],
    )
}

/// The JSON of a track record as the record resource shows it.
pub open spec fn track_record_json(t: TrackRecord) -> JsonV {
    jobj(
        seq![
            ("trackId"@, JsonV::Str(t.id@)),
            ("title"@, JsonV::Str(t.title@)),
            ("status"@, JsonV::Str(t.status@)),
            ("createdAt"@, JsonV::Str(t.created_at@)),
            ("updatedAt"@, JsonV::Str(t.updated_at@)),
        ],
    )
}

/// An object from its members.
pub fn object(members: Vec<(String, JsonValue)>) -> (r: JsonValue)
    ensures
        r == JsonValue::Obj(members),
        r@ == JsonV::Obj(json_view_members(members@)),
{
    JsonValue::Obj(members)
}

pub fn section_to_json(s: &TrackBriefSectionRecord) -> (r: JsonValue)
    ensures
        r@ == section_json(*s),
{
    let m = vec![
        member("trackId", jstr(s.track_id.as_str())),
        member("sectionKey", jstr(s.section_key.as_str())),
        member("sectionText", jstr(s.section_text.as_str())),
        member("position", jint(s.position)),
        member("createdAt", jstr(s.created_at.as_str())),
        member("updatedAt", jstr(s.updated_at.as_str())),
    ];
    proof {
        lemma_json_view_members(m@);
        assert(json_view_members(m@) =~= section_json(*s)->Obj_0);
    }
    JsonValue::Obj(m)
}

pub fn brief_to_json(b: &TrackBriefRecord) -> (r: JsonValue)
    ensures
        r@ == brief_json(*b),
{
    let mut items: Vec<JsonValue> = Vec::new();
    let mut i: usize = 0;
    while i < b.sections.len()
        invariant
            i <= b.sections@.len(),
            json_view_seq(items@) == b.sections@.take(i as int).map_values(
                |s: TrackBriefSectionRecord| section_json(s),
            ),
        decreases b.sections@.len() - i,
    {
        let ghost before = items@;
        items.push(section_to_json(&b.sections[i]));
        proof {
            lemma_json_view_seq(before);
            lemma_json_view_seq(items@);
            assert forall|k: int| 0 <= k < i + 1 implies json_view_seq(items@)[k] == b.sections@.take(
                i + 1,
            ).map_values(|s: TrackBriefSectionRecord| section_json(s))[k] by {
                if k < i {
                    assert(items@[k] == before[k]);
                    assert(json_view_seq(before)[k] == b.sections@.take(i as int).map_values(
                        |s: TrackBriefSectionRecord| section_json(s),
                    )[k]);
                }
            }
            assert(json_view_seq(items@) =~= b.sections@.take(i + 1).map_values(
                |s: TrackBriefSectionRecord| section_json(s),
            ));
        }
        i += 1;
    }
    proof {
        assert(b.sections@.take(b.sections@.len() as int) =~= b.sections@);
    }
    let m = vec![member("trackId", jstr(b.track_id.as_str())), member("sections", JsonValue::Arr(items))];
    proof {
        lemma_json_view_members(m@);
        assert(json_view_members(m@) =~= brief_json(*b)->Obj_0);
    }
    JsonValue::Obj(m)
}

pub fn item_to_json(it: &TrackPlanItemRecord) -> (r: JsonValue)
    ensures
        r@ == item_json(*it),
{
    let m = vec![
        member("itemId", jstr(it.item_id.as_str())),
        member("trackId", jstr(it.track_id.as_str())),
        member("phaseId", jstr(it.phase_id.as_str())),
        member("title", jstr(it.title.as_str())),
        member("position", jint(it.position)),
        member("createdAt", jstr(it.created_at.as_str())),
        member("updatedAt", jstr(it.updated_at.as_str())),
    ];
    proof {
        lemma_json_view_members(m@);
        assert(json_view_members(m@) =~= item_json(*it)->Obj_0);
    }
    JsonValue::Obj(m)
}

pub fn phase_to_json(p: &TrackPlanPhaseRecord) -> (r: JsonValue)
    ensures
        r@ == phase_json(*p),
{
    let mut items: Vec<JsonValue> = Vec::new();
    let mut i: usize = 0;
    while i < p.items.len()
        invariant
            i <= p.items@.len(),
            json_view_seq(items@) == p.items@.take(i as int).map_values(
                |x: TrackPlanItemRecord| item_json(x),
            ),
        decreases p.items@.len() - i,
    {
        let ghost before = items@;
        items.push(item_to_json(&p.items[i]));
        proof {
            lemma_json_view_seq(before);
            lemma_json_view_seq(items@);
            assert forall|k: int| 0 <= k < i + 1 implies json_view_seq(items@)[k] == p.items@.take(
                i + 1,
            ).map_values(|x: TrackPlanItemRecord| item_json(x))[k] by {
                if k < i {
                    assert(items@[k] == before[k]);
                    assert(json_view_seq(before)[k] == p.items@.take(i as int).map_values(
                        |x: TrackPlanItemRecord| item_json(x),
                    )[k]);
                }
            }
            assert(json_view_seq(items@) =~= p.items@.take(i + 1).map_values(
                |x: TrackPlanItemRecord| item_json(x),
            ));
        }
        i += 1;
    }
    proof {
        assert(p.items@.take(p.items@.len() as int) =~= p.items@);
    }
    let m = vec![
        member("phaseId", jstr(p.phase_id.as_str())),
        member("trackId", jstr(p.track_id.as_str())),
        member("title", jstr(p.title.as_str())),
        member("position", jint(p.position)),
        member("items", JsonValue::Arr(items)),
        member("createdAt", jstr(p.created_at.as_str())),
        member("updatedAt", jstr(p.updated_at.as_str())),
    ];
    proof {
        lemma_json_view_members(m@);
        assert(json_view_members(m@) =~= phase_json(*p)->Obj_0);
    }
    JsonValue::Obj(m)
}

pub fn plan_to_json(p: &TrackPlanRecord) -> (r: JsonValue)
    ensures
        r@ == plan_json(*p),
{
    let mut items: Vec<JsonValue> = Vec::new();
    let mut i: usize = 0;
    while i < p.phases.len()
        invariant
            i <= p.phases@.len(),
            json_view_seq(items@) == p.phases@.take(i as int).map_values(
                |x: TrackPlanPhaseRecord| phase_json(x),
            ),
        decreases p.phases@.len() - i,
    {
        let ghost before = items@;
        items.push(phase_to_json(&p.phases[i]));
        proof {
            lemma_json_view_seq(before);
            lemma_json_view_seq(items@);
            assert forall|k: int| 0 <= k < i + 1 implies json_view_seq(items@)[k] == p.phases@.take(
                i + 1,
            ).map_values(|x: TrackPlanPhaseRecord| phase_json(x))[k] by {
                if k < i {
                    assert(items@[k] == before[k]);
                    assert(json_view_seq(before)[k] == p.phases@.take(i as int).map_values(
                        |x: TrackPlanPhaseRecord| phase_json(x),
                    )[k]);
                }
            }
            assert(json_view_seq(items@) =~= p.phases@.take(i + 1).map_values(
                |x: TrackPlanPhaseRecord| phase_json(x),
            ));
        }
        i += 1;
    }
    proof {
        assert(p.phases@.take(p.phases@.len() as int) =~= p.phases@);
    }
    let m = vec![member("trackId", jstr(p.track_id.as_str())), member("phases", JsonValue::Arr(items))];
    proof {
        lemma_json_view_members(m@);
        assert(json_view_members(m@) =~= plan_json(*p)->Obj_0);
    }
    JsonValue::Obj(m)
}

pub fn metadata_to_json(md: &TrackMetadataRecord) -> (r: JsonValue)
    ensures
        r@ == metadata_json(*md),
{
    let m = vec![
        member("trackId", jstr(md.track_id.as_str())),
        member("trackType", jstr(md.track_type.as_str())),
        member("status", jstr(md.status.as_str())),
        member("description", jstr(md.description.as_str())),
        member("branch", jstr(md.branch.as_str())),
        member("specRef", jopt(&md.spec_ref)),
        member("createdAt", jstr(md.created_at.as_str())),
        member("updatedAt", jstr(md.updated_at.as_str())),
    ];
    proof {
        lemma_json_view_members(m@);
        assert(json_view_members(m@) =~= metadata_json(*md)->Obj_0);
    }
    JsonValue::Obj(m)
}

pub fn track_to_json(t: &TrackRecord) -> (r: JsonValue)
    ensures
        r@ == track_json(*t),
{
    let m = vec![
        member("id", jstr(t.id.as_str())),
        member("title", jstr(t.title.as_str())),
        member("status", jstr(t.status.as_str())),
        member("createdAt", jstr(t.created_at.as_str())),
        member("updatedAt", jstr(t.updated_at.as_str())),
    ];
    proof {
        lemma_json_view_members(m@);
        assert(json_view_members(m@) =~= track_json(*t)->Obj_0);
    }
    JsonValue::Obj(m)
}

pub fn track_record_to_json(t: &TrackRecord) -> (r: JsonValue)
    ensures
        r@ == track_record_json(*t),
{
    let m = vec![
        member("trackId", jstr(t.id.as_str())),
        member("title", jstr(t.title.as_str())),
        member("status", jstr(t.status.as_str())),
        member("createdAt", jstr(t.created_at.as_str())),
        member("updatedAt", jstr(t.updated_at.as_str())),
    ];
    proof {
        lemma_json_view_members(m@);
        assert(json_view_members(m@) =~= track_record_json(*t)->Obj_0);
    }
    JsonValue::Obj(m)
}

pub fn task_to_json(t: &TaskRecord) -> (r: JsonValue)
    ensures
        r@ == task_json(*t),
{
    let m = vec![
        member("id", jstr(t.id.as_str())),
        member("trackId", jopt(&t.track_id)),
        member("planItemId", jopt(&t.plan_item_id)),
        member("title", jstr(t.title.as_str())),
        member("status", jstr(t.status.as_str())),
        member("phase", jstr(t.phase.as_str())),
        member("executor", jopt(&t.executor)),
        member("agentType", jopt(&t.executor)),
        member("agentInstanceId", jopt(&t.agent_instance_id)),
        member("execution", jopt(&t.execution)),
        member("intentSummary", jopt(&t.intent_summary)),
        member("createdAt", jstr(t.created_at.as_str())),
        member("updatedAt", jstr(t.updated_at.as_str())),
    ];
    proof {
        lemma_json_view_members(m@);
        assert(json_view_members(m@) =~= task_json(*t)->Obj_0);
    }
    JsonValue::Obj(m)
}

pub fn event_to_json(e: &EventRecord) -> (r: JsonValue)
    ensures
        r@ == event_json(*e),
{
    let m = vec![
        member("id", jstr(e.id.as_str())),
        member("trackId", jopt(&e.track_id)),
        member("taskId", jopt(&e.task_id)),
        member("kind", jstr(e.kind.as_str())),
        member("payload", JsonValue::Raw(e.payload.clone())),
        member("createdAt", jstr(e.created_at.as_str())),
    ];
    proof {
        lemma_json_view_members(m@);
        assert(json_view_members(m@) =~= event_json(*e)->Obj_0);
    }
    JsonValue::Obj(m)
}

pub fn lease_to_json(l: &LeaseInfo) -> (r: JsonValue)
    ensures
        r@ == lease_json(*l),
{
    let m = vec![
        member("holder", jstr(l.holder.as_str())),
        member("acquiredAt", jstr(l.acquired_at.as_str())),
        member("expiresAt", jopt(&l.expires_at)),
    ];
    proof {
        lemma_json_view_members(m@);
        assert(json_view_members(m@) =~= lease_json(*l)->Obj_0);
    }
    JsonValue::Obj(m)
}

} // verus!
