use vstd::prelude::*;

use crate::json::{json_text_get_str, json_top_level_string};
use crate::layout::{projected_runtime_status_path, runtime_status_path_spec};
use crate::records::{EventRecord, TaskRecord, TrackRecord};
use crate::text::{cat, cat3, owned, str_eq};

verus! {

/// What a user reads of an event.
#[derive(Debug, Clone, PartialEq, Eq)]
pub struct UserProjection {
    pub event_id: String,
    pub kind: String,
    pub format: String,
    pub summary: String,
    pub line: String,
}

/// The runtime status line an event leads to.
#[derive(Debug, Clone, PartialEq, Eq)]
pub struct RuntimeProjection {
    pub event_id: String,
    pub kind: String,
    pub target_path: String,
    pub line_format: String,
    pub line: String,
    pub status: String,
    pub phase: String,
    pub details: String,
}

/// What an event changes durably on its track.
#[derive(Debug, Clone, PartialEq, Eq)]
pub struct TrackProjection {
    pub event_id: String,
    pub track_id: String,
    pub kind: String,
    pub summary: String,
    pub durable_change: String,
    pub status: Option<String>,
}

/// Turns events into the views that users, the runtime status and tracks show.
#[derive(Debug, Default, Clone)]
pub struct ProjectionEngine;

/// The payload keys that may describe an event, in the order they are looked up.
pub open spec fn detail_keys() -> Seq<Seq<char>> {
    seq!["summary"@, "current_action"@, "understanding"@, "goal"@, "recommendation"@, "details"@]
}

/// The first of `keys` that the payload holds as a string, if any.
pub open spec fn found_detail(payload: Seq<char>, keys: Seq<Seq<char>>) -> Option<Seq<char>>
    decreases keys.len(),
{
    if keys.len() == 0 {
        None
    } else {
        match json_top_level_string(payload, keys[0]) {
            Some(v) => Some(v),
            None => found_detail(payload, keys.drop_first()),
        }
    }
}

/// What an event's payload says it is about, if it says.
pub open spec fn payload_details(payload: Seq<char>) -> Option<Seq<char>> {
    found_detail(payload, detail_keys())
}

/// What an event's payload says it is about, else `update`.
pub open spec fn details_spec(payload: Seq<char>) -> Seq<char> {
    match payload_details(payload) {
        Some(v) => v,
        None => "update"@,
    }
}

/// The six event kinds of the protocol are six different words.
pub proof fn lemma_event_kinds_distinct()
    ensures
        "assign"@ != "ack"@,
        "assign"@ != "progress"@,
        "assign"@ != "blocker"@,
        "assign"@ != "handoff"@,
        "assign"@ != "close"@,
        "ack"@ != "progress"@,
        "ack"@ != "blocker"@,
        "ack"@ != "handoff"@,
        "ack"@ != "close"@,
        "progress"@ != "blocker"@,
        "progress"@ != "handoff"@,
        "progress"@ != "close"@,
        "blocker"@ != "handoff"@,
        "blocker"@ != "close"@,
        "handoff"@ != "close"@,
{
    reveal_strlit("assign");
    reveal_strlit("ack");
    reveal_strlit("progress");
    reveal_strlit("blocker");
    reveal_strlit("handoff");
    reveal_strlit("close");
    assert("blocker"@[0] != "handoff"@[0]);
    assert("assign"@[1] != "ack"@[1]);
    assert("assign"@[0] != "progress"@[0]);
}

/// The task status an event kind stands for when its payload names none.
pub open spec fn default_status_spec(kind: Seq<char>) -> Seq<char> {
    if kind == "assign"@ {
        "queued"@
    } else if kind == "blocker"@ {
        "blocked"@
    } else if kind == "handoff"@ {
        "awaiting-review"@
    } else if kind == "close"@ {
        "done"@
    } else {
        "running"@
    }
}

/// The task phase an event kind stands for when its payload names none.
pub open spec fn default_phase_spec(kind: Seq<char>) -> Seq<char> {
    if kind == "progress"@ || kind == "blocker"@ {
        "implementing"@
    } else if kind == "handoff"@ || kind == "close"@ {
        "verifying"@
    } else {
        "planning"@
    }
}

/// The word a user summary starts with.
pub open spec fn summary_prefix(kind: Seq<char>) -> Seq<char> {
    if kind == "assign"@ {
        "Delegation"@
    } else if kind == "ack"@ {
        "Ack"@
    } else if kind == "progress"@ {
        "Progress"@
    } else if kind == "blocker"@ {
        "Blocker"@
    } else if kind == "handoff"@ {
        "Handoff"@
    } else if kind == "close"@ {
        "Close"@
    } else {
        "Update"@
    }
}

/// A payload string, or the given fallback.
pub open spec fn payload_or(payload: Seq<char>, key: Seq<char>, fallback: Seq<char>) -> Seq<char> {
    match json_top_level_string(payload, key) {
        Some(v) => v,
        None => fallback,
    }
}

/// The one-line summary of an event for a user: prefix, agent when named, status and phase,
/// and details, joined by dashes.
pub open spec fn user_summary(kind: Seq<char>, payload: Seq<char>) -> Seq<char> {
    let sep = " — "@;
    let status = payload_or(payload, "status"@, default_status_spec(kind));
    let phase = payload_or(payload, "phase"@, default_phase_spec(kind));
    let head = match json_top_level_string(payload, "agent"@) {
        Some(agent) => summary_prefix(kind) + sep + agent,
        None => summary_prefix(kind),
    };
    head + sep + status + " / "@ + phase + sep + details_spec(payload)
}

/// A value for the runtime line: the payload's, else the task's for a progress event, else the
/// kind's default.
pub open spec fn runtime_field(
    payload: Seq<char>,
    key: Seq<char>,
    kind: Seq<char>,
    task_value: Option<Seq<char>>,
    fallback: Seq<char>,
) -> Seq<char> {
    match json_top_level_string(payload, key) {
        Some(v) => v,
        None => if kind == "progress"@ && task_value is Some {
            task_value->0
        } else {
            fallback
        },
    }
}

/// The runtime status line.
pub open spec fn runtime_line(phase: Seq<char>, status: Seq<char>, details: Seq<char>) -> Seq<
    char,
> {
    "phase: "@ + phase + " | status: "@ + status + " | details: "@ + details
}

/// The track status an event kind sets, and how the change is named.
pub open spec fn track_change(kind: Seq<char>, current: Seq<char>) -> (Seq<char>, Seq<char>) {
    if kind == "blocker"@ {
        ("blocked"@, "status:blocked"@)
    } else if kind == "handoff"@ {
        ("review"@, "status:review"@)
    } else if kind == "close"@ {
        ("done"@, "status:done"@)
    } else {
        (current, "none"@)
    }
}

fn payload_str(payload: &str, key: &str) -> (r: Option<String>)
    ensures
        crate::text::opt_view(r) == json_top_level_string(payload@, key@),
{
    json_text_get_str(payload, key)
}

impl ProjectionEngine {
    /// What the payload says the event is about, if it says: the first of summary, current
    /// action, understanding, goal, recommendation and details that it holds as a string.
    pub fn found_details(&self, payload: &str) -> (r: Option<String>)
        ensures
            crate::text::opt_view(r) == payload_details(payload@),
    {
        let keys = ["summary", "current_action", "understanding", "goal", "recommendation", "details"];
        let ghost ks = detail_keys();
        assert(ks.skip(0) =~= ks);
        let mut i: usize = 0;
        while i < 6
            invariant
                i <= 6,
                ks == detail_keys(),
                keys@.len() == 6,
                forall|j: int| 0 <= j < 6 ==> (#[trigger] keys@[j])@ == ks[j],
                found_detail(payload@, ks.skip(i as int)) == payload_details(payload@),
            decreases 6 - i,
        {
            proof {
                assert(ks.skip(i as int).drop_first() =~= ks.skip(i + 1));
                assert(ks.skip(i as int)[0] == ks[i as int]);
            }
            match payload_str(payload, keys[i]) {
                Some(v) => {
                    return Some(v);
                },
                None => {},
            }
            i += 1;
        }
        proof {
            assert(ks.skip(6) =~= Seq::<Seq<char>>::empty());
        }
        None
    }

    /// What the payload says the event is about, else `update`.
    pub fn details(&self, payload: &str) -> (r: String)
        ensures
            r@ == details_spec(payload@),
    {
        match self.found_details(payload) {
            Some(v) => v,
            None => owned("update"),
        }
    }

    /// The task status an event kind stands for when its payload names none.
    pub fn default_status(&self, kind: &str) -> (r: &'static str)
        ensures
            r@ == default_status_spec(kind@),
            kind@ == "assign"@ ==> r@ == "queued"@,
            kind@ == "blocker"@ ==> r@ == "blocked"@,
            kind@ == "handoff"@ ==> r@ == "awaiting-review"@,
            kind@ == "close"@ ==> r@ == "done"@,
            kind@ == "ack"@ || kind@ == "progress"@ ==> r@ == "running"@,
    {
        proof {
            reveal_strlit("assign");
            reveal_strlit("ack");
            reveal_strlit("progress");
            reveal_strlit("blocker");
            reveal_strlit("handoff");
            reveal_strlit("close");
            reveal_strlit("queued");
            reveal_strlit("running");
            reveal_strlit("blocked");
            reveal_strlit("awaiting-review");
            reveal_strlit("done");
        }
        proof {
            lemma_event_kinds_distinct();
        }
        if str_eq(kind, "assign") {
            "queued"
        } else if str_eq(kind, "blocker") {
            "blocked"
        } else if str_eq(kind, "handoff") {
            "awaiting-review"
        } else if str_eq(kind, "close") {
            "done"
        } else {
            "running"
        }
    }

    /// The task phase an event kind stands for when its payload names none.
    pub fn default_phase(&self, kind: &str) -> (r: &'static str)
        ensures
            r@ == default_phase_spec(kind@),
            kind@ == "progress"@ || kind@ == "blocker"@ ==> r@ == "implementing"@,
            kind@ == "handoff"@ || kind@ == "close"@ ==> r@ == "verifying"@,
            kind@ == "assign"@ || kind@ == "ack"@ ==> r@ == "planning"@,
    {
        proof {
            reveal_strlit("assign");
            reveal_strlit("ack");
            reveal_strlit("progress");
            reveal_strlit("blocker");
            reveal_strlit("handoff");
            reveal_strlit("close");
            reveal_strlit("implementing");
            reveal_strlit("verifying");
            reveal_strlit("planning");
        }
        proof {
            lemma_event_kinds_distinct();
        }
        if str_eq(kind, "progress") || str_eq(kind, "blocker") {
            "implementing"
        } else if str_eq(kind, "handoff") || str_eq(kind, "close") {
            "verifying"
        } else {
            "planning"
        }
    }

    fn prefix(&self, kind: &str) -> (r: &'static str)
        ensures
            r@ == summary_prefix(kind@),
    {
        proof {
            reveal_strlit("assign");
            reveal_strlit("ack");
            reveal_strlit("progress");
            reveal_strlit("blocker");
            reveal_strlit("handoff");
            reveal_strlit("close");
            reveal_strlit("Delegation");
            reveal_strlit("Ack");
            reveal_strlit("Progress");
            reveal_strlit("Blocker");
            reveal_strlit("Handoff");
            reveal_strlit("Close");
            reveal_strlit("Update");
        }
        if str_eq(kind, "assign") {
            "Delegation"
        } else if str_eq(kind, "ack") {
            "Ack"
        } else if str_eq(kind, "progress") {
            "Progress"
        } else if str_eq(kind, "blocker") {
            "Blocker"
        } else if str_eq(kind, "handoff") {
            "Handoff"
        } else if str_eq(kind, "close") {
            "Close"
        } else {
            "Update"
        }
    }

    /// The one-line summary of an event for a user, such as
    /// `Progress — agent — running / implementing — what happened`.
    pub fn summary_for_user(&self, kind: &str, payload: &str) -> (r: String)
        ensures
            r@ == user_summary(kind@, payload@),
    {
        let summary = self.details(payload);
        let status = match payload_str(payload, "status") {
            Some(s) => s,
            None => owned(self.default_status(kind)),
        };
        let phase = match payload_str(payload, "phase") {
            Some(p) => p,
            None => owned(self.default_phase(kind)),
        };
        let sep = " — ";
        let head = match payload_str(payload, "agent") {
            Some(agent) => cat3(self.prefix(kind), sep, agent.as_str()),
            None => owned(self.prefix(kind)),
        };
        let a = cat3(head.as_str(), sep, status.as_str());
        let b = cat3(a.as_str(), " / ", phase.as_str());
        let r = cat3(b.as_str(), sep, summary.as_str());
        proof {
            reveal_strlit(" — ");
            reveal_strlit(" / ");
            assert(r@ =~= user_summary(kind@, payload@));
        }
        r
    }

    /// The view of an event for a user.
    pub fn project_user_view(&self, event: &EventRecord) -> (r: UserProjection)
        ensures
            r.event_id == event.id,
            r.kind == event.kind,
            r.format@ == "plain-text"@,
            r.summary@ == user_summary(event.kind@, event.payload@),
            r.line@ == r.summary@,
    {
        let summary = self.summary_for_user(event.kind.as_str(), event.payload.as_str());
        UserProjection {
            event_id: event.id.clone(),
            kind: event.kind.clone(),
            format: owned("plain-text"),
            summary: summary.clone(),
            line: summary,
        }
    }

    /// The runtime status line an event leads to; a progress event keeps the task's phase and
    /// status where its payload names none.
    pub fn project_runtime_view(&self, event: &EventRecord, task: Option<&TaskRecord>) -> (r:
        RuntimeProjection)
        ensures
            ({
                let task_phase = match task {
                    Some(t) => Some(t.phase@),
                    None => None,
                };
                let task_status = match task {
                    Some(t) => Some(t.status@),
                    None => None,
                };
                let phase = runtime_field(
                    event.payload@,
                    "phase"@,
                    event.kind@,
                    task_phase,
                    default_phase_spec(event.kind@),
                );
                let status = runtime_field(
                    event.payload@,
                    "status"@,
                    event.kind@,
                    task_status,
                    default_status_spec(event.kind@),
                );
                &&& r.event_id == event.id
                &&& r.kind == event.kind
                &&& r.target_path@ == runtime_status_path_spec()
                &&& r.line_format@ == "phase: ... | status: ... | details: ..."@
                &&& r.phase@ == phase
                &&& r.status@ == status
                &&& r.details@ == details_spec(event.payload@)
                &&& r.line@ == runtime_line(phase, status, r.details@)
            }),
            json_top_level_string(event.payload@, "status"@) is None ==> {
                let k = event.kind@;
                &&& k == "assign"@ ==> r.status@ == "queued"@
                &&& k == "blocker"@ ==> r.status@ == "blocked"@
                &&& k == "handoff"@ ==> r.status@ == "awaiting-review"@
                &&& k == "close"@ ==> r.status@ == "done"@
                &&& k == "ack"@ ==> r.status@ == "running"@
            },
            json_top_level_string(event.payload@, "phase"@) is None ==> {
                let k = event.kind@;
                &&& k == "assign"@ || k == "ack"@ ==> r.phase@ == "planning"@
                &&& k == "blocker"@ ==> r.phase@ == "implementing"@
                &&& k == "handoff"@ || k == "close"@ ==> r.phase@ == "verifying"@
            },
    {
        proof {
            reveal_strlit("assign");
            reveal_strlit("ack");
            reveal_strlit("blocker");
            reveal_strlit("handoff");
            reveal_strlit("close");
            reveal_strlit("queued");
            reveal_strlit("running");
            reveal_strlit("blocked");
            reveal_strlit("awaiting-review");
            reveal_strlit("done");
            reveal_strlit("planning");
            reveal_strlit("implementing");
            reveal_strlit("verifying");
            lemma_event_kinds_distinct();
        }
        let is_progress = str_eq(event.kind.as_str(), "progress");
        proof {
            reveal_strlit("progress");
        }
        let phase = match payload_str(event.payload.as_str(), "phase") {
            Some(p) => p,
            None => match task {
                Some(t) if is_progress => t.phase.clone(),
                _ => owned(self.default_phase(event.kind.as_str())),
            },
        };
        let status = match payload_str(event.payload.as_str(), "status") {
            Some(s) => s,
            None => match task {
                Some(t) if is_progress => t.status.clone(),
                _ => owned(self.default_status(event.kind.as_str())),
            },
        };
        let details = self.details(event.payload.as_str());
        let a = cat3("phase: ", phase.as_str(), " | status: ");
        let b = cat3(a.as_str(), status.as_str(), " | details: ");
        let line = cat(b.as_str(), details.as_str());
        proof {
            assert(line@ =~= runtime_line(phase@, status@, details@));
        }
        RuntimeProjection {
            event_id: event.id.clone(),
            kind: event.kind.clone(),
            target_path: owned(projected_runtime_status_path()),
            line_format: owned("phase: ... | status: ... | details: ..."),
            line,
            status,
            phase,
            details,
        }
    }

    /// The track status an event kind sets (`blocker` blocks, `handoff` sends to review,
    /// `close` finishes; other kinds keep `current_status`), and how the change is named.
    pub fn track_projection(&self, kind: &str, current_status: &str) -> (r: (Option<String>, String))
        ensures
            r.0 matches Some(s) && s@ == track_change(kind@, current_status@).0,
            r.1@ == track_change(kind@, current_status@).1,
    {
        proof {
            reveal_strlit("blocker");
            reveal_strlit("handoff");
            reveal_strlit("close");
        }
        if str_eq(kind, "blocker") {
            (Some(owned("blocked")), owned("status:blocked"))
        } else if str_eq(kind, "handoff") {
            (Some(owned("review")), owned("status:review"))
        } else if str_eq(kind, "close") {
            (Some(owned("done")), owned("status:done"))
        } else {
            (Some(owned(current_status)), owned("none"))
        }
    }

    /// What an event changes durably on its track.
    pub fn project_track_view(&self, event: &EventRecord, track: &TrackRecord) -> (r:
        TrackProjection)
        ensures
            r.event_id == event.id,
            r.track_id == track.id,
            r.kind == event.kind,
            r.summary@ == details_spec(event.payload@),
            r.status matches Some(s) && s@ == track_change(event.kind@, track.status@).0,
            r.durable_change@ == track_change(event.kind@, track.status@).1,
    {
        let summary = self.details(event.payload.as_str());
        let (status, durable_change) = self.track_projection(
            event.kind.as_str(),
            track.status.as_str(),
        );
        TrackProjection {
            event_id: event.id.clone(),
            track_id: track.id.clone(),
            kind: event.kind.clone(),
            summary,
            durable_change,
            status,
        }
    }
}

} // verus!
