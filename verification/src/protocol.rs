use vstd::prelude::*;

use crate::error::{is_unsupported, unsupported, EmberFlowError};
use crate::text::str_in;

verus! {

pub open spec fn track_statuses() -> Seq<Seq<char>> {
    seq!["planning"@, "in-progress"@, "blocked"@, "review"@, "done"@, "archived"@]
}

pub open spec fn task_statuses() -> Seq<Seq<char>> {
    seq![
        "queued"@,
        "running"@,
        "need-input"@,
        "blocked"@,
        "awaiting-review"@,
        "done"@,
        "failed"@,
        "cancelled"@,
    ]
}

pub open spec fn phases() -> Seq<Seq<char>> {
    seq!["exploring"@, "planning"@, "implementing"@, "reviewing"@, "verifying"@]
}

pub open spec fn runtime_messages() -> Seq<Seq<char>> {
    seq![
        "assign"@,
        "ack"@,
        "progress"@,
        "blocker"@,
        "handoff"@,
        "close"@,
        "claim"@,
        "release"@,
        "lease-expired"@,
    ]
}

pub open spec fn standard_tools() -> Seq<Seq<char>> {
    seq![
        "emberflow-track-create"@,
        "emberflow-track-metadata-upsert"@,
        "emberflow-track-brief-replace"@,
        "emberflow-track-plan-replace"@,
        "emberflow-track-archive"@,
        "emberflow-track-delete"@,
        "emberflow-task-create"@,
        "emberflow-event-record"@,
        "emberflow-task-claim"@,
        "emberflow-task-release"@,
    ]
}

/// The tool names are all different.
pub proof fn lemma_standard_tools_distinct()
    ensures
        forall|i: int, j: int|
            0 <= i < 10 && 0 <= j < 10 && i != j ==> #[trigger] standard_tools()[i]
                != #[trigger] standard_tools()[j],
        forall|i: int|
            0 <= i < 10 ==> (#[trigger] standard_tools()[i]).len() >= 20 && standard_tools()[i][0]
                == 'e',
{
    reveal_strlit("emberflow-track-create");
    reveal_strlit("emberflow-track-metadata-upsert");
    reveal_strlit("emberflow-track-brief-replace");
    reveal_strlit("emberflow-track-plan-replace");
    reveal_strlit("emberflow-track-archive");
    reveal_strlit("emberflow-track-delete");
    reveal_strlit("emberflow-task-create");
    reveal_strlit("emberflow-event-record");
    reveal_strlit("emberflow-task-claim");
    reveal_strlit("emberflow-task-release");
    let t = standard_tools();
    assert(t[0][16] != t[5][16]);
    assert(t[0][10] != t[7][10]);
    assert(t[5][10] != t[7][10]);
    assert(t[9][10] != t[7][10]);
    assert(t[0][11] != t[9][11]);
    assert(t[5][11] != t[9][11]);
    assert(t[0].len() == 22 && t[1].len() == 31 && t[2].len() == 29 && t[3].len() == 28);
    assert(t[4].len() == 23 && t[5].len() == 22 && t[6].len() == 21 && t[7].len() == 22);
    assert(t[8].len() == 20 && t[9].len() == 22);
    assert forall|i: int, j: int| 0 <= i < 10 && 0 <= j < 10 && i != j implies #[trigger] t[i]
        != #[trigger] t[j] by {
        if t[i] == t[j] {
            assert(t[i].len() == t[j].len());
            if t[i].len() == 22 {
                assert(t[i][10] == t[j][10]);
                assert(t[i][11] == t[j][11]);
                assert(t[i][16] == t[j][16]);
            }
        }
    }
}

pub open spec fn views_of(s: Seq<&str>) -> Seq<Seq<char>> {
    s.map_values(|x: &str| x@)
}

/// The statuses a track can have.
pub fn track_status_values() -> (r: Vec<&'static str>)
    ensures
        views_of(r@) == track_statuses(),
{
    let r = vec!["planning", "in-progress", "blocked", "review", "done", "archived"];
    assert(views_of(r@) =~= track_statuses());
    r
}

/// The statuses a task can have.
pub fn task_status_values() -> (r: Vec<&'static str>)
    ensures
        views_of(r@) == task_statuses(),
{
    let r = vec![
        "queued",
        "running",
        "need-input",
        "blocked",
        "awaiting-review",
        "done",
        "failed",
        "cancelled",
    ];
    assert(views_of(r@) =~= task_statuses());
    r
}

/// The phases a task can be in.
pub fn phase_values() -> (r: Vec<&'static str>)
    ensures
        views_of(r@) == phases(),
{
    let r = vec!["exploring", "planning", "implementing", "reviewing", "verifying"];
    assert(views_of(r@) =~= phases());
    r
}

/// The kinds of runtime messages an event can carry.
pub fn runtime_message_values() -> (r: Vec<&'static str>)
    ensures
        views_of(r@) == runtime_messages(),
{
    let r = vec![
        "assign",
        "ack",
        "progress",
        "blocker",
        "handoff",
        "close",
        "claim",
        "release",
        "lease-expired",
    ];
    assert(views_of(r@) =~= runtime_messages());
    r
}

/// The names of the write tools.
pub fn standard_tool_values() -> (r: Vec<&'static str>)
    ensures
        views_of(r@) == standard_tools(),
{
    let r = vec![
        "emberflow-track-create",
        "emberflow-track-metadata-upsert",
        "emberflow-track-brief-replace",
        "emberflow-track-plan-replace",
        "emberflow-track-archive",
        "emberflow-track-delete",
        "emberflow-task-create",
        "emberflow-event-record",
        "emberflow-task-claim",
        "emberflow-task-release",
    ];
    assert(views_of(r@) =~= standard_tools());
    r
}

/// Accepts `value` when it is one of `allowed`; otherwise reports it as unsupported for `field`.
pub fn validate_choice(value: &str, allowed: &[&str], field: &str) -> (r: Result<(), EmberFlowError>)
    ensures
        r is Ok <==> views_of(allowed@).contains(value@),
        r matches Err(e) ==> is_unsupported(e, field@, value@),
{
    if str_in(value, allowed) {
        proof {
            let i = choose|i: int| 0 <= i < allowed@.len() && (#[trigger] allowed@[i])@ == value@;
            assert(views_of(allowed@)[i] == value@);
        }
        Ok(())
    } else {
        proof {
            if views_of(allowed@).contains(value@) {
                let i = choose|i: int|
                    0 <= i < views_of(allowed@).len() && views_of(allowed@)[i] == value@;
                assert(allowed@[i]@ == value@);
            }
        }
        Err(unsupported(field, value))
    }
}

pub fn validate_track_status(value: &str) -> (r: Result<(), EmberFlowError>)
    ensures
        r is Ok <==> track_statuses().contains(value@),
        r matches Err(e) ==> is_unsupported(e, "status"@, value@),
{
    let allowed = track_status_values();
    validate_choice(value, allowed.as_slice(), "status")
}

pub fn validate_task_status(value: &str) -> (r: Result<(), EmberFlowError>)
    ensures
        r is Ok <==> task_statuses().contains(value@),
        r matches Err(e) ==> is_unsupported(e, "status"@, value@),
{
    let allowed = task_status_values();
    validate_choice(value, allowed.as_slice(), "status")
}

pub fn validate_phase(value: &str) -> (r: Result<(), EmberFlowError>)
    ensures
        r is Ok <==> phases().contains(value@),
        r matches Err(e) ==> is_unsupported(e, "phase"@, value@),
{
    let allowed = phase_values();
    validate_choice(value, allowed.as_slice(), "phase")
}

pub fn validate_kind(value: &str) -> (r: Result<(), EmberFlowError>)
    ensures
        r is Ok <==> runtime_messages().contains(value@),
        r matches Err(e) ==> is_unsupported(e, "kind"@, value@),
{
    let allowed = runtime_message_values();
    validate_choice(value, allowed.as_slice(), "kind")
}

} // verus!
