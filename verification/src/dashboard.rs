//! The platform dashboard and the attendance alerts: the counts shown in the KPI cards,
//! the points of the license distribution chart, the activity log, and the students
//! flagged for low attendance.
use vstd::prelude::*;
use vstd::string::StringExecFns;
use crate::json::{
    Json, JsonView, field_of, int_field_or, int_under, items_under, items_view, lemma_items_view,
    lemma_member_at, lemma_members_view, members_view, text_field, text_or_empty,
};

verus! {

/// The count under `key`, or 0.
pub open spec fn count_or_zero(v: JsonView, key: Seq<char>) -> i64 {
    match int_under(v, key) {
        Some(n) => n,
        None => 0,
    }
}

/// The counts of the platform's KPI cards: active corporations, schools, students,
/// employees, active licenses, and licenses that expire within 30 days.
pub struct PlatformKpis {
    pub active_corporations: i64,
    pub schools: i64,
    pub students: i64,
    pub employees: i64,
    pub active_licenses: i64,
    pub expiring_licenses: i64,
}

/// The KPI counts once the summary has arrived (each 0 when missing), and none while it
/// is pending or when it failed.
pub fn platform_kpis(summary: &Option<Result<Json, String>>) -> (r: Option<PlatformKpis>)
    ensures
        match summary {
            Some(Ok(d)) => r matches Some(k) && k.active_corporations == count_or_zero(
                d@,
                "active_corporations"@,
            ) && k.schools == count_or_zero(d@, "total_schools"@) && k.students == count_or_zero(
                d@,
                "total_students"@,
            ) && k.employees == count_or_zero(d@, "total_employees"@) && k.active_licenses
                == count_or_zero(d@, "active_licenses"@) && k.expiring_licenses == count_or_zero(
                d@,
                "expiring_licenses"@,
            ),
            _ => r is None,
        },
{
    match crate::json::unwrap_data(summary) {
        Some(d) => Some(
            PlatformKpis {
                active_corporations: int_field_or(d, "active_corporations", 0),
                schools: int_field_or(d, "total_schools", 0),
                students: int_field_or(d, "total_students", 0),
                employees: int_field_or(d, "total_employees", 0),
                active_licenses: int_field_or(d, "active_licenses", 0),
                expiring_licenses: int_field_or(d, "expiring_licenses", 0),
            },
        ),
        None => None,
    }
}

/// Element `i` of `v` when `v` is an array that long, and `null` otherwise (what indexing
/// a JSON value by a number gives).
pub open spec fn element_or_null(v: JsonView, i: int) -> JsonView {
    match v {
        JsonView::Array(items) => if 0 <= i < items.len() {
            items[i]
        } else {
            JsonView::Null
        },
        _ => JsonView::Null,
    }
}

/// A point of the license distribution chart made of a pair `[name, count]`.
pub open spec fn distribution_point(pair: JsonView) -> JsonView {
    JsonView::Object(
        seq![("name"@, element_or_null(pair, 0)), ("count"@, element_or_null(pair, 1))],
    )
}

/// A chart point reads back its pair in order: the first element of the pair (or `null`)
/// under `name`, the second (or `null`) under `count`.
pub proof fn distribution_point_reads_back(pair: JsonView)
    ensures
        field_of(distribution_point(pair), "name"@) == Some(element_or_null(pair, 0)),
        field_of(distribution_point(pair), "count"@) == Some(element_or_null(pair, 1)),
{
    reveal_strlit("name");
    reveal_strlit("count");
    let ms = seq![("name"@, element_or_null(pair, 0)), ("count"@, element_or_null(pair, 1))];
    assert(ms[0].0 != ms[1].0) by {
        assert(ms[0].0[0] != ms[1].0[0]);
    }
    lemma_member_at(ms, 0);
    lemma_member_at(ms, 1);
}

fn element_copy(v: &Json, i: usize) -> (r: Json)
    ensures
        r@ == element_or_null(v@, i as int),
{
    match v {
        Json::Array(items) => {
            proof {
                lemma_items_view(items@);
            }
            if i < items.len() {
                items[i].duplicate()
            } else {
                Json::Null
            }
        },
        _ => Json::Null,
    }
}

/// The points of the license distribution chart: one `{name, count}` object for each pair
/// of the answer's `distribution` array.
pub fn distribution_points(data: &Json) -> (r: Vec<Json>)
    ensures
        items_view(r@) == match items_under(data@, "distribution"@) {
            Some(xs) => xs.map_values(|p: JsonView| distribution_point(p)),
            None => Seq::empty(),
        },
        match items_under(data@, "distribution"@) {
            Some(xs) => r@.len() == xs.len() && forall|i: int| 0 <= i < xs.len() ==> {
                &&& field_of((#[trigger] r@[i])@, "name"@) == Some(element_or_null(xs[i], 0))
                &&& field_of(r@[i]@, "count"@) == Some(element_or_null(xs[i], 1))
            },
            None => r@.len() == 0,
        },
{
    let mut out: Vec<Json> = Vec::new();
    match data.get("distribution") {
        Some(Json::Array(xs)) => {
            proof {
                lemma_items_view(xs@);
            }
            let mut i: usize = 0;
            while i < xs.len()
                invariant
                    items_view(xs@) == xs@.map_values(|j: Json| j@),
                    i <= xs@.len(),
                    out@.len() == i,
                    forall|k: int| 0 <= k < i ==> (#[trigger] out@[k])@ == distribution_point(xs@[k]@),
                decreases xs@.len() - i,
            {
                let mut ms: Vec<(String, Json)> = Vec::new();
                ms.push((String::from_str("name"), element_copy(&xs[i], 0)));
                ms.push((String::from_str("count"), element_copy(&xs[i], 1)));
                let ghost mv = ms@;
                proof {
                    lemma_members_view(mv);
                }
                assert(members_view(mv) =~~= seq![
                    ("name"@, element_or_null(xs@[i as int]@, 0)),
                    ("count"@, element_or_null(xs@[i as int]@, 1)),
                ]);
                out.push(Json::Object(ms));
                i = i + 1;
            }
            proof {
                lemma_items_view(out@);
                assert(items_view(out@) =~= items_view(xs@).map_values(|p: JsonView| distribution_point(p)));
                assert forall|i: int| 0 <= i < xs@.len() implies {
                    &&& field_of((#[trigger] out@[i])@, "name"@) == Some(element_or_null(items_view(xs@)[i], 0))
                    &&& field_of(out@[i]@, "count"@) == Some(element_or_null(items_view(xs@)[i], 1))
                } by {
                    distribution_point_reads_back(xs@[i]@);
                }
            }
        },
        _ => {
            proof {
                lemma_items_view(out@);
            }
            assert(items_view(out@) =~= Seq::<JsonView>::empty());
        },
    }
    out
}

/// An entry of the administrators' activity log: who did what on which kind of entity,
/// and when (each empty when missing).
pub struct ActivityRow {
    pub admin: String,
    pub action: String,
    pub entity: String,
    pub created: String,
}

/// The activity log of answer `data`: one row per element of its `activity_log` array.
pub fn activity_rows(data: &Json) -> (r: Vec<ActivityRow>)
    ensures
        r@.len() == (match items_under(data@, "activity_log"@) {
            Some(xs) => xs.len(),
            None => 0,
        }),
        forall|i: int|
            0 <= i < r@.len() ==> {
                let a = match items_under(data@, "activity_log"@) {
                    Some(xs) => xs[i],
                    None => JsonView::Null,
                };
                &&& (#[trigger] r@[i]).admin@ == text_or_empty(a, "admin"@)
                &&& r@[i].action@ == text_or_empty(a, "action"@)
                &&& r@[i].entity@ == text_or_empty(a, "entity_type"@)
                &&& r@[i].created@ == text_or_empty(a, "created_at"@)
            },
{
    let mut out: Vec<ActivityRow> = Vec::new();
    match data.get("activity_log") {
        Some(Json::Array(xs)) => {
            proof {
                lemma_items_view(xs@);
            }
            let mut i: usize = 0;
            while i < xs.len()
                invariant
                    items_view(xs@) == xs@.map_values(|j: Json| j@),
                    items_under(data@, "activity_log"@) == Some(items_view(xs@)),
                    i <= xs@.len(),
                    out@.len() == i,
                    forall|k: int|
                        0 <= k < i ==> {
                            &&& (#[trigger] out@[k]).admin@ == text_or_empty(xs@[k]@, "admin"@)
                            &&& out@[k].action@ == text_or_empty(xs@[k]@, "action"@)
                            &&& out@[k].entity@ == text_or_empty(xs@[k]@, "entity_type"@)
                            &&& out@[k].created@ == text_or_empty(xs@[k]@, "created_at"@)
                        },
                decreases xs@.len() - i,
            {
                let a = &xs[i];
                out.push(
                    ActivityRow {
                        admin: text_field(a, "admin"),
                        action: text_field(a, "action"),
                        entity: text_field(a, "entity_type"),
                        created: text_field(a, "created_at"),
                    },
                );
                i = i + 1;
            }
        },
        _ => {},
    }
    out
}

/// A student flagged for low attendance: the name (`--` when missing), the absences (0
/// when missing) and the severity (`Bajo` when missing), which is also the class of the
/// alert's badge.
pub struct AlertRow {
    pub name: String,
    pub absences: i64,
    pub severity: String,
}

/// The alert of `alert`.
pub fn alert_row(alert: &Json) -> (r: AlertRow)
    ensures
        r.name@ == (match field_of(alert@, "student_name"@) {
            Some(JsonView::Str(s)) => s,
            _ => "--"@,
        }),
        r.absences == count_or_zero(alert@, "total_absences"@),
        r.severity@ == (match field_of(alert@, "severity"@) {
            Some(JsonView::Str(s)) => s,
            _ => "Bajo"@,
        }),
{
    AlertRow {
        name: crate::json::text_field_or(alert, "student_name", "--"),
        absences: int_field_or(alert, "total_absences", 0),
        severity: crate::json::text_field_or(alert, "severity", "Bajo"),
    }
}

/// An entry of the audit log: the kind and id of the entity, the action, the user (`-`
/// when missing) and the date.
pub struct AuditRow {
    pub entity_type: String,
    pub action: String,
    pub entity_id: String,
    pub user: String,
    pub created: String,
}

/// The audit log entry of `entry`.
pub fn audit_row(entry: &Json) -> (r: AuditRow)
    ensures
        r.entity_type@ == text_or_empty(entry@, "entity_type"@),
        r.action@ == text_or_empty(entry@, "action"@),
        r.entity_id@ == text_or_empty(entry@, "entity_id"@),
        r.user@ == (match field_of(entry@, "user_id"@) {
            Some(JsonView::Str(s)) => s,
            _ => "-"@,
        }),
        r.created@ == text_or_empty(entry@, "created_at"@),
{
    AuditRow {
        entity_type: text_field(entry, "entity_type"),
        action: text_field(entry, "action"),
        entity_id: text_field(entry, "entity_id"),
        user: crate::json::text_field_or(entry, "user_id", "-"),
        created: text_field(entry, "created_at"),
    }
}

} // verus!
