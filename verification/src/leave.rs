//! Leave requests of an employee: the request a form sends and how the list shows each
//! request.
use vstd::prelude::*;
use vstd::string::StringExecFns;
use crate::json::{Json, JsonView, field_of, lemma_member_at, lemma_members_view, members_view, text_field};
use crate::text::{chars_of, same_text, trim, trim_chars};

verus! {

/// The address of employee `id`'s leave requests.
pub fn leave_requests_url(employee_id: &str) -> (r: String)
    ensures
        r@ == "/api/hr/employees/"@ + employee_id@ + "/leave-requests"@,
{
    let mut r = String::from_str("/api/hr/employees/");
    r.append(employee_id);
    r.append("/leave-requests");
    r
}

/// Whether a leave request can be sent: neither date is blank.
pub fn leave_can_request(start_date: &str, end_date: &str) -> (r: bool)
    ensures
        r == (trim(start_date@).len() > 0 && trim(end_date@).len() > 0),
{
    let a = trim_chars(&chars_of(start_date));
    let b = trim_chars(&chars_of(end_date));
    a.len() > 0 && b.len() > 0
}

/// The body of a leave request.
pub open spec fn leave_body(
    employee_id: Seq<char>,
    kind: Seq<char>,
    start: Seq<char>,
    end: Seq<char>,
    reason: Seq<char>,
) -> JsonView {
    JsonView::Object(
        seq![
            ("employee_id"@, JsonView::Str(employee_id)),
            ("leave_type"@, JsonView::Str(kind)),
            ("start_date"@, JsonView::Str(start)),
            ("end_date"@, JsonView::Str(end)),
            ("reason"@, JsonView::Str(reason)),
        ],
    )
}

/// A leave request says what was asked: read back under its keys, the body gives the
/// employee, the kind of leave, the first day as its start, the last day as its end, and
/// the reason, whatever they are.
pub proof fn leave_body_reads_back(
    employee_id: Seq<char>,
    kind: Seq<char>,
    start: Seq<char>,
    end: Seq<char>,
    reason: Seq<char>,
)
    ensures
        field_of(leave_body(employee_id, kind, start, end, reason), "employee_id"@) == Some(
            JsonView::Str(employee_id),
        ),
        field_of(leave_body(employee_id, kind, start, end, reason), "leave_type"@) == Some(
            JsonView::Str(kind),
        ),
        field_of(leave_body(employee_id, kind, start, end, reason), "start_date"@) == Some(
            JsonView::Str(start),
        ),
        field_of(leave_body(employee_id, kind, start, end, reason), "end_date"@) == Some(
            JsonView::Str(end),
        ),
        field_of(leave_body(employee_id, kind, start, end, reason), "reason"@) == Some(
            JsonView::Str(reason),
        ),
{
    reveal_strlit("employee_id");
    reveal_strlit("leave_type");
    reveal_strlit("start_date");
    reveal_strlit("end_date");
    reveal_strlit("reason");
    let ms = match leave_body(employee_id, kind, start, end, reason) {
        JsonView::Object(m) => m,
        _ => Seq::empty(),
    };
    assert forall|i: int, j: int| 0 <= j < i < ms.len() implies (#[trigger] ms[j]).0 != (#[trigger] ms[i]).0 by {
        if ms[j].0.len() == ms[i].0.len() {
            assert(ms[j].0[0] != ms[i].0[0]);
        }
    }
    lemma_member_at(ms, 0);
    lemma_member_at(ms, 1);
    lemma_member_at(ms, 2);
    lemma_member_at(ms, 3);
    lemma_member_at(ms, 4);
}

/// The body of a leave request: the employee, the kind of leave, its first and last days
/// and the reason.
pub fn leave_request_body(employee_id: &str, kind: &str, start: &str, end: &str, reason: &str) -> (r: Json)
    ensures
        r@ == leave_body(employee_id@, kind@, start@, end@, reason@),
        field_of(r@, "employee_id"@) == Some(JsonView::Str(employee_id@)),
        field_of(r@, "leave_type"@) == Some(JsonView::Str(kind@)),
        field_of(r@, "start_date"@) == Some(JsonView::Str(start@)),
        field_of(r@, "end_date"@) == Some(JsonView::Str(end@)),
        field_of(r@, "reason"@) == Some(JsonView::Str(reason@)),
{
    proof {
        leave_body_reads_back(employee_id@, kind@, start@, end@, reason@);
    }
    let mut ms: Vec<(String, Json)> = Vec::new();
    ms.push((String::from_str("employee_id"), Json::Str(String::from_str(employee_id))));
    ms.push((String::from_str("leave_type"), Json::Str(String::from_str(kind))));
    ms.push((String::from_str("start_date"), Json::Str(String::from_str(start))));
    ms.push((String::from_str("end_date"), Json::Str(String::from_str(end))));
    ms.push((String::from_str("reason"), Json::Str(String::from_str(reason))));
    let ghost mv = ms@;
    proof {
        lemma_members_view(mv);
    }
    assert(members_view(mv) =~~= (match leave_body(employee_id@, kind@, start@, end@, reason@) {
        JsonView::Object(m) => m,
        _ => Seq::empty(),
    }));
    Json::Object(ms)
}

/// A row of the leave list.
pub struct LeaveRow {
    pub kind: String,
    pub start: String,
    pub end: String,
    pub status: String,
    pub status_class: String,
    pub approved_by: String,
}

/// The status the list shows for a request whose status is `status` (`Pendiente` when
/// missing): approved and rejected requests as such, any other as pending.
pub open spec fn shown_status(status: Seq<char>) -> (Seq<char>, Seq<char>) {
    if status == "Aprobado"@ {
        ("Aprobado"@, "status-active"@)
    } else if status == "Rechazado"@ {
        ("Rechazado"@, "status-inactive"@)
    } else {
        ("Pendiente"@, "status-pending"@)
    }
}

/// Who approved a request, as the list shows it: the name, or `-` when there is none.
pub open spec fn approver_text(r: JsonView) -> Seq<char> {
    match field_of(r, "approved_by"@) {
        Some(JsonView::Str(s)) => if s.len() == 0 {
            "-"@
        } else {
            s
        },
        _ => "-"@,
    }
}

/// Each request status shows as itself with its badge: an approved request as approved
/// and active, a rejected one as rejected and inactive, and one in any other status as
/// pending.
pub proof fn leave_status_shown(status: Seq<char>)
    ensures
        status == "Aprobado"@ ==> shown_status(status) == ("Aprobado"@, "status-active"@),
        status == "Rechazado"@ ==> shown_status(status) == ("Rechazado"@, "status-inactive"@),
        !(status == "Aprobado"@ || status == "Rechazado"@) ==> shown_status(status) == (
            "Pendiente"@,
            "status-pending"@,
        ),
{
    reveal_strlit("Aprobado");
    reveal_strlit("Rechazado");
    assert("Aprobado"@ != "Rechazado"@) by {
        assert("Aprobado"@[0] != "Rechazado"@[0]);
    }
}

/// The status that a leave request records: its `status` text, `Pendiente` when missing.
pub open spec fn recorded_status(r: JsonView) -> Seq<char> {
    match field_of(r, "status"@) {
        Some(JsonView::Str(s)) => s,
        _ => "Pendiente"@,
    }
}

/// The row of leave request `r`.
pub fn leave_row(r: &Json) -> (row: LeaveRow)
    ensures
        recorded_status(r@) == "Aprobado"@ ==> row.status@ == "Aprobado"@ && row.status_class@
            == "status-active"@,
        recorded_status(r@) == "Rechazado"@ ==> row.status@ == "Rechazado"@ && row.status_class@
            == "status-inactive"@,
        !(recorded_status(r@) == "Aprobado"@ || recorded_status(r@) == "Rechazado"@) ==> row.status@
            == "Pendiente"@ && row.status_class@ == "status-pending"@,
        row.kind@ == crate::json::text_or_empty(r@, "leave_type"@),
        row.start@ == crate::json::text_or_empty(r@, "start_date"@),
        row.end@ == crate::json::text_or_empty(r@, "end_date"@),
        (row.status@, row.status_class@) == shown_status(
            match field_of(r@, "status"@) {
                Some(JsonView::Str(s)) => s,
                _ => "Pendiente"@,
            },
        ),
        row.approved_by@ == approver_text(r@),
{
    let status = crate::json::text_field_or(r, "status", "Pendiente");
    proof {
        leave_status_shown(status@);
    }
    let (label, class) = if same_text(status.as_str(), "Aprobado") {
        (String::from_str("Aprobado"), String::from_str("status-active"))
    } else if same_text(status.as_str(), "Rechazado") {
        (String::from_str("Rechazado"), String::from_str("status-inactive"))
    } else {
        (String::from_str("Pendiente"), String::from_str("status-pending"))
    };
    let approved_by = match r.get("approved_by") {
        Some(Json::Str(s)) => if s.as_str().is_empty() {
            String::from_str("-")
        } else {
            s.clone()
        },
        _ => String::from_str("-"),
    };
    LeaveRow {
        kind: text_field(r, "leave_type"),
        start: text_field(r, "start_date"),
        end: text_field(r, "end_date"),
        status: label,
        status_class: class,
        approved_by,
    }
}

} // verus!
