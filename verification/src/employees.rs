//! An employee's record as the staff pages show it, and the time clock entries and
//! documents an employee sends.
use vstd::prelude::*;
use vstd::string::StringExecFns;
use crate::json::{Json, JsonView, field_of, lemma_members_view, members_view};
use crate::kanban::{full_name, full_name_of};
use crate::text::{chars_of, trim, trim_chars};

verus! {

/// The value under `key`, or `null` when it is missing (what indexing a JSON value gives).
pub open spec fn at_or_null(v: JsonView, key: Seq<char>) -> JsonView {
    match field_of(v, key) {
        Some(x) => x,
        None => JsonView::Null,
    }
}

/// The text under `key`, or `-`.
pub open spec fn text_or_dash(v: JsonView, key: Seq<char>) -> Seq<char> {
    match field_of(v, key) {
        Some(JsonView::Str(s)) => s,
        _ => "-"@,
    }
}

/// An employee's profile: full name, RUT, email, phone, position, category and hire date
/// (a dash for each one missing), and the supervisor's full name.
pub struct EmployeeProfile {
    pub name: String,
    pub rut: String,
    pub email: String,
    pub phone: String,
    pub position: String,
    pub category: String,
    pub hire_date: String,
    pub supervisor: String,
}

/// The supervisor line of a profile answer: a dash when there is no supervisor (the
/// member is missing or `null`), else the supervisor's full name.
pub open spec fn supervisor_text(data: JsonView) -> Seq<char> {
    match at_or_null(data, "supervisor"@) {
        JsonView::Null => "-"@,
        sup => full_name(sup),
    }
}

/// The profile that answer `data` gives of its `employee`.
pub fn employee_profile(data: &Json) -> (r: EmployeeProfile)
    ensures
        r.name@ == full_name(at_or_null(data@, "employee"@)),
        r.rut@ == text_or_dash(at_or_null(data@, "employee"@), "rut"@),
        r.email@ == text_or_dash(at_or_null(data@, "employee"@), "email"@),
        r.phone@ == text_or_dash(at_or_null(data@, "employee"@), "phone"@),
        r.position@ == text_or_dash(at_or_null(data@, "employee"@), "position"@),
        r.category@ == text_or_dash(at_or_null(data@, "employee"@), "category"@),
        r.hire_date@ == text_or_dash(at_or_null(data@, "employee"@), "hire_date"@),
        r.supervisor@ == supervisor_text(data@),
        match field_of(data@, "supervisor"@) {
            None => r.supervisor@ == "-"@,
            Some(JsonView::Null) => r.supervisor@ == "-"@,
            Some(sup) => r.supervisor@ == full_name(sup),
        },
{
    let null = Json::Null;
    let emp: &Json = match data.get("employee") {
        Some(e) => e,
        None => &null,
    };
    let supervisor = match data.get("supervisor") {
        None => String::from_str("-"),
        Some(Json::Null) => String::from_str("-"),
        Some(sup) => full_name_of(sup),
    };
    EmployeeProfile {
        name: full_name_of(emp),
        rut: crate::json::text_field_or(emp, "rut", "-"),
        email: crate::json::text_field_or(emp, "email", "-"),
        phone: crate::json::text_field_or(emp, "phone", "-"),
        position: crate::json::text_field_or(emp, "position", "-"),
        category: crate::json::text_field_or(emp, "category", "-"),
        hire_date: crate::json::text_field_or(emp, "hire_date", "-"),
        supervisor,
    }
}

/// Whether a text field that must be filled is: it is not blank.
pub fn filled(text: &str) -> (r: bool)
    ensures
        r == (trim(text@).len() > 0),
{
    let t = trim_chars(&chars_of(text));
    t.len() > 0
}

/// The time clock entry recorded by hand for employee `employee_id`: its time and kind.
pub fn clock_entry_body(employee_id: &str, timestamp: &str, entry_type: &str) -> (r: Json)
    ensures
        r@ == JsonView::Object(
            seq![
                ("employee_id"@, JsonView::Str(employee_id@)),
                ("timestamp"@, JsonView::Str(timestamp@)),
                ("entry_type"@, JsonView::Str(entry_type@)),
            ],
        ),
{
    let mut ms: Vec<(String, Json)> = Vec::new();
    ms.push((String::from_str("employee_id"), Json::Str(String::from_str(employee_id))));
    ms.push((String::from_str("timestamp"), Json::Str(String::from_str(timestamp))));
    ms.push((String::from_str("entry_type"), Json::Str(String::from_str(entry_type))));
    let ghost mv = ms@;
    proof {
        lemma_members_view(mv);
    }
    assert(members_view(mv) =~~= seq![
        ("employee_id"@, JsonView::Str(employee_id@)),
        ("timestamp"@, JsonView::Str(timestamp@)),
        ("entry_type"@, JsonView::Str(entry_type@)),
    ]);
    Json::Object(ms)
}

/// The document an employee uploads: its kind and file name.
pub fn document_body(doc_type: &str, file_name: &str) -> (r: Json)
    ensures
        r@ == JsonView::Object(
            seq![("doc_type"@, JsonView::Str(doc_type@)), ("file_name"@, JsonView::Str(file_name@))],
        ),
{
    let mut ms: Vec<(String, Json)> = Vec::new();
    ms.push((String::from_str("doc_type"), Json::Str(String::from_str(doc_type))));
    ms.push((String::from_str("file_name"), Json::Str(String::from_str(file_name))));
    let ghost mv = ms@;
    proof {
        lemma_members_view(mv);
    }
    assert(members_view(mv) =~~= seq![
        ("doc_type"@, JsonView::Str(doc_type@)),
        ("file_name"@, JsonView::Str(file_name@)),
    ]);
    Json::Object(ms)
}

/// The last day of a contract as shown: its end date, or `Indefinido` for a contract
/// without one.
pub fn contract_end(contract: &Json) -> (r: String)
    ensures
        r@ == (match field_of(contract@, "end_date"@) {
            Some(JsonView::Str(s)) => s,
            _ => "Indefinido"@,
        }),
{
    crate::json::text_field_or(contract, "end_date", "Indefinido")
}

/// The label of an employee in the payroll form's list: full name, a dash, and RUT.
pub fn employee_option_label(emp: &Json) -> (r: String)
    ensures
        r@ == full_name(emp@) + " - "@ + crate::json::text_or_empty(emp@, "rut"@),
{
    let mut r = full_name_of(emp);
    r.append(" - ");
    let rut = crate::json::text_field(emp, "rut");
    r.append(rut.as_str());
    r
}

/// The texts of a payroll row: the employee's name and RUT (empty when missing), the
/// avatar letter, and whether the payroll went out in the LRE and to Previred (not
/// unless it says so).
pub struct PayrollRow {
    pub name: String,
    pub rut: String,
    pub avatar: String,
    pub lre_exported: bool,
    pub previred_exported: bool,
}

/// The row of payroll `p`.
pub fn payroll_row(p: &Json) -> (r: PayrollRow)
    ensures
        r.name@ == crate::json::text_or_empty(p@, "employee_name"@),
        r.rut@ == crate::json::text_or_empty(p@, "rut"@),
        r.avatar@ == (if r.name@.len() > 0 {
            seq![r.name@[0]]
        } else {
            seq!['?']
        }),
        r.lre_exported == (crate::json::flag_under(p@, "lre_exported"@) == Some(true)),
        r.previred_exported == (crate::json::flag_under(p@, "previred_exported"@) == Some(true)),
{
    let name = crate::json::text_field(p, "employee_name");
    let avatar = crate::client::first_letter(name.as_str());
    PayrollRow {
        name,
        rut: crate::json::text_field(p, "rut"),
        avatar,
        lre_exported: match p.get("lre_exported") {
            Some(Json::Bool(b)) => *b,
            _ => false,
        },
        previred_exported: match p.get("previred_exported") {
            Some(Json::Bool(b)) => *b,
            _ => false,
        },
    }
}

} // verus!
