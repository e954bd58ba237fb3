//! The reports pages: which report a request asks for, the table shown for a SIGE export,
//! and the addresses of the monthly reports.
use vstd::prelude::*;
use vstd::string::StringExecFns;
use crate::json::{Json, JsonView, field_of, int_field_or, int_under, items_under, items_view, lemma_items_view, lemma_members_view, members_view};
use crate::text::{decimal_i32, decimal_text, same_text};

verus! {

/// A student report that the reports page can ask for.
pub enum StudentReport {
    /// The student's enrollment certificate.
    Certificate { student_id: String },
    /// The student's grade concentration for a year.
    Concentration { student_id: String, year: i32 },
}

/// The message of a report kind the page does not know.
pub open spec fn unknown_kind_text() -> Seq<char> {
    "Tipo no v\u{e1}lido"@
}

/// The report of kind `kind` for a student: `certificate` or `concentration` (for
/// `year`); any other kind is refused with `Tipo no válido`.
pub fn student_report(kind: &str, student_id: &str, year: i32) -> (r: Result<StudentReport, String>)
    ensures
        kind@ == "certificate"@ ==> (r matches Ok(StudentReport::Certificate { student_id: s })
            && s@ == student_id@),
        kind@ == "concentration"@ ==> (r matches Ok(
            StudentReport::Concentration { student_id: s, year: y },
        ) && s@ == student_id@ && y == year),
        kind@ != "certificate"@ && kind@ != "concentration"@ ==> (r matches Err(e) && e@
            == unknown_kind_text()),
{
    proof {
        reveal_strlit("certificate");
        reveal_strlit("concentration");
        assert("certificate"@.len() != "concentration"@.len());
    }
    if same_text(kind, "certificate") {
        Ok(StudentReport::Certificate { student_id: String::from_str(student_id) })
    } else if same_text(kind, "concentration") {
        Ok(StudentReport::Concentration { student_id: String::from_str(student_id), year })
    } else {
        Err(String::from_str("Tipo no v\u{e1}lido"))
    }
}

/// A SIGE export that the reports page can ask for.
pub enum SigeExport {
    /// The students of the school.
    Students,
    /// The attendance of a month.
    Attendance { year: i32, month: u32 },
}

/// The SIGE export of kind `kind`: `students`, or `attendance` for `month` of `year`; any
/// other kind is refused with `Tipo no válido`.
pub fn sige_export(kind: &str, year: i32, month: u32) -> (r: Result<SigeExport, String>)
    ensures
        kind@ == "students"@ ==> r matches Ok(SigeExport::Students),
        kind@ == "attendance"@ ==> (r matches Ok(SigeExport::Attendance { year: y, month: m }) && y
            == year && m == month),
        kind@ != "students"@ && kind@ != "attendance"@ ==> (r matches Err(e) && e@
            == unknown_kind_text()),
{
    proof {
        reveal_strlit("students");
        reveal_strlit("attendance");
        assert("students"@.len() != "attendance"@.len());
    }
    if same_text(kind, "students") {
        Ok(SigeExport::Students)
    } else if same_text(kind, "attendance") {
        Ok(SigeExport::Attendance { year, month })
    } else {
        Err(String::from_str("Tipo no v\u{e1}lido"))
    }
}

/// The text of a cell of an export table: a text as it is, a number as it is written,
/// `true` or `false`, and nothing for any other value.
pub open spec fn cell_text_of(v: JsonView) -> Seq<char> {
    match v {
        JsonView::Str(s) => s,
        JsonView::Number(n) => n,
        JsonView::Bool(b) => if b {
            "true"@
        } else {
            "false"@
        },
        _ => ""@,
    }
}

/// The text of a cell of an export table.
pub fn cell_text(v: &Json) -> (r: String)
    ensures
        r@ == cell_text_of(v@),
{
    match v {
        Json::Str(s) => s.clone(),
        Json::Number(n) => n.clone(),
        Json::Bool(b) => if *b {
            String::from_str("true")
        } else {
            String::from_str("false")
        },
        _ => String::from_str(""),
    }
}

/// The rows of an export answer: its `rows` array, or none.
pub open spec fn export_rows(answer: JsonView) -> Seq<JsonView> {
    match items_under(answer, "rows"@) {
        Some(xs) => xs,
        None => Seq::empty(),
    }
}

/// The header of an export table: the keys of the first row when it is an object.
pub open spec fn export_header(rows: Seq<JsonView>) -> Seq<Seq<char>> {
    if rows.len() > 0 {
        match rows[0] {
            JsonView::Object(ms) => ms.map_values(|m: (Seq<char>, JsonView)| m.0),
            _ => Seq::empty(),
        }
    } else {
        Seq::empty()
    }
}

/// The cells of a row of an export table: the texts of its values when it is an object.
pub open spec fn export_cells(row: JsonView) -> Seq<Seq<char>> {
    match row {
        JsonView::Object(ms) => ms.map_values(|m: (Seq<char>, JsonView)| cell_text_of(m.1)),
        _ => Seq::empty(),
    }
}

/// The table shown for an export: the count of records (0 when missing), the header and
/// the cells of each row.
pub struct ExportTable {
    pub total: i64,
    pub header: Vec<String>,
    pub rows: Vec<Vec<String>>,
}

/// The texts of a sequence of strings.
pub open spec fn texts(v: Seq<String>) -> Seq<Seq<char>> {
    v.map_values(|s: String| s@)
}

/// The keys or the cell texts of an object's members.
fn member_texts(ms: &Vec<(String, Json)>, keys: bool) -> (r: Vec<String>)
    ensures
        texts(r@) == if keys {
            members_view(ms@).map_values(|m: (Seq<char>, JsonView)| m.0)
        } else {
            members_view(ms@).map_values(|m: (Seq<char>, JsonView)| cell_text_of(m.1))
        },
{
    proof {
        lemma_members_view(ms@);
    }
    let mut out: Vec<String> = Vec::new();
    let mut i: usize = 0;
    while i < ms.len()
        invariant
            members_view(ms@) == ms@.map_values(|m: (String, Json)| (m.0@, m.1@)),
            i <= ms@.len(),
            out@.len() == i,
            forall|k: int|
                0 <= k < i ==> (#[trigger] out@[k])@ == if keys {
                    ms@[k].0@
                } else {
                    cell_text_of(ms@[k].1@)
                },
        decreases ms@.len() - i,
    {
        if keys {
            out.push(ms[i].0.clone());
        } else {
            out.push(cell_text(&ms[i].1));
        }
        i = i + 1;
    }
    proof {
        if keys {
            assert(texts(out@) =~= members_view(ms@).map_values(|m: (Seq<char>, JsonView)| m.0));
        } else {
            assert(texts(out@) =~= members_view(ms@).map_values(
                |m: (Seq<char>, JsonView)| cell_text_of(m.1),
            ));
        }
    }
    out
}

/// The table shown for export answer `answer`.
pub fn export_table(answer: &Json) -> (r: ExportTable)
    ensures
        r.total == (match int_under(answer@, "total"@) {
            Some(n) => n,
            None => 0,
        }),
        texts(r.header@) == export_header(export_rows(answer@)),
        r.rows@.len() == export_rows(answer@).len(),
        forall|i: int|
            0 <= i < r.rows@.len() ==> texts((#[trigger] r.rows@[i])@) == export_cells(
                export_rows(answer@)[i],
            ),
{
    let total = int_field_or(answer, "total", 0);
    let mut header: Vec<String> = Vec::new();
    let mut rows: Vec<Vec<String>> = Vec::new();
    match answer.get("rows") {
        Some(Json::Array(xs)) => {
            proof {
                lemma_items_view(xs@);
            }
            if xs.len() > 0 {
                match &xs[0] {
                    Json::Object(ms) => {
                        header = member_texts(ms, true);
                    },
                    _ => {
                        assert(texts(header@) =~= Seq::<Seq<char>>::empty());
                    },
                }
            } else {
                assert(texts(header@) =~= Seq::<Seq<char>>::empty());
            }
            let mut i: usize = 0;
            while i < xs.len()
                invariant
                    items_view(xs@) == xs@.map_values(|j: Json| j@),
                    export_rows(answer@) == items_view(xs@),
                    i <= xs@.len(),
                    rows@.len() == i,
                    forall|k: int| 0 <= k < i ==> texts((#[trigger] rows@[k])@) == export_cells(xs@[k]@),
                decreases xs@.len() - i,
            {
                match &xs[i] {
                    Json::Object(ms) => {
                        rows.push(member_texts(ms, false));
                    },
                    _ => {
                        let empty: Vec<String> = Vec::new();
                        assert(texts(empty@) =~= Seq::<Seq<char>>::empty());
                        rows.push(empty);
                    },
                }
                i = i + 1;
            }
        },
        _ => {
            assert(texts(header@) =~= Seq::<Seq<char>>::empty());
        },
    }
    ExportTable { total, header, rows }
}

/// The address of a monthly report: `path?month=M&year=Y`.
pub open spec fn period_url_text(path: Seq<char>, month: int, year: int) -> Seq<char> {
    path + "?month="@ + decimal_text(month) + "&year="@ + decimal_text(year)
}

/// A monthly report's address asks for the period given, in its places: after the path
/// comes `?month=` with the month, then `&year=` with the year, which ends the address.
pub proof fn period_url_places(path: Seq<char>, month: int, year: int)
    ensures
        ({
            let u = period_url_text(path, month, year);
            let m = decimal_text(month);
            let y = decimal_text(year);
            let p = path.len() as int;
            &&& u.len() == p + 7 + m.len() + 6 + y.len()
            &&& u.subrange(0, p) == path
            &&& u.subrange(p, p + 7) == "?month="@
            &&& u.subrange(p + 7, p + 7 + m.len()) == m
            &&& u.subrange(p + 7 + m.len(), p + 13 + m.len()) == "&year="@
            &&& u.subrange(p + 13 + m.len(), u.len() as int) == y
        }),
{
    reveal_strlit("?month=");
    reveal_strlit("&year=");
    let u = period_url_text(path, month, year);
    let m = decimal_text(month);
    let y = decimal_text(year);
    let p = path.len() as int;
    assert(u.subrange(0, p) =~= path);
    assert(u.subrange(p, p + 7) =~= "?month="@);
    assert(u.subrange(p + 7, p + 7 + m.len()) =~= m);
    assert(u.subrange(p + 7 + m.len(), p + 13 + m.len()) =~= "&year="@);
    assert(u.subrange(p + 13 + m.len(), u.len() as int) =~= y);
}

/// A cell shows its value: a text as the text, a number as its written digits, a true
/// flag as `true`, a false one as `false`, and anything else as nothing.
pub proof fn cells_show_their_values(s: Seq<char>, b: bool)
    ensures
        cell_text_of(JsonView::Str(s)) == s,
        cell_text_of(JsonView::Number(s)) == s,
        cell_text_of(JsonView::Bool(true)) == "true"@,
        cell_text_of(JsonView::Bool(false)) == "false"@,
        cell_text_of(JsonView::Null) == ""@,
{
}

/// The address of the report at `path` for `month` of `year` (the payroll list and its
/// LRE and Previred exports).
pub fn period_url(path: &str, month: i32, year: i32) -> (r: String)
    ensures
        r@ == period_url_text(path@, month as int, year as int),
        r@.subrange(0, path@.len() + 7int) == path@ + "?month="@,
        r@.subrange(path@.len() + 7int, path@.len() + 7int + decimal_text(month as int).len()) == decimal_text(
            month as int,
        ),
        r@.subrange(r@.len() - decimal_text(year as int).len(), r@.len() as int) == decimal_text(year as int),
{
    proof {
        period_url_places(path@, month as int, year as int);
        let u = period_url_text(path@, month as int, year as int);
        assert(u.subrange(0, path@.len() + 7int) =~= path@ + "?month="@);
    }
    let mut r = String::from_str(path);
    r.append("?month=");
    let m = decimal_i32(month);
    r.append(m.as_str());
    r.append("&year=");
    let y = decimal_i32(year);
    r.append(y.as_str());
    r
}

/// The address of the SIGE attendance export for `month` of `year`.
pub fn sige_attendance_url(year: i32, month: i32) -> (r: String)
    ensures
        r@ == "/api/reports/sige/attendance/"@ + decimal_text(year as int) + "/"@ + decimal_text(
            month as int,
        ),
{
    let mut r = String::from_str("/api/reports/sige/attendance/");
    let y = decimal_i32(year);
    r.append(y.as_str());
    r.append("/");
    let m = decimal_i32(month);
    r.append(m.as_str());
    r
}

/// The class of a student's promotion in a course's final record: `grade-bad` for a
/// student who failed (`Reprobado`), `grade-good` otherwise.
pub fn promotion_class(promotion: &str) -> (r: String)
    ensures
        r@ == (if promotion@ == "Reprobado"@ {
            "grade-bad"@
        } else {
            "grade-good"@
        }),
{
    if same_text(promotion, "Reprobado") {
        String::from_str("grade-bad")
    } else {
        String::from_str("grade-good")
    }
}

/// A student's promotion as the student's page shows it: the final promotion (`Pendiente`
/// when missing) and its class: promoted, failed, or still undecided.
pub fn promotion_badge(report: &Json) -> (r: (String, String))
    ensures
        r.0@ == (match field_of(report@, "final_promotion"@) {
            Some(JsonView::Str(s)) => s,
            _ => "Pendiente"@,
        }),
        r.1@ == (if r.0@ == "Promovido"@ {
            "status-active"@
        } else if r.0@ == "Reprobado"@ {
            "status-inactive"@
        } else {
            "pct-warning"@
        }),
{
    let p = crate::json::text_field_or(report, "final_promotion", "Pendiente");
    let class = if same_text(p.as_str(), "Promovido") {
        String::from_str("status-active")
    } else if same_text(p.as_str(), "Reprobado") {
        String::from_str("status-inactive")
    } else {
        String::from_str("pct-warning")
    };
    (p, class)
}

/// The value under `key`, or `null` when it is missing (what indexing a JSON value gives).
pub open spec fn at_or_null(v: JsonView, key: Seq<char>) -> JsonView {
    match field_of(v, key) {
        Some(x) => x,
        None => JsonView::Null,
    }
}

/// An enrollment certificate as the reports page shows it: the student's name, RUT,
/// level and section, the year (0 when missing), the enrollment status, when it was
/// issued and by whom (each text empty when missing).
pub struct Certificate {
    pub student_name: String,
    pub rut: String,
    pub grade_level: String,
    pub section: String,
    pub year: i64,
    pub status: String,
    pub issued_at: String,
    pub issuer: String,
}

/// The certificate of answer `data` (its `certificate` object).
pub fn certificate_of(data: &Json) -> (r: Certificate)
    ensures
        r.student_name@ == crate::json::text_or_empty(at_or_null(data@, "certificate"@), "student_name"@),
        r.rut@ == crate::json::text_or_empty(at_or_null(data@, "certificate"@), "rut"@),
        r.grade_level@ == crate::json::text_or_empty(at_or_null(data@, "certificate"@), "grade_level"@),
        r.section@ == crate::json::text_or_empty(at_or_null(data@, "certificate"@), "section"@),
        r.year == (match int_under(at_or_null(data@, "certificate"@), "year"@) {
            Some(n) => n,
            None => 0,
        }),
        r.status@ == crate::json::text_or_empty(
            at_or_null(data@, "certificate"@),
            "enrollment_status"@,
        ),
        r.issued_at@ == crate::json::text_or_empty(at_or_null(data@, "certificate"@), "issued_at"@),
        r.issuer@ == crate::json::text_or_empty(at_or_null(data@, "certificate"@), "issuer_name"@),
{
    let null = Json::Null;
    let c: &Json = match data.get("certificate") {
        Some(x) => x,
        None => &null,
    };
    Certificate {
        student_name: crate::json::text_field(c, "student_name"),
        rut: crate::json::text_field(c, "rut"),
        grade_level: crate::json::text_field(c, "grade_level"),
        section: crate::json::text_field(c, "section"),
        year: int_field_or(c, "year", 0),
        status: crate::json::text_field(c, "enrollment_status"),
        issued_at: crate::json::text_field(c, "issued_at"),
        issuer: crate::json::text_field(c, "issuer_name"),
    }
}

/// The counts of a course's final record: students promoted and students who failed
/// (each 0 when missing).
pub fn final_record_counts(data: &Json) -> (r: (i64, i64))
    ensures
        r.0 == (match int_under(at_or_null(at_or_null(data@, "final_record"@), "summary"@), "promoted"@) {
            Some(n) => n,
            None => 0,
        }),
        r.1 == (match int_under(at_or_null(at_or_null(data@, "final_record"@), "summary"@), "failed"@) {
            Some(n) => n,
            None => 0,
        }),
{
    let null = Json::Null;
    let record: &Json = match data.get("final_record") {
        Some(x) => x,
        None => &null,
    };
    let null2 = Json::Null;
    let summary: &Json = match record.get("summary") {
        Some(x) => x,
        None => &null2,
    };
    (int_field_or(summary, "promoted", 0), int_field_or(summary, "failed", 0))
}

/// The label of a subject in the grades page's list: its name and, in brackets, its code.
pub fn subject_option_label(subject: &Json) -> (r: String)
    ensures
        r@ == crate::json::text_or_empty(subject@, "name"@) + " ("@ + crate::json::text_or_empty(
            subject@,
            "code"@,
        ) + ")"@,
{
    let mut r = crate::json::text_field(subject, "name");
    r.append(" (");
    let code = crate::json::text_field(subject, "code");
    r.append(code.as_str());
    r.append(")");
    r
}

} // verus!
