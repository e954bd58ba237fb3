//! The attendance page: how a student's attendance is classed against the school's
//! thresholds, the badge of a day's record, the monthly summary, and the course search.
use vstd::prelude::*;
use vstd::string::StringExecFns;
use crate::json::{Json, JsonView, field_of, int_field_or, int_under, text_field};
use crate::text::{
    chars_of, replace_all, replace_all_chars, same_text, string_of, zero_padded, zero_padded_i64,
};

verus! {

/// The class of a student's monthly attendance: below 75% (the threshold for students
/// with special educational needs) is `pct-danger`, below 85% (the general threshold) is
/// `pct-warning`, anything else `pct-good`. The percentage is `present / total_days`
/// times 100, and 100% when no day was counted.
pub open spec fn attendance_class_text(present: int, total_days: int) -> Seq<char> {
    if total_days > 0 && present * 100 < 75 * total_days {
        "pct-danger"@
    } else if total_days > 0 && present * 100 < 85 * total_days {
        "pct-warning"@
    } else {
        "pct-good"@
    }
}

/// The classes split the percentages at the two thresholds: an attendance under 75% is in
/// danger, one from 75% up to under 85% is a warning, and one of 85% or more (or a month
/// with no day counted) is good. More days present never give a worse class.
pub proof fn attendance_class_thresholds(present: int, total_days: int, more: int)
    ensures
        (attendance_class_text(present, total_days) == "pct-danger"@) <==> (total_days > 0
            && present * 100 < 75 * total_days),
        (attendance_class_text(present, total_days) == "pct-warning"@) <==> (total_days > 0 && 75
            * total_days <= present * 100 && present * 100 < 85 * total_days),
        (attendance_class_text(present, total_days) == "pct-good"@) <==> (total_days <= 0 || 85
            * total_days <= present * 100),
        present <= more && attendance_class_text(present, total_days) == "pct-good"@
            ==> attendance_class_text(more, total_days) == "pct-good"@,
        present <= more && attendance_class_text(present, total_days) == "pct-warning"@
            ==> attendance_class_text(more, total_days) != "pct-danger"@,
{
    reveal_strlit("pct-danger");
    reveal_strlit("pct-warning");
    reveal_strlit("pct-good");
    assert("pct-danger"@ != "pct-warning"@) by {
        assert("pct-danger"@[4] != "pct-warning"@[4]);
    }
    assert("pct-danger"@ != "pct-good"@) by {
        assert("pct-danger"@[4] != "pct-good"@[4]);
    }
    assert("pct-warning"@ != "pct-good"@) by {
        assert("pct-warning"@[4] != "pct-good"@[4]);
    }
}

/// The class of a student's monthly attendance.
pub fn attendance_class(present: i64, total_days: i64) -> (r: String)
    ensures
        r@ == attendance_class_text(present as int, total_days as int),
        (r@ == "pct-danger"@) <==> (total_days > 0 && present * 100 < 75 * total_days),
        (r@ == "pct-warning"@) <==> (total_days > 0 && 75 * total_days <= present * 100 && present
            * 100 < 85 * total_days),
        (r@ == "pct-good"@) <==> (total_days <= 0 || 85 * total_days <= present * 100),
{
    proof {
        attendance_class_thresholds(present as int, total_days as int, present as int);
    }
    let p: i128 = present as i128 * 100;
    let t: i128 = total_days as i128;
    if total_days > 0 && p < 75 * t {
        String::from_str("pct-danger")
    } else if total_days > 0 && p < 85 * t {
        String::from_str("pct-warning")
    } else {
        String::from_str("pct-good")
    }
}

/// The badge class of a day's attendance record by its status, in either capitalisation
/// the records use.
pub open spec fn status_badge_text(status: Seq<char>) -> Seq<char> {
    if status == "presente"@ || status == "Presente"@ {
        "badge badge-success"@
    } else if status == "ausente"@ || status == "Ausente"@ {
        "badge badge-warning"@
    } else if status == "atraso"@ || status == "Atraso"@ {
        "badge badge-info"@
    } else {
        ""@
    }
}

/// Each status has its badge, in either capitalisation: a present day is shown as
/// success, an absent one as warning, a late one as information, and any other status
/// without a badge class.
pub proof fn badge_by_status(status: Seq<char>)
    ensures
        (status == "presente"@ || status == "Presente"@) ==> status_badge_text(status) == "badge badge-success"@,
        (status == "ausente"@ || status == "Ausente"@) ==> status_badge_text(status) == "badge badge-warning"@,
        (status == "atraso"@ || status == "Atraso"@) ==> status_badge_text(status) == "badge badge-info"@,
        !(status == "presente"@ || status == "Presente"@ || status == "ausente"@ || status == "Ausente"@
            || status == "atraso"@ || status == "Atraso"@) ==> status_badge_text(status) == ""@,
{
    reveal_strlit("presente");
    reveal_strlit("Presente");
    reveal_strlit("ausente");
    reveal_strlit("Ausente");
    reveal_strlit("atraso");
    reveal_strlit("Atraso");
    assert("presente"@ != "Presente"@) by {
        assert("presente"@[0] != "Presente"@[0]);
    }
    assert("presente"@ != "ausente"@) by {
        assert("presente"@[0] != "ausente"@[0]);
    }
    assert("presente"@ != "Ausente"@) by {
        assert("presente"@[0] != "Ausente"@[0]);
    }
    assert("presente"@ != "atraso"@) by {
        assert("presente"@[0] != "atraso"@[0]);
    }
    assert("presente"@ != "Atraso"@) by {
        assert("presente"@[0] != "Atraso"@[0]);
    }
    assert("Presente"@ != "ausente"@) by {
        assert("Presente"@[0] != "ausente"@[0]);
    }
    assert("Presente"@ != "Ausente"@) by {
        assert("Presente"@[0] != "Ausente"@[0]);
    }
    assert("Presente"@ != "atraso"@) by {
        assert("Presente"@[0] != "atraso"@[0]);
    }
    assert("Presente"@ != "Atraso"@) by {
        assert("Presente"@[0] != "Atraso"@[0]);
    }
    assert("ausente"@ != "Ausente"@) by {
        assert("ausente"@[0] != "Ausente"@[0]);
    }
    assert("ausente"@ != "atraso"@) by {
        assert("ausente"@[1] != "atraso"@[1]);
    }
    assert("ausente"@ != "Atraso"@) by {
        assert("ausente"@[0] != "Atraso"@[0]);
    }
    assert("Ausente"@ != "atraso"@) by {
        assert("Ausente"@[0] != "atraso"@[0]);
    }
    assert("Ausente"@ != "Atraso"@) by {
        assert("Ausente"@[1] != "Atraso"@[1]);
    }
    assert("atraso"@ != "Atraso"@) by {
        assert("atraso"@[0] != "Atraso"@[0]);
    }
}

/// The badge class of a day's attendance record.
pub fn status_badge(status: &str) -> (r: String)
    ensures
        r@ == status_badge_text(status@),
        (status@ == "presente"@ || status@ == "Presente"@) ==> r@ == "badge badge-success"@,
        (status@ == "ausente"@ || status@ == "Ausente"@) ==> r@ == "badge badge-warning"@,
        (status@ == "atraso"@ || status@ == "Atraso"@) ==> r@ == "badge badge-info"@,
        !(status@ == "presente"@ || status@ == "Presente"@ || status@ == "ausente"@ || status@
            == "Ausente"@ || status@ == "atraso"@ || status@ == "Atraso"@) ==> r@ == ""@,
{
    proof {
        badge_by_status(status@);
    }
    if same_text(status, "presente") || same_text(status, "Presente") {
        String::from_str("badge badge-success")
    } else if same_text(status, "ausente") || same_text(status, "Ausente") {
        String::from_str("badge badge-warning")
    } else if same_text(status, "atraso") || same_text(status, "Atraso") {
        String::from_str("badge badge-info")
    } else {
        String::from_str("")
    }
}

/// The summary object of a monthly report, when the report has one.
pub open spec fn summary_of(report: JsonView) -> JsonView {
    match field_of(report, "summary"@) {
        Some(JsonView::Object(ms)) => JsonView::Object(ms),
        _ => JsonView::Object(Seq::empty()),
    }
}

/// The count under `key` of the summary, or 0.
pub open spec fn summary_count(report: JsonView, key: Seq<char>) -> i64 {
    match int_under(summary_of(report), key) {
        Some(n) => n,
        None => 0,
    }
}

/// The three counts of a monthly report's summary: students, students below the general
/// threshold, and students below the special-needs threshold; each 0 when missing.
pub fn attendance_summary(report: &Json) -> (r: (i64, i64, i64))
    ensures
        r.0 == summary_count(report@, "total_students"@),
        r.1 == summary_count(report@, "below_general_threshold"@),
        r.2 == summary_count(report@, "below_nee_threshold"@),
{
    match report.get("summary") {
        Some(s) => match s {
            Json::Object(_) => (
                int_field_or(s, "total_students", 0),
                int_field_or(s, "below_general_threshold", 0),
                int_field_or(s, "below_nee_threshold", 0),
            ),
            _ => (0, 0, 0),
        },
        None => (0, 0, 0),
    }
}

/// A row of the monthly report: the student's name and RUT (`-` when missing) and the
/// day counts (0 when missing).
pub struct AttendanceRow {
    pub name: String,
    pub rut: String,
    pub total_days: i64,
    pub present: i64,
    pub absent: i64,
    pub late: i64,
    pub justified: i64,
    pub class: String,
}

/// The text under `key`, or `-`.
pub open spec fn text_or_dash(v: JsonView, key: Seq<char>) -> Seq<char> {
    match field_of(v, key) {
        Some(JsonView::Str(s)) => s,
        _ => "-"@,
    }
}

/// The count under `key`, or 0.
pub open spec fn count_of(v: JsonView, key: Seq<char>) -> i64 {
    match int_under(v, key) {
        Some(n) => n,
        None => 0,
    }
}

/// The row of the monthly report for `student`, classed by its attendance.
pub fn attendance_row(student: &Json) -> (r: AttendanceRow)
    ensures
        r.name@ == text_or_dash(student@, "student_name"@),
        r.rut@ == text_or_dash(student@, "rut"@),
        r.total_days == count_of(student@, "total_days"@),
        r.present == count_of(student@, "present"@),
        r.absent == count_of(student@, "absent"@),
        r.late == count_of(student@, "late"@),
        r.justified == count_of(student@, "justified"@),
        r.class@ == attendance_class_text(r.present as int, r.total_days as int),
{
    let total_days = int_field_or(student, "total_days", 0);
    let present = int_field_or(student, "present", 0);
    AttendanceRow {
        name: crate::json::text_field_or(student, "student_name", "-"),
        rut: crate::json::text_field_or(student, "rut", "-"),
        total_days,
        present,
        absent: int_field_or(student, "absent", 0),
        late: int_field_or(student, "late", 0),
        justified: int_field_or(student, "justified", 0),
        class: attendance_class(present, total_days),
    }
}

/// The address that searches the courses for `query`, its spaces written `%20`.
pub open spec fn course_search_url_text(query: Seq<char>) -> Seq<char> {
    "/api/courses?search="@ + replace_all(query, seq![' '], "%20"@)
}

/// The address that searches the courses for `query`.
pub fn course_search_url(query: &str) -> (r: String)
    ensures
        r@ == course_search_url_text(query@),
{
    let cs = chars_of(query);
    let mut space: Vec<char> = Vec::new();
    space.push(' ');
    assert(space@ =~= seq![' ']);
    let enc = chars_of("%20");
    let replaced = replace_all_chars(&cs, &space, &enc);
    let tail = string_of(replaced.as_slice());
    let mut r = String::from_str("/api/courses?search=");
    r.append(tail.as_str());
    r
}

/// Whether the course search lists its results: the query is at least two bytes long
/// and the search found courses.
pub fn course_results_shown(query: &str, found: usize) -> (r: bool)
    ensures
        r == (found > 0 && query.len() >= 2),
{
    found > 0 && query.len() >= 2
}

/// The second line of a course in the search results: its level and section.
pub open spec fn course_info_text(course: JsonView) -> Seq<char> {
    crate::json::text_or_empty(course, "grade_level"@) + " - "@ + crate::json::text_or_empty(
        course,
        "section"@,
    )
}

/// The second line of a course in the search results.
pub fn course_info(course: &Json) -> (r: String)
    ensures
        r@ == course_info_text(course@),
        r@ == crate::json::text_or_empty(course@, "grade_level"@) + " - "@ + crate::json::text_or_empty(
            course@,
            "section"@,
        ),
{
    let mut r = text_field(course, "grade_level");
    r.append(" - ");
    let section = text_field(course, "section");
    r.append(section.as_str());
    r
}

/// A day written `YYYY-MM-DD`, each part zero-filled (`{:04}-{:02}-{:02}`).
pub open spec fn iso_date_text(year: int, month: int, day: int) -> Seq<char> {
    zero_padded(year, 4) + seq!['-'] + zero_padded(month, 2) + seq!['-'] + zero_padded(day, 2)
}

proof fn lemma_short_digits(n: nat)
    ensures
        n < 10 ==> crate::text::decimal_digits(n).len() == 1,
        n < 100 ==> crate::text::decimal_digits(n).len() <= 2,
        n < 1000 ==> crate::text::decimal_digits(n).len() <= 3,
        n < 10000 ==> crate::text::decimal_digits(n).len() <= 4,
    decreases n,
{
    if n >= 10 {
        lemma_short_digits(n / 10);
    }
}

proof fn lemma_padded_width(n: int, width: nat)
    requires
        0 <= n,
        width == 2 && n < 100 || width == 4 && n < 10000,
    ensures
        zero_padded(n, width).len() == width,
{
    lemma_short_digits(n as nat);
}

/// A day is written in fixed places: for a year of up to four digits and a month and day
/// of up to two, the text has ten characters, the zero-filled year in the first four, a
/// dash, the zero-filled month in the next two, a dash, and the zero-filled day in the
/// last two; the month never lands where the day goes.
pub proof fn iso_date_layout(year: int, month: int, day: int)
    requires
        0 <= year < 10000,
        0 <= month < 100,
        0 <= day < 100,
    ensures
        iso_date_text(year, month, day).len() == 10,
        iso_date_text(year, month, day).subrange(0, 4) == zero_padded(year, 4),
        iso_date_text(year, month, day)[4] == '-',
        iso_date_text(year, month, day).subrange(5, 7) == zero_padded(month, 2),
        iso_date_text(year, month, day)[7] == '-',
        iso_date_text(year, month, day).subrange(8, 10) == zero_padded(day, 2),
{
    lemma_padded_width(year, 4);
    lemma_padded_width(month, 2);
    lemma_padded_width(day, 2);
    let t = iso_date_text(year, month, day);
    assert(t.subrange(0, 4) =~= zero_padded(year, 4));
    assert(t.subrange(5, 7) =~= zero_padded(month, 2));
    assert(t.subrange(8, 10) =~= zero_padded(day, 2));
}

/// The day `year`-`month`-`day` written `YYYY-MM-DD`.
pub fn iso_date(year: i32, month: u32, day: u32) -> (r: String)
    ensures
        r@ == iso_date_text(year as int, month as int, day as int),
        0 <= year < 10000 && month < 100 && day < 100 ==> {
            &&& r@.len() == 10
            &&& r@.subrange(0, 4) == zero_padded(year as int, 4)
            &&& r@.subrange(5, 7) == zero_padded(month as int, 2)
            &&& r@.subrange(8, 10) == zero_padded(day as int, 2)
        },
{
    proof {
        if 0 <= year < 10000 && month < 100 && day < 100 {
            iso_date_layout(year as int, month as int, day as int);
        }
    }
    let mut r = zero_padded_i64(year as i64, 4);
    crate::text::push_char(&mut r, '-');
    let m = zero_padded_i64(month as i64, 2);
    r.append(m.as_str());
    crate::text::push_char(&mut r, '-');
    let d = zero_padded_i64(day as i64, 2);
    r.append(d.as_str());
    r
}

} // verus!
