//! The GraphQL resolvers of the gateway: which upstream URL each query asks, with which
//! `Authorization` header, and how the upstream JSON answer becomes GraphQL objects.
use vstd::prelude::*;
use vstd::string::{StringExecFns, StringSliceAdditionalSpecFns};
use crate::json::{Json, JsonView, items_under, items_view, lemma_items_view, lemma_member_at, text_or_empty};
use crate::text::{decimal_i32, decimal_text, push_char};

verus! {

/// Whether `b` is a byte that `urlencoding` leaves as it is: an ASCII letter or digit,
/// `-`, `_`, `.` or `~`.
pub open spec fn is_unreserved(b: u8) -> bool {
    ||| (65 <= b && b <= 90)
    ||| (97 <= b && b <= 122)
    ||| (48 <= b && b <= 57)
    ||| b == 45 || b == 95 || b == 46 || b == 126
}

/// The upper-case hexadecimal digit for `n < 16`.
pub open spec fn hex_digit(n: u8) -> char {
    if n < 10 {
        (n + 48) as char
    } else {
        (n + 55) as char
    }
}

/// How `urlencoding` writes one byte: unreserved bytes as themselves, a space as `%20`,
/// any other byte as `%` and two upper-case hexadecimal digits.
pub open spec fn encode_byte(b: u8) -> Seq<char> {
    if is_unreserved(b) {
        seq![b as char]
    } else if b == 32 {
        seq!['%', '2', '0']
    } else {
        seq!['%', hex_digit(b / 16), hex_digit(b % 16)]
    }
}

/// The percent-encoding of a byte sequence.
pub open spec fn url_encode(bytes: Seq<u8>) -> Seq<char>
    decreases bytes.len(),
{
    if bytes.len() == 0 {
        Seq::<char>::empty()
    } else {
        encode_byte(bytes[0]) + url_encode(bytes.drop_first())
    }
}

fn hex_digit_char(n: u8) -> (c: char)
    requires
        n < 16,
    ensures
        c == hex_digit(n),
{
    if n < 10 {
        (n + 48) as char
    } else {
        (n + 55) as char
    }
}

/// Percent-encodes the UTF-8 bytes of `s` for a query string.
pub fn urlencoding(s: &str) -> (r: String)
    ensures
        r@ == url_encode(s.spec_bytes()),
{
    let bytes = s.as_bytes();
    let mut r = String::new();
    let mut i: usize = 0;
    assert(bytes@.skip(0) =~= bytes@);
    while i < bytes.len()
        invariant
            bytes@ == s.spec_bytes(),
            i <= bytes@.len(),
            r@ + url_encode(bytes@.skip(i as int)) == url_encode(bytes@),
        decreases bytes@.len() - i,
    {
        let b = bytes[i];
        let ghost before = r@;
        assert(bytes@.skip(i as int).drop_first() =~= bytes@.skip(i + 1));
        assert(bytes@.skip(i as int)[0] == b);
        if (65 <= b && b <= 90) || (97 <= b && b <= 122) || (48 <= b && b <= 57) || b == 45 || b
            == 95 || b == 46 || b == 126 {
            push_char(&mut r, b as char);
        } else if b == 32 {
            push_char(&mut r, '%');
            push_char(&mut r, '2');
            push_char(&mut r, '0');
        } else {
            push_char(&mut r, '%');
            push_char(&mut r, hex_digit_char(b / 16));
            push_char(&mut r, hex_digit_char(b % 16));
        }
        assert(r@ =~= before + encode_byte(b));
        i = i + 1;
    }
    assert(bytes@.skip(i as int) =~= Seq::<u8>::empty());
    assert(r@ + url_encode(bytes@.skip(i as int)) =~= r@);
    r
}

/// Where the GraphQL resolvers find the upstream services.
pub struct ServicesConfig {
    pub sis_url: String,
    pub academic_url: String,
}

/// The root of the GraphQL schema; its resolvers are the functions of this module.
pub struct QueryRoot;

impl Default for QueryRoot {
    fn default() -> (r: Self)
        ensures
            r == QueryRoot,
    {
        QueryRoot
    }
}

/// A student as the `students` query returns it.
pub struct StudentGql {
    pub id: String,
    pub rut: String,
    pub first_name: String,
    pub last_name: String,
    pub grade_level: String,
    pub section: String,
}

/// A subject as the `subjects` query returns it.
pub struct SubjectGql {
    pub id: String,
    pub code: String,
    pub name: String,
    pub level: String,
}

/// The summary of a student's year as the `studentReport` query returns it.
pub struct StudentReportGql {
    pub student_name: String,
    pub year: i32,
    pub final_promotion: String,
}

/// The path, below the student service, that the `students` query asks.
pub open spec fn students_path(search: Option<Seq<u8>>) -> Seq<char> {
    match search {
        Some(q) => "/api/students?search="@ + url_encode(q),
        None => "/api/students"@,
    }
}

/// The path, below the academic service, that the `studentReport` query asks.
pub open spec fn student_report_path(student_id: Seq<char>, year: i32) -> Seq<char> {
    "/api/grades/reports/student/"@ + student_id + "/"@ + decimal_text(year as int)
}

/// Whether `s` is the student that the upstream record `v` describes: each field is the
/// string under its name, or empty.
pub open spec fn student_from(s: StudentGql, v: JsonView) -> bool {
    &&& s.id@ == text_or_empty(v, "id"@)
    &&& s.rut@ == text_or_empty(v, "rut"@)
    &&& s.first_name@ == text_or_empty(v, "first_name"@)
    &&& s.last_name@ == text_or_empty(v, "last_name"@)
    &&& s.grade_level@ == text_or_empty(v, "grade_level"@)
    &&& s.section@ == text_or_empty(v, "section"@)
}

/// Whether `s` is the subject that the upstream record `v` describes.
pub open spec fn subject_from(s: SubjectGql, v: JsonView) -> bool {
    &&& s.id@ == text_or_empty(v, "id"@)
    &&& s.code@ == text_or_empty(v, "code"@)
    &&& s.name@ == text_or_empty(v, "name"@)
    &&& s.level@ == text_or_empty(v, "level"@)
}

/// A student read from an upstream record holds that record's values: whatever texts the
/// record has under `id`, `rut`, `first_name`, `last_name`, `grade_level` and `section`,
/// the student has them in the fields of the same names, the last name as the last name
/// and the first name as the first name.
pub proof fn student_read_from_record(
    s: StudentGql,
    id: Seq<char>,
    rut: Seq<char>,
    first_name: Seq<char>,
    last_name: Seq<char>,
    grade_level: Seq<char>,
    section: Seq<char>,
)
    requires
        student_from(
            s,
            JsonView::Object(
                seq![
                    ("id"@, JsonView::Str(id)),
                    ("rut"@, JsonView::Str(rut)),
                    ("first_name"@, JsonView::Str(first_name)),
                    ("last_name"@, JsonView::Str(last_name)),
                    ("grade_level"@, JsonView::Str(grade_level)),
                    ("section"@, JsonView::Str(section)),
                ],
            ),
        ),
    ensures
        s.id@ == id,
        s.rut@ == rut,
        s.first_name@ == first_name,
        s.last_name@ == last_name,
        s.grade_level@ == grade_level,
        s.section@ == section,
{
    reveal_strlit("id");
    reveal_strlit("rut");
    reveal_strlit("first_name");
    reveal_strlit("last_name");
    reveal_strlit("grade_level");
    reveal_strlit("section");
    let ms = seq![
        ("id"@, JsonView::Str(id)),
        ("rut"@, JsonView::Str(rut)),
        ("first_name"@, JsonView::Str(first_name)),
        ("last_name"@, JsonView::Str(last_name)),
        ("grade_level"@, JsonView::Str(grade_level)),
        ("section"@, JsonView::Str(section)),
    ];
    assert forall|i: int, j: int| 0 <= j < i < ms.len() implies (#[trigger] ms[j]).0 != (#[trigger] ms[i]).0 by {
        assert(ms[j].0.len() != ms[i].0.len());
    }
    lemma_member_at(ms, 0);
    lemma_member_at(ms, 1);
    lemma_member_at(ms, 2);
    lemma_member_at(ms, 3);
    lemma_member_at(ms, 4);
    lemma_member_at(ms, 5);
}

/// A subject read from an upstream record holds that record's values: the texts under
/// `id`, `code`, `name` and `level` land in the fields of the same names.
pub proof fn subject_read_from_record(
    s: SubjectGql,
    id: Seq<char>,
    code: Seq<char>,
    name: Seq<char>,
    level: Seq<char>,
)
    requires
        subject_from(
            s,
            JsonView::Object(
                seq![
                    ("id"@, JsonView::Str(id)),
                    ("code"@, JsonView::Str(code)),
                    ("name"@, JsonView::Str(name)),
                    ("level"@, JsonView::Str(level)),
                ],
            ),
        ),
    ensures
        s.id@ == id,
        s.code@ == code,
        s.name@ == name,
        s.level@ == level,
{
    reveal_strlit("id");
    reveal_strlit("code");
    reveal_strlit("name");
    reveal_strlit("level");
    let ms = seq![
        ("id"@, JsonView::Str(id)),
        ("code"@, JsonView::Str(code)),
        ("name"@, JsonView::Str(name)),
        ("level"@, JsonView::Str(level)),
    ];
    assert forall|i: int, j: int| 0 <= j < i < ms.len() implies (#[trigger] ms[j]).0 != (#[trigger] ms[i]).0 by {
        if ms[j].0.len() == ms[i].0.len() {
            assert(ms[j].0[0] != ms[i].0[0]);
        }
    }
    lemma_member_at(ms, 0);
    lemma_member_at(ms, 1);
    lemma_member_at(ms, 2);
    lemma_member_at(ms, 3);
}

impl ServicesConfig {
    /// The URL that the `students` query asks, with the search text percent-encoded.
    pub fn students_url(&self, search: Option<&str>) -> (r: String)
        ensures
            r@ == self.sis_url@ + students_path(
                match search {
                    Some(q) => Some(q.spec_bytes()),
                    None => None,
                },
            ),
            match search {
                Some(q) => r@ == self.sis_url@ + "/api/students?search="@ + url_encode(q.spec_bytes()),
                None => r@ == self.sis_url@ + "/api/students"@,
            },
    {
        let mut r = self.sis_url.clone();
        match search {
            Some(q) => {
                r.append("/api/students?search=");
                let e = urlencoding(q);
                r.append(e.as_str());
            },
            None => {
                r.append("/api/students");
            },
        }
        r
    }

    /// The URL that the `subjects` query asks.
    pub fn subjects_url(&self) -> (r: String)
        ensures
            r@ == self.academic_url@ + "/api/grades/subjects"@,
    {
        let mut r = self.academic_url.clone();
        r.append("/api/grades/subjects");
        r
    }

    /// The URL that the `studentReport` query asks.
    pub fn student_report_url(&self, student_id: &str, year: i32) -> (r: String)
        ensures
            r@ == self.academic_url@ + student_report_path(student_id@, year),
            r@ == self.academic_url@ + "/api/grades/reports/student/"@ + student_id@ + "/"@ + decimal_text(
                year as int,
            ),
    {
        let mut r = self.academic_url.clone();
        r.append("/api/grades/reports/student/");
        r.append(student_id);
        r.append("/");
        let y = decimal_i32(year);
        r.append(y.as_str());
        r
    }
}

/// The `Authorization` header value that the resolvers send upstream for `token`.
pub fn bearer_authorization(token: &str) -> (r: String)
    ensures
        r@ == "Bearer "@ + token@,
{
    let mut r = String::from_str("Bearer ");
    r.append(token);
    r
}

/// The students of an upstream answer: one per element of its `students` array, none
/// when there is no such array.
pub fn students_from_response(data: &Json) -> (r: Vec<StudentGql>)
    ensures
        match items_under(data@, "students"@) {
            Some(items) => r@.len() == items.len() && (forall|i: int|
                0 <= i < items.len() ==> student_from(#[trigger] r@[i], items[i])) && (forall|i: int|
                0 <= i < items.len() ==> {
                    &&& (#[trigger] r@[i]).id@ == text_or_empty(items[i], "id"@)
                    &&& r@[i].rut@ == text_or_empty(items[i], "rut"@)
                    &&& r@[i].first_name@ == text_or_empty(items[i], "first_name"@)
                    &&& r@[i].last_name@ == text_or_empty(items[i], "last_name"@)
                    &&& r@[i].grade_level@ == text_or_empty(items[i], "grade_level"@)
                    &&& r@[i].section@ == text_or_empty(items[i], "section"@)
                }),
            None => r@.len() == 0,
        },
{
    let mut out: Vec<StudentGql> = Vec::new();
    match data.get("students") {
        Some(Json::Array(items)) => {
            proof {
                lemma_items_view(items@);
            }
            let mut i: usize = 0;
            while i < items.len()
                invariant
                    i <= items@.len(),
                    out@.len() == i,
                    forall|k: int|
                        0 <= k < i ==> student_from(#[trigger] out@[k], items@[k]@),
                decreases items@.len() - i,
            {
                let s = &items[i];
                out.push(
                    StudentGql {
                        id: crate::json::text_field(s, "id"),
                        rut: crate::json::text_field(s, "rut"),
                        first_name: crate::json::text_field(s, "first_name"),
                        last_name: crate::json::text_field(s, "last_name"),
                        grade_level: crate::json::text_field(s, "grade_level"),
                        section: crate::json::text_field(s, "section"),
                    },
                );
                i = i + 1;
            }
            assert(items_view(items@) =~= items@.map_values(|j: Json| j@));
        },
        _ => {},
    }
    out
}

/// The subjects of an upstream answer: one per element of its `subjects` array, none
/// when there is no such array.
pub fn subjects_from_response(data: &Json) -> (r: Vec<SubjectGql>)
    ensures
        match items_under(data@, "subjects"@) {
            Some(items) => r@.len() == items.len() && (forall|i: int|
                0 <= i < items.len() ==> subject_from(#[trigger] r@[i], items[i])) && (forall|i: int|
                0 <= i < items.len() ==> {
                    &&& (#[trigger] r@[i]).id@ == text_or_empty(items[i], "id"@)
                    &&& r@[i].code@ == text_or_empty(items[i], "code"@)
                    &&& r@[i].name@ == text_or_empty(items[i], "name"@)
                    &&& r@[i].level@ == text_or_empty(items[i], "level"@)
                }),
            None => r@.len() == 0,
        },
{
    let mut out: Vec<SubjectGql> = Vec::new();
    match data.get("subjects") {
        Some(Json::Array(items)) => {
            proof {
                lemma_items_view(items@);
            }
            let mut i: usize = 0;
            while i < items.len()
                invariant
                    i <= items@.len(),
                    out@.len() == i,
                    forall|k: int|
                        0 <= k < i ==> subject_from(#[trigger] out@[k], items@[k]@),
                decreases items@.len() - i,
            {
                let s = &items[i];
                out.push(
                    SubjectGql {
                        id: crate::json::text_field(s, "id"),
                        code: crate::json::text_field(s, "code"),
                        name: crate::json::text_field(s, "name"),
                        level: crate::json::text_field(s, "level"),
                    },
                );
                i = i + 1;
            }
            assert(items_view(items@) =~= items@.map_values(|j: Json| j@));
        },
        _ => {},
    }
    out
}

/// The report of an upstream answer for `year`: the student's name and final promotion,
/// each empty when missing or not a string.
pub fn student_report_from_response(data: &Json, year: i32) -> (r: StudentReportGql)
    ensures
        r.student_name@ == text_or_empty(data@, "student_name"@),
        r.year == year,
        r.final_promotion@ == text_or_empty(data@, "final_promotion"@),
{
    StudentReportGql {
        student_name: crate::json::text_field(data, "student_name"),
        year,
        final_promotion: crate::json::text_field(data, "final_promotion"),
    }
}

} // verus!
