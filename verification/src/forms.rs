//! Forms that edit the text fields of a record: a form opens blank or loaded from a
//! record, and saving sends the fields under the record's own keys, to the record's
//! address when it edits one. The corporation, legal representative and course forms of
//! the administration pages are such forms.
use vstd::prelude::*;
use vstd::string::StringExecFns;
use crate::json::{
    Json, JsonView, field_of, flag_under, int_field_or, int_under, lemma_member_absent, lemma_member_at, lemma_members_view, member,
    members_view, text_field, text_field_or, text_or_empty,
};
use crate::text::{
    chars_of, decimal_i32, decimal_text, has_prefix, occurs_in, replace_all, replace_all_chars,
    string_of, trim, trim_chars,
};

verus! {

/// The values of a form's fields, in the order of its keys, and the id of the record it
/// edits, if any.
pub struct RecordForm {
    pub values: Vec<String>,
    pub editing: Option<String>,
}

/// The texts of a sequence of strings.
pub open spec fn texts_view(v: Seq<String>) -> Seq<Seq<char>> {
    v.map_values(|s: String| s@)
}

/// The values a form shows once loaded from `record`: for each key, the record's text
/// under it, or the empty text.
pub open spec fn loaded_values(record: JsonView, keys: Seq<Seq<char>>) -> Seq<Seq<char>> {
    keys.map_values(|k: Seq<char>| text_or_empty(record, k))
}

/// The id of the record a loaded form edits: the record's `id` when it is a text.
pub open spec fn record_id(record: JsonView) -> Option<Seq<char>> {
    match field_of(record, "id"@) {
        Some(JsonView::Str(id)) => Some(id),
        _ => None,
    }
}

/// The members that send `values` under `keys`, in order.
pub open spec fn fields_body(keys: Seq<Seq<char>>, values: Seq<Seq<char>>) -> Seq<(Seq<char>, JsonView)> {
    Seq::new(keys.len(), |i: int| (keys[i], JsonView::Str(values[i])))
}

/// A blank form of `n` fields that edits no record.
pub fn blank_form(n: usize) -> (r: RecordForm)
    ensures
        r.values@.len() == n,
        texts_view(r.values@) == Seq::new(n as nat, |i: int| Seq::<char>::empty()),
        r.editing is None,
{
    let mut values: Vec<String> = Vec::new();
    let mut i: usize = 0;
    while i < n
        invariant
            i <= n,
            values@.len() == i,
            texts_view(values@) == Seq::new(i as nat, |k: int| Seq::<char>::empty()),
        decreases n - i,
    {
        let e = String::new();
        let ghost before = values@;
        values.push(e);
        assert(texts_view(values@) =~= texts_view(before).push(Seq::<char>::empty()));
        assert(texts_view(values@) =~= Seq::new((i + 1) as nat, |k: int| Seq::<char>::empty()));
        i = i + 1;
    }
    RecordForm { values, editing: None }
}

/// The form loaded from `record`: its text under each of `keys`, and its id.
pub fn form_from_record(record: &Json, keys: &Vec<String>) -> (r: RecordForm)
    ensures
        texts_view(r.values@) == loaded_values(record@, texts_view(keys@)),
        match r.editing {
            Some(id) => record_id(record@) == Some(id@),
            None => record_id(record@) is None,
        },
{
    let mut values: Vec<String> = Vec::new();
    let mut i: usize = 0;
    while i < keys.len()
        invariant
            i <= keys@.len(),
            texts_view(values@) == loaded_values(record@, texts_view(keys@)).take(i as int),
        decreases keys@.len() - i,
    {
        let v = text_field(record, keys[i].as_str());
        let ghost before = values@;
        values.push(v);
        assert(texts_view(keys@)[i as int] == keys@[i as int]@);
        assert(texts_view(values@) =~= texts_view(before).push(v@));
        assert(texts_view(values@) =~= loaded_values(record@, texts_view(keys@)).take(i + 1));
        i = i + 1;
    }
    assert(loaded_values(record@, texts_view(keys@)).take(keys@.len() as int) =~= loaded_values(
        record@,
        texts_view(keys@),
    ));
    let editing = match record.get("id") {
        Some(Json::Str(id)) => Some(id.clone()),
        _ => None,
    };
    RecordForm { values, editing }
}

/// Appends to `out` the members that send the form's values under `keys`.
fn push_fields(out: &mut Vec<(String, Json)>, keys: &Vec<String>, form: &RecordForm)
    requires
        keys@.len() == form.values@.len(),
    ensures
        members_view(final(out)@) == members_view(old(out)@) + fields_body(
            texts_view(keys@),
            texts_view(form.values@),
        ),
{
    let ghost start = out@;
    let mut i: usize = 0;
    while i < keys.len()
        invariant
            keys@.len() == form.values@.len(),
            i <= keys@.len(),
            out@.len() == start.len() + i,
            forall|k: int| 0 <= k < start.len() ==> #[trigger] out@[k] == start[k],
            forall|k: int|
                0 <= k < i ==> (#[trigger] out@[start.len() + k]).0@ == keys@[k]@ && out@[start.len()
                    + k].1@ == JsonView::Str(form.values@[k]@),
        decreases keys@.len() - i,
    {
        out.push((keys[i].clone(), Json::Str(form.values[i].clone())));
        i = i + 1;
    }
    proof {
        lemma_members_view(out@);
        lemma_members_view(start);
        let fb = fields_body(texts_view(keys@), texts_view(form.values@));
        let whole = members_view(start) + fb;
        assert forall|j: int| 0 <= j < whole.len() implies #[trigger] members_view(out@)[j] == whole[j] by {
            if j < start.len() {
                assert(out@[j] == start[j]);
            } else {
                let k = j - start.len();
                assert(out@[start.len() + k].0@ == keys@[k]@);
            }
        }
        assert(members_view(out@) =~= members_view(start) + fb);
    }
}

/// The body that saves the form: its values under `keys`.
pub fn form_payload(keys: &Vec<String>, form: &RecordForm) -> (r: Json)
    requires
        keys@.len() == form.values@.len(),
    ensures
        r@ == JsonView::Object(fields_body(texts_view(keys@), texts_view(form.values@))),
{
    let mut ms: Vec<(String, Json)> = Vec::new();
    push_fields(&mut ms, keys, form);
    proof {
        lemma_members_view(Seq::<(String, Json)>::empty());
        assert(members_view(Seq::<(String, Json)>::empty()) =~= Seq::<(Seq<char>, JsonView)>::empty());
        assert(Seq::<(Seq<char>, JsonView)>::empty() + fields_body(texts_view(keys@), texts_view(form.values@))
            =~= fields_body(texts_view(keys@), texts_view(form.values@)));
    }
    Json::Object(ms)
}

/// Saving a form loaded from a record sends the record's own texts: read back from the
/// body under each of the form's keys (which differ from one another), every field has
/// the record's text under that key, or the empty text where the record had none.
pub proof fn loaded_form_saves_the_record(record: JsonView, keys: Seq<Seq<char>>)
    requires
        keys.no_duplicates(),
    ensures
        forall|i: int|
            0 <= i < keys.len() ==> #[trigger] text_or_empty(
                JsonView::Object(fields_body(keys, loaded_values(record, keys))),
                keys[i],
            ) == text_or_empty(record, keys[i]),
{
    let ms = fields_body(keys, loaded_values(record, keys));
    assert forall|i: int| 0 <= i < keys.len() implies #[trigger] text_or_empty(
        JsonView::Object(ms),
        keys[i],
    ) == text_or_empty(record, keys[i]) by {
        assert forall|j: int| 0 <= j < i implies (#[trigger] ms[j]).0 != ms[i].0 by {
            assert(keys[j] != keys[i]);
        }
        lemma_member_at(ms, i);
    }
}

/// The keys of the corporation form.
pub open spec fn corporation_keys_text() -> Seq<Seq<char>> {
    seq![
        "name"@,
        "rut"@,
        "legal_representative_name"@,
        "legal_representative_rut"@,
        "legal_representative_email"@,
    ]
}

/// The keys of the corporation form: name, RUT, and its legal representative's name, RUT
/// and email.
pub fn corporation_form_keys() -> (r: Vec<String>)
    ensures
        texts_view(r@) == corporation_keys_text(),
{
    let mut r: Vec<String> = Vec::new();
    r.push(String::from_str("name"));
    r.push(String::from_str("rut"));
    r.push(String::from_str("legal_representative_name"));
    r.push(String::from_str("legal_representative_rut"));
    r.push(String::from_str("legal_representative_email"));
    assert(texts_view(r@) =~= corporation_keys_text());
    r
}

/// The keys of the legal representative form.
pub open spec fn legal_rep_keys_text() -> Seq<Seq<char>> {
    seq!["rut"@, "first_name"@, "last_name"@, "email"@, "phone"@, "address"@]
}

/// The keys of a legal representative's form: RUT, first and last name, email, phone and
/// address.
pub fn legal_rep_form_keys() -> (r: Vec<String>)
    ensures
        texts_view(r@) == legal_rep_keys_text(),
{
    let mut r: Vec<String> = Vec::new();
    r.push(String::from_str("rut"));
    r.push(String::from_str("first_name"));
    r.push(String::from_str("last_name"));
    r.push(String::from_str("email"));
    r.push(String::from_str("phone"));
    r.push(String::from_str("address"));
    assert(texts_view(r@) =~= legal_rep_keys_text());
    r
}

/// The body that saves a legal representative of corporation `corporation_id`: the
/// corporation first, then the form's fields.
pub fn legal_rep_payload(corporation_id: &str, form: &RecordForm) -> (r: Json)
    requires
        form.values@.len() == legal_rep_keys_text().len(),
    ensures
        r@ == JsonView::Object(
            seq![("corporation_id"@, JsonView::Str(corporation_id@))] + fields_body(
                legal_rep_keys_text(),
                texts_view(form.values@),
            ),
        ),
{
    let keys = legal_rep_form_keys();
    let mut ms: Vec<(String, Json)> = Vec::new();
    ms.push((String::from_str("corporation_id"), Json::Str(String::from_str(corporation_id))));
    let ghost first = ms@;
    proof {
        lemma_members_view(first);
        assert(members_view(first) =~= seq![("corporation_id"@, JsonView::Str(corporation_id@))]);
    }
    push_fields(&mut ms, &keys, form);
    Json::Object(ms)
}

/// Whether a legal representative's form can be saved: it is not saving already and its
/// RUT is not blank.
pub fn legal_rep_can_save(form: &RecordForm, saving: bool) -> (r: bool)
    requires
        form.values@.len() == legal_rep_keys_text().len(),
    ensures
        r == (!saving && trim(form.values@[0]@).len() > 0),
{
    let cs = chars_of(form.values[0].as_str());
    let t = trim_chars(&cs);
    !saving && t.len() > 0
}

/// The keys of the course form.
pub open spec fn course_keys_text() -> Seq<Seq<char>> {
    seq!["name"@, "subject"@, "grade_level"@, "plan"@, "section"@, "teacher_id"@]
}

/// The keys of the course form: name, subject, level, plan, section and head teacher.
pub fn course_form_keys() -> (r: Vec<String>)
    ensures
        texts_view(r@) == course_keys_text(),
{
    let mut r: Vec<String> = Vec::new();
    r.push(String::from_str("name"));
    r.push(String::from_str("subject"));
    r.push(String::from_str("grade_level"));
    r.push(String::from_str("plan"));
    r.push(String::from_str("section"));
    r.push(String::from_str("teacher_id"));
    assert(texts_view(r@) =~= course_keys_text());
    r
}

/// Whether a level is one of the two last years of secondary school, whose courses follow
/// a study plan.
pub open spec fn level_has_plan(level: Seq<char>) -> bool {
    level == "3° Medio"@ || level == "4° Medio"@
}

/// The body that saves a course: its name, subject, level, section and head teacher, and
/// its plan as well when the level has plans and a plan was chosen.
pub open spec fn course_body(v: Seq<Seq<char>>) -> JsonView {
    let base = seq![
        ("name"@, JsonView::Str(v[0])),
        ("subject"@, JsonView::Str(v[1])),
        ("grade_level"@, JsonView::Str(v[2])),
        ("section"@, JsonView::Str(v[4])),
        ("teacher_id"@, JsonView::Str(v[5])),
    ];
    if level_has_plan(v[2]) && v[3].len() > 0 {
        JsonView::Object(base.push(("plan"@, JsonView::Str(v[3]))))
    } else {
        JsonView::Object(base)
    }
}

/// A saved course says what the form holds: read back under its keys, the body gives the
/// name, subject, level, section and head teacher as entered, and it carries the chosen
/// plan exactly when the level is `3° Medio` or `4° Medio` and a plan was chosen; any
/// other course has no plan member at all.
pub proof fn course_body_reads_back(v: Seq<Seq<char>>)
    requires
        v.len() == 6,
    ensures
        field_of(course_body(v), "name"@) == Some(JsonView::Str(v[0])),
        field_of(course_body(v), "subject"@) == Some(JsonView::Str(v[1])),
        field_of(course_body(v), "grade_level"@) == Some(JsonView::Str(v[2])),
        field_of(course_body(v), "section"@) == Some(JsonView::Str(v[4])),
        field_of(course_body(v), "teacher_id"@) == Some(JsonView::Str(v[5])),
        field_of(course_body(v), "plan"@) == (if (v[2] == "3° Medio"@ || v[2] == "4° Medio"@)
            && v[3].len() > 0 {
            Some(JsonView::Str(v[3]))
        } else {
            None
        }),
{
    reveal_strlit("name");
    reveal_strlit("subject");
    reveal_strlit("grade_level");
    reveal_strlit("section");
    reveal_strlit("teacher_id");
    reveal_strlit("plan");
    let ms = match course_body(v) {
        JsonView::Object(m) => m,
        _ => Seq::empty(),
    };
    assert forall|i: int, j: int| 0 <= j < i < ms.len() implies (#[trigger] ms[j]).0 != (#[trigger] ms[i]).0 by {
        if ms[j].0.len() == ms[i].0.len() {
            assert(ms[j].0[0] != ms[i].0[0] || ms[j].0[1] != ms[i].0[1]);
        }
    }
    lemma_member_at(ms, 0);
    lemma_member_at(ms, 1);
    lemma_member_at(ms, 2);
    lemma_member_at(ms, 3);
    lemma_member_at(ms, 4);
    if ms.len() == 6 {
        lemma_member_at(ms, 5);
    } else {
        assert forall|j: int| 0 <= j < ms.len() implies (#[trigger] ms[j]).0 != "plan"@ by {
            assert(ms[j].0[0] != "plan"@[0] || ms[j].0.len() != "plan"@.len());
        }
        lemma_member_absent(ms, "plan"@);
    }
}

/// Each field of the course form is saved under its own key: the value typed in the
/// field that the form's keys name `k` is what the body holds under `k` (the plan as the
/// rule above says).
pub proof fn course_fields_saved_under_their_keys(v: Seq<Seq<char>>)
    requires
        v.len() == course_keys_text().len(),
    ensures
        forall|i: int| 0 <= i < 6 && i != 3 ==> field_of(course_body(v), #[trigger] course_keys_text()[i]) == Some(
            JsonView::Str(v[i]),
        ),
        field_of(course_body(v), course_keys_text()[3]) == (if (v[2] == "3° Medio"@ || v[2] == "4° Medio"@)
            && v[3].len() > 0 {
            Some(JsonView::Str(v[3]))
        } else {
            None
        }),
{
    course_body_reads_back(v);
    assert forall|i: int| 0 <= i < 6 && i != 3 implies field_of(course_body(v), #[trigger] course_keys_text()[i])
        == Some(JsonView::Str(v[i])) by {
        if i == 0 {
        } else if i == 1 {
        } else if i == 2 {
        } else if i == 4 {
        } else {
        }
    }
}

/// The body that saves the course form.
pub fn course_payload(form: &RecordForm) -> (r: Json)
    requires
        form.values@.len() == course_keys_text().len(),
    ensures
        r@ == course_body(texts_view(form.values@)),
        field_of(r@, "name"@) == Some(JsonView::Str(form.values@[0]@)),
        field_of(r@, "subject"@) == Some(JsonView::Str(form.values@[1]@)),
        field_of(r@, "grade_level"@) == Some(JsonView::Str(form.values@[2]@)),
        field_of(r@, "section"@) == Some(JsonView::Str(form.values@[4]@)),
        field_of(r@, "teacher_id"@) == Some(JsonView::Str(form.values@[5]@)),
        field_of(r@, "plan"@) == (if (form.values@[2]@ == "3° Medio"@ || form.values@[2]@
            == "4° Medio"@) && form.values@[3]@.len() > 0 {
            Some(JsonView::Str(form.values@[3]@))
        } else {
            None
        }),
{
    proof {
        let tv = texts_view(form.values@);
        assert(tv.len() == 6);
        assert(tv[0] == form.values@[0]@ && tv[1] == form.values@[1]@ && tv[2] == form.values@[2]@);
        assert(tv[3] == form.values@[3]@ && tv[4] == form.values@[4]@ && tv[5] == form.values@[5]@);
        course_body_reads_back(tv);
    }
    let v = &form.values;
    let mut ms: Vec<(String, Json)> = Vec::new();
    ms.push((String::from_str("name"), Json::Str(v[0].clone())));
    ms.push((String::from_str("subject"), Json::Str(v[1].clone())));
    ms.push((String::from_str("grade_level"), Json::Str(v[2].clone())));
    ms.push((String::from_str("section"), Json::Str(v[4].clone())));
    ms.push((String::from_str("teacher_id"), Json::Str(v[5].clone())));
    let ghost tv = texts_view(v@);
    if crate::client::needs_plan(v[2].as_str()) && !v[3].as_str().is_empty() {
        ms.push((String::from_str("plan"), Json::Str(v[3].clone())));
    }
    proof {
        lemma_members_view(ms@);
        assert(tv[2] == v@[2]@ && tv[3] == v@[3]@);
    }
    let ghost mv = ms@;
    assert(members_view(mv) =~~= (match course_body(tv) {
        JsonView::Object(m) => m,
        _ => Seq::empty(),
    }));
    Json::Object(ms)
}

/// The address that saves a course: the course's own when the form edits one, else the
/// course list's.
pub open spec fn course_endpoint_text(editing: Option<Seq<char>>) -> Seq<char> {
    match editing {
        Some(id) => "/api/courses/"@ + id,
        None => "/api/courses"@,
    }
}

/// The address that saves the course form.
pub fn course_endpoint(form: &RecordForm) -> (r: String)
    ensures
        r@ == course_endpoint_text(match form.editing {
            Some(id) => Some(id@),
            None => None,
        }),
        match form.editing {
            Some(id) => r@ == "/api/courses/"@ + id@,
            None => r@ == "/api/courses"@,
        },
{
    match &form.editing {
        Some(id) => {
            let mut r = String::from_str("/api/courses/");
            r.append(id.as_str());
            r
        },
        None => String::from_str("/api/courses"),
    }
}

/// The plan a course row shows: the course's plan, or `-` when it has none.
pub fn plan_display(course: &Json) -> (r: String)
    ensures
        r@ == (if text_or_empty(course@, "plan"@).len() == 0 {
            "-"@
        } else {
            text_or_empty(course@, "plan"@)
        }),
{
    let plan = text_field(course, "plan");
    if plan.as_str().is_empty() {
        String::from_str("-")
    } else {
        plan
    }
}

/// A corporation's row in the administration list.
pub struct CorporationRow {
    pub id: String,
    pub name: String,
    pub rut: String,
    pub active: bool,
    pub plan: String,
    pub schools: i64,
    pub students: i64,
    pub toggle_label: String,
}

/// The row of corporation `corp`: its id and name (empty when missing), RUT and plan
/// (`-` when missing), whether it is active (it is unless it says otherwise), its school
/// and student counts (0 when missing), and the button that switches it: `Deshabilitar`
/// for an active one, `Habilitar` for another.
pub fn corporation_row(corp: &Json) -> (r: CorporationRow)
    ensures
        r.id@ == text_or_empty(corp@, "id"@),
        r.name@ == text_or_empty(corp@, "name"@),
        r.rut@ == (match field_of(corp@, "rut"@) {
            Some(JsonView::Str(s)) => s,
            _ => "-"@,
        }),
        r.active == (flag_under(corp@, "active"@) != Some(false)),
        r.plan@ == (match field_of(corp@, "plan_name"@) {
            Some(JsonView::Str(s)) => s,
            _ => "-"@,
        }),
        r.schools == (match int_under(corp@, "total_schools"@) {
            Some(n) => n,
            None => 0,
        }),
        r.students == (match int_under(corp@, "total_students"@) {
            Some(n) => n,
            None => 0,
        }),
        r.toggle_label@ == (if r.active {
            "Deshabilitar"@
        } else {
            "Habilitar"@
        }),
{
    let active = match corp.get("active") {
        Some(Json::Bool(b)) => *b,
        _ => true,
    };
    CorporationRow {
        id: text_field(corp, "id"),
        name: text_field(corp, "name"),
        rut: text_field_or(corp, "rut", "-"),
        active,
        plan: text_field_or(corp, "plan_name", "-"),
        schools: int_field_or(corp, "total_schools", 0),
        students: int_field_or(corp, "total_students", 0),
        toggle_label: if active {
            String::from_str("Deshabilitar")
        } else {
            String::from_str("Habilitar")
        },
    }
}

/// The body that saves a grade level: its code and name, its plan (`null` for the common
/// plan, written as the empty choice), and its position in the list.
pub open spec fn grade_level_body(code: Seq<char>, name: Seq<char>, plan: Seq<char>, sort_order: int) -> JsonView {
    JsonView::Object(
        seq![
            ("code"@, JsonView::Str(code)),
            ("name"@, JsonView::Str(name)),
            ("plan"@, if plan.len() == 0 {
                JsonView::Null
            } else {
                JsonView::Str(plan)
            }),
            ("sort_order"@, JsonView::Number(decimal_text(sort_order))),
        ],
    )
}

/// A saved grade level says what was entered: read back, the body gives the code under
/// `code`, the name under `name`, the position in decimal under `sort_order`, and under
/// `plan` the plan chosen, or `null` when the common plan (no choice) was kept.
pub proof fn grade_level_body_reads_back(code: Seq<char>, name: Seq<char>, plan: Seq<char>, sort_order: int)
    ensures
        field_of(grade_level_body(code, name, plan, sort_order), "code"@) == Some(JsonView::Str(code)),
        field_of(grade_level_body(code, name, plan, sort_order), "name"@) == Some(JsonView::Str(name)),
        field_of(grade_level_body(code, name, plan, sort_order), "plan"@) == Some(
            if plan.len() == 0 {
                JsonView::Null
            } else {
                JsonView::Str(plan)
            },
        ),
        field_of(grade_level_body(code, name, plan, sort_order), "sort_order"@) == Some(
            JsonView::Number(decimal_text(sort_order)),
        ),
{
    reveal_strlit("code");
    reveal_strlit("name");
    reveal_strlit("plan");
    reveal_strlit("sort_order");
    let ms = match grade_level_body(code, name, plan, sort_order) {
        JsonView::Object(m) => m,
        _ => Seq::empty(),
    };
    assert forall|i: int, j: int| 0 <= j < i < ms.len() implies (#[trigger] ms[j]).0 != (#[trigger] ms[i]).0 by {
        if ms[j].0.len() == ms[i].0.len() {
            assert(ms[j].0[0] != ms[i].0[0]);
        }
    }
    lemma_member_at(ms, 0);
    lemma_member_at(ms, 1);
    lemma_member_at(ms, 2);
    lemma_member_at(ms, 3);
}

/// The body that saves a grade level.
pub fn grade_level_payload(code: &str, name: &str, plan: &str, sort_order: i32) -> (r: Json)
    ensures
        r@ == grade_level_body(code@, name@, plan@, sort_order as int),
        field_of(r@, "code"@) == Some(JsonView::Str(code@)),
        field_of(r@, "name"@) == Some(JsonView::Str(name@)),
        field_of(r@, "plan"@) == Some(
            if plan@.len() == 0 {
                JsonView::Null
            } else {
                JsonView::Str(plan@)
            },
        ),
        field_of(r@, "sort_order"@) == Some(JsonView::Number(decimal_text(sort_order as int))),
{
    proof {
        grade_level_body_reads_back(code@, name@, plan@, sort_order as int);
    }
    let mut ms: Vec<(String, Json)> = Vec::new();
    ms.push((String::from_str("code"), Json::Str(String::from_str(code))));
    ms.push((String::from_str("name"), Json::Str(String::from_str(name))));
    let plan_value = if plan.is_empty() {
        Json::Null
    } else {
        Json::Str(String::from_str(plan))
    };
    ms.push((String::from_str("plan"), plan_value));
    ms.push((String::from_str("sort_order"), Json::Number(decimal_i32(sort_order))));
    let ghost mv = ms@;
    proof {
        lemma_members_view(mv);
    }
    assert(members_view(mv) =~~= (match grade_level_body(code@, name@, plan@, sort_order as int) {
        JsonView::Object(m) => m,
        _ => Seq::empty(),
    }));
    Json::Object(ms)
}

/// The address of the grade levels; an edit sends to this address followed by the id.
pub open spec fn grade_levels_prefix() -> Seq<char> {
    "/api/academic/grade-levels/"@
}

/// The id that saving an edited grade level updates: the level's address with every
/// occurrence of the grade-level address removed.
pub open spec fn grade_level_update_id_text(id: Seq<char>) -> Seq<char> {
    replace_all(grade_levels_prefix() + id, grade_levels_prefix(), Seq::<char>::empty())
}

/// The id that saving an edited grade level updates, taken back out of its address.
pub fn grade_level_update_id(id: &str) -> (r: String)
    ensures
        r@ == grade_level_update_id_text(id@),
{
    let mut ep = String::from_str("/api/academic/grade-levels/");
    ep.append(id);
    let cs = chars_of(ep.as_str());
    let pat = chars_of("/api/academic/grade-levels/");
    proof {
        reveal_strlit("/api/academic/grade-levels/");
    }
    let empty: Vec<char> = Vec::new();
    let out = replace_all_chars(&cs, &pat, &empty);
    assert(empty@ =~= Seq::<char>::empty());
    string_of(out.as_slice())
}

proof fn lemma_replace_absent(s: Seq<char>, pat: Seq<char>, rep: Seq<char>)
    requires
        pat.len() > 0,
        !occurs_in(s, pat),
    ensures
        replace_all(s, pat, rep) == s,
    decreases s.len(),
{
    if s.len() > 0 {
        assert(!has_prefix(s, pat)) by {
            if has_prefix(s, pat) {
                assert(s.skip(0) =~= s);
                assert(has_prefix(s.skip(0), pat));
            }
        }
        let rest = s.drop_first();
        assert(!occurs_in(rest, pat)) by {
            if occurs_in(rest, pat) {
                let i = choose|i: int| 0 <= i <= rest.len() && #[trigger] has_prefix(rest.skip(i), pat);
                assert(s.skip(i + 1) =~= rest.skip(i));
                assert(has_prefix(s.skip(i + 1), pat));
            }
        }
        lemma_replace_absent(rest, pat, rep);
        assert(seq![s[0]] + rest =~= s);
    }
}

/// Saving an edited grade level updates the level being edited, whenever its id does not
/// itself hold the grade-level address.
pub proof fn grade_level_update_targets_the_edited_level(id: Seq<char>)
    requires
        !occurs_in(id, grade_levels_prefix()),
    ensures
        grade_level_update_id_text(id) == id,
{
    reveal_strlit("/api/academic/grade-levels/");
    let p = grade_levels_prefix();
    let s = p + id;
    assert(has_prefix(s, p)) by {
        assert(s.take(p.len() as int) =~= p);
    }
    assert(s.skip(p.len() as int) =~= id);
    lemma_replace_absent(id, p, Seq::<char>::empty());
    assert(Seq::<char>::empty() + id =~= id);
}

/// A row of the grade level list.
pub struct GradeLevelRow {
    pub id: String,
    pub code: String,
    pub name: String,
    pub plan: String,
    pub sort_order: i32,
}

/// The row of grade level `level`: its texts (empty when missing) and its position in
/// the list (0 when missing, cut to 32 bits as the list shows it).
pub fn grade_level_row(level: &Json) -> (r: GradeLevelRow)
    ensures
        r.id@ == text_or_empty(level@, "id"@),
        r.code@ == text_or_empty(level@, "code"@),
        r.name@ == text_or_empty(level@, "name"@),
        r.plan@ == text_or_empty(level@, "plan"@),
        r.sort_order == (match int_under(level@, "sort_order"@) {
            Some(n) => n,
            None => 0,
        }) as i32,
{
    let order = int_field_or(level, "sort_order", 0);
    GradeLevelRow {
        id: text_field(level, "id"),
        code: text_field(level, "code"),
        name: text_field(level, "name"),
        plan: text_field(level, "plan"),
        sort_order: order as i32,
    }
}

/// The keys of the new-employee form.
pub open spec fn employee_keys_text() -> Seq<Seq<char>> {
    seq![
        "rut"@,
        "first_name"@,
        "last_name"@,
        "email"@,
        "phone"@,
        "position"@,
        "category"@,
        "hire_date"@,
    ]
}

/// The keys of the new-employee form: RUT, first and last name, email, phone, position,
/// category and hire date.
pub fn employee_form_keys() -> (r: Vec<String>)
    ensures
        texts_view(r@) == employee_keys_text(),
{
    let mut r: Vec<String> = Vec::new();
    r.push(String::from_str("rut"));
    r.push(String::from_str("first_name"));
    r.push(String::from_str("last_name"));
    r.push(String::from_str("email"));
    r.push(String::from_str("phone"));
    r.push(String::from_str("position"));
    r.push(String::from_str("category"));
    r.push(String::from_str("hire_date"));
    assert(texts_view(r@) =~= employee_keys_text());
    r
}

/// The new-employee form as it opens: every field blank but the category, which starts
/// as `Docente`.
pub open spec fn new_employee_values() -> Seq<Seq<char>> {
    Seq::new(8, |i: int| if i == 6 {
        "Docente"@
    } else {
        Seq::<char>::empty()
    })
}

/// The new-employee form as it opens.
pub fn new_employee_form() -> (r: RecordForm)
    ensures
        texts_view(r.values@) == new_employee_values(),
        r.editing is None,
{
    let mut f = blank_form(8);
    let ghost before = f.values@;
    f.values.set(6, String::from_str("Docente"));
    assert forall|i: int| 0 <= i < 8 implies #[trigger] texts_view(f.values@)[i]
        == new_employee_values()[i] by {
        if i != 6 {
            assert(f.values@[i] == before[i]);
            assert(texts_view(before)[i] == before[i]@);
        }
    }
    assert(texts_view(f.values@) =~= new_employee_values());
    f
}

/// The form after an employee was created: every field blank again, but the category
/// keeps its choice.
pub fn cleared_employee_form(form: &RecordForm) -> (r: RecordForm)
    requires
        form.values@.len() == employee_keys_text().len(),
    ensures
        r.values@.len() == form.values@.len(),
        forall|i: int|
            0 <= i < r.values@.len() ==> (#[trigger] r.values@[i])@ == (if i == 6 {
                form.values@[6]@
            } else {
                Seq::<char>::empty()
            }),
        r.editing is None,
{
    let mut f = blank_form(8);
    let ghost before = f.values@;
    f.values.set(6, form.values[6].clone());
    assert forall|i: int| 0 <= i < f.values@.len() && i != 6 implies (#[trigger] f.values@[i])@
        == Seq::<char>::empty() by {
        assert(f.values@[i] == before[i]);
        assert(texts_view(before)[i] == before[i]@);
    }
    f
}

/// Whether the new employee can be created: the RUT and both names are not blank.
pub fn employee_can_create(form: &RecordForm) -> (r: bool)
    requires
        form.values@.len() == employee_keys_text().len(),
    ensures
        r == (trim(form.values@[0]@).len() > 0 && trim(form.values@[1]@).len() > 0 && trim(
            form.values@[2]@,
        ).len() > 0),
{
    let a = trim_chars(&chars_of(form.values[0].as_str()));
    let b = trim_chars(&chars_of(form.values[1].as_str()));
    let c = trim_chars(&chars_of(form.values[2].as_str()));
    a.len() > 0 && b.len() > 0 && c.len() > 0
}

/// Whether typing `query` in the employee search reloads the list: it does for a query of
/// at least two bytes, and for the empty query.
pub fn employee_search_reloads(query: &str) -> (r: bool)
    ensures
        r == (query.len() >= 2 || query@.len() == 0),
{
    query.len() >= 2 || query.is_empty()
}

/// The texts of an optional string.
pub open spec fn opt_text(o: Option<String>) -> Option<Seq<char>> {
    match o {
        Some(s) => Some(s@),
        None => None,
    }
}

/// The row of the corporation list that is open after a click on the row of `id`: a click
/// on the open row closes it, a click on any other row opens that one instead.
pub open spec fn toggled_row(open: Option<Seq<char>>, id: Seq<char>) -> Option<Seq<char>> {
    if open == Some(id) {
        None
    } else {
        Some(id)
    }
}

/// The row that is open after a click on the row of `id`.
pub fn toggle_open_row(open: &Option<String>, id: &str) -> (r: Option<String>)
    ensures
        opt_text(r) == toggled_row(opt_text(*open), id@),
{
    match open {
        Some(o) => if crate::text::same_text(o.as_str(), id) {
            None
        } else {
            Some(String::from_str(id))
        },
        None => Some(String::from_str(id)),
    }
}

/// A click leaves open at most the clicked row, and clicking a corporation's row twice
/// leaves that row open exactly when it was open before.
pub proof fn clicking_a_row_twice_restores_it(open: Option<Seq<char>>, id: Seq<char>)
    ensures
        toggled_row(open, id) is None || toggled_row(open, id) == Some(id),
        (toggled_row(toggled_row(open, id), id) == Some(id)) == (open == Some(id)),
{
}

/// Whether the row of corporation `corp` is shown open: its id (as an optional text) is
/// the open one, so a corporation without a text id shows open while no row is.
pub fn row_is_open(open: &Option<String>, corp: &Json) -> (r: bool)
    ensures
        r == (opt_text(*open) == record_id(corp@)),
{
    match (open, corp.get("id")) {
        (Some(o), Some(Json::Str(id))) => crate::text::same_text(o.as_str(), id.as_str()),
        (None, Some(Json::Str(_))) => false,
        (Some(_), _) => false,
        (None, _) => true,
    }
}

/// Whether a new corporation can be created: neither its name nor its RUT is blank.
pub fn corporation_can_create(name: &str, rut: &str) -> (r: bool)
    ensures
        r == (trim(name@).len() > 0 && trim(rut@).len() > 0),
{
    let a = trim_chars(&chars_of(name));
    let b = trim_chars(&chars_of(rut));
    a.len() > 0 && b.len() > 0
}

/// The body that creates a corporation: its name and RUT.
pub fn new_corporation_body(name: &str, rut: &str) -> (r: Json)
    ensures
        r@ == JsonView::Object(seq![("name"@, JsonView::Str(name@)), ("rut"@, JsonView::Str(rut@))]),
{
    let mut ms: Vec<(String, Json)> = Vec::new();
    ms.push((String::from_str("name"), Json::Str(String::from_str(name))));
    ms.push((String::from_str("rut"), Json::Str(String::from_str(rut))));
    let ghost mv = ms@;
    proof {
        lemma_members_view(mv);
    }
    assert(members_view(mv) =~~= seq![("name"@, JsonView::Str(name@)), ("rut"@, JsonView::Str(rut@))]);
    Json::Object(ms)
}

/// Whether a school can be added to a corporation: its name is not blank.
pub fn school_can_create(name: &str) -> (r: bool)
    ensures
        r == (trim(name@).len() > 0),
{
    let a = trim_chars(&chars_of(name));
    a.len() > 0
}

/// The body that adds school `name` to corporation `corporation_id`.
pub fn new_school_body(corporation_id: &str, name: &str) -> (r: Json)
    ensures
        r@ == JsonView::Object(
            seq![("corporation_id"@, JsonView::Str(corporation_id@)), ("name"@, JsonView::Str(name@))],
        ),
{
    let mut ms: Vec<(String, Json)> = Vec::new();
    ms.push((String::from_str("corporation_id"), Json::Str(String::from_str(corporation_id))));
    ms.push((String::from_str("name"), Json::Str(String::from_str(name))));
    let ghost mv = ms@;
    proof {
        lemma_members_view(mv);
    }
    assert(members_view(mv) =~~= seq![
        ("corporation_id"@, JsonView::Str(corporation_id@)),
        ("name"@, JsonView::Str(name@)),
    ]);
    Json::Object(ms)
}

/// The school editor's fields as it opens on `school`: its name, address and phone
/// (empty when missing), a phone written as a dash counting as none.
pub fn school_edit_values(school: &Json) -> (r: (String, String, String))
    ensures
        r.0@ == text_or_empty(school@, "name"@),
        r.1@ == text_or_empty(school@, "address"@),
        r.2@ == (if text_or_empty(school@, "phone"@) == "-"@ {
            Seq::<char>::empty()
        } else {
            text_or_empty(school@, "phone"@)
        }),
{
    let phone = text_field(school, "phone");
    let phone = if crate::text::same_text(phone.as_str(), "-") {
        String::new()
    } else {
        phone
    };
    (text_field(school, "name"), text_field(school, "address"), phone)
}

/// The body that saves the school editor: its name, address and phone.
pub fn school_update_body(name: &str, address: &str, phone: &str) -> (r: Json)
    ensures
        r@ == JsonView::Object(
            seq![
                ("name"@, JsonView::Str(name@)),
                ("address"@, JsonView::Str(address@)),
                ("phone"@, JsonView::Str(phone@)),
            ],
        ),
{
    let mut ms: Vec<(String, Json)> = Vec::new();
    ms.push((String::from_str("name"), Json::Str(String::from_str(name))));
    ms.push((String::from_str("address"), Json::Str(String::from_str(address))));
    ms.push((String::from_str("phone"), Json::Str(String::from_str(phone))));
    let ghost mv = ms@;
    proof {
        lemma_members_view(mv);
    }
    assert(members_view(mv) =~~= seq![
        ("name"@, JsonView::Str(name@)),
        ("address"@, JsonView::Str(address@)),
        ("phone"@, JsonView::Str(phone@)),
    ]);
    Json::Object(ms)
}

} // verus!
