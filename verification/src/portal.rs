//! The owner's portal and a few administration forms: who the signed-in owner is, the
//! registration of a school's administrator, internal messages and classrooms.
use vstd::prelude::*;
use vstd::string::StringExecFns;
use crate::json::{
    Json, JsonView, field_of, flag_under, items_under, items_view, lemma_items_view,
    lemma_member_at, lemma_members_view, members_view, text_field, text_or_empty,
};
use crate::text::{chars_of, decimal_i32, decimal_text, trim, trim_chars};

verus! {

/// The profile an answer about the signed-in user describes: its `user` object when it
/// has one, else the answer itself.
pub open spec fn profile_of(data: JsonView) -> JsonView {
    match field_of(data, "user"@) {
        Some(JsonView::Object(ms)) => JsonView::Object(ms),
        _ => data,
    }
}

/// The text under `key` when it is a text that is not empty.
pub open spec fn nonempty_text(v: JsonView, key: Seq<char>) -> Option<Seq<char>> {
    match field_of(v, key) {
        Some(JsonView::Str(s)) => if s.len() > 0 {
            Some(s)
        } else {
            None
        },
        _ => None,
    }
}

/// The signed-in owner as the portal shows it.
pub struct OwnerProfile {
    pub name: String,
    pub role: String,
    pub school_id: Option<String>,
    pub corporation_id: Option<String>,
    pub school_name: String,
    pub is_individual: bool,
}

/// The texts of an optional string.
pub open spec fn opt_view(o: Option<String>) -> Option<Seq<char>> {
    match o {
        Some(s) => Some(s@),
        None => None,
    }
}

fn nonempty_field(v: &Json, key: &str) -> (r: Option<String>)
    ensures
        opt_view(r) == nonempty_text(v@, key@),
{
    match v.get(key) {
        Some(Json::Str(s)) => if s.as_str().is_empty() {
            None
        } else {
            Some(s.clone())
        },
        _ => None,
    }
}

/// The owner that answer `data` describes: the name (`Usuario` when missing), role and
/// school name (empty when missing), the school and corporation it belongs to (when given
/// as texts that are not empty), and whether it owns a single school: it has a school and
/// no corporation.
pub fn owner_profile(data: &Json) -> (r: OwnerProfile)
    ensures
        r.name@ == (match field_of(profile_of(data@), "name"@) {
            Some(JsonView::Str(s)) => s,
            _ => "Usuario"@,
        }),
        r.role@ == text_or_empty(profile_of(data@), "role"@),
        opt_view(r.school_id) == nonempty_text(profile_of(data@), "school_id"@),
        opt_view(r.corporation_id) == nonempty_text(profile_of(data@), "corporation_id"@),
        r.school_name@ == text_or_empty(profile_of(data@), "school_name"@),
        r.is_individual == (r.school_id is Some && r.corporation_id is None),
{
    let p: &Json = match data.get("user") {
        Some(u) => match u {
            Json::Object(_) => u,
            _ => data,
        },
        None => data,
    };
    let school_id = nonempty_field(p, "school_id");
    let corporation_id = nonempty_field(p, "corporation_id");
    let is_individual = school_id.is_some() && corporation_id.is_none();
    OwnerProfile {
        name: crate::json::text_field_or(p, "name", "Usuario"),
        role: text_field(p, "role"),
        school_id,
        corporation_id,
        school_name: text_field(p, "school_name"),
        is_individual,
    }
}

/// The number of modules among `modules` that the license includes.
pub open spec fn included_count(modules: Seq<JsonView>) -> nat
    decreases modules.len(),
{
    if modules.len() == 0 {
        0
    } else {
        included_count(modules.drop_last()) + if flag_under(modules.last(), "included"@) == Some(true) {
            1nat
        } else {
            0nat
        }
    }
}

/// The count of included modules is the number of modules flagged `included: true`,
/// never more than the modules listed, and all of them when every one is included.
pub proof fn included_count_counts_included(modules: Seq<JsonView>)
    ensures
        included_count(modules) == modules.filter(|m: JsonView| flag_under(m, "included"@) == Some(true)).len(),
        included_count(modules) <= modules.len(),
        (forall|i: int| 0 <= i < modules.len() ==> flag_under(#[trigger] modules[i], "included"@) == Some(true))
            ==> included_count(modules) == modules.len(),
    decreases modules.len(),
{
    reveal(Seq::filter);
    if modules.len() > 0 {
        let front = modules.drop_last();
        assert forall|i: int| 0 <= i < front.len() && (forall|j: int| 0 <= j < modules.len() ==> flag_under(
            #[trigger] modules[j],
            "included"@,
        ) == Some(true)) implies flag_under(#[trigger] front[i], "included"@) == Some(true) by {
            assert(front[i] == modules[i]);
        }
        included_count_counts_included(front);
    }
}

/// The number of modules the license answer `data` includes.
pub fn enabled_module_count(data: &Json) -> (r: usize)
    ensures
        r == included_count(
            match items_under(data@, "modules"@) {
                Some(xs) => xs,
                None => Seq::empty(),
            },
        ),
{
    match data.get("modules") {
        Some(Json::Array(xs)) => {
            let ghost iv = items_view(xs@);
            proof {
                lemma_items_view(xs@);
            }
            let mut n: usize = 0;
            let mut i: usize = 0;
            while i < xs.len()
                invariant
                    iv == items_view(xs@),
                    iv == xs@.map_values(|j: Json| j@),
                    i <= xs@.len(),
                    n == included_count(iv.take(i as int)),
                    n <= i,
                decreases xs@.len() - i,
            {
                assert(iv.take(i + 1).drop_last() =~= iv.take(i as int));
                assert(iv.take(i + 1).last() == xs@[i as int]@);
                match xs[i].get("included") {
                    Some(Json::Bool(true)) => {
                        n = n + 1;
                    },
                    _ => {},
                }
                i = i + 1;
            }
            assert(iv.take(xs@.len() as int) =~= iv);
            n
        },
        _ => 0,
    }
}

/// Whether a school administrator can be registered: neither the name nor the RUT is
/// blank.
pub fn school_admin_can_create(name: &str, rut: &str) -> (r: bool)
    ensures
        r == (trim(name@).len() > 0 && trim(rut@).len() > 0),
{
    let a = trim_chars(&chars_of(name));
    let b = trim_chars(&chars_of(rut));
    a.len() > 0 && b.len() > 0
}

/// The registration of a school's administrator: name, email and RUT, the RUT again as
/// the first password, the administrator role of kind `school`, and the school.
pub open spec fn school_admin_body_view(
    name: Seq<char>,
    email: Seq<char>,
    rut: Seq<char>,
    school_id: Seq<char>,
) -> JsonView {
    JsonView::Object(
        seq![
            ("name"@, JsonView::Str(name)),
            ("email"@, JsonView::Str(email)),
            ("rut"@, JsonView::Str(rut)),
            ("password"@, JsonView::Str(rut)),
            ("role"@, JsonView::Str("Administrador"@)),
            ("admin_type"@, JsonView::Str("school"@)),
            ("school_id"@, JsonView::Str(school_id)),
        ],
    )
}

/// A school's administrator is registered as given: read back, the body gives the name,
/// email and RUT under their keys, the RUT again as the password, the role
/// `Administrador` of kind `school`, and the school.
pub proof fn school_admin_body_reads_back(name: Seq<char>, email: Seq<char>, rut: Seq<char>, school_id: Seq<char>)
    ensures
        field_of(school_admin_body_view(name, email, rut, school_id), "name"@) == Some(JsonView::Str(name)),
        field_of(school_admin_body_view(name, email, rut, school_id), "email"@) == Some(JsonView::Str(email)),
        field_of(school_admin_body_view(name, email, rut, school_id), "rut"@) == Some(JsonView::Str(rut)),
        field_of(school_admin_body_view(name, email, rut, school_id), "password"@) == Some(JsonView::Str(rut)),
        field_of(school_admin_body_view(name, email, rut, school_id), "role"@) == Some(
            JsonView::Str("Administrador"@),
        ),
        field_of(school_admin_body_view(name, email, rut, school_id), "admin_type"@) == Some(
            JsonView::Str("school"@),
        ),
        field_of(school_admin_body_view(name, email, rut, school_id), "school_id"@) == Some(
            JsonView::Str(school_id),
        ),
{
    reveal_strlit("name");
    reveal_strlit("email");
    reveal_strlit("rut");
    reveal_strlit("password");
    reveal_strlit("role");
    reveal_strlit("admin_type");
    reveal_strlit("school_id");
    let ms = match school_admin_body_view(name, email, rut, school_id) {
        JsonView::Object(m) => m,
        _ => Seq::empty(),
    };
    assert forall|i: int, j: int| 0 <= j < i < ms.len() implies (#[trigger] ms[j]).0 != (#[trigger] ms[i]).0 by {
        if ms[j].0.len() == ms[i].0.len() {
            assert(ms[j].0[0] != ms[i].0[0]);
        }
    }
    lemma_member_at(ms, 0);
    lemma_member_at(ms, 1);
    lemma_member_at(ms, 2);
    lemma_member_at(ms, 3);
    lemma_member_at(ms, 4);
    lemma_member_at(ms, 5);
    lemma_member_at(ms, 6);
}

/// The registration of a school's administrator.
pub fn school_admin_body(name: &str, email: &str, rut: &str, school_id: &str) -> (r: Json)
    ensures
        r@ == school_admin_body_view(name@, email@, rut@, school_id@),
        field_of(r@, "name"@) == Some(JsonView::Str(name@)),
        field_of(r@, "email"@) == Some(JsonView::Str(email@)),
        field_of(r@, "rut"@) == Some(JsonView::Str(rut@)),
        field_of(r@, "password"@) == Some(JsonView::Str(rut@)),
        field_of(r@, "role"@) == Some(JsonView::Str("Administrador"@)),
        field_of(r@, "admin_type"@) == Some(JsonView::Str("school"@)),
        field_of(r@, "school_id"@) == Some(JsonView::Str(school_id@)),
{
    proof {
        school_admin_body_reads_back(name@, email@, rut@, school_id@);
    }
    let mut ms: Vec<(String, Json)> = Vec::new();
    ms.push((String::from_str("name"), Json::Str(String::from_str(name))));
    ms.push((String::from_str("email"), Json::Str(String::from_str(email))));
    ms.push((String::from_str("rut"), Json::Str(String::from_str(rut))));
    ms.push((String::from_str("password"), Json::Str(String::from_str(rut))));
    ms.push((String::from_str("role"), Json::Str(String::from_str("Administrador"))));
    ms.push((String::from_str("admin_type"), Json::Str(String::from_str("school"))));
    ms.push((String::from_str("school_id"), Json::Str(String::from_str(school_id))));
    let ghost mv = ms@;
    proof {
        lemma_members_view(mv);
    }
    assert(members_view(mv) =~~= (match school_admin_body_view(name@, email@, rut@, school_id@) {
        JsonView::Object(m) => m,
        _ => Seq::empty(),
    }));
    Json::Object(ms)
}

/// A message in the inbox: its subject (`Sin asunto` when missing), whether it was read
/// (it was unless it says otherwise), the class of its row, and its date.
pub struct MessageRow {
    pub subject: String,
    pub read: bool,
    pub row_class: String,
    pub created: String,
}

/// The inbox row of message `msg`.
pub fn message_row(msg: &Json) -> (r: MessageRow)
    ensures
        r.subject@ == (match field_of(msg@, "subject"@) {
            Some(JsonView::Str(s)) => s,
            _ => "Sin asunto"@,
        }),
        r.read == (flag_under(msg@, "read"@) != Some(false)),
        r.row_class@ == (if r.read {
            ""@
        } else {
            "unread"@
        }),
        r.created@ == text_or_empty(msg@, "created_at"@),
{
    let read = match msg.get("read") {
        Some(Json::Bool(b)) => *b,
        _ => true,
    };
    MessageRow {
        subject: crate::json::text_field_or(msg, "subject", "Sin asunto"),
        read,
        row_class: if read {
            String::from_str("")
        } else {
            String::from_str("unread")
        },
        created: text_field(msg, "created_at"),
    }
}

/// Whether a message can be sent: it has a subject and a body (blank ones count).
pub fn message_can_send(subject: &str, body: &str) -> (r: bool)
    ensures
        r == (subject@.len() > 0 && body@.len() > 0),
{
    !subject.is_empty() && !body.is_empty()
}

/// The body of a message to user `receiver`.
pub fn message_body(receiver: &str, subject: &str, body: &str) -> (r: Json)
    ensures
        r@ == JsonView::Object(
            seq![
                ("receiver_id"@, JsonView::Str(receiver@)),
                ("subject"@, JsonView::Str(subject@)),
                ("body"@, JsonView::Str(body@)),
            ],
        ),
{
    let mut ms: Vec<(String, Json)> = Vec::new();
    ms.push((String::from_str("receiver_id"), Json::Str(String::from_str(receiver))));
    ms.push((String::from_str("subject"), Json::Str(String::from_str(subject))));
    ms.push((String::from_str("body"), Json::Str(String::from_str(body))));
    let ghost mv = ms@;
    proof {
        lemma_members_view(mv);
    }
    assert(members_view(mv) =~~= seq![
        ("receiver_id"@, JsonView::Str(receiver@)),
        ("subject"@, JsonView::Str(subject@)),
        ("body"@, JsonView::Str(body@)),
    ]);
    Json::Object(ms)
}

/// The body that saves a classroom: its name, capacity, and location (`null` when none
/// was given).
pub open spec fn classroom_body_view(name: Seq<char>, capacity: int, location: Seq<char>) -> JsonView {
    JsonView::Object(
        seq![
            ("name"@, JsonView::Str(name)),
            ("capacity"@, JsonView::Number(decimal_text(capacity))),
            ("location"@, if location.len() == 0 {
                JsonView::Null
            } else {
                JsonView::Str(location)
            }),
        ],
    )
}

/// A saved classroom says what was entered: read back, the body gives the name, the
/// capacity in decimal, and the location, or `null` when none was given.
pub proof fn classroom_body_reads_back(name: Seq<char>, capacity: int, location: Seq<char>)
    ensures
        field_of(classroom_body_view(name, capacity, location), "name"@) == Some(JsonView::Str(name)),
        field_of(classroom_body_view(name, capacity, location), "capacity"@) == Some(
            JsonView::Number(decimal_text(capacity)),
        ),
        field_of(classroom_body_view(name, capacity, location), "location"@) == Some(
            if location.len() == 0 {
                JsonView::Null
            } else {
                JsonView::Str(location)
            },
        ),
{
    reveal_strlit("name");
    reveal_strlit("capacity");
    reveal_strlit("location");
    let ms = match classroom_body_view(name, capacity, location) {
        JsonView::Object(m) => m,
        _ => Seq::empty(),
    };
    assert forall|i: int, j: int| 0 <= j < i < ms.len() implies (#[trigger] ms[j]).0 != (#[trigger] ms[i]).0 by {
        if ms[j].0.len() == ms[i].0.len() {
            assert(ms[j].0[0] != ms[i].0[0]);
        }
    }
    lemma_member_at(ms, 0);
    lemma_member_at(ms, 1);
    lemma_member_at(ms, 2);
}

/// The body that saves a classroom.
pub fn classroom_body(name: &str, capacity: i32, location: &str) -> (r: Json)
    ensures
        r@ == classroom_body_view(name@, capacity as int, location@),
        field_of(r@, "name"@) == Some(JsonView::Str(name@)),
        field_of(r@, "capacity"@) == Some(JsonView::Number(decimal_text(capacity as int))),
        field_of(r@, "location"@) == Some(
            if location@.len() == 0 {
                JsonView::Null
            } else {
                JsonView::Str(location@)
            },
        ),
{
    proof {
        classroom_body_reads_back(name@, capacity as int, location@);
    }
    let mut ms: Vec<(String, Json)> = Vec::new();
    ms.push((String::from_str("name"), Json::Str(String::from_str(name))));
    ms.push((String::from_str("capacity"), Json::Number(decimal_i32(capacity))));
    let loc = if location.is_empty() {
        Json::Null
    } else {
        Json::Str(String::from_str(location))
    };
    ms.push((String::from_str("location"), loc));
    let ghost mv = ms@;
    proof {
        lemma_members_view(mv);
    }
    assert(members_view(mv) =~~= (match classroom_body_view(name@, capacity as int, location@) {
        JsonView::Object(m) => m,
        _ => Seq::empty(),
    }));
    Json::Object(ms)
}

/// The value under `key`, or `null`.
pub open spec fn at_or_null(v: JsonView, key: Seq<char>) -> JsonView {
    match field_of(v, key) {
        Some(x) => x,
        None => JsonView::Null,
    }
}

/// Whether a legal representative is offered a global administrator account: it is
/// active (unless it says otherwise) and its email, read as a dash when missing, is not
/// empty.
pub open spec fn offers_admin(rep: JsonView) -> bool {
    let email = match field_of(rep, "email"@) {
        Some(JsonView::Str(e)) => e,
        _ => "-"@,
    };
    email.len() > 0 && flag_under(rep, "active"@) != Some(false)
}

/// Whether legal representative `rep` is offered a global administrator account.
pub fn rep_offers_admin(rep: &Json) -> (r: bool)
    ensures
        r == offers_admin(rep@),
{
    let email = crate::json::text_field_or(rep, "email", "-");
    let active = match rep.get("active") {
        Some(Json::Bool(b)) => *b,
        _ => true,
    };
    !email.as_str().is_empty() && active
}

/// The registration of legal representative `rep` as the global administrator of
/// corporation `corporation_id`: its RUT and email as given, its full name, its RUT text
/// as the first password, and the administrator role of kind `global`.
pub open spec fn global_admin_body_view(rep: JsonView, corporation_id: Seq<char>) -> JsonView {
    JsonView::Object(
        seq![
            ("rut"@, at_or_null(rep, "rut"@)),
            ("name"@, JsonView::Str(crate::kanban::full_name(rep))),
            ("email"@, at_or_null(rep, "email"@)),
            ("password"@, JsonView::Str(text_or_empty(rep, "rut"@))),
            ("role"@, JsonView::Str("Administrador"@)),
            ("admin_type"@, JsonView::Str("global"@)),
            ("corporation_id"@, JsonView::Str(corporation_id)),
        ],
    )
}

fn member_or_null(v: &Json, key: &str) -> (r: Json)
    ensures
        r@ == at_or_null(v@, key@),
{
    match v.get(key) {
        Some(x) => x.duplicate(),
        None => Json::Null,
    }
}

/// A legal representative is registered as given: read back, the body gives the
/// representative's own RUT and email (`null` when missing), its full name, the RUT text
/// as the password, the role `Administrador` of kind `global`, and the corporation.
pub proof fn global_admin_body_reads_back(rep: JsonView, corporation_id: Seq<char>)
    ensures
        field_of(global_admin_body_view(rep, corporation_id), "rut"@) == Some(at_or_null(rep, "rut"@)),
        field_of(global_admin_body_view(rep, corporation_id), "name"@) == Some(
            JsonView::Str(crate::kanban::full_name(rep)),
        ),
        field_of(global_admin_body_view(rep, corporation_id), "email"@) == Some(at_or_null(rep, "email"@)),
        field_of(global_admin_body_view(rep, corporation_id), "password"@) == Some(
            JsonView::Str(text_or_empty(rep, "rut"@)),
        ),
        field_of(global_admin_body_view(rep, corporation_id), "role"@) == Some(
            JsonView::Str("Administrador"@),
        ),
        field_of(global_admin_body_view(rep, corporation_id), "admin_type"@) == Some(
            JsonView::Str("global"@),
        ),
        field_of(global_admin_body_view(rep, corporation_id), "corporation_id"@) == Some(
            JsonView::Str(corporation_id),
        ),
{
    reveal_strlit("rut");
    reveal_strlit("name");
    reveal_strlit("email");
    reveal_strlit("password");
    reveal_strlit("role");
    reveal_strlit("admin_type");
    reveal_strlit("corporation_id");
    let ms = match global_admin_body_view(rep, corporation_id) {
        JsonView::Object(m) => m,
        _ => Seq::empty(),
    };
    assert forall|i: int, j: int| 0 <= j < i < ms.len() implies (#[trigger] ms[j]).0 != (#[trigger] ms[i]).0 by {
        if ms[j].0.len() == ms[i].0.len() {
            assert(ms[j].0[0] != ms[i].0[0]);
        }
    }
    lemma_member_at(ms, 0);
    lemma_member_at(ms, 1);
    lemma_member_at(ms, 2);
    lemma_member_at(ms, 3);
    lemma_member_at(ms, 4);
    lemma_member_at(ms, 5);
    lemma_member_at(ms, 6);
}

/// The registration of a legal representative as its corporation's global administrator.
pub fn global_admin_body(rep: &Json, corporation_id: &str) -> (r: Json)
    ensures
        r@ == global_admin_body_view(rep@, corporation_id@),
        field_of(r@, "rut"@) == Some(at_or_null(rep@, "rut"@)),
        field_of(r@, "name"@) == Some(JsonView::Str(crate::kanban::full_name(rep@))),
        field_of(r@, "email"@) == Some(at_or_null(rep@, "email"@)),
        field_of(r@, "password"@) == Some(JsonView::Str(text_or_empty(rep@, "rut"@))),
        field_of(r@, "role"@) == Some(JsonView::Str("Administrador"@)),
        field_of(r@, "admin_type"@) == Some(JsonView::Str("global"@)),
        field_of(r@, "corporation_id"@) == Some(JsonView::Str(corporation_id@)),
{
    proof {
        global_admin_body_reads_back(rep@, corporation_id@);
    }
    let mut ms: Vec<(String, Json)> = Vec::new();
    ms.push((String::from_str("rut"), member_or_null(rep, "rut")));
    ms.push((String::from_str("name"), Json::Str(crate::kanban::full_name_of(rep))));
    ms.push((String::from_str("email"), member_or_null(rep, "email")));
    ms.push((String::from_str("password"), Json::Str(text_field(rep, "rut"))));
    ms.push((String::from_str("role"), Json::Str(String::from_str("Administrador"))));
    ms.push((String::from_str("admin_type"), Json::Str(String::from_str("global"))));
    ms.push((String::from_str("corporation_id"), Json::Str(String::from_str(corporation_id))));
    let ghost mv = ms@;
    proof {
        lemma_members_view(mv);
    }
    assert(members_view(mv) =~~= (match global_admin_body_view(rep@, corporation_id@) {
        JsonView::Object(m) => m,
        _ => Seq::empty(),
    }));
    Json::Object(ms)
}

/// The number of schools a corporation's answer lists (0 when it lists none).
pub fn school_count(data: &Json) -> (r: usize)
    ensures
        r == (match items_under(data@, "schools"@) {
            Some(xs) => xs.len(),
            None => 0,
        }),
{
    match data.get("schools") {
        Some(Json::Array(xs)) => {
            proof {
                lemma_items_view(xs@);
            }
            xs.len()
        },
        _ => 0,
    }
}

} // verus!
