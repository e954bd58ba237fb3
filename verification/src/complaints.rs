//! The complaints channel: the body of a complaint, which names no one when it is sent
//! anonymously, and how the list shows each complaint.
use vstd::prelude::*;
use vstd::string::StringExecFns;
use crate::json::{Json, JsonView, field_of, lemma_member_at, lemma_members_view, member, members_view};
use crate::text::{chars_of, same_text, trim, trim_chars};

verus! {

/// The body of a complaint: the complainant's name and email (`null` when it is sent
/// anonymously), the RUT of the person accused, the kind of complaint and the account of
/// the facts.
pub open spec fn complaint_body_view(
    anonymous: bool,
    name: Seq<char>,
    email: Seq<char>,
    accused_rut: Seq<char>,
    kind: Seq<char>,
    description: Seq<char>,
) -> JsonView {
    JsonView::Object(
        seq![
            ("complainant_name"@, if anonymous {
                JsonView::Null
            } else {
                JsonView::Str(name)
            }),
            ("complainant_email"@, if anonymous {
                JsonView::Null
            } else {
                JsonView::Str(email)
            }),
            ("accused_rut"@, JsonView::Str(accused_rut)),
            ("complaint_type"@, JsonView::Str(kind)),
            ("description"@, JsonView::Str(description)),
        ],
    )
}

/// A complaint says what was written: read back under its keys, the body gives the
/// complainant's name and email (`null` for both when anonymous), the RUT of the person
/// accused, the kind of complaint and the account of the facts, whatever they are.
pub proof fn complaint_body_reads_back(
    anonymous: bool,
    name: Seq<char>,
    email: Seq<char>,
    accused_rut: Seq<char>,
    kind: Seq<char>,
    description: Seq<char>,
)
    ensures
        field_of(complaint_body_view(anonymous, name, email, accused_rut, kind, description), "complainant_name"@)
            == Some(if anonymous {
            JsonView::Null
        } else {
            JsonView::Str(name)
        }),
        field_of(complaint_body_view(anonymous, name, email, accused_rut, kind, description), "complainant_email"@)
            == Some(if anonymous {
            JsonView::Null
        } else {
            JsonView::Str(email)
        }),
        field_of(complaint_body_view(anonymous, name, email, accused_rut, kind, description), "accused_rut"@)
            == Some(JsonView::Str(accused_rut)),
        field_of(complaint_body_view(anonymous, name, email, accused_rut, kind, description), "complaint_type"@)
            == Some(JsonView::Str(kind)),
        field_of(complaint_body_view(anonymous, name, email, accused_rut, kind, description), "description"@)
            == Some(JsonView::Str(description)),
{
    reveal_strlit("complainant_name");
    reveal_strlit("complainant_email");
    reveal_strlit("accused_rut");
    reveal_strlit("complaint_type");
    reveal_strlit("description");
    let ms = match complaint_body_view(anonymous, name, email, accused_rut, kind, description) {
        JsonView::Object(m) => m,
        _ => Seq::empty(),
    };
    assert forall|i: int, j: int| 0 <= j < i < ms.len() implies (#[trigger] ms[j]).0 != (#[trigger] ms[i]).0 by {
        if ms[j].0.len() == ms[i].0.len() {
            assert(ms[j].0[0] != ms[i].0[0]);
        }
    }
    lemma_member_at(ms, 0);
    lemma_member_at(ms, 1);
    lemma_member_at(ms, 2);
    lemma_member_at(ms, 3);
    lemma_member_at(ms, 4);
}

/// The body of a complaint.
pub fn complaint_body(
    anonymous: bool,
    name: &str,
    email: &str,
    accused_rut: &str,
    kind: &str,
    description: &str,
) -> (r: Json)
    ensures
        r@ == complaint_body_view(anonymous, name@, email@, accused_rut@, kind@, description@),
        field_of(r@, "complainant_name"@) == Some(if anonymous {
            JsonView::Null
        } else {
            JsonView::Str(name@)
        }),
        field_of(r@, "complainant_email"@) == Some(if anonymous {
            JsonView::Null
        } else {
            JsonView::Str(email@)
        }),
        field_of(r@, "accused_rut"@) == Some(JsonView::Str(accused_rut@)),
        field_of(r@, "complaint_type"@) == Some(JsonView::Str(kind@)),
        field_of(r@, "description"@) == Some(JsonView::Str(description@)),
{
    proof {
        complaint_body_reads_back(anonymous, name@, email@, accused_rut@, kind@, description@);
    }
    let mut ms: Vec<(String, Json)> = Vec::new();
    let who = if anonymous {
        Json::Null
    } else {
        Json::Str(String::from_str(name))
    };
    let mail = if anonymous {
        Json::Null
    } else {
        Json::Str(String::from_str(email))
    };
    ms.push((String::from_str("complainant_name"), who));
    ms.push((String::from_str("complainant_email"), mail));
    ms.push((String::from_str("accused_rut"), Json::Str(String::from_str(accused_rut))));
    ms.push((String::from_str("complaint_type"), Json::Str(String::from_str(kind))));
    ms.push((String::from_str("description"), Json::Str(String::from_str(description))));
    let ghost mv = ms@;
    proof {
        lemma_members_view(mv);
    }
    assert(members_view(mv) =~~= (match complaint_body_view(
        anonymous,
        name@,
        email@,
        accused_rut@,
        kind@,
        description@,
    ) {
        JsonView::Object(m) => m,
        _ => Seq::empty(),
    }));
    Json::Object(ms)
}

/// Whether a complaint can be sent: its account of the facts is not blank.
pub fn complaint_can_submit(description: &str) -> (r: bool)
    ensures
        r == (trim(description@).len() > 0),
{
    let t = trim_chars(&chars_of(description));
    t.len() > 0
}

/// Who the list shows as the complainant: `Anonimo` when the complaint has no name (the
/// member is missing or `null`), the name when it is a text, and nothing otherwise.
pub open spec fn complainant_text(c: JsonView) -> Seq<char> {
    match field_of(c, "complainant_name"@) {
        None => "Anonimo"@,
        Some(JsonView::Null) => "Anonimo"@,
        Some(JsonView::Str(n)) => n,
        Some(_) => ""@,
    }
}

/// Who the list shows as the complainant of `c`.
pub fn complainant_label(c: &Json) -> (r: String)
    ensures
        r@ == complainant_text(c@),
{
    match c.get("complainant_name") {
        None => String::from_str("Anonimo"),
        Some(Json::Null) => String::from_str("Anonimo"),
        Some(Json::Str(n)) => n.clone(),
        Some(_) => String::from_str(""),
    }
}

/// A complaint's status (`Pendiente` when missing) and the class of its badge: pending,
/// resolved, or any other status.
pub open spec fn status_class_text(status: Seq<char>) -> Seq<char> {
    if status == "Pendiente"@ {
        "status-pending"@
    } else if status == "Resuelto"@ {
        "status-active"@
    } else {
        "status-inactive"@
    }
}

/// Each complaint status has its badge: a pending complaint is shown as pending, a
/// resolved one as active, and one in any other status as inactive.
pub proof fn complaint_badge_by_status(status: Seq<char>)
    ensures
        status == "Pendiente"@ ==> status_class_text(status) == "status-pending"@,
        status == "Resuelto"@ ==> status_class_text(status) == "status-active"@,
        !(status == "Pendiente"@ || status == "Resuelto"@) ==> status_class_text(status) == "status-inactive"@,
{
    reveal_strlit("Pendiente");
    reveal_strlit("Resuelto");
    assert("Pendiente"@ != "Resuelto"@) by {
        assert("Pendiente"@[0] != "Resuelto"@[0]);
    }
}

/// A complaint's status and the class of its badge.
pub fn complaint_status(c: &Json) -> (r: (String, String))
    ensures
        r.0@ == (match field_of(c@, "status"@) {
            Some(JsonView::Str(s)) => s,
            _ => "Pendiente"@,
        }),
        r.1@ == status_class_text(r.0@),
        r.0@ == "Pendiente"@ ==> r.1@ == "status-pending"@,
        r.0@ == "Resuelto"@ ==> r.1@ == "status-active"@,
        !(r.0@ == "Pendiente"@ || r.0@ == "Resuelto"@) ==> r.1@ == "status-inactive"@,
{
    let status = crate::json::text_field_or(c, "status", "Pendiente");
    let class = if same_text(status.as_str(), "Pendiente") {
        String::from_str("status-pending")
    } else if same_text(status.as_str(), "Resuelto") {
        String::from_str("status-active")
    } else {
        String::from_str("status-inactive")
    };
    proof {
        complaint_badge_by_status(status@);
    }
    (status, class)
}

/// A complaint sent anonymously names no one: whatever was typed in the name and email
/// fields, its body holds `null` for both, and the list shows it as `Anonimo`. One sent
/// with a name is listed under that name.
pub proof fn anonymous_complaints_name_no_one(
    anonymous: bool,
    name: Seq<char>,
    email: Seq<char>,
    accused_rut: Seq<char>,
    kind: Seq<char>,
    description: Seq<char>,
)
    ensures
        anonymous ==> field_of(
            complaint_body_view(anonymous, name, email, accused_rut, kind, description),
            "complainant_name"@,
        ) == Some(JsonView::Null),
        anonymous ==> field_of(
            complaint_body_view(anonymous, name, email, accused_rut, kind, description),
            "complainant_email"@,
        ) == Some(JsonView::Null),
        complainant_text(complaint_body_view(anonymous, name, email, accused_rut, kind, description))
            == if anonymous {
            "Anonimo"@
        } else {
            name
        },
{
    reveal_strlit("complainant_name");
    reveal_strlit("complainant_email");
    let body = complaint_body_view(anonymous, name, email, accused_rut, kind, description);
    let ms = match body {
        JsonView::Object(m) => m,
        _ => Seq::empty(),
    };
    assert(ms[0].0 == "complainant_name"@);
    assert(ms[1].0 == "complainant_email"@);
    assert("complainant_name"@ != "complainant_email"@) by {
        assert("complainant_name"@.len() != "complainant_email"@.len());
    }
    assert(member(ms, "complainant_email"@) == member(ms.drop_first(), "complainant_email"@));
    assert(ms.drop_first()[0] == ms[1]);
}

} // verus!
