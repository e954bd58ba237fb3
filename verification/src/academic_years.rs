//! The academic years page: the bodies that create a year and copy one year's setup into
//! another, the message shown after a copy, and the rows of the year list.
use vstd::prelude::*;
use vstd::string::StringExecFns;
use crate::json::{
    Json, JsonView, field_of, flag_under, int_field_or, int_under, lemma_member_at, lemma_members_view,
    members_view, text_field, text_or_empty,
};
use crate::text::{decimal_i32, decimal_text};

verus! {

/// The body that creates academic year `year` named `name`, active or not.
pub open spec fn year_body(year: int, name: Seq<char>, is_active: bool) -> JsonView {
    JsonView::Object(
        seq![
            ("year"@, JsonView::Number(decimal_text(year))),
            ("name"@, JsonView::Str(name)),
            ("is_active"@, JsonView::Bool(is_active)),
        ],
    )
}

/// A new academic year says what was asked: read back, the body gives the year's number
/// in decimal under `year`, its name under `name` and whether it is active under
/// `is_active`.
pub proof fn year_body_reads_back(year: int, name: Seq<char>, is_active: bool)
    ensures
        field_of(year_body(year, name, is_active), "year"@) == Some(JsonView::Number(decimal_text(year))),
        field_of(year_body(year, name, is_active), "name"@) == Some(JsonView::Str(name)),
        field_of(year_body(year, name, is_active), "is_active"@) == Some(JsonView::Bool(is_active)),
{
    reveal_strlit("year");
    reveal_strlit("name");
    reveal_strlit("is_active");
    let ms = match year_body(year, name, is_active) {
        JsonView::Object(m) => m,
        _ => Seq::empty(),
    };
    assert forall|i: int, j: int| 0 <= j < i < ms.len() implies (#[trigger] ms[j]).0 != (#[trigger] ms[i]).0 by {
        if ms[j].0.len() == ms[i].0.len() {
            assert(ms[j].0[0] != ms[i].0[0]);
        }
    }
    lemma_member_at(ms, 0);
    lemma_member_at(ms, 1);
    lemma_member_at(ms, 2);
}

/// The body that creates an academic year.
pub fn academic_year_body(year: i32, name: &str, is_active: bool) -> (r: Json)
    ensures
        r@ == year_body(year as int, name@, is_active),
        field_of(r@, "year"@) == Some(JsonView::Number(decimal_text(year as int))),
        field_of(r@, "name"@) == Some(JsonView::Str(name@)),
        field_of(r@, "is_active"@) == Some(JsonView::Bool(is_active)),
{
    proof {
        year_body_reads_back(year as int, name@, is_active);
    }
    let mut ms: Vec<(String, Json)> = Vec::new();
    ms.push((String::from_str("year"), Json::Number(decimal_i32(year))));
    ms.push((String::from_str("name"), Json::Str(String::from_str(name))));
    ms.push((String::from_str("is_active"), Json::Bool(is_active)));
    let ghost mv = ms@;
    proof {
        lemma_members_view(mv);
    }
    assert(members_view(mv) =~~= (match year_body(year as int, name@, is_active) {
        JsonView::Object(m) => m,
        _ => Seq::empty(),
    }));
    Json::Object(ms)
}

/// The body that copies the setup of year `from` into year `to`.
pub open spec fn copy_body(from: int, to: int) -> JsonView {
    JsonView::Object(
        seq![
            ("from_year"@, JsonView::Number(decimal_text(from))),
            ("to_year"@, JsonView::Number(decimal_text(to))),
        ],
    )
}

/// A copy goes the way it was asked: read back, the body gives the year copied from under
/// `from_year` and the year copied into under `to_year`, never the other way round.
pub proof fn copy_body_reads_back(from: int, to: int)
    ensures
        field_of(copy_body(from, to), "from_year"@) == Some(JsonView::Number(decimal_text(from))),
        field_of(copy_body(from, to), "to_year"@) == Some(JsonView::Number(decimal_text(to))),
{
    reveal_strlit("from_year");
    reveal_strlit("to_year");
    let ms = match copy_body(from, to) {
        JsonView::Object(m) => m,
        _ => Seq::empty(),
    };
    assert(ms[0].0 != ms[1].0) by {
        assert(ms[0].0.len() != ms[1].0.len());
    }
    lemma_member_at(ms, 0);
    lemma_member_at(ms, 1);
}

/// The body that copies one year's setup into another.
pub fn year_copy_body(from: i32, to: i32) -> (r: Json)
    ensures
        r@ == copy_body(from as int, to as int),
        field_of(r@, "from_year"@) == Some(JsonView::Number(decimal_text(from as int))),
        field_of(r@, "to_year"@) == Some(JsonView::Number(decimal_text(to as int))),
{
    proof {
        copy_body_reads_back(from as int, to as int);
    }
    let mut ms: Vec<(String, Json)> = Vec::new();
    ms.push((String::from_str("from_year"), Json::Number(decimal_i32(from))));
    ms.push((String::from_str("to_year"), Json::Number(decimal_i32(to))));
    let ghost mv = ms@;
    proof {
        lemma_members_view(mv);
    }
    assert(members_view(mv) =~~= (match copy_body(from as int, to as int) {
        JsonView::Object(m) => m,
        _ => Seq::empty(),
    }));
    Json::Object(ms)
}

/// The message shown after a copy: the answer's `message` text (`OK` when it has none),
/// or `Error: ` and the error.
pub open spec fn copy_message_text(res: Result<JsonView, Seq<char>>) -> Seq<char> {
    match res {
        Ok(j) => match field_of(j, "message"@) {
            Some(JsonView::Str(m)) => m,
            _ => "OK"@,
        },
        Err(e) => "Error: "@ + e,
    }
}

/// The message shown after a copy.
pub fn copy_message(res: &Result<Json, String>) -> (r: String)
    ensures
        r@ == copy_message_text(match res {
            Ok(j) => Ok(j@),
            Err(e) => Err(e@),
        }),
{
    match res {
        Ok(j) => crate::json::text_field_or(j, "message", "OK"),
        Err(e) => {
            let mut r = String::from_str("Error: ");
            r.append(e.as_str());
            r
        },
    }
}

/// A row of the year list.
pub struct YearRow {
    pub id: String,
    pub year: i64,
    pub name: String,
    pub active: bool,
}

/// The row of year `y`: its id and name (empty when missing), its number (0 when missing)
/// and whether it is the active year (not unless it says so).
pub fn year_row(y: &Json) -> (r: YearRow)
    ensures
        r.id@ == text_or_empty(y@, "id"@),
        r.year == (match int_under(y@, "year"@) {
            Some(n) => n,
            None => 0,
        }),
        r.name@ == text_or_empty(y@, "name"@),
        r.active == (flag_under(y@, "is_active"@) == Some(true)),
{
    YearRow {
        id: text_field(y, "id"),
        year: int_field_or(y, "year", 0),
        name: text_field(y, "name"),
        active: match y.get("is_active") {
            Some(Json::Bool(b)) => *b,
            _ => false,
        },
    }
}

} // verus!
