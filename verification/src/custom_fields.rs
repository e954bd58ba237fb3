//! The custom fields of a record: the values shown for each field definition, and the
//! body that saves them.
use vstd::prelude::*;
use vstd::string::StringExecFns;
use crate::json::{
    Json, JsonView, field_of, items_under, items_view, lemma_items_view, lemma_members_view,
    member, members_view, text_field, text_or_empty,
};
use crate::text::same_text;

verus! {

/// The definition id that a stored value names, when it names one by a string.
pub open spec fn stored_id(item: JsonView) -> Option<Seq<char>> {
    match field_of(item, "field_definition_id"@) {
        Some(JsonView::Str(f)) => Some(f),
        _ => None,
    }
}

/// The value stored for definition `fid`: the `value` text (or empty) of the last stored
/// item that names it (later items replace earlier ones when they are collected by id).
pub open spec fn stored_value(items: Seq<JsonView>, fid: Seq<char>) -> Option<Seq<char>>
    decreases items.len(),
{
    if items.len() == 0 {
        None
    } else if stored_id(items.last()) == Some(fid) {
        Some(text_or_empty(items.last(), "value"@))
    } else {
        stored_value(items.drop_last(), fid)
    }
}

/// The value shown for a definition whose id is `fid`.
pub open spec fn shown_value(values: JsonView, fid: Seq<char>) -> Seq<char> {
    let items = match items_under(values, "values"@) {
        Some(xs) => xs,
        None => Seq::<JsonView>::empty(),
    };
    match stored_value(items, fid) {
        Some(v) => v,
        None => Seq::<char>::empty(),
    }
}

/// The definitions of a definitions answer: its `definitions` array, or none.
pub open spec fn field_definitions(defs: JsonView) -> Seq<JsonView> {
    match items_under(defs, "definitions"@) {
        Some(xs) => xs,
        None => Seq::<JsonView>::empty(),
    }
}

/// The texts of id and value pairs.
pub open spec fn pairs_view(v: Seq<(String, String)>) -> Seq<(Seq<char>, Seq<char>)> {
    v.map_values(|p: (String, String)| (p.0@, p.1@))
}

/// The values shown in the form: for each definition, in order, its id and the value
/// stored for it, or the empty text.
pub fn custom_field_values(values: &Json, definitions: &Json) -> (r: Vec<(String, String)>)
    ensures
        r@.len() == field_definitions(definitions@).len(),
        forall|i: int|
            0 <= i < r@.len() ==> (#[trigger] r@[i]).0@ == text_or_empty(
                field_definitions(definitions@)[i],
                "id"@,
            ) && r@[i].1@ == shown_value(
                values@,
                text_or_empty(field_definitions(definitions@)[i], "id"@),
            ),
{
    let mut out: Vec<(String, String)> = Vec::new();
    let stored: Option<&Vec<Json>> = match values.get("values") {
        Some(Json::Array(xs)) => Some(xs),
        _ => None,
    };
    match definitions.get("definitions") {
        Some(Json::Array(defs)) => {
            proof {
                lemma_items_view(defs@);
            }
            let mut i: usize = 0;
            while i < defs.len()
                invariant
                    items_view(defs@) == defs@.map_values(|j: Json| j@),
                    field_definitions(definitions@) == items_view(defs@),
                    match stored {
                        Some(xs) => items_under(values@, "values"@) == Some(items_view(xs@)),
                        None => items_under(values@, "values"@) is None,
                    },
                    i <= defs@.len(),
                    out@.len() == i,
                    forall|k: int|
                        0 <= k < i ==> (#[trigger] out@[k]).0@ == text_or_empty(defs@[k]@, "id"@)
                            && out@[k].1@ == shown_value(values@, text_or_empty(defs@[k]@, "id"@)),
                decreases defs@.len() - i,
            {
                let fid = text_field(&defs[i], "id");
                let val = match stored {
                    Some(xs) => last_stored(xs, fid.as_str()),
                    None => String::new(),
                };
                out.push((fid, val));
                i = i + 1;
            }
        },
        _ => {},
    }
    out
}

fn last_stored(xs: &Vec<Json>, fid: &str) -> (r: String)
    ensures
        r@ == (match stored_value(items_view(xs@), fid@) {
            Some(v) => v,
            None => Seq::<char>::empty(),
        }),
{
    let ghost iv = items_view(xs@);
    proof {
        lemma_items_view(xs@);
    }
    let mut j: usize = xs.len();
    assert(iv.take(j as int) =~= iv);
    while j > 0
        invariant
            iv == items_view(xs@),
            iv == xs@.map_values(|x: Json| x@),
            j <= xs@.len(),
            stored_value(iv, fid@) == stored_value(iv.take(j as int), fid@),
        decreases j,
    {
        assert(iv.take(j as int).last() == xs@[j - 1]@);
        assert(iv.take(j as int).drop_last() =~= iv.take(j - 1));
        match xs[j - 1].get("field_definition_id") {
            Some(Json::Str(f)) => {
                if same_text(f.as_str(), fid) {
                    return text_field(&xs[j - 1], "value");
                }
            },
            _ => {},
        }
        j = j - 1;
    }
    String::new()
}

/// The stored item that saving writes for one field.
pub open spec fn value_item(fid: Seq<char>, val: Seq<char>) -> JsonView {
    JsonView::Object(
        seq![("field_definition_id"@, JsonView::Str(fid)), ("value"@, JsonView::Str(val))],
    )
}

/// The body that saves the form's values: `{"values": [...]}` with an item per field.
pub open spec fn values_body(vals: Seq<(Seq<char>, Seq<char>)>) -> JsonView {
    JsonView::Object(
        seq![("values"@, JsonView::Array(vals.map_values(|p: (Seq<char>, Seq<char>)| value_item(p.0, p.1))))],
    )
}

/// The body that saves the form's values.
pub fn custom_values_payload(vals: &Vec<(String, String)>) -> (r: Json)
    ensures
        r@ == values_body(pairs_view(vals@)),
{
    let mut items: Vec<Json> = Vec::new();
    let mut i: usize = 0;
    while i < vals.len()
        invariant
            i <= vals@.len(),
            items@.len() == i,
            forall|k: int|
                0 <= k < i ==> (#[trigger] items@[k])@ == value_item(vals@[k].0@, vals@[k].1@),
        decreases vals@.len() - i,
    {
        let mut ms: Vec<(String, Json)> = Vec::new();
        ms.push((String::from_str("field_definition_id"), Json::Str(vals[i].0.clone())));
        ms.push((String::from_str("value"), Json::Str(vals[i].1.clone())));
        let ghost mv = ms@;
        proof {
            lemma_members_view(ms@);
            assert(members_view(mv) =~~= seq![
                ("field_definition_id"@, JsonView::Str(vals@[i as int].0@)),
                ("value"@, JsonView::Str(vals@[i as int].1@)),
            ]);
        }
        items.push(Json::Object(ms));
        i = i + 1;
    }
    let ghost iv = items_view(items@);
    proof {
        lemma_items_view(items@);
        assert(iv =~= pairs_view(vals@).map_values(
            |p: (Seq<char>, Seq<char>)| value_item(p.0, p.1),
        ));
    }
    let mut body: Vec<(String, Json)> = Vec::new();
    body.push((String::from_str("values"), Json::Array(items)));
    let ghost bv = body@;
    proof {
        lemma_members_view(body@);
        assert(members_view(bv) =~~= seq![("values"@, JsonView::Array(iv))]);
    }
    Json::Object(body)
}

proof fn lemma_value_item_fields(fid: Seq<char>, val: Seq<char>)
    ensures
        stored_id(value_item(fid, val)) == Some(fid),
        text_or_empty(value_item(fid, val), "value"@) == val,
{
    reveal_strlit("field_definition_id");
    reveal_strlit("value");
    let ms = seq![("field_definition_id"@, JsonView::Str(fid)), ("value"@, JsonView::Str(val))];
    assert("field_definition_id"@.len() != "value"@.len());
    assert(member(ms, "value"@) == member(ms.drop_first(), "value"@));
    assert(ms.drop_first()[0].0 == "value"@);
}

proof fn lemma_stored_value_of_items(vals: Seq<(Seq<char>, Seq<char>)>, i: int)
    requires
        0 <= i < vals.len(),
        forall|a: int, b: int| 0 <= a < b < vals.len() ==> (#[trigger] vals[a]).0 != (#[trigger] vals[b]).0,
    ensures
        stored_value(vals.map_values(|p: (Seq<char>, Seq<char>)| value_item(p.0, p.1)), vals[i].0)
            == Some(vals[i].1),
    decreases vals.len(),
{
    let items = vals.map_values(|p: (Seq<char>, Seq<char>)| value_item(p.0, p.1));
    let n = vals.len() - 1;
    lemma_value_item_fields(vals[n].0, vals[n].1);
    if i < n {
        assert(vals[n].0 != vals[i].0);
        let front = vals.drop_last();
        assert(items.drop_last() =~= front.map_values(|p: (Seq<char>, Seq<char>)| value_item(p.0, p.1)));
        assert forall|a: int, b: int| 0 <= a < b < front.len() implies (#[trigger] front[a]).0
            != (#[trigger] front[b]).0 by {
            assert(front[a] == vals[a]);
            assert(front[b] == vals[b]);
        }
        lemma_stored_value_of_items(front, i);
        assert(front[i] == vals[i]);
    }
}

/// Saving the form and loading it again shows the same values: when the definitions'
/// ids differ and the form holds, for each definition in order, its id and a value, the
/// values read from the saved body are the form's values.
pub proof fn saved_values_load_back(vals: Seq<(Seq<char>, Seq<char>)>, defs: Seq<JsonView>)
    requires
        vals.len() == defs.len(),
        forall|i: int| 0 <= i < vals.len() ==> (#[trigger] vals[i]).0 == text_or_empty(defs[i], "id"@),
        forall|a: int, b: int| 0 <= a < b < vals.len() ==> (#[trigger] vals[a]).0 != (#[trigger] vals[b]).0,
    ensures
        forall|i: int|
            0 <= i < vals.len() ==> #[trigger] shown_value(values_body(vals), text_or_empty(defs[i], "id"@))
                == vals[i].1,
{
    reveal_strlit("values");
    let items = vals.map_values(|p: (Seq<char>, Seq<char>)| value_item(p.0, p.1));
    assert(items_under(values_body(vals), "values"@) == Some(items));
    assert forall|i: int| 0 <= i < vals.len() implies #[trigger] shown_value(
        values_body(vals),
        text_or_empty(defs[i], "id"@),
    ) == vals[i].1 by {
        lemma_stored_value_of_items(vals, i);
    }
}

} // verus!
