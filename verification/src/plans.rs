//! The plan editor of the administration pages: which modules and sub-modules a plan
//! enables, read from a plan, changed by the check boxes, and written back as the plan's
//! module list.
use vstd::prelude::*;
use vstd::string::StringExecFns;
use crate::json::{
    Json, JsonView, field_of, items_under, items_view, lemma_items_view, member, text_field,
};
use crate::text::same_text;

verus! {

/// A module that a plan can enable: its key, its display name and its sub-modules.
pub struct ModuleDef {
    pub key: String,
    pub name: String,
    pub subs: Vec<String>,
}

/// The texts of a module definition: key, name and sub-module names.
pub open spec fn def_view(d: ModuleDef) -> (Seq<char>, Seq<char>, Seq<Seq<char>>) {
    (d.key@, d.name@, d.subs@.map_values(|s: String| s@))
}

/// The texts of a catalog of module definitions.
pub open spec fn catalog_view(c: Seq<ModuleDef>) -> Seq<(Seq<char>, Seq<char>, Seq<Seq<char>>)> {
    c.map_values(|d: ModuleDef| def_view(d))
}

/// The keys of a catalog.
pub open spec fn catalog_keys(c: Seq<(Seq<char>, Seq<char>, Seq<Seq<char>>)>) -> Seq<Seq<char>> {
    c.map_values(|m: (Seq<char>, Seq<char>, Seq<Seq<char>>)| m.0)
}

/// The position of the first `x` in `xs`.
pub open spec fn first_index(xs: Seq<Seq<char>>, x: Seq<char>) -> Option<int>
    decreases xs.len(),
{
    if xs.len() == 0 {
        None
    } else if xs[0] == x {
        Some(0)
    } else {
        match first_index(xs.drop_first(), x) {
            Some(i) => Some(i + 1),
            None => None,
        }
    }
}

proof fn lemma_first_index(xs: Seq<Seq<char>>, x: Seq<char>)
    ensures
        match first_index(xs, x) {
            Some(i) => 0 <= i < xs.len() && xs[i] == x && forall|k: int| 0 <= k < i ==> xs[k] != x,
            None => forall|k: int| 0 <= k < xs.len() ==> xs[k] != x,
        },
    decreases xs.len(),
{
    if xs.len() > 0 && xs[0] != x {
        lemma_first_index(xs.drop_first(), x);
        assert forall|k: int| 0 < k < xs.len() implies xs[k] == xs.drop_first()[k - 1] by {}
    }
}

/// The entries of a plan's module list: its `modules` array, or none.
pub open spec fn plan_entries(plan: JsonView) -> Seq<JsonView> {
    match items_under(plan, "modules"@) {
        Some(es) => es,
        None => Seq::<JsonView>::empty(),
    }
}

/// The catalog position of the module that a plan entry names by its `module_key`.
pub open spec fn entry_module(c: Seq<(Seq<char>, Seq<char>, Seq<Seq<char>>)>, e: JsonView) -> Option<int> {
    match field_of(e, "module_key"@) {
        Some(JsonView::Str(k)) => first_index(catalog_keys(c), k),
        _ => None,
    }
}

/// The position among `subs` of the sub-module that an entry of `sub_modules` names.
pub open spec fn entry_sub(subs: Seq<Seq<char>>, v: JsonView) -> Option<int> {
    match v {
        JsonView::Str(k) => first_index(subs, k),
        _ => None,
    }
}

/// Whether one of the first `n` entries names module `i`.
pub open spec fn named_by(c: Seq<(Seq<char>, Seq<char>, Seq<Seq<char>>)>, es: Seq<JsonView>, n: int, i: int) -> bool {
    exists|j: int| 0 <= j < n && entry_module(c, #[trigger] es[j]) == Some(i)
}

/// Whether the plan enables module `i` of the catalog: some entry names it.
pub open spec fn plan_enables(c: Seq<(Seq<char>, Seq<char>, Seq<Seq<char>>)>, plan: JsonView, i: int) -> bool {
    named_by(c, plan_entries(plan), plan_entries(plan).len() as int, i)
}

/// Whether entry `e` lists sub-module `s` of module `i`.
pub open spec fn entry_lists_sub(
    c: Seq<(Seq<char>, Seq<char>, Seq<Seq<char>>)>,
    e: JsonView,
    i: int,
    s: int,
) -> bool {
    &&& entry_module(c, e) == Some(i)
    &&& match items_under(e, "sub_modules"@) {
        Some(vs) => exists|t: int| 0 <= t < vs.len() && entry_sub(c[i].2, #[trigger] vs[t]) == Some(s),
        None => false,
    }
}

/// Whether one of the first `n` entries lists sub-module `s` of module `i`.
pub open spec fn listed_by(
    c: Seq<(Seq<char>, Seq<char>, Seq<Seq<char>>)>,
    es: Seq<JsonView>,
    n: int,
    i: int,
    s: int,
) -> bool {
    exists|j: int| 0 <= j < n && entry_lists_sub(c, #[trigger] es[j], i, s)
}

/// Whether the plan enables sub-module `s` of module `i`: an entry naming the module lists
/// it.
pub open spec fn plan_enables_sub(
    c: Seq<(Seq<char>, Seq<char>, Seq<Seq<char>>)>,
    plan: JsonView,
    i: int,
    s: int,
) -> bool {
    listed_by(c, plan_entries(plan), plan_entries(plan).len() as int, i, s)
}

/// The check boxes of the plan editor: one per module, and one per sub-module.
pub struct PlanSelection {
    pub modules: Vec<bool>,
    pub sub_modules: Vec<Vec<bool>>,
}

/// Whether a selection has a box for each module and sub-module of the catalog.
pub open spec fn fits(c: Seq<(Seq<char>, Seq<char>, Seq<Seq<char>>)>, sel: PlanSelection) -> bool {
    &&& sel.modules@.len() == c.len()
    &&& sel.sub_modules@.len() == c.len()
    &&& forall|i: int| 0 <= i < c.len() ==> (#[trigger] sel.sub_modules@[i])@.len() == c[i].2.len()
}

/// The position of `x` among the texts of `xs`.
fn find_text(xs: &Vec<String>, x: &str) -> (r: Option<usize>)
    ensures
        match r {
            Some(i) => first_index(xs@.map_values(|s: String| s@), x@) == Some(i as int),
            None => first_index(xs@.map_values(|s: String| s@), x@) is None,
        },
{
    let ghost v = xs@.map_values(|s: String| s@);
    let mut k: usize = 0;
    assert(v.skip(0) =~= v);
    while k < xs.len()
        invariant
            v == xs@.map_values(|s: String| s@),
            k <= xs@.len(),
            first_index(v, x@) == (match first_index(v.skip(k as int), x@) {
                Some(j) => Some(j + k),
                None => None,
            }),
        decreases xs@.len() - k,
    {
        assert(v.skip(k as int)[0] == v[k as int]);
        if same_text(xs[k].as_str(), x) {
            return Some(k);
        }
        assert(v.skip(k as int).drop_first() =~= v.skip(k + 1));
        k = k + 1;
    }
    assert(v.skip(k as int) =~= Seq::<Seq<char>>::empty());
    None
}

/// The position in the catalog of the module whose key is `key`.
fn find_module(catalog: &Vec<ModuleDef>, key: &str) -> (r: Option<usize>)
    ensures
        match r {
            Some(i) => first_index(catalog_keys(catalog_view(catalog@)), key@) == Some(i as int),
            None => first_index(catalog_keys(catalog_view(catalog@)), key@) is None,
        },
{
    let ghost v = catalog_keys(catalog_view(catalog@));
    let mut k: usize = 0;
    assert(v.skip(0) =~= v);
    while k < catalog.len()
        invariant
            v == catalog_keys(catalog_view(catalog@)),
            k <= catalog@.len(),
            first_index(v, key@) == (match first_index(v.skip(k as int), key@) {
                Some(j) => Some(j + k),
                None => None,
            }),
        decreases catalog@.len() - k,
    {
        assert(v.skip(k as int)[0] == v[k as int]);
        if same_text(catalog[k].key.as_str(), key) {
            return Some(k);
        }
        assert(v.skip(k as int).drop_first() =~= v.skip(k + 1));
        k = k + 1;
    }
    assert(v.skip(k as int) =~= Seq::<Seq<char>>::empty());
    None
}

/// The selection with every box cleared.
pub fn empty_selection(catalog: &Vec<ModuleDef>) -> (r: PlanSelection)
    ensures
        fits(catalog_view(catalog@), r),
        forall|i: int| 0 <= i < catalog@.len() ==> !(#[trigger] r.modules@[i]),
        forall|i: int, s: int|
            0 <= i < catalog@.len() && 0 <= s < r.sub_modules@[i]@.len() ==> !(
            #[trigger] r.sub_modules@[i]@[s]),
{
    let mut modules: Vec<bool> = Vec::new();
    let mut sub_modules: Vec<Vec<bool>> = Vec::new();
    let mut i: usize = 0;
    while i < catalog.len()
        invariant
            i <= catalog@.len(),
            modules@.len() == i,
            sub_modules@.len() == i,
            forall|k: int| 0 <= k < i ==> !(#[trigger] modules@[k]),
            forall|k: int|
                0 <= k < i ==> (#[trigger] sub_modules@[k])@.len() == catalog@[k].subs@.len(),
            forall|k: int, s: int|
                0 <= k < i && 0 <= s < sub_modules@[k]@.len() ==> !(#[trigger] sub_modules@[k]@[s]),
        decreases catalog@.len() - i,
    {
        let mut row: Vec<bool> = Vec::new();
        let mut s: usize = 0;
        while s < catalog[i].subs.len()
            invariant
                i < catalog@.len(),
                s <= catalog@[i as int].subs@.len(),
                row@.len() == s,
                forall|t: int| 0 <= t < s ==> !(#[trigger] row@[t]),
            decreases catalog@[i as int].subs@.len() - s,
        {
            row.push(false);
            s = s + 1;
        }
        modules.push(false);
        sub_modules.push(row);
        i = i + 1;
    }
    PlanSelection { modules, sub_modules }
}

/// The boxes that a plan checks when it is opened for editing: a module when an entry
/// of its `modules` list names it by `module_key`, a sub-module when such an entry lists
/// it in `sub_modules`. Unknown keys and names are passed over.
pub fn selection_from_plan(catalog: &Vec<ModuleDef>, plan: &Json) -> (r: PlanSelection)
    ensures
        fits(catalog_view(catalog@), r),
        forall|i: int|
            0 <= i < catalog@.len() ==> #[trigger] r.modules@[i] == plan_enables(
                catalog_view(catalog@),
                plan@,
                i,
            ),
        forall|i: int, s: int|
            0 <= i < catalog@.len() && 0 <= s < catalog_view(catalog@)[i].2.len() ==> #[trigger] r.sub_modules@[i]@[s]
                == plan_enables_sub(catalog_view(catalog@), plan@, i, s),
{
    let ghost cv = catalog_view(catalog@);
    let mut sel = empty_selection(catalog);
    match plan.get("modules") {
        Some(Json::Array(entries)) => {
            let ghost es = items_view(entries@);
            proof {
                lemma_items_view(entries@);
            }
            let mut j: usize = 0;
            while j < entries.len()
                invariant
                    cv == catalog_view(catalog@),
                    es == items_view(entries@),
                    es == entries@.map_values(|x: Json| x@),
                    j <= entries@.len(),
                    fits(cv, sel),
                    forall|i: int|
                        0 <= i < cv.len() ==> #[trigger] sel.modules@[i] == named_by(cv, es, j as int, i),
                    forall|i: int, s: int|
                        0 <= i < cv.len() && 0 <= s < cv[i].2.len() ==> #[trigger] sel.sub_modules@[i]@[s]
                            == listed_by(cv, es, j as int, i, s),
                decreases entries@.len() - j,
            {
                let e = &entries[j];
                assert(es[j as int] == e@);
                let ghost before = sel;
                match e.get("module_key") {
                    Some(Json::Str(mk)) => match find_module(catalog, mk.as_str()) {
                        Some(idx) => {
                            proof {
                                lemma_first_index(catalog_keys(cv), mk@);
                            }
                            sel.modules.set(idx, true);
                            match e.get("sub_modules") {
                                Some(Json::Array(svs)) => {
                                    let ghost vs = items_view(svs@);
                                    proof {
                                        lemma_items_view(svs@);
                                    }
                                    let mut row = sel.sub_modules.remove(idx);
                                    let ghost old_row = row@;
                                    let mut t: usize = 0;
                                    while t < svs.len()
                                        invariant
                                            cv == catalog_view(catalog@),
                                            idx < cv.len(),
                                            vs == items_view(svs@),
                                            vs == svs@.map_values(|x: Json| x@),
                                            t <= svs@.len(),
                                            row@.len() == old_row.len(),
                                            old_row.len() == cv[idx as int].2.len(),
                                            forall|s: int|
                                                0 <= s < old_row.len() ==> #[trigger] row@[s] == (old_row[s]
                                                    || exists|t2: int|
                                                    0 <= t2 < t && entry_sub(cv[idx as int].2, #[trigger] vs[t2]) == Some(s)),
                                        decreases svs@.len() - t,
                                    {
                                        assert(vs[t as int] == svs@[t as int]@);
                                        match &svs[t] {
                                            Json::Str(sk) => {
                                                proof {
                                                    assert(catalog@[idx as int].subs@.map_values(|x: String| x@)
                                                        == cv[idx as int].2);
                                                }
                                                match find_text(&catalog[idx].subs, sk.as_str()) {
                                                    Some(si) => {
                                                        proof {
                                                            lemma_first_index(cv[idx as int].2, sk@);
                                                        }
                                                        row.set(si, true);
                                                    },
                                                    None => {},
                                                }
                                            },
                                            _ => {},
                                        }
                                        t = t + 1;
                                    }
                                    sel.sub_modules.insert(idx, row);
                                },
                                _ => {},
                            }
                        },
                        None => {},
                    },
                    _ => {},
                }
                proof {
                    assert forall|i: int|
                        0 <= i < cv.len() implies #[trigger] sel.modules@[i] == named_by(cv, es, j + 1, i) by {
                        if entry_module(cv, es[j as int]) == Some(i) {
                            assert(named_by(cv, es, j + 1, i));
                        } else if named_by(cv, es, j + 1, i) {
                            let j2 = choose|j2: int| 0 <= j2 < j + 1 && entry_module(cv, #[trigger] es[j2]) == Some(i);
                            assert(named_by(cv, es, j as int, i));
                        }
                    }
                    assert forall|i: int, s: int|
                        0 <= i < cv.len() && 0 <= s < cv[i].2.len() implies #[trigger] sel.sub_modules@[i]@[s]
                            == listed_by(cv, es, j + 1, i, s) by {
                        if listed_by(cv, es, j + 1, i, s) && !entry_lists_sub(cv, es[j as int], i, s) {
                            let j2 = choose|j2: int| 0 <= j2 < j + 1 && entry_lists_sub(cv, #[trigger] es[j2], i, s);
                            assert(listed_by(cv, es, j as int, i, s));
                        }
                        if entry_lists_sub(cv, es[j as int], i, s) {
                            assert(listed_by(cv, es, j + 1, i, s));
                        }
                    }
                }
                j = j + 1;
            }
        },
        _ => {},
    }
    sel
}

/// The selection with module `idx` switched; switching a module off clears its
/// sub-modules.
pub fn toggle_module(sel: &mut PlanSelection, idx: usize)
    requires
        idx < old(sel).modules@.len(),
    ensures
        final(sel).modules@ == old(sel).modules@.update(idx as int, !old(sel).modules@[idx as int]),
        final(sel).sub_modules@.len() == old(sel).sub_modules@.len(),
        forall|i: int|
            0 <= i < old(sel).sub_modules@.len() ==> (#[trigger] final(sel).sub_modules@[i])@ == (
            if old(sel).modules@[idx as int] && i == idx {
                Seq::new(old(sel).sub_modules@[i]@.len(), |k: int| false)
            } else {
                old(sel).sub_modules@[i]@
            }),
{
    let new_val = !sel.modules[idx];
    sel.modules.set(idx, new_val);
    if !new_val {
        if idx < sel.sub_modules.len() {
            let ghost old_subs = sel.sub_modules@;
            let mut row = sel.sub_modules.remove(idx);
            let mut k: usize = 0;
            let ghost n = row@.len();
            while k < row.len()
                invariant
                    row@.len() == n,
                    k <= n,
                    forall|t: int| 0 <= t < k ==> !(#[trigger] row@[t]),
                decreases n - k,
            {
                row.set(k, false);
                k = k + 1;
            }
            assert(row@ =~= Seq::new(n, |t: int| false));
            sel.sub_modules.insert(idx, row);
            assert forall|i: int| 0 <= i < old_subs.len() && i != idx implies sel.sub_modules@[i]
                == old_subs[i] by {}
        }
    }
}

/// The selection with sub-module `si` of module `mi` switched, when both exist.
pub fn toggle_sub_module(sel: &mut PlanSelection, mi: usize, si: usize)
    ensures
        final(sel).modules@ == old(sel).modules@,
        final(sel).sub_modules@.len() == old(sel).sub_modules@.len(),
        forall|i: int|
            0 <= i < old(sel).sub_modules@.len() ==> (#[trigger] final(sel).sub_modules@[i])@ == (
            if i == mi && si < old(sel).sub_modules@[i]@.len() {
                old(sel).sub_modules@[i]@.update(si as int, !old(sel).sub_modules@[i]@[si as int])
            } else {
                old(sel).sub_modules@[i]@
            }),
{
    if mi < sel.sub_modules.len() && si < sel.sub_modules[mi].len() {
        let ghost old_subs = sel.sub_modules@;
        let mut row = sel.sub_modules.remove(mi);
        let v = !row[si];
        row.set(si, v);
        sel.sub_modules.insert(mi, row);
        assert forall|i: int| 0 <= i < old_subs.len() && i != mi implies sel.sub_modules@[i]
            == old_subs[i] by {}
    }
}

/// The names among `names` whose box is checked, in order.
pub open spec fn selected_names(names: Seq<Seq<char>>, flags: Seq<bool>) -> Seq<Seq<char>>
    decreases names.len(),
{
    if names.len() == 0 {
        Seq::<Seq<char>>::empty()
    } else {
        selected_names(names.drop_last(), flags) + (if flags[names.len() - 1] {
            seq![names.last()]
        } else {
            Seq::<Seq<char>>::empty()
        })
    }
}

/// The JSON strings of `names`.
pub open spec fn json_strings(names: Seq<Seq<char>>) -> Seq<JsonView> {
    names.map_values(|x: Seq<char>| JsonView::Str(x))
}

/// The entry that a plan's module list holds for an enabled module: its key, its name,
/// and, when some are checked, the names of its checked sub-modules.
pub open spec fn module_entry(m: (Seq<char>, Seq<char>, Seq<Seq<char>>), flags: Seq<bool>) -> JsonView {
    let chosen = selected_names(m.2, flags);
    JsonView::Object(
        seq![("module_key"@, JsonView::Str(m.0)), ("module_name"@, JsonView::Str(m.1))] + (if chosen.len()
            > 0 {
            seq![("sub_modules"@, JsonView::Array(json_strings(chosen)))]
        } else {
            Seq::<(Seq<char>, JsonView)>::empty()
        }),
    )
}

/// The module list written for the first `n` modules of the catalog: an entry for each
/// checked module, in catalog order.
pub open spec fn plan_modules(
    c: Seq<(Seq<char>, Seq<char>, Seq<Seq<char>>)>,
    mods: Seq<bool>,
    subs: Seq<Seq<bool>>,
    n: int,
) -> Seq<JsonView>
    decreases n,
{
    if n <= 0 {
        Seq::<JsonView>::empty()
    } else {
        plan_modules(c, mods, subs, n - 1) + (if mods[n - 1] {
            seq![module_entry(c[n - 1], subs[n - 1])]
        } else {
            Seq::<JsonView>::empty()
        })
    }
}

/// The views of the sub-module boxes.
pub open spec fn rows_view(rows: Seq<Vec<bool>>) -> Seq<Seq<bool>> {
    rows.map_values(|r: Vec<bool>| r@)
}

/// The body that saves a plan's modules: `{"modules": [...]}`.
pub open spec fn modules_body(
    c: Seq<(Seq<char>, Seq<char>, Seq<Seq<char>>)>,
    mods: Seq<bool>,
    subs: Seq<Seq<bool>>,
) -> JsonView {
    JsonView::Object(seq![("modules"@, JsonView::Array(plan_modules(c, mods, subs, c.len() as int)))])
}

fn module_entry_json(d: &ModuleDef, flags: &Vec<bool>) -> (r: Json)
    requires
        flags@.len() == d.subs@.len(),
    ensures
        r@ == module_entry(def_view(*d), flags@),
{
    let ghost names = d.subs@.map_values(|x: String| x@);
    let mut chosen: Vec<Json> = Vec::new();
    let mut k: usize = 0;
    assert(names.take(0) =~= Seq::<Seq<char>>::empty());
    proof {
        lemma_items_view(chosen@);
    }
    assert(items_view(chosen@) =~= json_strings(selected_names(names.take(0), flags@)));
    while k < d.subs.len()
        invariant
            names == d.subs@.map_values(|x: String| x@),
            flags@.len() == d.subs@.len(),
            k <= d.subs@.len(),
            items_view(chosen@) == json_strings(selected_names(names.take(k as int), flags@)),
        decreases d.subs@.len() - k,
    {
        let ghost prev = items_view(chosen@);
        let ghost before = selected_names(names.take(k as int), flags@);
        proof {
            assert(names.take(k + 1).drop_last() =~= names.take(k as int));
            assert(names.take(k + 1).last() == names[k as int]);
            assert(selected_names(names.take(k + 1), flags@) == before + (if flags@[k as int] {
                seq![names[k as int]]
            } else {
                Seq::<Seq<char>>::empty()
            }));
            lemma_items_view(chosen@);
        }
        if flags[k] {
            let ghost old_chosen = chosen@;
            chosen.push(Json::Str(d.subs[k].clone()));
            proof {
                lemma_items_view(chosen@);
                lemma_items_view(old_chosen);
                assert(chosen@ =~= old_chosen.push(Json::Str(d.subs@[k as int])));
                assert(items_view(chosen@) =~= prev.push(JsonView::Str(names[k as int])));
                assert(json_strings(before + seq![names[k as int]]) =~= json_strings(before).push(
                    JsonView::Str(names[k as int]),
                ));
            }
        } else {
            assert(before + Seq::<Seq<char>>::empty() =~= before);
        }
        k = k + 1;
    }
    assert(names.take(d.subs@.len() as int) =~= names);
    let ghost chosen_view = items_view(chosen@);
    let ghost picked = selected_names(names, flags@);
    proof {
        lemma_items_view(chosen@);
        assert(chosen_view.len() == chosen@.len());
        assert(json_strings(picked).len() == picked.len());
    }
    let mut members: Vec<(String, Json)> = Vec::new();
    members.push((String::from_str("module_key"), Json::Str(d.key.clone())));
    members.push((String::from_str("module_name"), Json::Str(d.name.clone())));
    let has_chosen = chosen.len() > 0;
    if has_chosen {
        members.push((String::from_str("sub_modules"), Json::Array(chosen)));
    }
    let ghost mv = members@;
    proof {
        crate::json::lemma_members_view(members@);
    }
    let r = Json::Object(members);
    proof {
        let expected = module_entry(def_view(*d), flags@);
        assert(def_view(*d).2 == names);
        assert(chosen_view == json_strings(picked));
        let head = seq![("module_key"@, JsonView::Str(d.key@)), ("module_name"@, JsonView::Str(d.name@))];
        if has_chosen {
            assert(picked.len() > 0);
            assert(expected == JsonView::Object(head + seq![("sub_modules"@, JsonView::Array(json_strings(picked)))]));
            assert(head + seq![("sub_modules"@, JsonView::Array(json_strings(picked)))] =~~= seq![
                ("module_key"@, JsonView::Str(d.key@)),
                ("module_name"@, JsonView::Str(d.name@)),
                ("sub_modules"@, JsonView::Array(json_strings(picked))),
            ]);
        } else {
            assert(picked.len() == 0);
            assert(expected == JsonView::Object(head + Seq::<(Seq<char>, JsonView)>::empty()));
            assert(head + Seq::<(Seq<char>, JsonView)>::empty() =~~= head);
        }
        if has_chosen {
            assert(crate::json::members_view(mv) =~~= seq![
                ("module_key"@, JsonView::Str(d.key@)),
                ("module_name"@, JsonView::Str(d.name@)),
                ("sub_modules"@, JsonView::Array(json_strings(picked))),
            ]);
        } else {
            assert(crate::json::members_view(mv) =~~= seq![
                ("module_key"@, JsonView::Str(d.key@)),
                ("module_name"@, JsonView::Str(d.name@)),
            ]);
        }
        assert(r@ =~~= expected);
    }
    r
}

/// The module list that saving the plan writes: an entry for each checked module, in
/// catalog order, with its checked sub-modules.
pub fn enabled_modules(catalog: &Vec<ModuleDef>, sel: &PlanSelection) -> (r: Vec<Json>)
    requires
        fits(catalog_view(catalog@), *sel),
    ensures
        items_view(r@) == plan_modules(
            catalog_view(catalog@),
            sel.modules@,
            rows_view(sel.sub_modules@),
            catalog@.len() as int,
        ),
{
    let ghost cv = catalog_view(catalog@);
    let ghost rows = rows_view(sel.sub_modules@);
    let mut out: Vec<Json> = Vec::new();
    let mut i: usize = 0;
    while i < catalog.len()
        invariant
            cv == catalog_view(catalog@),
            rows == rows_view(sel.sub_modules@),
            fits(cv, *sel),
            i <= catalog@.len(),
            items_view(out@) == plan_modules(cv, sel.modules@, rows, i as int),
        decreases catalog@.len() - i,
    {
        proof {
            lemma_items_view(out@);
        }
        if sel.modules[i] {
            assert(sel.sub_modules@[i as int]@.len() == cv[i as int].2.len());
            let e = module_entry_json(&catalog[i], &sel.sub_modules[i]);
            out.push(e);
        }
        proof {
            lemma_items_view(out@);
            assert(items_view(out@) =~= plan_modules(cv, sel.modules@, rows, i + 1));
        }
        i = i + 1;
    }
    out
}

/// The body that saves a plan's modules.
pub fn plan_modules_body(catalog: &Vec<ModuleDef>, sel: &PlanSelection) -> (r: Json)
    requires
        fits(catalog_view(catalog@), *sel),
    ensures
        r@ == modules_body(catalog_view(catalog@), sel.modules@, rows_view(sel.sub_modules@)),
{
    let list = enabled_modules(catalog, sel);
    let ghost list_view = items_view(list@);
    let mut members: Vec<(String, Json)> = Vec::new();
    members.push((String::from_str("modules"), Json::Array(list)));
    let ghost mv = members@;
    proof {
        crate::json::lemma_members_view(members@);
        assert(crate::json::members_view(mv) =~~= seq![("modules"@, JsonView::Array(list_view))]);
    }
    let r = Json::Object(members);
    assert(r@ =~~= modules_body(catalog_view(catalog@), sel.modules@, rows_view(sel.sub_modules@)));
    r
}

/// Whether the texts of `xs` are pairwise different.
pub open spec fn all_distinct(xs: Seq<Seq<char>>) -> bool {
    forall|a: int, b: int| 0 <= a < b < xs.len() ==> #[trigger] xs[a] != #[trigger] xs[b]
}

proof fn lemma_first_index_distinct(xs: Seq<Seq<char>>, i: int)
    requires
        all_distinct(xs),
        0 <= i < xs.len(),
    ensures
        first_index(xs, xs[i]) == Some(i),
{
    lemma_first_index(xs, xs[i]);
    match first_index(xs, xs[i]) {
        Some(j) => {
            if j < i {
                assert(xs[j] != xs[i]);
            }
        },
        None => {},
    }
}

/// Whether `x` is the name of a checked box.
pub open spec fn picked_from(names: Seq<Seq<char>>, flags: Seq<bool>, x: Seq<char>) -> bool {
    exists|s: int| 0 <= s < names.len() && flags[s] && names[s] == x
}

proof fn lemma_selected_names(names: Seq<Seq<char>>, flags: Seq<bool>)
    requires
        flags.len() >= names.len(),
    ensures
        forall|t: int|
            0 <= t < selected_names(names, flags).len() ==> picked_from(
                names,
                flags,
                #[trigger] selected_names(names, flags)[t],
            ),
        forall|s: int|
            0 <= s < names.len() && #[trigger] flags[s] ==> selected_names(names, flags).contains(
                names[s],
            ),
    decreases names.len(),
{
    if names.len() > 0 {
        let d = names.drop_last();
        lemma_selected_names(d, flags);
        let prev = selected_names(d, flags);
        let cur = selected_names(names, flags);
        let n = names.len() - 1;
        assert forall|t: int| 0 <= t < cur.len() implies picked_from(names, flags, #[trigger] cur[t]) by {
            if t < prev.len() {
                assert(cur[t] == prev[t]);
                assert(picked_from(d, flags, prev[t]));
                let s = choose|s: int| 0 <= s < d.len() && flags[s] && d[s] == prev[t];
                assert(names[s] == d[s]);
            } else {
                assert(cur[t] == names[n]);
            }
        }
        assert forall|s: int| 0 <= s < names.len() && #[trigger] flags[s] implies cur.contains(names[s]) by {
            if s < n {
                assert(names[s] == d[s]);
                assert(prev.contains(d[s]));
                let t = choose|t: int| 0 <= t < prev.len() && prev[t] == d[s];
                assert(cur[t] == prev[t]);
            } else {
                assert(cur[prev.len() as int] == names[n]);
            }
        }
    }
}

proof fn lemma_plan_modules(
    c: Seq<(Seq<char>, Seq<char>, Seq<Seq<char>>)>,
    mods: Seq<bool>,
    subs: Seq<Seq<bool>>,
    n: int,
)
    requires
        0 <= n <= c.len(),
        mods.len() >= n,
        subs.len() >= n,
    ensures
        forall|j: int|
            0 <= j < plan_modules(c, mods, subs, n).len() ==> exists|i: int|
                0 <= i < n && mods[i] && #[trigger] plan_modules(c, mods, subs, n)[j] == module_entry(
                    c[i],
                    subs[i],
                ),
        forall|i: int|
            0 <= i < n && mods[i] ==> exists|j: int|
                0 <= j < plan_modules(c, mods, subs, n).len() && #[trigger] plan_modules(
                    c,
                    mods,
                    subs,
                    n,
                )[j] == module_entry(c[i], subs[i]),
    decreases n,
{
    if n > 0 {
        lemma_plan_modules(c, mods, subs, n - 1);
        let prev = plan_modules(c, mods, subs, n - 1);
        let cur = plan_modules(c, mods, subs, n);
        assert forall|j: int| 0 <= j < cur.len() implies exists|i: int|
            0 <= i < n && mods[i] && #[trigger] cur[j] == module_entry(c[i], subs[i]) by {
            if j < prev.len() {
                assert(cur[j] == prev[j]);
                let i = choose|i: int|
                    0 <= i < n - 1 && mods[i] && #[trigger] prev[j] == module_entry(c[i], subs[i]);
            } else {
                assert(cur[j] == module_entry(c[n - 1], subs[n - 1]));
            }
        }
        assert forall|i: int| 0 <= i < n && mods[i] implies exists|j: int|
            0 <= j < cur.len() && #[trigger] cur[j] == module_entry(c[i], subs[i]) by {
            if i < n - 1 {
                let j = choose|j: int|
                    0 <= j < prev.len() && #[trigger] prev[j] == module_entry(c[i], subs[i]);
                assert(cur[j] == prev[j]);
            } else {
                assert(cur[prev.len() as int] == module_entry(c[n - 1], subs[n - 1]));
            }
        }
    }
}

proof fn lemma_entry_fields(m: (Seq<char>, Seq<char>, Seq<Seq<char>>), flags: Seq<bool>)
    ensures
        field_of(module_entry(m, flags), "module_key"@) == Some(JsonView::Str(m.0)),
        items_under(module_entry(m, flags), "sub_modules"@) == (if selected_names(m.2, flags).len()
            > 0 {
            Some(json_strings(selected_names(m.2, flags)))
        } else {
            None
        }),
{
    reveal_strlit("module_key");
    reveal_strlit("module_name");
    reveal_strlit("sub_modules");
    let chosen = selected_names(m.2, flags);
    let e = module_entry(m, flags);
    let ms = match e {
        JsonView::Object(ms) => ms,
        _ => Seq::<(Seq<char>, JsonView)>::empty(),
    };
    assert(ms[0].0 == "module_key"@);
    assert(ms[1].0 == "module_name"@);
    assert("module_key"@.len() != "sub_modules"@.len());
    assert("module_name"@ != "sub_modules"@ ) by {
        assert("module_name"@[0] != "sub_modules"@[0]);
    }
    assert(ms.drop_first()[0] == ms[1]);
    let k = "sub_modules"@;
    assert(crate::json::member(ms, k) == crate::json::member(ms.drop_first(), k));
    assert(crate::json::member(ms.drop_first(), k) == crate::json::member(
        ms.drop_first().drop_first(),
        k,
    ));
    if chosen.len() > 0 {
        assert(ms.drop_first().drop_first()[0].0 == "sub_modules"@);
        assert(crate::json::member(ms.drop_first().drop_first(), k) == Some(
            JsonView::Array(json_strings(chosen)),
        ));
    } else {
        assert(ms.drop_first().drop_first().len() == 0);
    }
}

/// Saving a plan's modules and opening the plan again gives back the same boxes: for a
/// catalog whose module keys differ, whose sub-module names differ within each module,
/// and a selection that checks sub-modules only of checked modules, the plan written by
/// `plan_modules_body` is read by `selection_from_plan` as that selection.
pub proof fn saved_plan_reopens_as_saved(
    c: Seq<(Seq<char>, Seq<char>, Seq<Seq<char>>)>,
    mods: Seq<bool>,
    subs: Seq<Seq<bool>>,
)
    requires
        all_distinct(catalog_keys(c)),
        forall|i: int| 0 <= i < c.len() ==> all_distinct(#[trigger] c[i].2),
        mods.len() == c.len(),
        subs.len() == c.len(),
        forall|i: int| 0 <= i < c.len() ==> (#[trigger] subs[i]).len() == c[i].2.len(),
        forall|i: int, s: int| 0 <= i < c.len() && 0 <= s < subs[i].len() && #[trigger] subs[i][s] ==> mods[i],
    ensures
        forall|i: int| 0 <= i < c.len() ==> #[trigger] plan_enables(c, modules_body(c, mods, subs), i) == mods[i],
        forall|i: int, s: int|
            0 <= i < c.len() && 0 <= s < c[i].2.len() ==> #[trigger] plan_enables_sub(
                c,
                modules_body(c, mods, subs),
                i,
                s,
            ) == subs[i][s],
{
    reveal_strlit("modules");
    let body = modules_body(c, mods, subs);
    let p = plan_modules(c, mods, subs, c.len() as int);
    assert(plan_entries(body) == p);
    lemma_plan_modules(c, mods, subs, c.len() as int);
    let keys = catalog_keys(c);
    assert forall|i: int| 0 <= i < c.len() implies entry_module(c, module_entry(c[i], subs[i])) == Some(i) by {
        lemma_entry_fields(c[i], subs[i]);
        assert(keys[i] == c[i].0);
        lemma_first_index_distinct(keys, i);
    }
    assert forall|i: int| 0 <= i < c.len() implies #[trigger] plan_enables(c, body, i) == mods[i] by {
        if mods[i] {
            let j = choose|j: int| 0 <= j < p.len() && #[trigger] p[j] == module_entry(c[i], subs[i]);
            assert(entry_module(c, p[j]) == Some(i));
        }
        if plan_enables(c, body, i) {
            let j = choose|j: int| 0 <= j < p.len() && entry_module(c, #[trigger] p[j]) == Some(i);
            let i2 = choose|i2: int| 0 <= i2 < c.len() && mods[i2] && #[trigger] p[j] == module_entry(c[i2], subs[i2]);
            assert(entry_module(c, module_entry(c[i2], subs[i2])) == Some(i2));
        }
    }
    assert forall|i: int, s: int|
        0 <= i < c.len() && 0 <= s < c[i].2.len() implies #[trigger] plan_enables_sub(c, body, i, s)
            == subs[i][s] by {
        let names = c[i].2;
        let chosen = selected_names(names, subs[i]);
        lemma_selected_names(names, subs[i]);
        lemma_entry_fields(c[i], subs[i]);
        if subs[i][s] {
            let j = choose|j: int| 0 <= j < p.len() && #[trigger] p[j] == module_entry(c[i], subs[i]);
            assert(chosen.contains(names[s]));
            let t = choose|t: int| 0 <= t < chosen.len() && chosen[t] == names[s];
            lemma_first_index_distinct(names, s);
            let vs = json_strings(chosen);
            assert(vs[t] == JsonView::Str(names[s]));
            assert(entry_sub(names, vs[t]) == Some(s));
            assert(entry_lists_sub(c, p[j], i, s));
        }
        if plan_enables_sub(c, body, i, s) {
            let j = choose|j: int| 0 <= j < p.len() && entry_lists_sub(c, #[trigger] p[j], i, s);
            let i2 = choose|i2: int| 0 <= i2 < c.len() && mods[i2] && #[trigger] p[j] == module_entry(c[i2], subs[i2]);
            assert(entry_module(c, module_entry(c[i2], subs[i2])) == Some(i2));
            assert(i2 == i);
            let vs = json_strings(chosen);
            let t = choose|t: int| 0 <= t < vs.len() && entry_sub(names, #[trigger] vs[t]) == Some(s);
            assert(picked_from(names, subs[i], chosen[t]));
            let s2 = choose|s2: int| 0 <= s2 < names.len() && subs[i][s2] && names[s2] == chosen[t];
            lemma_first_index_distinct(names, s2);
            assert(vs[t] == JsonView::Str(chosen[t]));
        }
    }
}

/// The modules that a plan can enable, in the order the editor shows them.
pub open spec fn module_defs() -> Seq<(Seq<char>, Seq<char>, Seq<Seq<char>>)> {
    seq![
        ("dashboard"@, "Dashboard"@, Seq::<Seq<char>>::empty()),
        ("students"@, "Gestión de Alumnos"@, seq!["view"@, "create"@, "edit"@, "delete"@, "import"@, "export"@]),
        ("attendance"@, "Asistencia"@, seq!["records"@, "reports"@, "alerts"@, "modify"@]),
        ("grades"@, "Calificaciones"@, seq!["view"@, "create"@, "edit"@, "delete"@, "periods"@, "categories"@, "reports"@]),
        ("hr"@, "Recursos Humanos"@, seq!["employees"@, "contracts"@, "documents"@, "leaves"@]),
        ("payroll"@, "Remuneraciones"@, seq!["view"@, "calculate"@, "export"@]),
        ("finance"@, "Finanzas"@, seq!["fees"@, "payments"@, "scholarships"@]),
        ("admission"@, "Admisión CRM"@, seq!["prospects"@, "stages"@, "documents"@, "activities"@, "classrooms"@, "metrics"@]),
        ("reports"@, "Reportes"@, seq!["certificates"@, "concentrations"@, "final-records"@, "sige"@]),
        ("notifications"@, "Centro de Mensajería"@, seq!["send"@, "view"@, "manage"@]),
        ("sige"@, "SIGE / MINEDUC"@, seq!["export"@]),
        ("complaints"@, "Ley Karin - Denuncias"@, seq!["view"@, "manage"@, "resolve"@]),
        ("users"@, "Usuarios y Perfiles"@, seq!["view"@, "create"@, "edit"@, "delete"@]),
        ("roles"@, "Roles y Permisos"@, seq!["view"@, "create"@, "edit"@, "delete"@, "assign"@]),
        ("config"@, "Configuración"@, seq!["branding"@, "preferences"@, "general"@]),
        ("corporations"@, "Multi-colegio"@, seq!["view"@, "create"@, "edit"@, "toggle"@]),
        ("courses"@, "Cursos"@, seq!["view"@, "create"@, "edit"@, "delete"@]),
        ("enrollments"@, "Matrículas"@, seq!["view"@, "create"@, "edit"@, "delete"@, "manage"@]),
        ("subjects"@, "Asignaturas"@, seq!["view"@, "create"@, "edit"@, "delete"@]),
        ("grade-levels"@, "Niveles"@, seq!["view"@, "create"@, "edit"@, "delete"@]),
        ("academic-years"@, "Años Académicos"@, seq!["view"@, "create"@, "edit"@, "delete"@, "activate"@]),
        ("classrooms"@, "Salas"@, seq!["view"@, "create"@, "edit"@, "delete"@]),
        ("agenda"@, "Agenda Escolar"@, seq!["events"@, "view"@, "manage"@]),
        ("audit"@, "Auditoría"@, seq!["view"@, "export"@]),
        ("my-portal"@, "Portal Auto-consulta"@, seq!["view"@]),
    ]
}

fn module_def(key: &str, name: &str, subs: &Vec<&str>) -> (r: ModuleDef)
    ensures
        def_view(r) == (key@, name@, subs@.map_values(|x: &str| x@)),
{
    let mut names: Vec<String> = Vec::new();
    let mut i: usize = 0;
    while i < subs.len()
        invariant
            i <= subs@.len(),
            names@.len() == i,
            forall|k: int| 0 <= k < i ==> (#[trigger] names@[k])@ == subs@[k]@,
        decreases subs@.len() - i,
    {
        names.push(String::from_str(subs[i]));
        i = i + 1;
    }
    assert(names@.map_values(|x: String| x@) =~= subs@.map_values(|x: &str| x@));
    ModuleDef { key: String::from_str(key), name: String::from_str(name), subs: names }
}

/// The catalog of modules that a plan can enable.
pub fn module_catalog() -> (r: Vec<ModuleDef>)
    ensures
        catalog_view(r@) == module_defs(),
{
    let mut c: Vec<ModuleDef> = Vec::new();
    c.push(module_def("dashboard", "Dashboard", &Vec::new()));
    c.push(module_def("students", "Gestión de Alumnos", &vec!["view", "create", "edit", "delete", "import", "export"]));
    c.push(module_def("attendance", "Asistencia", &vec!["records", "reports", "alerts", "modify"]));
    c.push(module_def("grades", "Calificaciones", &vec!["view", "create", "edit", "delete", "periods", "categories", "reports"]));
    c.push(module_def("hr", "Recursos Humanos", &vec!["employees", "contracts", "documents", "leaves"]));
    c.push(module_def("payroll", "Remuneraciones", &vec!["view", "calculate", "export"]));
    c.push(module_def("finance", "Finanzas", &vec!["fees", "payments", "scholarships"]));
    c.push(module_def("admission", "Admisión CRM", &vec!["prospects", "stages", "documents", "activities", "classrooms", "metrics"]));
    c.push(module_def("reports", "Reportes", &vec!["certificates", "concentrations", "final-records", "sige"]));
    c.push(module_def("notifications", "Centro de Mensajería", &vec!["send", "view", "manage"]));
    c.push(module_def("sige", "SIGE / MINEDUC", &vec!["export"]));
    c.push(module_def("complaints", "Ley Karin - Denuncias", &vec!["view", "manage", "resolve"]));
    c.push(module_def("users", "Usuarios y Perfiles", &vec!["view", "create", "edit", "delete"]));
    c.push(module_def("roles", "Roles y Permisos", &vec!["view", "create", "edit", "delete", "assign"]));
    c.push(module_def("config", "Configuración", &vec!["branding", "preferences", "general"]));
    c.push(module_def("corporations", "Multi-colegio", &vec!["view", "create", "edit", "toggle"]));
    c.push(module_def("courses", "Cursos", &vec!["view", "create", "edit", "delete"]));
    c.push(module_def("enrollments", "Matrículas", &vec!["view", "create", "edit", "delete", "manage"]));
    c.push(module_def("subjects", "Asignaturas", &vec!["view", "create", "edit", "delete"]));
    c.push(module_def("grade-levels", "Niveles", &vec!["view", "create", "edit", "delete"]));
    c.push(module_def("academic-years", "Años Académicos", &vec!["view", "create", "edit", "delete", "activate"]));
    c.push(module_def("classrooms", "Salas", &vec!["view", "create", "edit", "delete"]));
    c.push(module_def("agenda", "Agenda Escolar", &vec!["events", "view", "manage"]));
    c.push(module_def("audit", "Auditoría", &vec!["view", "export"]));
    c.push(module_def("my-portal", "Portal Auto-consulta", &vec!["view"]));
    assert(catalog_view(c@) =~~= module_defs());
    c
}

/// Whether no later element of `xs` equals `x`.
pub open spec fn absent_from(x: Seq<char>, xs: Seq<Seq<char>>) -> bool
    decreases xs.len(),
{
    xs.len() == 0 || (xs[0] != x && absent_from(x, xs.drop_first()))
}

/// Whether the elements of `xs` differ pairwise, element by element.
pub open spec fn distinct_list(xs: Seq<Seq<char>>) -> bool
    decreases xs.len(),
{
    xs.len() == 0 || (absent_from(xs[0], xs.drop_first()) && distinct_list(xs.drop_first()))
}

proof fn lemma_absent_from(x: Seq<char>, xs: Seq<Seq<char>>)
    requires
        absent_from(x, xs),
    ensures
        forall|k: int| 0 <= k < xs.len() ==> xs[k] != x,
    decreases xs.len(),
{
    if xs.len() > 0 {
        lemma_absent_from(x, xs.drop_first());
        assert forall|k: int| 0 < k < xs.len() implies xs[k] == xs.drop_first()[k - 1] by {}
    }
}

proof fn lemma_distinct_from_list(xs: Seq<Seq<char>>)
    requires
        distinct_list(xs),
    ensures
        all_distinct(xs),
    decreases xs.len(),
{
    if xs.len() > 0 {
        let rest = xs.drop_first();
        lemma_distinct_from_list(rest);
        lemma_absent_from(xs[0], rest);
        assert forall|a: int, b: int| 0 <= a < b < xs.len() implies #[trigger] xs[a] != #[trigger] xs[b] by {
            if a == 0 {
                assert(xs[b] == rest[b - 1]);
            } else {
                assert(xs[a] == rest[a - 1]);
                assert(xs[b] == rest[b - 1]);
            }
        }
    }
}

/// The module catalog has distinct keys, and distinct sub-module names within each module.
proof fn lemma_catalog_distinct()
    ensures
        all_distinct(catalog_keys(module_defs())),
        forall|i: int| 0 <= i < module_defs().len() ==> all_distinct(#[trigger] module_defs()[i].2),
{
    reveal_strlit("academic-years");
    reveal_strlit("activate");
    reveal_strlit("activities");
    reveal_strlit("admission");
    reveal_strlit("agenda");
    reveal_strlit("alerts");
    reveal_strlit("assign");
    reveal_strlit("attendance");
    reveal_strlit("audit");
    reveal_strlit("branding");
    reveal_strlit("calculate");
    reveal_strlit("categories");
    reveal_strlit("certificates");
    reveal_strlit("classrooms");
    reveal_strlit("complaints");
    reveal_strlit("concentrations");
    reveal_strlit("config");
    reveal_strlit("contracts");
    reveal_strlit("corporations");
    reveal_strlit("courses");
    reveal_strlit("create");
    reveal_strlit("dashboard");
    reveal_strlit("delete");
    reveal_strlit("documents");
    reveal_strlit("edit");
    reveal_strlit("employees");
    reveal_strlit("enrollments");
    reveal_strlit("events");
    reveal_strlit("export");
    reveal_strlit("fees");
    reveal_strlit("final-records");
    reveal_strlit("finance");
    reveal_strlit("general");
    reveal_strlit("grade-levels");
    reveal_strlit("grades");
    reveal_strlit("hr");
    reveal_strlit("import");
    reveal_strlit("leaves");
    reveal_strlit("manage");
    reveal_strlit("metrics");
    reveal_strlit("modify");
    reveal_strlit("my-portal");
    reveal_strlit("notifications");
    reveal_strlit("payments");
    reveal_strlit("payroll");
    reveal_strlit("periods");
    reveal_strlit("preferences");
    reveal_strlit("prospects");
    reveal_strlit("records");
    reveal_strlit("reports");
    reveal_strlit("resolve");
    reveal_strlit("roles");
    reveal_strlit("scholarships");
    reveal_strlit("send");
    reveal_strlit("sige");
    reveal_strlit("stages");
    reveal_strlit("students");
    reveal_strlit("subjects");
    reveal_strlit("toggle");
    reveal_strlit("users");
    reveal_strlit("view");
    assert("academic-years"@.len() == 14);
    assert("activate"@.len() == 8);
    assert("activities"@.len() == 10);
    assert("admission"@.len() == 9);
    assert("agenda"@.len() == 6);
    assert("alerts"@.len() == 6);
    assert("assign"@.len() == 6);
    assert("attendance"@.len() == 10);
    assert("audit"@.len() == 5);
    assert("branding"@.len() == 8);
    assert("calculate"@.len() == 9);
    assert("categories"@.len() == 10);
    assert("certificates"@.len() == 12);
    assert("classrooms"@.len() == 10);
    assert("complaints"@.len() == 10);
    assert("concentrations"@.len() == 14);
    assert("config"@.len() == 6);
    assert("contracts"@.len() == 9);
    assert("corporations"@.len() == 12);
    assert("courses"@.len() == 7);
    assert("create"@.len() == 6);
    assert("dashboard"@.len() == 9);
    assert("delete"@.len() == 6);
    assert("documents"@.len() == 9);
    assert("edit"@.len() == 4);
    assert("employees"@.len() == 9);
    assert("enrollments"@.len() == 11);
    assert("events"@.len() == 6);
    assert("export"@.len() == 6);
    assert("fees"@.len() == 4);
    assert("final-records"@.len() == 13);
    assert("finance"@.len() == 7);
    assert("general"@.len() == 7);
    assert("grade-levels"@.len() == 12);
    assert("grades"@.len() == 6);
    assert("hr"@.len() == 2);
    assert("import"@.len() == 6);
    assert("leaves"@.len() == 6);
    assert("manage"@.len() == 6);
    assert("metrics"@.len() == 7);
    assert("modify"@.len() == 6);
    assert("my-portal"@.len() == 9);
    assert("notifications"@.len() == 13);
    assert("payments"@.len() == 8);
    assert("payroll"@.len() == 7);
    assert("periods"@.len() == 7);
    assert("preferences"@.len() == 11);
    assert("prospects"@.len() == 9);
    assert("records"@.len() == 7);
    assert("reports"@.len() == 7);
    assert("resolve"@.len() == 7);
    assert("roles"@.len() == 5);
    assert("scholarships"@.len() == 12);
    assert("send"@.len() == 4);
    assert("sige"@.len() == 4);
    assert("stages"@.len() == 6);
    assert("students"@.len() == 8);
    assert("subjects"@.len() == 8);
    assert("toggle"@.len() == 6);
    assert("users"@.len() == 5);
    assert("view"@.len() == 4);
    assert("activities"@[0] != "classrooms"@[0]);
    assert("admission"@[0] != "dashboard"@[0]);
    assert("admission"@[0] != "my-portal"@[0]);
    assert("agenda"@[0] != "config"@[0]);
    assert("agenda"@[0] != "grades"@[0]);
    assert("alerts"@[0] != "modify"@[0]);
    assert("assign"@[0] != "create"@[0]);
    assert("assign"@[0] != "delete"@[0]);
    assert("attendance"@[0] != "classrooms"@[0]);
    assert("attendance"@[0] != "complaints"@[0]);
    assert("audit"@[0] != "roles"@[0]);
    assert("audit"@[0] != "users"@[0]);
    assert("classrooms"@[1] != "complaints"@[1]);
    assert("config"@[0] != "grades"@[0]);
    assert("contracts"@[0] != "documents"@[0]);
    assert("contracts"@[0] != "employees"@[0]);
    assert("corporations"@[0] != "grade-levels"@[0]);
    assert("courses"@[0] != "finance"@[0]);
    assert("courses"@[0] != "payroll"@[0]);
    assert("courses"@[0] != "reports"@[0]);
    assert("create"@[0] != "delete"@[0]);
    assert("create"@[0] != "export"@[0]);
    assert("create"@[0] != "import"@[0]);
    assert("create"@[0] != "manage"@[0]);
    assert("create"@[0] != "toggle"@[0]);
    assert("dashboard"@[0] != "my-portal"@[0]);
    assert("delete"@[0] != "export"@[0]);
    assert("delete"@[0] != "import"@[0]);
    assert("delete"@[0] != "manage"@[0]);
    assert("documents"@[0] != "employees"@[0]);
    assert("documents"@[0] != "prospects"@[0]);
    assert("edit"@[0] != "view"@[0]);
    assert("events"@[0] != "manage"@[0]);
    assert("export"@[0] != "import"@[0]);
    assert("finance"@[0] != "payroll"@[0]);
    assert("finance"@[0] != "reports"@[0]);
    assert("payroll"@[0] != "reports"@[0]);
    assert("periods"@[0] != "reports"@[0]);
    assert("records"@[2] != "reports"@[2]);
    assert("roles"@[0] != "users"@[0]);
    assert("send"@[0] != "view"@[0]);
    assert("students"@[1] != "subjects"@[1]);
    let c = module_defs();
    let keys = catalog_keys(c);
    assert(keys =~= seq!["dashboard"@, "students"@, "attendance"@, "grades"@, "hr"@, "payroll"@, "finance"@, "admission"@, "reports"@, "notifications"@, "sige"@, "complaints"@, "users"@, "roles"@, "config"@, "corporations"@, "courses"@, "enrollments"@, "subjects"@, "grade-levels"@, "academic-years"@, "classrooms"@, "agenda"@, "audit"@, "my-portal"@]);
    reveal_with_fuel(distinct_list, 26);
    reveal_with_fuel(absent_from, 26);
    assert(distinct_list(keys));
    lemma_distinct_from_list(keys);
    assert(c[0].2 == Seq::<Seq<char>>::empty());
    lemma_distinct_from_list(c[0].2);
    assert(c[1].2 == seq!["view"@, "create"@, "edit"@, "delete"@, "import"@, "export"@]);
    lemma_distinct_from_list(c[1].2);
    assert(c[2].2 == seq!["records"@, "reports"@, "alerts"@, "modify"@]);
    lemma_distinct_from_list(c[2].2);
    assert(c[3].2 == seq!["view"@, "create"@, "edit"@, "delete"@, "periods"@, "categories"@, "reports"@]);
    lemma_distinct_from_list(c[3].2);
    assert(c[4].2 == seq!["employees"@, "contracts"@, "documents"@, "leaves"@]);
    lemma_distinct_from_list(c[4].2);
    assert(c[5].2 == seq!["view"@, "calculate"@, "export"@]);
    lemma_distinct_from_list(c[5].2);
    assert(c[6].2 == seq!["fees"@, "payments"@, "scholarships"@]);
    lemma_distinct_from_list(c[6].2);
    assert(c[7].2 == seq!["prospects"@, "stages"@, "documents"@, "activities"@, "classrooms"@, "metrics"@]);
    lemma_distinct_from_list(c[7].2);
    assert(c[8].2 == seq!["certificates"@, "concentrations"@, "final-records"@, "sige"@]);
    lemma_distinct_from_list(c[8].2);
    assert(c[9].2 == seq!["send"@, "view"@, "manage"@]);
    lemma_distinct_from_list(c[9].2);
    assert(c[10].2 == seq!["export"@]);
    lemma_distinct_from_list(c[10].2);
    assert(c[11].2 == seq!["view"@, "manage"@, "resolve"@]);
    lemma_distinct_from_list(c[11].2);
    assert(c[12].2 == seq!["view"@, "create"@, "edit"@, "delete"@]);
    lemma_distinct_from_list(c[12].2);
    assert(c[13].2 == seq!["view"@, "create"@, "edit"@, "delete"@, "assign"@]);
    lemma_distinct_from_list(c[13].2);
    assert(c[14].2 == seq!["branding"@, "preferences"@, "general"@]);
    lemma_distinct_from_list(c[14].2);
    assert(c[15].2 == seq!["view"@, "create"@, "edit"@, "toggle"@]);
    lemma_distinct_from_list(c[15].2);
    assert(c[16].2 == seq!["view"@, "create"@, "edit"@, "delete"@]);
    lemma_distinct_from_list(c[16].2);
    assert(c[17].2 == seq!["view"@, "create"@, "edit"@, "delete"@, "manage"@]);
    lemma_distinct_from_list(c[17].2);
    assert(c[18].2 == seq!["view"@, "create"@, "edit"@, "delete"@]);
    lemma_distinct_from_list(c[18].2);
    assert(c[19].2 == seq!["view"@, "create"@, "edit"@, "delete"@]);
    lemma_distinct_from_list(c[19].2);
    assert(c[20].2 == seq!["view"@, "create"@, "edit"@, "delete"@, "activate"@]);
    lemma_distinct_from_list(c[20].2);
    assert(c[21].2 == seq!["view"@, "create"@, "edit"@, "delete"@]);
    lemma_distinct_from_list(c[21].2);
    assert(c[22].2 == seq!["events"@, "view"@, "manage"@]);
    lemma_distinct_from_list(c[22].2);
    assert(c[23].2 == seq!["view"@, "export"@]);
    lemma_distinct_from_list(c[23].2);
    assert(c[24].2 == seq!["view"@]);
    lemma_distinct_from_list(c[24].2);
}

/// For the plan editor's own catalog: saving the checked modules and opening the plan
/// again gives back the same boxes, for every selection that fits the catalog and checks
/// sub-modules only of checked modules.
pub proof fn catalog_plan_reopens_as_saved(mods: Seq<bool>, subs: Seq<Seq<bool>>)
    requires
        mods.len() == module_defs().len(),
        subs.len() == module_defs().len(),
        forall|i: int| 0 <= i < module_defs().len() ==> (#[trigger] subs[i]).len() == module_defs()[i].2.len(),
        forall|i: int, s: int| 0 <= i < module_defs().len() && 0 <= s < subs[i].len() && #[trigger] subs[i][s] ==> mods[i],
    ensures
        forall|i: int|
            0 <= i < module_defs().len() ==> #[trigger] plan_enables(
                module_defs(),
                modules_body(module_defs(), mods, subs),
                i,
            ) == mods[i],
        forall|i: int, s: int|
            0 <= i < module_defs().len() && 0 <= s < module_defs()[i].2.len() ==> #[trigger] plan_enables_sub(
                module_defs(),
                modules_body(module_defs(), mods, subs),
                i,
                s,
            ) == subs[i][s],
{
    lemma_catalog_distinct();
    saved_plan_reopens_as_saved(module_defs(), mods, subs);
}

/// A license in the license list: its id; its school, plan and expiry (a dash when
/// missing); its student limit (0 when missing); whether it is active (not unless it says
/// so); and the label of the button that switches it (`...` while that license is being
/// switched).
pub struct LicenseRow {
    pub id: String,
    pub school: String,
    pub plan: String,
    pub expires: String,
    pub max_students: i64,
    pub active: bool,
    pub toggling: bool,
    pub button_label: String,
}

/// The text under `key`, or an em dash.
pub open spec fn text_or_em_dash(v: JsonView, key: Seq<char>) -> Seq<char> {
    match field_of(v, key) {
        Some(JsonView::Str(s)) => s,
        _ => "\u{2014}"@,
    }
}

/// The row of license `lic` while the license `toggling` (if any) is being switched.
pub fn license_row(lic: &Json, toggling: &Option<String>) -> (r: LicenseRow)
    ensures
        r.id@ == crate::json::text_or_empty(lic@, "id"@),
        r.school@ == text_or_em_dash(lic@, "school_name"@),
        r.plan@ == text_or_em_dash(lic@, "plan_name"@),
        r.expires@ == text_or_em_dash(lic@, "expires_at"@),
        r.max_students == (match crate::json::int_under(lic@, "max_students"@) {
            Some(n) => n,
            None => 0,
        }),
        r.active == (crate::json::flag_under(lic@, "active"@) == Some(true)),
        r.toggling == (match toggling {
            Some(t) => t@ == r.id@,
            None => false,
        }),
        r.button_label@ == (if r.toggling {
            "..."@
        } else if r.active {
            "Desactivar"@
        } else {
            "Activar"@
        }),
{
    let id = text_field(lic, "id");
    let active = match lic.get("active") {
        Some(Json::Bool(b)) => *b,
        _ => false,
    };
    let is_toggling = match toggling {
        Some(t) => same_text(t.as_str(), id.as_str()),
        None => false,
    };
    let button_label = if is_toggling {
        String::from_str("...")
    } else if active {
        String::from_str("Desactivar")
    } else {
        String::from_str("Activar")
    };
    LicenseRow {
        id,
        school: crate::json::text_field_or(lic, "school_name", "\u{2014}"),
        plan: crate::json::text_field_or(lic, "plan_name", "\u{2014}"),
        expires: crate::json::text_field_or(lic, "expires_at", "\u{2014}"),
        max_students: crate::json::int_field_or(lic, "max_students", 0),
        active,
        toggling: is_toggling,
        button_label,
    }
}

/// The question asked before switching a license that is `active` or not.
pub fn license_toggle_prompt(active: bool) -> (r: String)
    ensures
        r@ == (if active {
            "\u{00BF}Desactivar esta licencia?"@
        } else {
            "\u{00BF}Activar esta licencia?"@
        }),
{
    if active {
        String::from_str("\u{00BF}Desactivar esta licencia?")
    } else {
        String::from_str("\u{00BF}Activar esta licencia?")
    }
}

/// The body that switches a license that is `active` or not: `{"active": !active}`.
pub fn license_toggle_body(active: bool) -> (r: Json)
    ensures
        r@ == JsonView::Object(seq![("active"@, JsonView::Bool(!active))]),
{
    let mut ms: Vec<(String, Json)> = Vec::new();
    ms.push((String::from_str("active"), Json::Bool(!active)));
    proof {
        crate::json::lemma_members_view(ms@);
    }
    let ghost mv = ms@;
    assert(crate::json::members_view(mv) =~= seq![("active"@, JsonView::Bool(!active))]);
    Json::Object(ms)
}

/// The license a client sees in its portal.
pub struct ClientLicense {
    pub days_remaining: i64,
    pub status: String,
    pub plan: String,
    pub status_class: String,
    pub days_class: String,
    pub modules: Vec<(String, bool)>,
}

/// The value under `key`, or `null` when it is missing (what indexing a JSON value gives).
pub open spec fn at_or_null(v: JsonView, key: Seq<char>) -> JsonView {
    match field_of(v, key) {
        Some(x) => x,
        None => JsonView::Null,
    }
}

/// The modules of the portal's license answer: the name (empty when missing) of each item
/// of its `modules` array and whether the license includes it (not unless it says so).
pub open spec fn portal_modules(data: JsonView) -> Seq<(Seq<char>, bool)> {
    match items_under(data, "modules"@) {
        Some(xs) => xs.map_values(
            |m: JsonView| (crate::json::text_or_empty(m, "name"@), crate::json::flag_under(m, "included"@) == Some(true)),
        ),
        None => Seq::empty(),
    }
}

/// The license of the client portal's answer `data`: the days left (0 when missing), the
/// status and plan names (empty when missing), the badge of the status (`badge-success`
/// only for `active`), the class of the days left (`text-warning` under 30 days), and the
/// modules with whether each is included.
pub fn client_license(data: &Json) -> (r: ClientLicense)
    ensures
        r.days_remaining == (match crate::json::int_under(at_or_null(data@, "license"@), "days_remaining"@) {
            Some(n) => n,
            None => 0,
        }),
        r.status@ == crate::json::text_or_empty(at_or_null(data@, "license"@), "status"@),
        r.plan@ == crate::json::text_or_empty(at_or_null(data@, "license"@), "plan_name"@),
        r.status_class@ == (if r.status@ == "active"@ {
            "badge-success"@
        } else {
            "badge-warning"@
        }),
        r.days_class@ == (if r.days_remaining < 30 {
            "text-warning"@
        } else {
            "text-success"@
        }),
        r.modules@.map_values(|m: (String, bool)| (m.0@, m.1)) == portal_modules(data@),
{
    let null = Json::Null;
    let lic: &Json = match data.get("license") {
        Some(l) => l,
        None => &null,
    };
    let days = crate::json::int_field_or(lic, "days_remaining", 0);
    let status = text_field(lic, "status");
    let plan = text_field(lic, "plan_name");
    let status_class = if same_text(status.as_str(), "active") {
        String::from_str("badge-success")
    } else {
        String::from_str("badge-warning")
    };
    let days_class = if days < 30 {
        String::from_str("text-warning")
    } else {
        String::from_str("text-success")
    };
    let mut modules: Vec<(String, bool)> = Vec::new();
    match data.get("modules") {
        Some(Json::Array(xs)) => {
            proof {
                lemma_items_view(xs@);
            }
            let mut i: usize = 0;
            while i < xs.len()
                invariant
                    items_view(xs@) == xs@.map_values(|j: Json| j@),
                    items_under(data@, "modules"@) == Some(items_view(xs@)),
                    i <= xs@.len(),
                    modules@.len() == i,
                    forall|k: int|
                        0 <= k < i ==> (#[trigger] modules@[k]).0@ == crate::json::text_or_empty(
                            xs@[k]@,
                            "name"@,
                        ) && modules@[k].1 == (crate::json::flag_under(xs@[k]@, "included"@) == Some(
                            true,
                        )),
                decreases xs@.len() - i,
            {
                let included = match xs[i].get("included") {
                    Some(Json::Bool(b)) => *b,
                    _ => false,
                };
                modules.push((text_field(&xs[i], "name"), included));
                i = i + 1;
            }
            assert(modules@.map_values(|m: (String, bool)| (m.0@, m.1)) =~= portal_modules(data@));
        },
        _ => {
            assert(modules@.map_values(|m: (String, bool)| (m.0@, m.1)) =~= portal_modules(data@));
        },
    }
    ClientLicense { days_remaining: days, status, plan, status_class, days_class, modules }
}

} // verus!
