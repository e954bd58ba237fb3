//! The role editor of the web client: permission definitions grouped by module, and the
//! editable permission rows of a role.
use vstd::prelude::*;
use crate::json::{
    Json, JsonView, field_of, flag_under, items_under, items_view, lemma_items_view, text_field,
    text_or_empty,
};
use crate::text::same_text;

verus! {

/// The module name of each permission definition (its `module` string, or empty).
pub open spec fn module_names(defs: Seq<JsonView>) -> Seq<Seq<char>> {
    defs.map_values(|d: JsonView| text_or_empty(d, "module"@))
}

/// The position of the group named `name`, or the number of groups when there is none.
pub open spec fn group_position(groups: Seq<(Seq<char>, Seq<int>)>, name: Seq<char>) -> int
    decreases groups.len(),
{
    if groups.len() == 0 {
        0
    } else if groups[0].0 == name {
        0
    } else {
        1 + group_position(groups.drop_first(), name)
    }
}

/// The indices of `names` grouped by name: groups in the order in which their names first
/// occur, each with the indices of its name in increasing order.
pub open spec fn grouped(names: Seq<Seq<char>>) -> Seq<(Seq<char>, Seq<int>)>
    decreases names.len(),
{
    if names.len() == 0 {
        Seq::<(Seq<char>, Seq<int>)>::empty()
    } else {
        let groups = grouped(names.drop_last());
        let last = names.len() - 1;
        let p = group_position(groups, names.last());
        if p < groups.len() {
            groups.update(p, (groups[p].0, groups[p].1.push(last)))
        } else {
            groups.push((names.last(), seq![last]))
        }
    }
}

/// The view of computed groups.
pub open spec fn groups_view(groups: Seq<(String, Vec<usize>)>) -> Seq<(Seq<char>, Seq<int>)> {
    groups.map_values(|g: (String, Vec<usize>)| (g.0@, g.1@.map_values(|x: usize| x as int)))
}

/// The definitions of a successful answer: the `definitions` array, or none.
pub open spec fn definitions_of(definitions: Option<Result<Json, String>>) -> Seq<JsonView> {
    match definitions {
        Some(Ok(d)) => match items_under(d@, "definitions"@) {
            Some(items) => items,
            None => Seq::<JsonView>::empty(),
        },
        _ => Seq::<JsonView>::empty(),
    }
}

proof fn lemma_group_position(groups: Seq<(Seq<char>, Seq<int>)>, name: Seq<char>)
    ensures
        0 <= group_position(groups, name) <= groups.len(),
        group_position(groups, name) < groups.len() ==> groups[group_position(groups, name)].0
            == name,
        group_position(groups, name) == groups.len() ==> forall|g: int|
            0 <= g < groups.len() ==> (#[trigger] groups[g]).0 != name,
        forall|g: int|
            0 <= g < group_position(groups, name) ==> (#[trigger] groups[g]).0 != name,
    decreases groups.len(),
{
    if groups.len() > 0 && groups[0].0 != name {
        lemma_group_position(groups.drop_first(), name);
        assert forall|g: int| 0 < g < groups.len() implies groups[g] == groups.drop_first()[g
            - 1] by {}
    }
}

fn find_group(groups: &Vec<(String, Vec<usize>)>, name: &String) -> (p: usize)
    ensures
        p == group_position(groups_view(groups@), name@),
{
    let ghost gv = groups_view(groups@);
    let mut k: usize = 0;
    assert(gv.skip(0) =~= gv);
    while k < groups.len()
        invariant
            gv == groups_view(groups@),
            k <= groups@.len(),
            group_position(gv, name@) == k + group_position(gv.skip(k as int), name@),
        decreases groups@.len() - k,
    {
        assert(gv.skip(k as int)[0] == gv[k as int]);
        if same_text(groups[k].0.as_str(), name.as_str()) {
            return k;
        }
        assert(gv.skip(k as int).drop_first() =~= gv.skip(k + 1));
        k = k + 1;
    }
    k
}

/// The permission definitions grouped by module: for each module, in order of first
/// appearance, the positions of its definitions; no groups while the definitions have not
/// arrived or when they failed.
pub fn compute_modules(definitions: &Option<Result<Json, String>>) -> (r: Vec<(String, Vec<usize>)>)
    ensures
        groups_view(r@) == grouped(module_names(definitions_of(*definitions))),
{
    let mut modules: Vec<(String, Vec<usize>)> = Vec::new();
    let defs = match definitions {
        Some(Ok(d)) => d,
        _ => {
            assert(groups_view(modules@) =~= grouped(module_names(definitions_of(*definitions))));
            return modules;
        },
    };
    match defs.get("definitions") {
        Some(Json::Array(arr)) => {
            let ghost names = module_names(items_view(arr@));
            proof {
                lemma_items_view(arr@);
            }
            let mut i: usize = 0;
            assert(names.take(0) =~= Seq::<Seq<char>>::empty());
            assert(groups_view(modules@) =~= grouped(names.take(0)));
            while i < arr.len()
                invariant
                    names == module_names(items_view(arr@)),
                    items_view(arr@) == arr@.map_values(|j: Json| j@),
                    i <= arr@.len(),
                    groups_view(modules@) == grouped(names.take(i as int)),
                decreases arr@.len() - i,
            {
                let module = text_field(&arr[i], "module");
                let ghost before = groups_view(modules@);
                let p = find_group(&modules, &module);
                proof {
                    lemma_group_position(before, module@);
                    assert(names.take(i + 1).drop_last() =~= names.take(i as int));
                    assert(names.take(i + 1).last() == module@);
                }
                if p < modules.len() {
                    let ghost old_modules = modules@;
                    let mut g = modules.remove(p);
                    let ghost old_g = g;
                    g.1.push(i);
                    modules.insert(p, g);
                    assert(modules@ =~= old_modules.update(p as int, g));
                    assert(g.1@.map_values(|x: usize| x as int) =~= old_g.1@.map_values(
                        |x: usize| x as int,
                    ).push(i as int));
                    assert(groups_view(modules@) =~~= before.update(
                        p as int,
                        (before[p as int].0, before[p as int].1.push(i as int)),
                    ));
                } else {
                    let mut idx: Vec<usize> = Vec::new();
                    idx.push(i);
                    modules.push((module, idx));
                    assert(idx@.map_values(|x: usize| x as int) =~= seq![i as int]);
                    assert(groups_view(modules@) =~~= before.push((module@, seq![i as int])));
                }
                i = i + 1;
            }
            assert(names.take(arr@.len() as int) =~= names);
        },
        _ => {
            assert(groups_view(modules@) =~= grouped(module_names(definitions_of(*definitions))));
        },
    }
    modules
}

/// Whether index `i` is in one of the groups.
pub open spec fn in_some_group(groups: Seq<(Seq<char>, Seq<int>)>, i: int) -> bool {
    exists|g: int, k: int|
        0 <= g < groups.len() && 0 <= k < groups[g].1.len() && #[trigger] groups[g].1[k] == i
}

/// Whether `groups` groups the indices of `names` by name: the group names are distinct,
/// each group is non-empty, holds only indices of its name, in increasing order, every
/// index is in a group, and the groups come in the order of their first index.
pub open spec fn is_grouping(names: Seq<Seq<char>>, groups: Seq<(Seq<char>, Seq<int>)>) -> bool {
    &&& forall|a: int, b: int|
        0 <= a < b < groups.len() ==> (#[trigger] groups[a]).0 != (#[trigger] groups[b]).0
    &&& forall|g: int| 0 <= g < groups.len() ==> (#[trigger] groups[g]).1.len() > 0
    &&& forall|g: int, k: int|
        0 <= g < groups.len() && 0 <= k < groups[g].1.len() ==> 0 <= #[trigger] groups[g].1[k]
            < names.len() && names[groups[g].1[k]] == groups[g].0
    &&& forall|g: int, k1: int, k2: int|
        0 <= g < groups.len() && 0 <= k1 < k2 < groups[g].1.len() ==> #[trigger] groups[g].1[k1]
            < #[trigger] groups[g].1[k2]
    &&& forall|i: int| 0 <= i < names.len() ==> #[trigger] in_some_group(groups, i)
    &&& forall|a: int, b: int|
        0 <= a < b < groups.len() ==> (#[trigger] groups[a]).1[0] < (#[trigger] groups[b]).1[0]
}

/// Grouping the permission definitions by module partitions them: every definition is in
/// exactly the group of its module, the group names are distinct, and groups and the
/// positions in them keep the order of the definitions.
pub proof fn module_groups_partition(names: Seq<Seq<char>>)
    ensures
        is_grouping(names, grouped(names)),
    decreases names.len(),
{
    if names.len() > 0 {
        let prev = names.drop_last();
        module_groups_partition(prev);
        let gs = grouped(prev);
        let x = names.last();
        let n = prev.len() as int;
        lemma_group_position(gs, x);
        let p = group_position(gs, x);
        let g2 = grouped(names);
        assert forall|i: int| 0 <= i < n implies names[i] == prev[i] by {}
        if p < gs.len() {
            assert(g2 == gs.update(p, (gs[p].0, gs[p].1.push(n))));
            assert forall|g: int, k: int|
                0 <= g < g2.len() && 0 <= k < g2[g].1.len() implies 0 <= #[trigger] g2[g].1[k]
                    < names.len() && names[g2[g].1[k]] == g2[g].0 by {
                if g != p || k < gs[p].1.len() {
                    assert(g2[g].1[k] == gs[g].1[k]);
                }
            }
            assert forall|g: int, k1: int, k2: int|
                0 <= g < g2.len() && 0 <= k1 < k2 < g2[g].1.len() implies #[trigger] g2[g].1[k1]
                    < #[trigger] g2[g].1[k2] by {
                if g == p && k2 == gs[p].1.len() {
                    assert(g2[g].1[k1] == gs[g].1[k1]);
                } else {
                    assert(g2[g].1[k1] == gs[g].1[k1]);
                    assert(g2[g].1[k2] == gs[g].1[k2]);
                }
            }
            assert forall|i: int| 0 <= i < names.len() implies #[trigger] in_some_group(g2, i) by {
                if i < n {
                    assert(in_some_group(gs, i));
                    let (g, k) = choose|g: int, k: int|
                        0 <= g < gs.len() && 0 <= k < gs[g].1.len() && #[trigger] gs[g].1[k] == i;
                    assert(g2[g].1[k] == i);
                } else {
                    assert(g2[p].1[gs[p].1.len() as int] == i);
                }
            }
            assert forall|a: int, b: int| 0 <= a < b < g2.len() implies (#[trigger] g2[a]).1[0]
                < (#[trigger] g2[b]).1[0] by {
                assert(g2[a].1[0] == gs[a].1[0]);
                assert(g2[b].1[0] == gs[b].1[0]);
            }
            assert forall|a: int, b: int| 0 <= a < b < g2.len() implies (#[trigger] g2[a]).0
                != (#[trigger] g2[b]).0 by {
                assert(g2[a].0 == gs[a].0);
                assert(g2[b].0 == gs[b].0);
            }
        } else {
            assert(g2 == gs.push((x, seq![n])));
            assert forall|g: int, k: int|
                0 <= g < g2.len() && 0 <= k < g2[g].1.len() implies 0 <= #[trigger] g2[g].1[k]
                    < names.len() && names[g2[g].1[k]] == g2[g].0 by {
                if g < gs.len() {
                    assert(g2[g].1[k] == gs[g].1[k]);
                }
            }
            assert forall|g: int, k1: int, k2: int|
                0 <= g < g2.len() && 0 <= k1 < k2 < g2[g].1.len() implies #[trigger] g2[g].1[k1]
                    < #[trigger] g2[g].1[k2] by {
                assert(g2[g].1[k1] == gs[g].1[k1]);
                assert(g2[g].1[k2] == gs[g].1[k2]);
            }
            assert forall|i: int| 0 <= i < names.len() implies #[trigger] in_some_group(g2, i) by {
                if i < n {
                    assert(in_some_group(gs, i));
                    let (g, k) = choose|g: int, k: int|
                        0 <= g < gs.len() && 0 <= k < gs[g].1.len() && #[trigger] gs[g].1[k] == i;
                    assert(g2[g].1[k] == i);
                } else {
                    assert(g2[gs.len() as int].1[0] == i);
                }
            }
            assert forall|a: int, b: int| 0 <= a < b < g2.len() implies (#[trigger] g2[a]).1[0]
                < (#[trigger] g2[b]).1[0] by {
                if b < gs.len() {
                    assert(g2[a].1[0] == gs[a].1[0]);
                    assert(g2[b].1[0] == gs[b].1[0]);
                } else {
                    assert(g2[a].1[0] == gs[a].1[0]);
                    assert(gs[a].1[0] < n);
                }
            }
            assert forall|a: int, b: int| 0 <= a < b < g2.len() implies (#[trigger] g2[a]).0
                != (#[trigger] g2[b]).0 by {
                assert(g2[a].0 == gs[a].0);
            }
        }
    }
}

/// One editable row of a role's permissions.
pub struct PermissionRow {
    pub permission_id: String,
    pub module: Json,
    pub resource: Json,
    pub can_create: bool,
    pub can_read: bool,
    pub can_update: bool,
    pub can_delete: bool,
}

/// The last of the role's current permissions whose `permission_id` is `pid` (later ones
/// replace earlier ones when they are collected by id).
pub open spec fn last_with_id(existing: Seq<JsonView>, pid: Seq<char>) -> Option<JsonView>
    decreases existing.len(),
{
    if existing.len() == 0 {
        None
    } else if text_or_empty(existing.last(), "permission_id"@) == pid {
        Some(existing.last())
    } else {
        last_with_id(existing.drop_last(), pid)
    }
}

/// The flag `key` of the current permission, or `default` when there is none or it has
/// no such boolean.
pub open spec fn flag_or(current: Option<JsonView>, key: Seq<char>, default: bool) -> bool {
    match current {
        Some(p) => match flag_under(p, key) {
            Some(b) => b,
            None => default,
        },
        None => default,
    }
}

/// The member `key` of `v`, or `null`.
pub open spec fn member_or_null(v: JsonView, key: Seq<char>) -> JsonView {
    match field_of(v, key) {
        Some(x) => x,
        None => JsonView::Null,
    }
}

/// Whether `row` is the row for definition `d` given the role's current permissions: it
/// has the definition's id, module and resource, and the flags of the current permission
/// with that id, by default only reading.
pub open spec fn row_for(row: PermissionRow, d: JsonView, existing: Seq<JsonView>) -> bool {
    let pid = text_or_empty(d, "id"@);
    let current = last_with_id(existing, pid);
    &&& row.permission_id@ == pid
    &&& row.module@ == member_or_null(d, "module"@)
    &&& row.resource@ == member_or_null(d, "resource"@)
    &&& row.can_create == flag_or(current, "can_create"@, false)
    &&& row.can_read == flag_or(current, "can_read"@, true)
    &&& row.can_update == flag_or(current, "can_update"@, false)
    &&& row.can_delete == flag_or(current, "can_delete"@, false)
}

fn flag_or_default(current: Option<&Json>, key: &str, default: bool) -> (r: bool)
    ensures
        r == flag_or(
            match current {
                Some(p) => Some(p@),
                None => None,
            },
            key@,
            default,
        ),
{
    match current {
        Some(p) => match crate::json::flag_field(p, key) {
            Some(b) => b,
            None => default,
        },
        None => default,
    }
}

fn member_copy(v: &Json, key: &str) -> (r: Json)
    ensures
        r@ == member_or_null(v@, key@),
{
    match v.get(key) {
        Some(x) => x.duplicate(),
        None => Json::Null,
    }
}

/// The editable permission rows of a role: one per permission definition, in order, with
/// the flags of the role's current permission of the same id; none while the definitions
/// have not arrived or when they failed.
pub fn build_perms_state(definitions: &Option<Result<Json, String>>, existing_perms: &[Json]) -> (r:
    Vec<PermissionRow>)
    ensures
        r@.len() == definitions_of(*definitions).len(),
        forall|i: int|
            0 <= i < r@.len() ==> row_for(
                #[trigger] r@[i],
                definitions_of(*definitions)[i],
                items_view(existing_perms@),
            ),
{
    let mut rows: Vec<PermissionRow> = Vec::new();
    let defs = match definitions {
        Some(Ok(d)) => d,
        _ => {
            return rows;
        },
    };
    let ghost ex = items_view(existing_perms@);
    proof {
        lemma_items_view(existing_perms@);
    }
    match defs.get("definitions") {
        Some(Json::Array(arr)) => {
            proof {
                lemma_items_view(arr@);
            }
            let mut i: usize = 0;
            while i < arr.len()
                invariant
                    ex == items_view(existing_perms@),
                    ex == existing_perms@.map_values(|j: Json| j@),
                    items_view(arr@) == arr@.map_values(|j: Json| j@),
                    i <= arr@.len(),
                    rows@.len() == i,
                    forall|k: int| 0 <= k < i ==> row_for(#[trigger] rows@[k], arr@[k]@, ex),
                decreases arr@.len() - i,
            {
                let d = &arr[i];
                let pid = text_field(d, "id");
                let mut j: usize = existing_perms.len();
                assert(ex.take(j as int) =~= ex);
                while j > 0 && !same_text(text_field(&existing_perms[j - 1], "permission_id").as_str(), pid.as_str())
                    invariant
                        ex == existing_perms@.map_values(|j: Json| j@),
                        j <= existing_perms@.len(),
                        last_with_id(ex, pid@) == last_with_id(ex.take(j as int), pid@),
                    decreases j,
                {
                    assert(ex.take(j as int).drop_last() =~= ex.take(j - 1));
                    j = j - 1;
                }
                let current: Option<&Json> = if j > 0 {
                    assert(ex.take(j as int).last() == existing_perms@[j - 1]@);
                    Some(&existing_perms[j - 1])
                } else {
                    None
                };
                let row = PermissionRow {
                    permission_id: pid,
                    module: member_copy(d, "module"),
                    resource: member_copy(d, "resource"),
                    can_create: flag_or_default(current, "can_create", false),
                    can_read: flag_or_default(current, "can_read", true),
                    can_update: flag_or_default(current, "can_update", false),
                    can_delete: flag_or_default(current, "can_delete", false),
                };
                rows.push(row);
                i = i + 1;
            }
        },
        _ => {},
    }
    rows
}

/// The texts among `items`, in order (`filter_map(as_str)`).
pub open spec fn text_items(items: Seq<JsonView>) -> Seq<Seq<char>>
    decreases items.len(),
{
    if items.len() == 0 {
        Seq::<Seq<char>>::empty()
    } else {
        let front = text_items(items.drop_last());
        match items.last() {
            JsonView::Str(t) => front.push(t),
            _ => front,
        }
    }
}

/// The ids of the roles a user holds: the texts of the answer's `role_ids` array.
pub open spec fn assigned_ids(user_roles: JsonView) -> Seq<Seq<char>> {
    match items_under(user_roles, "role_ids"@) {
        Some(xs) => text_items(xs),
        None => Seq::<Seq<char>>::empty(),
    }
}

/// The ids of the roles a user holds.
pub fn assigned_role_ids(user_roles: &Json) -> (r: Vec<String>)
    ensures
        r@.map_values(|s: String| s@) == assigned_ids(user_roles@),
{
    let mut out: Vec<String> = Vec::new();
    match user_roles.get("role_ids") {
        Some(Json::Array(xs)) => {
            let ghost iv = items_view(xs@);
            proof {
                lemma_items_view(xs@);
            }
            let mut i: usize = 0;
            while i < xs.len()
                invariant
                    iv == items_view(xs@),
                    iv == xs@.map_values(|j: Json| j@),
                    i <= xs@.len(),
                    out@.map_values(|s: String| s@) == text_items(iv.take(i as int)),
                decreases xs@.len() - i,
            {
                assert(iv.take(i + 1).drop_last() =~= iv.take(i as int));
                assert(iv.take(i + 1).last() == xs@[i as int]@);
                let ghost before = out@;
                match &xs[i] {
                    Json::Str(t) => {
                        out.push(t.clone());
                        assert(out@.map_values(|s: String| s@) =~= before.map_values(|s: String| s@).push(
                            t@,
                        ));
                    },
                    _ => {},
                }
                i = i + 1;
            }
            assert(iv.take(xs@.len() as int) =~= iv);
        },
        _ => {
            assert(out@.map_values(|s: String| s@) =~= Seq::<Seq<char>>::empty());
        },
    }
    out
}

/// A role in the assignment panel: its id, its name, and whether the user holds it.
pub struct RoleAssignment {
    pub id: String,
    pub name: String,
    pub has_role: bool,
}

/// Whether `ids` holds `id`.
fn holds(ids: &Vec<String>, id: &String) -> (r: bool)
    ensures
        r == ids@.map_values(|s: String| s@).contains(id@),
{
    let ghost v = ids@.map_values(|s: String| s@);
    let mut i: usize = 0;
    while i < ids.len()
        invariant
            v == ids@.map_values(|s: String| s@),
            i <= ids@.len(),
            forall|k: int| 0 <= k < i ==> v[k] != id@,
        decreases ids@.len() - i,
    {
        if same_text(ids[i].as_str(), id.as_str()) {
            assert(v[i as int] == id@);
            return true;
        }
        i = i + 1;
    }
    assert(!v.contains(id@)) by {
        if v.contains(id@) {
            let k = choose|k: int| 0 <= k < v.len() && v[k] == id@;
        }
    }
    false
}

/// The rows of the assignment panel: for each role, in order, its id and name (empty when
/// missing) and whether the user holds it.
pub fn role_assignments(user_roles: &Json, roles: &Vec<Json>) -> (r: Vec<RoleAssignment>)
    ensures
        r@.len() == roles@.len(),
        forall|i: int|
            0 <= i < r@.len() ==> (#[trigger] r@[i]).id@ == text_or_empty(roles@[i]@, "id"@)
                && r@[i].name@ == text_or_empty(roles@[i]@, "name"@) && r@[i].has_role
                == assigned_ids(user_roles@).contains(text_or_empty(roles@[i]@, "id"@)),
{
    let assigned = assigned_role_ids(user_roles);
    let mut out: Vec<RoleAssignment> = Vec::new();
    let mut i: usize = 0;
    while i < roles.len()
        invariant
            assigned@.map_values(|s: String| s@) == assigned_ids(user_roles@),
            i <= roles@.len(),
            out@.len() == i,
            forall|k: int|
                0 <= k < i ==> (#[trigger] out@[k]).id@ == text_or_empty(roles@[k]@, "id"@)
                    && out@[k].name@ == text_or_empty(roles@[k]@, "name"@) && out@[k].has_role
                    == assigned_ids(user_roles@).contains(text_or_empty(roles@[k]@, "id"@)),
        decreases roles@.len() - i,
    {
        let id = text_field(&roles[i], "id");
        let has_role = holds(&assigned, &id);
        out.push(RoleAssignment { id, name: text_field(&roles[i], "name"), has_role });
        i = i + 1;
    }
    out
}

/// Whether the signed-in user may assign roles: the permissions answer has arrived and
/// says so (`can_assign_roles`, false when missing).
pub fn can_assign_roles(permissions: &Option<Result<Json, String>>) -> (r: bool)
    ensures
        r == (match permissions {
            Some(Ok(p)) => flag_under(p@, "can_assign_roles"@) == Some(true),
            _ => false,
        }),
{
    match permissions {
        Some(Ok(p)) => match p.get("can_assign_roles") {
            Some(Json::Bool(b)) => *b,
            _ => false,
        },
        _ => false,
    }
}

/// The check boxes of a permission row.
pub enum PermissionFlag {
    Read,
    Create,
    Update,
    Delete,
}

/// The row after its `flag` box was set to `value`: only that flag changes, except that
/// granting creation grants reading as well.
pub open spec fn toggled(old_row: PermissionRow, new_row: PermissionRow, flag: PermissionFlag, value: bool) -> bool {
    &&& new_row.permission_id == old_row.permission_id
    &&& new_row.module == old_row.module
    &&& new_row.resource == old_row.resource
    &&& new_row.can_read == match flag {
        PermissionFlag::Read => value,
        PermissionFlag::Create => if value {
            true
        } else {
            old_row.can_read
        },
        _ => old_row.can_read,
    }
    &&& new_row.can_create == if flag is Create {
        value
    } else {
        old_row.can_create
    }
    &&& new_row.can_update == if flag is Update {
        value
    } else {
        old_row.can_update
    }
    &&& new_row.can_delete == if flag is Delete {
        value
    } else {
        old_row.can_delete
    }
}

/// Sets the `flag` box of row `idx` to `value`; the other rows stay as they are.
pub fn toggle_permission(rows: &mut Vec<PermissionRow>, idx: usize, flag: PermissionFlag, value: bool)
    requires
        idx < old(rows)@.len(),
    ensures
        final(rows)@.len() == old(rows)@.len(),
        forall|k: int| 0 <= k < old(rows)@.len() && k != idx ==> #[trigger] final(rows)@[k] == old(rows)@[k],
        toggled(old(rows)@[idx as int], final(rows)@[idx as int], flag, value),
{
    let mut row = rows.remove(idx);
    match flag {
        PermissionFlag::Read => {
            row.can_read = value;
        },
        PermissionFlag::Create => {
            row.can_create = value;
            if value {
                row.can_read = true;
            }
        },
        PermissionFlag::Update => {
            row.can_update = value;
        },
        PermissionFlag::Delete => {
            row.can_delete = value;
        },
    }
    rows.insert(idx, row);
}

/// Whoever may create a resource may read it: once the creation box of a row is ticked,
/// its reading box is ticked too, whatever it was.
pub proof fn creating_grants_reading(old_row: PermissionRow, new_row: PermissionRow)
    requires
        toggled(old_row, new_row, PermissionFlag::Create, true),
    ensures
        new_row.can_create && new_row.can_read,
{
}

/// The object that saves one permission row.
pub open spec fn row_json(row: PermissionRow) -> JsonView {
    JsonView::Object(
        seq![
            ("permission_id"@, JsonView::Str(row.permission_id@)),
            ("module"@, row.module@),
            ("resource"@, row.resource@),
            ("can_create"@, JsonView::Bool(row.can_create)),
            ("can_read"@, JsonView::Bool(row.can_read)),
            ("can_update"@, JsonView::Bool(row.can_update)),
            ("can_delete"@, JsonView::Bool(row.can_delete)),
        ],
    )
}

/// A saved permission row reads back as the row: its permission id, module and resource,
/// and each of its four flags under its own key, creating under `can_create`, reading
/// under `can_read`, updating under `can_update` and deleting under `can_delete`.
pub proof fn row_json_reads_back(row: PermissionRow)
    ensures
        field_of(row_json(row), "permission_id"@) == Some(JsonView::Str(row.permission_id@)),
        field_of(row_json(row), "module"@) == Some(row.module@),
        field_of(row_json(row), "resource"@) == Some(row.resource@),
        field_of(row_json(row), "can_create"@) == Some(JsonView::Bool(row.can_create)),
        field_of(row_json(row), "can_read"@) == Some(JsonView::Bool(row.can_read)),
        field_of(row_json(row), "can_update"@) == Some(JsonView::Bool(row.can_update)),
        field_of(row_json(row), "can_delete"@) == Some(JsonView::Bool(row.can_delete)),
{
    reveal_strlit("permission_id");
    reveal_strlit("module");
    reveal_strlit("resource");
    reveal_strlit("can_create");
    reveal_strlit("can_read");
    reveal_strlit("can_update");
    reveal_strlit("can_delete");
    let ms = match row_json(row) {
        JsonView::Object(m) => m,
        _ => Seq::empty(),
    };
    assert forall|i: int, j: int| 0 <= j < i < ms.len() implies (#[trigger] ms[j]).0 != (#[trigger] ms[i]).0 by {
        if ms[j].0.len() == ms[i].0.len() {
            assert(ms[j].0[0] != ms[i].0[0] || ms[j].0[4] != ms[i].0[4]);
        }
    }
    crate::json::lemma_member_at(ms, 0);
    crate::json::lemma_member_at(ms, 1);
    crate::json::lemma_member_at(ms, 2);
    crate::json::lemma_member_at(ms, 3);
    crate::json::lemma_member_at(ms, 4);
    crate::json::lemma_member_at(ms, 5);
    crate::json::lemma_member_at(ms, 6);
}

/// The body that saves a role's permissions: `{"permissions": [...]}` with each row.
pub fn permissions_body(rows: &Vec<PermissionRow>) -> (r: Json)
    ensures
        r@ == JsonView::Object(
            seq![("permissions"@, JsonView::Array(rows@.map_values(|row: PermissionRow| row_json(row))))],
        ),
        forall|i: int| 0 <= i < rows@.len() ==> {
            let item = row_json(#[trigger] rows@[i]);
            &&& field_of(item, "permission_id"@) == Some(JsonView::Str(rows@[i].permission_id@))
            &&& field_of(item, "can_create"@) == Some(JsonView::Bool(rows@[i].can_create))
            &&& field_of(item, "can_read"@) == Some(JsonView::Bool(rows@[i].can_read))
            &&& field_of(item, "can_update"@) == Some(JsonView::Bool(rows@[i].can_update))
            &&& field_of(item, "can_delete"@) == Some(JsonView::Bool(rows@[i].can_delete))
        },
{
    proof {
        assert forall|i: int| 0 <= i < rows@.len() implies {
            let item = row_json(#[trigger] rows@[i]);
            &&& field_of(item, "permission_id"@) == Some(JsonView::Str(rows@[i].permission_id@))
            &&& field_of(item, "can_create"@) == Some(JsonView::Bool(rows@[i].can_create))
            &&& field_of(item, "can_read"@) == Some(JsonView::Bool(rows@[i].can_read))
            &&& field_of(item, "can_update"@) == Some(JsonView::Bool(rows@[i].can_update))
            &&& field_of(item, "can_delete"@) == Some(JsonView::Bool(rows@[i].can_delete))
        } by {
            row_json_reads_back(rows@[i]);
        }
    }
    let mut items: Vec<Json> = Vec::new();
    let mut i: usize = 0;
    while i < rows.len()
        invariant
            i <= rows@.len(),
            items@.len() == i,
            forall|k: int| 0 <= k < i ==> (#[trigger] items@[k])@ == row_json(rows@[k]),
        decreases rows@.len() - i,
    {
        let row = &rows[i];
        let mut ms: Vec<(String, Json)> = Vec::new();
        ms.push((String::from_str("permission_id"), Json::Str(row.permission_id.clone())));
        ms.push((String::from_str("module"), row.module.duplicate()));
        ms.push((String::from_str("resource"), row.resource.duplicate()));
        ms.push((String::from_str("can_create"), Json::Bool(row.can_create)));
        ms.push((String::from_str("can_read"), Json::Bool(row.can_read)));
        ms.push((String::from_str("can_update"), Json::Bool(row.can_update)));
        ms.push((String::from_str("can_delete"), Json::Bool(row.can_delete)));
        let ghost mv = ms@;
        proof {
            crate::json::lemma_members_view(mv);
        }
        assert(crate::json::members_view(mv) =~~= (match row_json(rows@[i as int]) {
            JsonView::Object(m) => m,
            _ => Seq::empty(),
        }));
        items.push(Json::Object(ms));
        i = i + 1;
    }
    proof {
        lemma_items_view(items@);
        assert(items_view(items@) =~= rows@.map_values(|row: PermissionRow| row_json(row)));
    }
    let mut body: Vec<(String, Json)> = Vec::new();
    body.push((String::from_str("permissions"), Json::Array(items)));
    let ghost bv = body@;
    proof {
        crate::json::lemma_members_view(bv);
    }
    assert(crate::json::members_view(bv) =~~= seq![
        ("permissions"@, JsonView::Array(rows@.map_values(|row: PermissionRow| row_json(row)))),
    ]);
    Json::Object(body)
}

/// Whether a check box reports itself ticked: its value is `true` or `on`.
pub fn checkbox_ticked(value: &str) -> (r: bool)
    ensures
        r == (value@ == "true"@ || value@ == "on"@),
{
    same_text(value, "true") || same_text(value, "on")
}

/// The body that creates a role named `name`, with an empty description.
pub fn new_role_body(name: &str) -> (r: Json)
    ensures
        r@ == JsonView::Object(seq![("name"@, JsonView::Str(name@)), ("description"@, JsonView::Str(""@))]),
{
    let mut ms: Vec<(String, Json)> = Vec::new();
    ms.push((String::from_str("name"), Json::Str(String::from_str(name))));
    ms.push((String::from_str("description"), Json::Str(String::from_str(""))));
    let ghost mv = ms@;
    proof {
        crate::json::lemma_members_view(mv);
    }
    assert(crate::json::members_view(mv) =~~= seq![
        ("name"@, JsonView::Str(name@)),
        ("description"@, JsonView::Str(""@)),
    ]);
    Json::Object(ms)
}

/// The position of the first role of `roles` whose id is `id`, the role shown in the
/// permission tree.
pub open spec fn role_position(roles: Seq<JsonView>, id: Seq<char>) -> Option<int>
    decreases roles.len(),
{
    if roles.len() == 0 {
        None
    } else if field_of(roles[0], "id"@) == Some(JsonView::Str(id)) {
        Some(0)
    } else {
        match role_position(roles.drop_first(), id) {
            Some(i) => Some(i + 1),
            None => None,
        }
    }
}

/// The position of the selected role among `roles`.
pub fn find_role(roles: &Vec<Json>, id: &str) -> (r: Option<usize>)
    ensures
        match r {
            Some(i) => role_position(items_view(roles@), id@) == Some(i as int),
            None => role_position(items_view(roles@), id@) is None,
        },
{
    let ghost rv = items_view(roles@);
    proof {
        lemma_items_view(roles@);
    }
    let mut i: usize = 0;
    assert(rv.skip(0) =~= rv);
    while i < roles.len()
        invariant
            rv == items_view(roles@),
            rv == roles@.map_values(|j: Json| j@),
            i <= roles@.len(),
            role_position(rv, id@) == match role_position(rv.skip(i as int), id@) {
                Some(k) => Some(k + i),
                None => None,
            },
        decreases roles@.len() - i,
    {
        assert(rv.skip(i as int)[0] == roles@[i as int]@);
        match roles[i].get("id") {
            Some(Json::Str(s)) => {
                if same_text(s.as_str(), id) {
                    return Some(i);
                }
            },
            _ => {},
        }
        assert(rv.skip(i as int).drop_first() =~= rv.skip(i + 1));
        i = i + 1;
    }
    None
}

/// How the user list shows a school id: its first eight characters and an ellipsis, or a
/// dash for a user without a school.
pub open spec fn school_short_text(sid: Seq<char>) -> Seq<char> {
    if sid.len() == 0 {
        "\u{2014}"@
    } else {
        sid.take(if sid.len() < 8 {
            sid.len() as int
        } else {
            8
        }) + "\u{2026}"@
    }
}

/// How the user list shows school id `sid`.
pub fn school_short(sid: &str) -> (r: String)
    ensures
        r@ == school_short_text(sid@),
        sid@.len() == 0 ==> r@ == "\u{2014}"@,
        0 < sid@.len() <= 8 ==> r@ == sid@ + "\u{2026}"@,
        sid@.len() > 8 ==> r@ == sid@.take(8) + "\u{2026}"@,
{
    let cs = crate::text::chars_of(sid);
    if cs.len() == 0 {
        return String::from_str("\u{2014}");
    }
    let n: usize = if cs.len() < 8 {
        cs.len()
    } else {
        8
    };
    let head = crate::text::slice_chars(&cs, 0, n);
    let mut r = crate::text::string_of(head.as_slice());
    r.append("\u{2026}");
    proof {
        assert(head@ =~= sid@.take(n as int));
    }
    r
}

/// A row of the user list.
pub struct UserRow {
    pub id: String,
    pub name: String,
    pub email: String,
    pub rut: String,
    pub role: String,
    pub school: String,
    pub active: bool,
    pub row_class: String,
}

/// The row of `user`: its texts (empty when missing), its school shortened, whether it
/// is active (it is unless it says otherwise), and `selected` as its class when it is the
/// selected user.
pub fn user_row(user: &Json, is_selected: bool) -> (r: UserRow)
    ensures
        r.id@ == text_or_empty(user@, "id"@),
        r.name@ == text_or_empty(user@, "name"@),
        r.email@ == text_or_empty(user@, "email"@),
        r.rut@ == text_or_empty(user@, "rut"@),
        r.role@ == text_or_empty(user@, "role"@),
        r.school@ == school_short_text(text_or_empty(user@, "school_id"@)),
        r.active == (flag_under(user@, "active"@) != Some(false)),
        r.row_class@ == (if is_selected {
            "selected"@
        } else {
            ""@
        }),
{
    let sid = text_field(user, "school_id");
    UserRow {
        id: text_field(user, "id"),
        name: text_field(user, "name"),
        email: text_field(user, "email"),
        rut: text_field(user, "rut"),
        role: text_field(user, "role"),
        school: school_short(sid.as_str()),
        active: match user.get("active") {
            Some(Json::Bool(b)) => *b,
            _ => true,
        },
        row_class: if is_selected {
            String::from_str("selected")
        } else {
            String::from_str("")
        },
    }
}

} // verus!
