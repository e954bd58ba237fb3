//! A JSON value as the gateway and the web client read it: the upstream services answer in
//! JSON, and the logic looks up fields, strings, arrays and booleans in it.
use vstd::prelude::*;
use vstd::string::StringExecFns;
use crate::text::{all_digits, decimal_value, lemma_decimal_prefix, same_text};

verus! {

/// A JSON value. A number is kept as its decimal text; an object keeps its members in
/// order, and a lookup finds the first member with the key.
pub enum Json {
    Null,
    Bool(bool),
    Number(String),
    Str(String),
    Array(Vec<Json>),
    Object(Vec<(String, Json)>),
}

/// The mathematical value of a JSON document: numbers and strings as their texts,
/// arrays and objects as sequences.
pub enum JsonView {
    Null,
    Bool(bool),
    Number(Seq<char>),
    Str(Seq<char>),
    Array(Seq<JsonView>),
    Object(Seq<(Seq<char>, JsonView)>),
}

/// The views of a sequence of JSON values.
pub open spec fn items_view(items: Seq<Json>) -> Seq<JsonView>
    decreases items,
{
    if items.len() == 0 {
        Seq::<JsonView>::empty()
    } else {
        seq![json_view(items[0])] + items_view(items.drop_first())
    }
}

/// The views of a sequence of object members.
pub open spec fn members_view(members: Seq<(String, Json)>) -> Seq<(Seq<char>, JsonView)>
    decreases members,
{
    if members.len() == 0 {
        Seq::<(Seq<char>, JsonView)>::empty()
    } else {
        seq![(members[0].0@, json_view(members[0].1))] + members_view(members.drop_first())
    }
}

/// The mathematical value of `j`.
pub open spec fn json_view(j: Json) -> JsonView
    decreases j,
{
    match j {
        Json::Null => JsonView::Null,
        Json::Bool(b) => JsonView::Bool(b),
        Json::Number(n) => JsonView::Number(n@),
        Json::Str(s) => JsonView::Str(s@),
        Json::Array(items) => JsonView::Array(items_view(items@)),
        Json::Object(members) => JsonView::Object(members_view(members@)),
    }
}

impl View for Json {
    type V = JsonView;

    open spec fn view(&self) -> JsonView {
        json_view(*self)
    }
}

/// The views of `items`, element by element.
pub proof fn lemma_items_view(items: Seq<Json>)
    ensures
        items_view(items) == items.map_values(|j: Json| json_view(j)),
    decreases items.len(),
{
    if items.len() > 0 {
        lemma_items_view(items.drop_first());
        assert(items_view(items) =~= items.map_values(|j: Json| json_view(j)));
    } else {
        assert(items_view(items) =~= items.map_values(|j: Json| json_view(j)));
    }
}

/// The views of `members`, member by member.
pub proof fn lemma_members_view(members: Seq<(String, Json)>)
    ensures
        members_view(members) == members.map_values(
            |m: (String, Json)| (m.0@, json_view(m.1)),
        ),
    decreases members.len(),
{
    if members.len() > 0 {
        lemma_members_view(members.drop_first());
    }
    assert(members_view(members) =~= members.map_values(
        |m: (String, Json)| (m.0@, json_view(m.1)),
    ));
}

/// The value of the first member of `members` whose key is `key`.
pub open spec fn member(members: Seq<(Seq<char>, JsonView)>, key: Seq<char>) -> Option<JsonView>
    decreases members.len(),
{
    if members.len() == 0 {
        None
    } else if members[0].0 == key {
        Some(members[0].1)
    } else {
        member(members.drop_first(), key)
    }
}

/// The value under `key` when `v` is an object that has it (`Value::get`; indexing gives
/// `Null` where this gives `None`).
pub open spec fn field_of(v: JsonView, key: Seq<char>) -> Option<JsonView> {
    match v {
        JsonView::Object(members) => member(members, key),
        _ => None,
    }
}

/// `v[key].as_str().unwrap_or("")`: the text under `key`, or the empty text when the
/// member is missing or not a string.
pub open spec fn text_or_empty(v: JsonView, key: Seq<char>) -> Seq<char> {
    match field_of(v, key) {
        Some(JsonView::Str(s)) => s,
        _ => Seq::<char>::empty(),
    }
}

/// `v[key].as_array()`: the elements under `key` when the member is an array.
pub open spec fn items_under(v: JsonView, key: Seq<char>) -> Option<Seq<JsonView>> {
    match field_of(v, key) {
        Some(JsonView::Array(items)) => Some(items),
        _ => None,
    }
}

/// `v[key].as_bool()`: the boolean under `key` when the member is one.
pub open spec fn flag_under(v: JsonView, key: Seq<char>) -> Option<bool> {
    match field_of(v, key) {
        Some(JsonView::Bool(b)) => Some(b),
        _ => None,
    }
}

/// The integer that text `t` writes: an optional `-` and at least one ASCII digit.
pub open spec fn integer_text_value(t: Seq<char>) -> Option<int> {
    if t.len() > 0 && t[0] == '-' {
        let ds = t.drop_first();
        if ds.len() > 0 && all_digits(ds) {
            Some(-(decimal_value(ds) as int))
        } else {
            None
        }
    } else if t.len() > 0 && all_digits(t) {
        Some(decimal_value(t) as int)
    } else {
        None
    }
}

/// `Value::as_i64`: the integer of a number that writes one within the range of `i64`.
pub open spec fn number_i64(v: JsonView) -> Option<i64> {
    match v {
        JsonView::Number(t) => match integer_text_value(t) {
            Some(n) => if i64::MIN <= n <= i64::MAX {
                Some(n as i64)
            } else {
                None
            },
            None => None,
        },
        _ => None,
    }
}

/// `Value::as_u64`: the integer of a number that writes one within the range of `u64`.
pub open spec fn number_u64(v: JsonView) -> Option<u64> {
    match v {
        JsonView::Number(t) => match integer_text_value(t) {
            Some(n) => if 0 <= n <= u64::MAX {
                Some(n as u64)
            } else {
                None
            },
            None => None,
        },
        _ => None,
    }
}

/// The natural number that the text `t` writes, when it fits in a `u64`.
fn natural_of_text(t: &String) -> (r: Option<u64>)
    ensures
        r == number_u64(JsonView::Number(t@)),
{
    let cs = crate::text::chars_of(t.as_str());
    if cs.len() == 0 {
        return None;
    }
    if cs[0] == '-' {
        // Only "-0", "-00", ... write a natural number.
        let mut i: usize = 1;
        if cs.len() == 1 {
            return None;
        }
        let ghost ds = t@.drop_first();
        while i < cs.len()
            invariant
                cs@ == t@,
                cs@.len() > 1,
                cs@[0] == '-',
                ds == t@.drop_first(),
                1 <= i <= cs@.len(),
                forall|j: int| 1 <= j < i ==> #[trigger] cs@[j] == '0',
            decreases cs@.len() - i,
        {
            if cs[i] != '0' {
                proof {
                    if all_digits(ds) {
                        lemma_positive_digit(ds, i - 1);
                    }
                }
                return None;
            }
            i = i + 1;
        }
        proof {
            lemma_zero_digits(ds);
        }
        return Some(0);
    }
    let mut k: usize = 0;
    let mut acc: u128 = 0;
    assert(t@.take(0) =~= Seq::<char>::empty());
    while k < cs.len()
        invariant
            cs@ == t@,
            cs@.len() > 0,
            cs@[0] != '-',
            k <= cs@.len(),
            forall|j: int| 0 <= j < k ==> '0' <= #[trigger] cs@[j] && cs@[j] <= '9',
            acc == decimal_value(t@.take(k as int)),
            acc <= 18446744073709551615,
        decreases cs@.len() - k,
    {
        if !('0' <= cs[k] && cs[k] <= '9') {
            assert(!all_digits(t@)) by {
                assert(!('0' <= t@[k as int] && t@[k as int] <= '9'));
            }
            return None;
        }
        assert(t@.take(k + 1).drop_last() =~= t@.take(k as int));
        assert(t@.take(k + 1).last() == t@[k as int]);
        let d: u128 = (cs[k] as u32 - 48) as u128;
        acc = acc * 10 + d;
        k = k + 1;
        if acc > 18446744073709551615 {
            proof {
                if all_digits(t@) {
                    lemma_decimal_prefix(t@, k as int);
                }
            }
            return None;
        }
    }
    assert(t@.take(cs@.len() as int) =~= t@);
    Some(acc as u64)
}

proof fn lemma_zero_digits(ds: Seq<char>)
    requires
        forall|j: int| 0 <= j < ds.len() ==> #[trigger] ds[j] == '0',
    ensures
        all_digits(ds),
        decimal_value(ds) == 0,
    decreases ds.len(),
{
    if ds.len() > 0 {
        lemma_zero_digits(ds.drop_last());
        assert(ds.last() == '0');
    }
}

proof fn lemma_positive_digit(ds: Seq<char>, i: int)
    requires
        all_digits(ds),
        0 <= i < ds.len(),
        ds[i] != '0',
    ensures
        decimal_value(ds) > 0,
    decreases ds.len(),
{
    if i == ds.len() - 1 {
        assert(ds.last() != '0');
    } else {
        lemma_positive_digit(ds.drop_last(), i);
    }
}

/// `v[key].as_i64()`.
pub open spec fn int_under(v: JsonView, key: Seq<char>) -> Option<i64> {
    match field_of(v, key) {
        Some(n) => number_i64(n),
        None => None,
    }
}

/// The integer that the text `t` writes, when it fits in an `i64`.
fn integer_of_text(t: &String) -> (r: Option<i64>)
    ensures
        r == number_i64(JsonView::Number(t@)),
{
    let cs = crate::text::chars_of(t.as_str());
    let negative: bool = cs.len() > 0 && cs[0] == '-';
    let start: usize = if negative { 1 } else { 0 };
    let ghost ds = cs@.skip(start as int);
    assert(negative ==> ds =~= t@.drop_first());
    assert(!negative ==> ds =~= t@);
    if start >= cs.len() {
        return None;
    }
    let mut i: usize = start;
    while i < cs.len()
        invariant
            start <= i <= cs@.len(),
            ds == cs@.skip(start as int),
            cs@ == t@,
            start == (if negative { 1usize } else { 0usize }),
            negative ==> ds == t@.drop_first() && t@[0] == '-',
            !negative ==> ds == t@ && !(t@.len() > 0 && t@[0] == '-'),
            forall|j: int| start <= j < i ==> '0' <= #[trigger] cs@[j] && cs@[j] <= '9',
        decreases cs@.len() - i,
    {
        if !('0' <= cs[i] && cs[i] <= '9') {
            assert(!all_digits(ds)) by {
                assert(ds[i - start] == cs@[i as int]);
            }
            return None;
        }
        i = i + 1;
    }
    assert(all_digits(ds)) by {
        assert forall|j: int| 0 <= j < ds.len() implies '0' <= #[trigger] ds[j] && ds[j] <= '9' by {
            assert(ds[j] == cs@[j + start]);
        }
    }
    // The magnitude may reach 2^63 for a negative number.
    let mut acc: u128 = 0;
    let mut k: usize = start;
    assert(ds.take(0) =~= Seq::<char>::empty());
    while k < cs.len()
        invariant
            start <= k <= cs@.len(),
            ds == cs@.skip(start as int),
            cs@ == t@,
            start == (if negative { 1usize } else { 0usize }),
            negative ==> ds == t@.drop_first() && t@[0] == '-',
            !negative ==> ds == t@ && !(t@.len() > 0 && t@[0] == '-'),
            ds.len() > 0,
            all_digits(ds),
            acc == decimal_value(ds.take(k - start)),
            acc <= 9223372036854775808,
        decreases cs@.len() - k,
    {
        assert(ds.take(k + 1 - start).drop_last() =~= ds.take(k - start));
        assert(ds.take(k + 1 - start).last() == cs@[k as int]);
        assert('0' <= ds[k - start] && ds[k - start] <= '9');
        let d: u128 = (cs[k] as u32 - 48) as u128;
        acc = acc * 10 + d;
        k = k + 1;
        assert(acc == decimal_value(ds.take(k - start)));
        if acc > 9223372036854775808 {
            proof {
                lemma_decimal_prefix(ds, k - start);
            }
            return None;
        }
    }
    assert(ds.take(cs@.len() - start) =~= ds);
    if negative {
        if acc == 9223372036854775808 {
            Some(-9223372036854775807i64 - 1)
        } else {
            Some(0i64 - (acc as i64))
        }
    } else if acc == 9223372036854775808 {
        None
    } else {
        Some(acc as i64)
    }
}

impl Json {
    /// The value under `key` when `self` is an object that has it.
    pub fn get(&self, key: &str) -> (r: Option<&Json>)
        ensures
            match r {
                Some(v) => field_of(self@, key@) == Some(v@),
                None => field_of(self@, key@) is None,
            },
    {
        match self {
            Json::Object(members) => {
                let ghost mv = members_view(members@);
                proof {
                    lemma_members_view(members@);
                }
                let mut i: usize = 0;
                assert(mv.skip(0) =~= mv);
                while i < members.len()
                    invariant
                        *self == Json::Object(*members),
                        mv == members_view(members@),
                        mv == members@.map_values(|m: (String, Json)| (m.0@, json_view(m.1))),
                        i <= members@.len(),
                        member(mv, key@) == member(mv.skip(i as int), key@),
                    decreases members@.len() - i,
                {
                    assert(mv.skip(i as int)[0] == mv[i as int]);
                    if same_text(members[i].0.as_str(), key) {
                        return Some(&members[i].1);
                    }
                    assert(mv.skip(i as int).drop_first() =~= mv.skip(i + 1));
                    i = i + 1;
                }
                None
            },
            _ => None,
        }
    }

    /// The text of `self` when it is a string (`Value::as_str`).
    pub fn as_str(&self) -> (r: Option<&String>)
        ensures
            match r {
                Some(s) => self@ == JsonView::Str(s@),
                None => !(self@ is Str),
            },
    {
        match self {
            Json::Str(s) => Some(s),
            _ => None,
        }
    }

    /// The elements of `self` when it is an array (`Value::as_array`).
    pub fn as_array(&self) -> (r: Option<&Vec<Json>>)
        ensures
            match r {
                Some(items) => self@ == JsonView::Array(items_view(items@)),
                None => !(self@ is Array),
            },
    {
        match self {
            Json::Array(items) => Some(items),
            _ => None,
        }
    }

    /// The integer `self` when it is a number written as an integer that fits in an `i64`
    /// (`Value::as_i64`; a number is kept as the text that writes it).
    pub fn as_i64(&self) -> (r: Option<i64>)
        ensures
            r == number_i64(self@),
    {
        match self {
            Json::Number(t) => integer_of_text(t),
            _ => None,
        }
    }

    /// The natural number `self` when it is a number written as an integer that fits in a
    /// `u64` (`Value::as_u64`).
    pub fn as_u64(&self) -> (r: Option<u64>)
        ensures
            r == number_u64(self@),
    {
        match self {
            Json::Number(t) => natural_of_text(t),
            _ => None,
        }
    }

    /// The boolean `self` when it is one (`Value::as_bool`).
    pub fn as_bool(&self) -> (r: Option<bool>)
        ensures
            r == (match self@ {
                JsonView::Bool(b) => Some(b),
                _ => None,
            }),
    {
        match self {
            Json::Bool(b) => Some(*b),
            _ => None,
        }
    }

    /// A copy of `self`.
    pub fn duplicate(&self) -> (r: Json)
        ensures
            r@ == self@,
        decreases self,
    {
        match self {
            Json::Null => Json::Null,
            Json::Bool(b) => Json::Bool(*b),
            Json::Number(n) => Json::Number(n.clone()),
            Json::Str(s) => Json::Str(s.clone()),
            Json::Array(items) => {
                let mut out: Vec<Json> = Vec::new();
                let mut i: usize = 0;
                proof {
                    lemma_items_view(items@);
                }
                while i < items.len()
                    invariant
                        *self == Json::Array(*items),
                        i <= items@.len(),
                        items_view(items@) == items@.map_values(|j: Json| json_view(j)),
                        out@.len() == i,
                        forall|k: int| 0 <= k < i ==> json_view(#[trigger] out@[k]) == json_view(items@[k]),
                    decreases items@.len() - i,
                {
                    proof {
                        assert((*self)->Array_0 == *items);
                        assert(decreases_to!(*self => (*self)->Array_0));
                        assert(decreases_to!(*items => items@));
                        assert(decreases_to!(items@ => items@[i as int]));
                        assert(decreases_to!(*self => items@[i as int]));
                    }
                    let e = items[i].duplicate();
                    out.push(e);
                    i = i + 1;
                }
                proof {
                    lemma_items_view(out@);
                    assert(out@.map_values(|j: Json| json_view(j)) =~= items@.map_values(|j: Json| json_view(j)));
                }
                Json::Array(out)
            },
            Json::Object(members) => {
                let mut out: Vec<(String, Json)> = Vec::new();
                let mut i: usize = 0;
                proof {
                    lemma_members_view(members@);
                }
                while i < members.len()
                    invariant
                        *self == Json::Object(*members),
                        i <= members@.len(),
                        members_view(members@) == members@.map_values(
                            |m: (String, Json)| (m.0@, json_view(m.1)),
                        ),
                        out@.len() == i,
                        forall|k: int|
                            0 <= k < i ==> (#[trigger] out@[k]).0@ == members@[k].0@ && json_view(
                                out@[k].1,
                            ) == json_view(members@[k].1),
                    decreases members@.len() - i,
                {
                    proof {
                        let pair = members@[i as int];
                        assert((*self)->Object_0 == *members);
                        assert(decreases_to!(*self => (*self)->Object_0));
                        assert(decreases_to!(*members => members@));
                        assert(decreases_to!(members@ => pair));
                        assert(decreases_to!(pair => pair.1));
                        assert(decreases_to!(*self => pair.1));
                    }
                    let v = members[i].1.duplicate();
                    let k = members[i].0.clone();
                    out.push((k, v));
                    i = i + 1;
                }
                proof {
                    lemma_members_view(out@);
                    assert(out@.map_values(|m: (String, Json)| (m.0@, json_view(m.1)))
                        =~= members@.map_values(|m: (String, Json)| (m.0@, json_view(m.1))));
                }
                Json::Object(out)
            },
        }
    }
}

/// `v[key].as_str().unwrap_or("").to_string()`.
pub fn text_field(v: &Json, key: &str) -> (r: String)
    ensures
        r@ == text_or_empty(v@, key@),
{
    match v.get(key) {
        Some(Json::Str(s)) => s.clone(),
        _ => String::new(),
    }
}

/// `v[key].as_str().unwrap_or(default).to_string()`.
pub fn text_field_or(v: &Json, key: &str, default: &str) -> (r: String)
    ensures
        r@ == (match field_of(v@, key@) {
            Some(JsonView::Str(s)) => s,
            _ => default@,
        }),
{
    match v.get(key) {
        Some(Json::Str(s)) => s.clone(),
        _ => String::from_str(default),
    }
}

/// `v[key].as_bool()`.
pub fn flag_field(v: &Json, key: &str) -> (r: Option<bool>)
    ensures
        r == flag_under(v@, key@),
{
    match v.get(key) {
        Some(Json::Bool(b)) => Some(*b),
        _ => None,
    }
}

/// `v[key].as_array().cloned().unwrap_or_default()`: copies of the elements under `key`,
/// or none when the member is missing or not an array.
pub fn array_field(v: &Json, key: &str) -> (r: Vec<Json>)
    ensures
        items_view(r@) == match items_under(v@, key@) {
            Some(items) => items,
            None => Seq::<JsonView>::empty(),
        },
{
    match v.get(key) {
        Some(Json::Array(items)) => copy_items(items),
        _ => Vec::new(),
    }
}

/// Copies of the values in `items`.
pub fn copy_items(items: &Vec<Json>) -> (r: Vec<Json>)
    ensures
        items_view(r@) == items_view(items@),
{
    let mut out: Vec<Json> = Vec::new();
    let mut i: usize = 0;
    proof {
        lemma_items_view(items@);
    }
    while i < items.len()
        invariant
            i <= items@.len(),
            out@.len() == i,
            forall|k: int| 0 <= k < i ==> json_view(#[trigger] out@[k]) == json_view(items@[k]),
        decreases items@.len() - i,
    {
        out.push(items[i].duplicate());
        i = i + 1;
    }
    proof {
        lemma_items_view(out@);
        assert(out@.map_values(|j: Json| json_view(j)) =~= items@.map_values(|j: Json| json_view(j)));
    }
    out
}

/// The data of a request that succeeded (`Some(Ok(v))`), and `None` while it is pending
/// or when it failed.
pub fn unwrap_data(data: &Option<Result<Json, String>>) -> (r: Option<&Json>)
    ensures
        match r {
            Some(v) => *data == Some(Ok::<Json, String>(*v)),
            None => !(data matches Some(Ok(_))),
        },
{
    match data {
        Some(Ok(v)) => Some(v),
        _ => None,
    }
}

/// `v[key].as_i64().unwrap_or(default)`.
pub fn int_field_or(v: &Json, key: &str, default: i64) -> (r: i64)
    ensures
        r == match int_under(v@, key@) {
            Some(n) => n,
            None => default,
        },
{
    match v.get(key) {
        Some(n) => match n.as_i64() {
            Some(x) => x,
            None => default,
        },
        None => default,
    }
}

/// Looking a key up in an object's members finds the first member with that key.
pub proof fn lemma_member_at(ms: Seq<(Seq<char>, JsonView)>, i: int)
    requires
        0 <= i < ms.len(),
        forall|j: int| 0 <= j < i ==> (#[trigger] ms[j]).0 != ms[i].0,
    ensures
        member(ms, ms[i].0) == Some(ms[i].1),
    decreases i,
{
    if i > 0 {
        let rest = ms.drop_first();
        assert(rest[i - 1] == ms[i]);
        assert forall|j: int| 0 <= j < i - 1 implies (#[trigger] rest[j]).0 != rest[i - 1].0 by {
            assert(rest[j] == ms[j + 1]);
        }
        lemma_member_at(rest, i - 1);
        assert(ms[0].0 != ms[i].0);
    }
}

/// Looking up a key that no member has finds nothing.
pub proof fn lemma_member_absent(ms: Seq<(Seq<char>, JsonView)>, k: Seq<char>)
    requires
        forall|j: int| 0 <= j < ms.len() ==> (#[trigger] ms[j]).0 != k,
    ensures
        member(ms, k) is None,
    decreases ms.len(),
{
    if ms.len() > 0 {
        assert(ms[0].0 != k);
        assert forall|j: int| 0 <= j < ms.drop_first().len() implies (#[trigger] ms.drop_first()[j]).0 != k by {
            assert(ms.drop_first()[j] == ms[j + 1]);
        }
        lemma_member_absent(ms.drop_first(), k);
    }
}

} // verus!
