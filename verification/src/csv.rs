//! The CSV import pages: reading the pasted text into lines and header names, matching
//! the headers to the system's fields, and writing the CSV that is sent with the mapped
//! headers.
use vstd::prelude::*;
use vstd::string::StringExecFns;
use crate::text::{
    append_chars, chars_of, has_char, same_chars, same_text, slice_chars, split_chars,
    split_on, string_of, trim, trim_chars, trim_end_char, trim_end_char_chars, trim_start_char,
    trim_start_char_chars, views, lemma_split_without_sep, lowercase_text, to_lowercase,
};

verus! {

/// `p` without one trailing carriage return.
pub open spec fn strip_cr(p: Seq<char>) -> Seq<char> {
    if p.len() > 0 && p.last() == '\r' {
        p.drop_last()
    } else {
        p
    }
}

/// The lines of a text (`str::lines`): the pieces between line feeds, each without a
/// carriage return just before its line feed, and without a last empty piece.
pub open spec fn text_lines(s: Seq<char>) -> Seq<Seq<char>> {
    let ps = split_on(s, '\n');
    ps.take(ps.len() - 1).map_values(|p: Seq<char>| strip_cr(p)) + (if ps.last().len() > 0 {
        seq![ps.last()]
    } else {
        Seq::<Seq<char>>::empty()
    })
}

/// A split always has at least one piece.
pub proof fn lemma_split_nonempty(s: Seq<char>, sep: char)
    ensures
        split_on(s, sep).len() >= 1,
    decreases s.len(),
{
    if s.len() > 0 {
        lemma_split_nonempty(s.drop_last(), sep);
    }
}

/// The lines of the pasted text.
pub fn csv_lines(content: &str) -> (r: Vec<String>)
    ensures
        r@.map_values(|x: String| x@) == text_lines(content@),
{
    let cs = chars_of(content);
    let pieces = split_chars(&cs, '\n');
    proof {
        lemma_split_nonempty(cs@, '\n');
    }
    let ghost ps = views(pieces@);
    let n = pieces.len();
    let mut out: Vec<String> = Vec::new();
    let mut i: usize = 0;
    while i + 1 < n
        invariant
            ps == views(pieces@),
            ps == split_on(content@, '\n'),
            cs@ == content@,
            n == pieces@.len(),
            n >= 1,
            i < n,
            out@.len() == i,
            forall|k: int| 0 <= k < i ==> (#[trigger] out@[k])@ == strip_cr(ps[k]),
        decreases n - i,
    {
        let p = &pieces[i];
        assert(p@ == ps[i as int]);
        let line = if p.len() > 0 && p[p.len() - 1] == '\r' {
            let q = slice_chars(p, 0, p.len() - 1);
            assert(q@ =~= p@.drop_last());
            string_of(q.as_slice())
        } else {
            string_of(p.as_slice())
        };
        out.push(line);
        i = i + 1;
    }
    let last = &pieces[n - 1];
    assert(last@ == ps.last());
    let ghost front = out@.map_values(|x: String| x@);
    assert(front =~= ps.take(ps.len() - 1).map_values(|p: Seq<char>| strip_cr(p)));
    if last.len() > 0 {
        out.push(string_of(last.as_slice()));
        assert(out@.map_values(|x: String| x@) =~= front + seq![ps.last()]);
    } else {
        assert(front + Seq::<Seq<char>>::empty() =~= front);
    }
    out
}

/// The header names of a CSV header line: its pieces between commas, trimmed.
pub open spec fn header_names(line: Seq<char>) -> Seq<Seq<char>> {
    split_on(line, ',').map_values(|p: Seq<char>| trim(p))
}

/// The header names of the CSV's first line.
pub fn csv_headers(line: &str) -> (r: Vec<String>)
    ensures
        r@.map_values(|x: String| x@) == header_names(line@),
{
    let cs = chars_of(line);
    let pieces = split_chars(&cs, ',');
    let ghost ps = views(pieces@);
    let mut out: Vec<String> = Vec::new();
    let mut i: usize = 0;
    while i < pieces.len()
        invariant
            ps == views(pieces@),
            ps == split_on(line@, ','),
            i <= pieces@.len(),
            out@.len() == i,
            forall|k: int| 0 <= k < i ==> (#[trigger] out@[k])@ == trim(ps[k]),
        decreases pieces@.len() - i,
    {
        let t = trim_chars(&pieces[i]);
        out.push(string_of(t.as_slice()));
        i = i + 1;
    }
    assert(out@.map_values(|x: String| x@) =~= header_names(line@));
    out
}

/// The system fields that an import of `entity` can fill: those of a student for
/// `students`, those of an employee for anything else.
pub open spec fn system_fields(entity: Seq<char>) -> Seq<Seq<char>> {
    if entity == "students"@ {
        seq![
            "rut"@,
            "first_name"@,
            "last_name"@,
            "email"@,
            "phone"@,
            "grade_level"@,
            "section"@,
            "condicion"@,
            "prioritario"@,
            "nee"@,
        ]
    } else {
        seq!["rut"@, "first_name"@, "last_name"@, "email"@, "phone"@, "position"@, "category"@]
    }
}

/// The system fields that an import of `entity` can fill.
pub fn system_fields_for(entity: &str) -> (r: Vec<String>)
    ensures
        r@.map_values(|x: String| x@) == system_fields(entity@),
        entity@ == "students"@ ==> r@.map_values(|x: String| x@) == seq![
            "rut"@,
            "first_name"@,
            "last_name"@,
            "email"@,
            "phone"@,
            "grade_level"@,
            "section"@,
            "condicion"@,
            "prioritario"@,
            "nee"@,
        ],
        entity@ != "students"@ ==> r@.map_values(|x: String| x@) == seq![
            "rut"@,
            "first_name"@,
            "last_name"@,
            "email"@,
            "phone"@,
            "position"@,
            "category"@,
        ],
{
    let names: Vec<&str> = if same_text(entity, "students") {
        vec![
            "rut",
            "first_name",
            "last_name",
            "email",
            "phone",
            "grade_level",
            "section",
            "condicion",
            "prioritario",
            "nee",
        ]
    } else {
        vec!["rut", "first_name", "last_name", "email", "phone", "position", "category"]
    };
    let mut out: Vec<String> = Vec::new();
    let mut i: usize = 0;
    while i < names.len()
        invariant
            i <= names@.len(),
            out@.len() == i,
            forall|k: int| 0 <= k < i ==> (#[trigger] out@[k])@ == names@[k]@,
        decreases names@.len() - i,
    {
        out.push(String::from_str(names[i]));
        i = i + 1;
    }
    assert(out@.map_values(|x: String| x@) =~= names@.map_values(|x: &str| x@));
    out
}

/// Whether field `f` matches a header whose lower-case form is `l`: it is `l`, or `l`
/// without the double quotes around it.
pub open spec fn field_matches_lower(f: Seq<char>, l: Seq<char>) -> bool {
    f == l || f == trim_end_char(trim_start_char(l, '"'), '"')
}

/// The first field that matches a header whose lower-case form is `l`.
pub open spec fn field_for_lower(fields: Seq<Seq<char>>, l: Seq<char>) -> Option<Seq<char>>
    decreases fields.len(),
{
    if fields.len() == 0 {
        None
    } else if field_matches_lower(fields[0], l) {
        Some(fields[0])
    } else {
        field_for_lower(fields.drop_first(), l)
    }
}

/// The first field that matches header `h`.
pub open spec fn matching_field(fields: Seq<Seq<char>>, h: Seq<char>) -> Option<Seq<char>> {
    field_for_lower(fields, lowercase_text(h))
}

/// The position of the entry for column `k` in a mapping.
pub open spec fn entry_index(m: Seq<(Seq<char>, Seq<char>)>, k: Seq<char>) -> Option<int>
    decreases m.len(),
{
    if m.len() == 0 {
        None
    } else if m[0].0 == k {
        Some(0)
    } else {
        match entry_index(m.drop_first(), k) {
            Some(i) => Some(i + 1),
            None => None,
        }
    }
}

/// The field that a mapping gives column `k`.
pub open spec fn mapped_to(m: Seq<(Seq<char>, Seq<char>)>, k: Seq<char>) -> Option<Seq<char>> {
    match entry_index(m, k) {
        Some(i) => Some(m[i].1),
        None => None,
    }
}

/// The mapping with column `k` mapped to `v` (`HashMap::insert`): the entry of `k` is
/// replaced, or a new entry is added.
pub open spec fn map_insert(m: Seq<(Seq<char>, Seq<char>)>, k: Seq<char>, v: Seq<char>) -> Seq<(Seq<char>, Seq<char>)> {
    match entry_index(m, k) {
        Some(i) => m.update(i, (k, v)),
        None => m.push((k, v)),
    }
}

/// The mapping that the mapper proposes for `headers`, whose lower-case forms are
/// `lowered`: each header that matches a field, in header order, mapped to the first field
/// that matches it.
pub open spec fn auto_mapping_lower(
    headers: Seq<Seq<char>>,
    lowered: Seq<Seq<char>>,
    fields: Seq<Seq<char>>,
) -> Seq<(Seq<char>, Seq<char>)>
    decreases headers.len(),
{
    if headers.len() == 0 {
        Seq::<(Seq<char>, Seq<char>)>::empty()
    } else {
        let m = auto_mapping_lower(headers.drop_last(), lowered.drop_last(), fields);
        match field_for_lower(fields, lowered.last()) {
            Some(f) => map_insert(m, headers.last(), f),
            None => m,
        }
    }
}

/// The mapping that the mapper proposes: each header that matches a field, in header
/// order, mapped to the first field that matches it.
pub open spec fn auto_mapping(headers: Seq<Seq<char>>, fields: Seq<Seq<char>>) -> Seq<(Seq<char>, Seq<char>)> {
    auto_mapping_lower(headers, headers.map_values(|h: Seq<char>| lowercase_text(h)), fields)
}

/// The texts of a mapping.
pub open spec fn mapping_view(m: Seq<(String, String)>) -> Seq<(Seq<char>, Seq<char>)> {
    m.map_values(|e: (String, String)| (e.0@, e.1@))
}

fn find_entry(m: &Vec<(String, String)>, k: &Vec<char>) -> (r: Option<usize>)
    ensures
        match r {
            Some(i) => entry_index(mapping_view(m@), k@) == Some(i as int),
            None => entry_index(mapping_view(m@), k@) is None,
        },
{
    let ghost v = mapping_view(m@);
    let mut i: usize = 0;
    assert(v.skip(0) =~= v);
    while i < m.len()
        invariant
            v == mapping_view(m@),
            i <= m@.len(),
            entry_index(v, k@) == (match entry_index(v.skip(i as int), k@) {
                Some(j) => Some(j + i),
                None => None,
            }),
        decreases m@.len() - i,
    {
        assert(v.skip(i as int)[0] == v[i as int]);
        let key = chars_of(m[i].0.as_str());
        if same_chars(&key, k) {
            return Some(i);
        }
        assert(v.skip(i as int).drop_first() =~= v.skip(i + 1));
        i = i + 1;
    }
    assert(v.skip(i as int) =~= Seq::<(Seq<char>, Seq<char>)>::empty());
    None
}

/// Maps column `column` to `field` (the user's choice, or the mapper's proposal).
pub fn set_mapping(m: &mut Vec<(String, String)>, column: &str, field: &str)
    ensures
        mapping_view(final(m)@) == map_insert(mapping_view(old(m)@), column@, field@),
{
    let k = chars_of(column);
    match find_entry(m, &k) {
        Some(i) => {
            let ghost before = m@;
            proof {
                lemma_entry_index(mapping_view(m@), k@);
            }
            m.set(i, (String::from_str(column), String::from_str(field)));
            assert(mapping_view(m@) =~= map_insert(mapping_view(before), column@, field@));
        },
        None => {
            let ghost before = m@;
            m.push((String::from_str(column), String::from_str(field)));
            assert(mapping_view(m@) =~= map_insert(mapping_view(before), column@, field@));
        },
    }
}

/// The first field that matches a header whose lower-case form is `lower`.
pub fn field_for_lower_header(fields: &Vec<String>, lower: &str) -> (r: Option<String>)
    ensures
        match r {
            Some(f) => field_for_lower(fields@.map_values(|x: String| x@), lower@) == Some(f@),
            None => field_for_lower(fields@.map_values(|x: String| x@), lower@) is None,
        },
{
    let ghost fv = fields@.map_values(|x: String| x@);
    let lc = chars_of(lower);
    let a = trim_start_char_chars(&lc, '"');
    let unquoted = trim_end_char_chars(&a, '"');
    let mut i: usize = 0;
    assert(fv.skip(0) =~= fv);
    while i < fields.len()
        invariant
            fv == fields@.map_values(|x: String| x@),
            lc@ == lower@,
            unquoted@ == trim_end_char(trim_start_char(lower@, '"'), '"'),
            i <= fields@.len(),
            field_for_lower(fv, lower@) == field_for_lower(fv.skip(i as int), lower@),
        decreases fields@.len() - i,
    {
        assert(fv.skip(i as int)[0] == fv[i as int]);
        let f = chars_of(fields[i].as_str());
        if same_chars(&f, &lc) || same_chars(&f, &unquoted) {
            return Some(fields[i].clone());
        }
        assert(fv.skip(i as int).drop_first() =~= fv.skip(i + 1));
        i = i + 1;
    }
    None
}

/// The mapping that the mapper proposes for `headers`, given their lower-case forms.
pub fn auto_map_lowered(headers: &Vec<String>, lowered: &Vec<String>, fields: &Vec<String>) -> (r: Vec<(String, String)>)
    requires
        lowered@.len() == headers@.len(),
    ensures
        mapping_view(r@) == auto_mapping_lower(
            headers@.map_values(|x: String| x@),
            lowered@.map_values(|x: String| x@),
            fields@.map_values(|x: String| x@),
        ),
        columns_distinct(mapping_view(r@)),
{
    let ghost hv = headers@.map_values(|x: String| x@);
    let ghost lv = lowered@.map_values(|x: String| x@);
    let ghost fv = fields@.map_values(|x: String| x@);
    let mut m: Vec<(String, String)> = Vec::new();
    let mut i: usize = 0;
    assert(hv.take(0) =~= Seq::<Seq<char>>::empty());
    assert(mapping_view(m@) =~= auto_mapping_lower(hv.take(0), lv.take(0), fv));
    assert(mapping_view(m@) =~= Seq::<(Seq<char>, Seq<char>)>::empty());
    while i < headers.len()
        invariant
            hv == headers@.map_values(|x: String| x@),
            lv == lowered@.map_values(|x: String| x@),
            fv == fields@.map_values(|x: String| x@),
            lowered@.len() == headers@.len(),
            i <= headers@.len(),
            mapping_view(m@) == auto_mapping_lower(hv.take(i as int), lv.take(i as int), fv),
            columns_distinct(mapping_view(m@)),
        decreases headers@.len() - i,
    {
        assert(hv.take(i + 1).drop_last() =~= hv.take(i as int));
        assert(lv.take(i + 1).drop_last() =~= lv.take(i as int));
        assert(hv.take(i + 1).last() == headers@[i as int]@);
        assert(lv.take(i + 1).last() == lowered@[i as int]@);
        match field_for_lower_header(fields, lowered[i].as_str()) {
            Some(f) => {
                let ghost before = mapping_view(m@);
                set_mapping(&mut m, headers[i].as_str(), f.as_str());
                proof {
                    setting_a_column_reads_back(before, headers@[i as int]@, f@, headers@[i as int]@);
                }
            },
            None => {},
        }
        i = i + 1;
    }
    assert(hv.take(headers@.len() as int) =~= hv);
    assert(lv.take(headers@.len() as int) =~= lv);
    m
}

/// The mapping that the mapper proposes for the headers.
pub fn auto_map(headers: &Vec<String>, fields: &Vec<String>) -> (r: Vec<(String, String)>)
    ensures
        mapping_view(r@) == auto_mapping(
            headers@.map_values(|x: String| x@),
            fields@.map_values(|x: String| x@),
        ),
        columns_distinct(mapping_view(r@)),
{
    let mut lowered: Vec<String> = Vec::new();
    let mut i: usize = 0;
    while i < headers.len()
        invariant
            i <= headers@.len(),
            lowered@.len() == i,
            forall|k: int| 0 <= k < i ==> (#[trigger] lowered@[k])@ == lowercase_text(headers@[k]@),
        decreases headers@.len() - i,
    {
        lowered.push(to_lowercase(headers[i].as_str()));
        i = i + 1;
    }
    let r = auto_map_lowered(headers, &lowered, fields);
    assert(lowered@.map_values(|x: String| x@) =~= headers@.map_values(|x: String| x@).map_values(
        |h: Seq<char>| lowercase_text(h),
    ));
    r
}

/// The header names that the imported CSV gets: each header's mapped field, or the
/// header itself when it is not mapped.
pub open spec fn remapped(headers: Seq<Seq<char>>, m: Seq<(Seq<char>, Seq<char>)>) -> Seq<Seq<char>> {
    headers.map_values(
        |h: Seq<char>|
            match mapped_to(m, h) {
                Some(f) => f,
                None => h,
            },
    )
}

/// The header names that the imported CSV gets.
pub fn remap_headers(headers: &Vec<String>, m: &Vec<(String, String)>) -> (r: Vec<String>)
    ensures
        r@.map_values(|x: String| x@) == remapped(headers@.map_values(|x: String| x@), mapping_view(m@)),
{
    let ghost hv = headers@.map_values(|x: String| x@);
    let ghost mv = mapping_view(m@);
    let mut out: Vec<String> = Vec::new();
    let mut i: usize = 0;
    while i < headers.len()
        invariant
            hv == headers@.map_values(|x: String| x@),
            mv == mapping_view(m@),
            i <= headers@.len(),
            out@.len() == i,
            forall|k: int|
                0 <= k < i ==> (#[trigger] out@[k])@ == (match mapped_to(mv, hv[k]) {
                    Some(f) => f,
                    None => hv[k],
                }),
        decreases headers@.len() - i,
    {
        let k = chars_of(headers[i].as_str());
        assert(k@ == hv[i as int]);
        match find_entry(m, &k) {
            Some(j) => {
                proof {
                    lemma_entry_index(mv, k@);
                }
                out.push(m[j].1.clone());
            },
            None => {
                out.push(headers[i].clone());
            },
        }
        i = i + 1;
    }
    assert(out@.map_values(|x: String| x@) =~= remapped(hv, mv));
    out
}

proof fn lemma_entry_index(m: Seq<(Seq<char>, Seq<char>)>, k: Seq<char>)
    ensures
        match entry_index(m, k) {
            Some(i) => 0 <= i < m.len() && m[i].0 == k,
            None => true,
        },
    decreases m.len(),
{
    if m.len() > 0 && m[0].0 != k {
        lemma_entry_index(m.drop_first(), k);
    }
}

/// The texts of `xs` with `sep` between each two.
pub open spec fn joined(xs: Seq<Seq<char>>, sep: char) -> Seq<char>
    decreases xs.len(),
{
    if xs.len() == 0 {
        Seq::<char>::empty()
    } else if xs.len() == 1 {
        xs[0]
    } else {
        joined(xs.drop_last(), sep) + seq![sep] + xs.last()
    }
}

/// The texts of `xs` with `sep` between each two (`join`).
pub fn join_texts(xs: &Vec<String>, sep: char) -> (r: String)
    ensures
        r@ == joined(xs@.map_values(|x: String| x@), sep),
{
    let ghost xv = xs@.map_values(|x: String| x@);
    let mut out: Vec<char> = Vec::new();
    let mut i: usize = 0;
    assert(xv.take(0) =~= Seq::<Seq<char>>::empty());
    while i < xs.len()
        invariant
            xv == xs@.map_values(|x: String| x@),
            i <= xs@.len(),
            out@ == joined(xv.take(i as int), sep),
        decreases xs@.len() - i,
    {
        assert(xv.take(i + 1).drop_last() =~= xv.take(i as int));
        let piece = chars_of(xs[i].as_str());
        if i > 0 {
            out.push(sep);
        } else {
            assert(xv.take(1) =~= seq![xv[0]]);
        }
        append_chars(&mut out, &piece);
        i = i + 1;
    }
    assert(xv.take(xs@.len() as int) =~= xv);
    string_of(out.as_slice())
}

/// The CSV that is sent: the mapped header line, then the data lines, joined by line feeds.
pub open spec fn mapped_csv_text(new_headers: Seq<Seq<char>>, data: Seq<Seq<char>>) -> Seq<char> {
    joined(seq![joined(new_headers, ',')] + data, '\n')
}

/// The CSV that is sent for the mapped headers and the data lines.
pub fn mapped_csv(new_headers: &Vec<String>, data: &Vec<String>) -> (r: String)
    ensures
        r@ == mapped_csv_text(
            new_headers@.map_values(|x: String| x@),
            data@.map_values(|x: String| x@),
        ),
{
    let header_line = join_texts(new_headers, ',');
    let mut lines: Vec<String> = Vec::new();
    lines.push(header_line);
    let mut i: usize = 0;
    while i < data.len()
        invariant
            i <= data@.len(),
            lines@.len() == i + 1,
            lines@[0]@ == joined(new_headers@.map_values(|x: String| x@), ','),
            forall|k: int| 0 <= k < i ==> (#[trigger] lines@[k + 1])@ == data@[k]@,
        decreases data@.len() - i,
    {
        lines.push(data[i].clone());
        i = i + 1;
    }
    let ghost expected = seq![joined(new_headers@.map_values(|x: String| x@), ',')] + data@.map_values(
        |x: String| x@,
    );
    assert forall|k: int| 0 <= k < lines@.len() implies lines@.map_values(|x: String| x@)[k]
        == expected[k] by {
        if k > 0 {
            assert(lines@[(k - 1) + 1]@ == data@[k - 1]@);
        }
    }
    assert(lines@.map_values(|x: String| x@) =~= expected);
    join_texts(&lines, '\n')
}

/// The endpoint that imports a CSV of `entity`: students, or employees for anything else.
pub fn import_endpoint(entity: &str) -> (r: &'static str)
    ensures
        r@ == (if entity@ == "students"@ {
            "/api/students/import/csv"@
        } else {
            "/api/hr/employees/import/csv"@
        }),
{
    if same_text(entity, "students") {
        "/api/students/import/csv"
    } else {
        "/api/hr/employees/import/csv"
    }
}

/// Whether the pasted text has anything to import: it is not only white space.
pub fn has_content(content: &str) -> (r: bool)
    ensures
        r == (trim(content@).len() > 0),
{
    let cs = chars_of(content);
    let t = trim_chars(&cs);
    t.len() > 0
}

proof fn lemma_split_joined(xs: Seq<Seq<char>>, sep: char)
    requires
        xs.len() >= 1,
        forall|i: int| 0 <= i < xs.len() ==> !has_char(#[trigger] xs[i], sep),
    ensures
        split_on(joined(xs, sep), sep) == xs,
    decreases xs.len(),
{
    if xs.len() == 1 {
        assert(joined(xs, sep) == xs[0]);
        lemma_split_without_sep(xs[0], sep);
        assert(seq![xs[0]] =~= xs);
    } else {
        let front = xs.drop_last();
        lemma_split_joined(front, sep);
        lemma_split_append(joined(front, sep), xs.last(), sep);
        assert(front.push(xs.last()) =~= xs);
    }
}

proof fn lemma_split_append(a: Seq<char>, b: Seq<char>, sep: char)
    requires
        !has_char(b, sep),
    ensures
        split_on(a + seq![sep] + b, sep) == split_on(a, sep).push(b),
    decreases b.len(),
{
    if b.len() == 0 {
        assert((a + seq![sep] + b).drop_last() =~= a);
        assert(b =~= Seq::<char>::empty());
    } else {
        let c = a + seq![sep] + b;
        assert(!has_char(b.drop_last(), sep)) by {
            if has_char(b.drop_last(), sep) {
                let i = choose|i: int| 0 <= i < b.drop_last().len() && b.drop_last()[i] == sep;
                assert(b[i] == sep);
            }
        }
        lemma_split_append(a, b.drop_last(), sep);
        assert(c.drop_last() =~= a + seq![sep] + b.drop_last());
        assert(c.last() == b.last());
        assert(b.last() != sep) by {
            assert(b[b.len() - 1] == b.last());
        }
        let prev = split_on(a, sep).push(b.drop_last());
        assert(prev.last() == b.drop_last());
        assert(b.drop_last().push(b.last()) =~= b);
        assert(prev.update(prev.len() - 1, b) =~= split_on(a, sep).push(b));
    }
}

/// The header line of the sent CSV splits back into the mapped header names: none of
/// them holds a comma, since headers are pieces between commas and fields have none.
pub proof fn mapped_header_line_splits_back(new_headers: Seq<Seq<char>>)
    requires
        new_headers.len() >= 1,
        forall|i: int| 0 <= i < new_headers.len() ==> !has_char(#[trigger] new_headers[i], ','),
    ensures
        split_on(joined(new_headers, ','), ',') == new_headers,
{
    lemma_split_joined(new_headers, ',');
}

/// Whether no column occurs twice in a mapping.
pub open spec fn columns_distinct(m: Seq<(Seq<char>, Seq<char>)>) -> bool {
    forall|a: int, b: int| 0 <= a < b < m.len() ==> (#[trigger] m[a]).0 != (#[trigger] m[b]).0
}

proof fn lemma_entry_index_exact(m: Seq<(Seq<char>, Seq<char>)>, k: Seq<char>)
    ensures
        match entry_index(m, k) {
            Some(i) => 0 <= i < m.len() && m[i].0 == k && forall|j: int| 0 <= j < i ==> #[trigger] m[j].0 != k,
            None => forall|j: int| 0 <= j < m.len() ==> #[trigger] m[j].0 != k,
        },
    decreases m.len(),
{
    if m.len() > 0 && m[0].0 != k {
        let rest = m.drop_first();
        lemma_entry_index_exact(rest, k);
        match entry_index(rest, k) {
            Some(i) => {
                assert forall|j: int| 0 <= j < i + 1 implies #[trigger] m[j].0 != k by {
                    if j > 0 {
                        assert(m[j] == rest[j - 1]);
                    }
                }
            },
            None => {
                assert forall|j: int| 0 <= j < m.len() implies #[trigger] m[j].0 != k by {
                    if j > 0 {
                        assert(m[j] == rest[j - 1]);
                    }
                }
            },
        }
    }
}

/// The column mapping behaves as a map: setting a column keeps every column once, the
/// column then reads back the field it was set to, and every other column reads what it
/// read before.
pub proof fn setting_a_column_reads_back(
    m: Seq<(Seq<char>, Seq<char>)>,
    k: Seq<char>,
    v: Seq<char>,
    other: Seq<char>,
)
    requires
        columns_distinct(m),
    ensures
        columns_distinct(map_insert(m, k, v)),
        mapped_to(map_insert(m, k, v), k) == Some(v),
        other != k ==> mapped_to(map_insert(m, k, v), other) == mapped_to(m, other),
{
    let n = map_insert(m, k, v);
    lemma_entry_index_exact(m, k);
    lemma_entry_index_exact(n, k);
    lemma_entry_index_exact(m, other);
    lemma_entry_index_exact(n, other);
    match entry_index(m, k) {
        Some(i) => {
            assert(n == m.update(i, (k, v)));
            assert forall|a: int, b: int| 0 <= a < b < n.len() implies (#[trigger] n[a]).0 != (
            #[trigger] n[b]).0 by {
                assert(m[a].0 != m[b].0);
            }
            match entry_index(n, k) {
                Some(j) => {
                    if j != i {
                        assert(n[j].0 == m[j].0);
                        if j < i {
                            assert(m[j].0 != m[i].0);
                        } else {
                            assert(m[i].0 != m[j].0);
                        }
                    }
                },
                None => {
                    assert(n[i].0 == k);
                },
            }
            if other != k {
                match entry_index(m, other) {
                    Some(p) => {
                        assert(n[p] == m[p]);
                        match entry_index(n, other) {
                            Some(q) => {
                                if q != p {
                                    assert(n[q].0 == m[q].0 || q == i);
                                    if q < p {
                                        assert(n[q].0 == other);
                                    } else {
                                        assert(m[p].0 == other);
                                        assert(n[p].0 == other);
                                    }
                                }
                            },
                            None => {
                                assert(n[p].0 == other);
                            },
                        }
                    },
                    None => {
                        match entry_index(n, other) {
                            Some(q) => {
                                if q != i {
                                    assert(n[q] == m[q]);
                                }
                            },
                            None => {},
                        }
                    },
                }
            }
        },
        None => {
            assert(n == m.push((k, v)));
            assert forall|a: int, b: int| 0 <= a < b < n.len() implies (#[trigger] n[a]).0 != (
            #[trigger] n[b]).0 by {
                if b == m.len() {
                    assert(m[a].0 != k);
                } else {
                    assert(m[a].0 != m[b].0);
                }
            }
            match entry_index(n, k) {
                Some(j) => {
                    if j < m.len() {
                        assert(n[j] == m[j]);
                    }
                },
                None => {
                    assert(n[m.len() as int].0 == k);
                },
            }
            if other != k {
                match entry_index(m, other) {
                    Some(p) => {
                        assert(n[p] == m[p]);
                        match entry_index(n, other) {
                            Some(q) => {
                                if q < p {
                                    assert(n[q] == m[q]);
                                } else if q > p {
                                    assert(n[p].0 == other);
                                }
                            },
                            None => {
                                assert(n[p].0 == other);
                            },
                        }
                    },
                    None => {
                        match entry_index(n, other) {
                            Some(q) => {
                                if q < m.len() {
                                    assert(n[q] == m[q]);
                                } else {
                                    assert(n[q].0 == k);
                                }
                            },
                            None => {},
                        }
                    },
                }
            }
        },
    }
}

} // verus!
