//! The pipeline boards of the admission and sales pages: one column per stage, holding a
//! card for each prospect whose current stage is that stage.
use vstd::prelude::*;
use vstd::string::StringExecFns;
use crate::json::{
    Json, JsonView, field_of, flag_under, items_under, items_view, lemma_items_view, text_field,
    text_field_or, text_or_empty,
};
use crate::text::{push_char, same_text};

verus! {

/// A prospect's card: its id, its full name, and one more line (the RUT on the admission
/// board, the school on the sales board).
pub struct KanbanCard {
    pub id: String,
    pub name: String,
    pub detail: String,
}

/// The texts of a card.
pub struct CardView {
    pub id: Seq<char>,
    pub name: Seq<char>,
    pub detail: Seq<char>,
}

impl View for KanbanCard {
    type V = CardView;

    open spec fn view(&self) -> CardView {
        CardView { id: self.id@, name: self.name@, detail: self.detail@ }
    }
}

/// A stage's column.
pub struct KanbanColumn {
    pub stage_id: String,
    pub name: String,
    pub is_final: bool,
    pub color: String,
    pub cards: Vec<KanbanCard>,
}

/// The contents of a column.
pub struct ColumnView {
    pub stage_id: Seq<char>,
    pub name: Seq<char>,
    pub is_final: bool,
    pub color: Seq<char>,
    pub cards: Seq<CardView>,
}

/// The texts of a sequence of cards.
pub open spec fn cards_view(cards: Seq<KanbanCard>) -> Seq<CardView> {
    cards.map_values(|c: KanbanCard| c@)
}

impl View for KanbanColumn {
    type V = ColumnView;

    open spec fn view(&self) -> ColumnView {
        ColumnView {
            stage_id: self.stage_id@,
            name: self.name@,
            is_final: self.is_final,
            color: self.color@,
            cards: cards_view(self.cards@),
        }
    }
}

/// The stage a prospect stands in: its `current_stage_id` text, or the empty text.
pub open spec fn stage_of(p: JsonView) -> Seq<char> {
    text_or_empty(p, "current_stage_id"@)
}

/// A prospect's first and last names with a space between them.
pub open spec fn full_name(p: JsonView) -> Seq<char> {
    text_or_empty(p, "first_name"@) + seq![' '] + text_or_empty(p, "last_name"@)
}

/// The card shown for prospect `p`, whose extra line is the text under `detail_key`.
pub open spec fn card_view(p: JsonView, detail_key: Seq<char>) -> CardView {
    CardView { id: text_or_empty(p, "id"@), name: full_name(p), detail: text_or_empty(p, detail_key) }
}

/// The cards of the prospects in `ps` that stand in stage `sid`, in the order of `ps`.
pub open spec fn stage_cards(ps: Seq<JsonView>, sid: Seq<char>, detail_key: Seq<char>) -> Seq<CardView>
    decreases ps.len(),
{
    if ps.len() == 0 {
        Seq::<CardView>::empty()
    } else {
        let front = stage_cards(ps.drop_last(), sid, detail_key);
        if stage_of(ps.last()) == sid {
            front.push(card_view(ps.last(), detail_key))
        } else {
            front
        }
    }
}

/// The column of `stage`: its id, name, whether it ends the pipeline (`false` unless the
/// stage says so), its color (grey unless the stage gives one as text), and its cards.
pub open spec fn board_column(stage: JsonView, ps: Seq<JsonView>, detail_key: Seq<char>) -> ColumnView {
    ColumnView {
        stage_id: text_or_empty(stage, "id"@),
        name: text_or_empty(stage, "name"@),
        is_final: flag_under(stage, "is_final"@) == Some(true),
        color: match field_of(stage, "color"@) {
            Some(JsonView::Str(c)) => c,
            _ => "#6B7280"@,
        },
        cards: stage_cards(ps, text_or_empty(stage, "id"@), detail_key),
    }
}

/// The elements under `key`, or none when the member is missing or not an array.
pub open spec fn list_under(v: JsonView, key: Seq<char>) -> Seq<JsonView> {
    match items_under(v, key) {
        Some(xs) => xs,
        None => Seq::<JsonView>::empty(),
    }
}

/// A full name puts the first name first: for a person whose record has first name `f`
/// and last name `l`, the full name is `f`, then one space, then `l`.
pub proof fn full_name_first_then_last(p: JsonView, f: Seq<char>, l: Seq<char>)
    requires
        field_of(p, "first_name"@) == Some(JsonView::Str(f)),
        field_of(p, "last_name"@) == Some(JsonView::Str(l)),
    ensures
        full_name(p).len() == f.len() + 1 + l.len(),
        full_name(p).subrange(0, f.len() as int) == f,
        full_name(p)[f.len() as int] == ' ',
        full_name(p).subrange(f.len() + 1int, full_name(p).len() as int) == l,
{
    assert(full_name(p).subrange(0, f.len() as int) =~= f);
    assert(full_name(p).subrange(f.len() + 1int, full_name(p).len() as int) =~= l);
}

/// A prospect's full name.
pub fn full_name_of(p: &Json) -> (r: String)
    ensures
        r@ == full_name(p@),
        r@ == text_or_empty(p@, "first_name"@) + seq![' '] + text_or_empty(p@, "last_name"@),
{
    let mut r = text_field(p, "first_name");
    push_char(&mut r, ' ');
    let last = text_field(p, "last_name");
    r.append(last.as_str());
    r
}

/// The card of prospect `p`.
pub fn card_of(p: &Json, detail_key: &str) -> (r: KanbanCard)
    ensures
        r@ == card_view(p@, detail_key@),
        r.id@ == text_or_empty(p@, "id"@),
        r.name@ == text_or_empty(p@, "first_name"@) + seq![' '] + text_or_empty(p@, "last_name"@),
        r.detail@ == text_or_empty(p@, detail_key@),
{
    KanbanCard {
        id: text_field(p, "id"),
        name: full_name_of(p),
        detail: text_field(p, detail_key),
    }
}

/// Whether two texts are equal, compared character by character.
fn same_str(a: &String, b: &String) -> (r: bool)
    ensures
        r == (a@ == b@),
{
    same_text(a.as_str(), b.as_str())
}

/// The cards of the prospects that stand in stage `stage_id`, in the prospects' order.
pub fn stage_cards_of(prospects: &Vec<Json>, stage_id: &String, detail_key: &str) -> (r: Vec<KanbanCard>)
    ensures
        cards_view(r@) == stage_cards(items_view(prospects@), stage_id@, detail_key@),
        forall|i: int|
            0 <= i < prospects@.len() && text_or_empty((#[trigger] prospects@[i])@, "current_stage_id"@)
                == stage_id@ ==> cards_view(r@).contains(card_view(prospects@[i]@, detail_key@)),
{
    let ghost ps = items_view(prospects@);
    proof {
        lemma_items_view(prospects@);
    }
    let mut out: Vec<KanbanCard> = Vec::new();
    let mut i: usize = 0;
    while i < prospects.len()
        invariant
            ps == items_view(prospects@),
            ps == prospects@.map_values(|j: Json| j@),
            i <= prospects@.len(),
            cards_view(out@) == stage_cards(ps.take(i as int), stage_id@, detail_key@),
        decreases prospects@.len() - i,
    {
        let ghost before = out@;
        assert(ps.take(i + 1).drop_last() =~= ps.take(i as int));
        assert(ps.take(i + 1).last() == prospects@[i as int]@);
        let st = text_field(&prospects[i], "current_stage_id");
        if same_str(&st, stage_id) {
            let c = card_of(&prospects[i], detail_key);
            out.push(c);
            assert(cards_view(out@) =~= cards_view(before).push(c@));
        }
        i = i + 1;
    }
    assert(ps.take(prospects@.len() as int) =~= ps);
    proof {
        assert forall|i: int|
            0 <= i < prospects@.len() && text_or_empty((#[trigger] prospects@[i])@, "current_stage_id"@)
                == stage_id@ implies cards_view(out@).contains(card_view(prospects@[i]@, detail_key@)) by {
            assert(ps[i] == prospects@[i]@);
            prospect_has_card_in_its_stage(ps, i, detail_key@);
        }
    }
    out
}

/// The column of one stage.
pub fn column_of(stage: &Json, prospects: &Vec<Json>, detail_key: &str) -> (r: KanbanColumn)
    ensures
        r@ == board_column(stage@, items_view(prospects@), detail_key@),
        r.stage_id@ == text_or_empty(stage@, "id"@),
        r.name@ == text_or_empty(stage@, "name"@),
        r.is_final == (flag_under(stage@, "is_final"@) == Some(true)),
        r.color@ == (match field_of(stage@, "color"@) {
            Some(JsonView::Str(c)) => c,
            _ => "#6B7280"@,
        }),
{
    let stage_id = text_field(stage, "id");
    let cards = stage_cards_of(prospects, &stage_id, detail_key);
    let is_final = match stage.get("is_final") {
        Some(Json::Bool(b)) => *b,
        _ => false,
    };
    KanbanColumn {
        stage_id,
        name: text_field(stage, "name"),
        is_final,
        color: text_field_or(stage, "color", "#6B7280"),
        cards,
    }
}

/// The columns of a board, one per stage, in the stages' order.
pub fn board_columns(stages: &Vec<Json>, prospects: &Vec<Json>, detail_key: &str) -> (r: Vec<KanbanColumn>)
    ensures
        r@.len() == stages@.len(),
        forall|i: int|
            0 <= i < r@.len() ==> (#[trigger] r@[i])@ == board_column(
                stages@[i]@,
                items_view(prospects@),
                detail_key@,
            ),
{
    let mut out: Vec<KanbanColumn> = Vec::new();
    let mut i: usize = 0;
    while i < stages.len()
        invariant
            i <= stages@.len(),
            out@.len() == i,
            forall|k: int|
                0 <= k < i ==> (#[trigger] out@[k])@ == board_column(
                    stages@[k]@,
                    items_view(prospects@),
                    detail_key@,
                ),
        decreases stages@.len() - i,
    {
        out.push(column_of(&stages[i], prospects, detail_key));
        i = i + 1;
    }
    out
}

/// The admission board: a column for each stage of the stages answer (`{"stages": [..]}`)
/// with a card for each applicant of the prospects answer (`{"prospects": [..]}`) that
/// stands in it, showing the applicant's RUT.
pub fn admission_columns(stages_answer: &Json, prospects_answer: &Json) -> (r: Vec<KanbanColumn>)
    ensures
        r@.len() == list_under(stages_answer@, "stages"@).len(),
        forall|i: int|
            0 <= i < r@.len() ==> (#[trigger] r@[i])@ == board_column(
                list_under(stages_answer@, "stages"@)[i],
                list_under(prospects_answer@, "prospects"@),
                "rut"@,
            ),
{
    let stages = crate::json::array_field(stages_answer, "stages");
    let prospects = crate::json::array_field(prospects_answer, "prospects");
    proof {
        lemma_items_view(stages@);
    }
    let r = board_columns(&stages, &prospects, "rut");
    assert forall|i: int| 0 <= i < r@.len() implies stages@[i]@ == list_under(
        stages_answer@,
        "stages"@,
    )[i] by {
        assert(items_view(stages@)[i] == stages@[i]@);
    }
    r
}

/// The sales board: a column for each of `stages` with a card for each prospect of the
/// prospects answer, once it has arrived, that stands in it, showing the prospect's school.
/// While the answer is pending or when it failed, the columns have no cards.
pub fn sales_columns(stages: &Vec<Json>, prospects_answer: &Option<Result<Json, String>>) -> (r: Vec<KanbanColumn>)
    ensures
        r@.len() == stages@.len(),
        forall|i: int|
            0 <= i < r@.len() ==> (#[trigger] r@[i])@ == board_column(
                stages@[i]@,
                match prospects_answer {
                    Some(Ok(d)) => list_under(d@, "prospects"@),
                    _ => Seq::<JsonView>::empty(),
                },
                "company"@,
            ),
{
    let prospects: Vec<Json> = match prospects_answer {
        Some(Ok(d)) => crate::json::array_field(d, "prospects"),
        _ => Vec::new(),
    };
    proof {
        lemma_items_view(prospects@);
        if prospects@.len() == 0 {
            assert(items_view(prospects@) =~= Seq::<JsonView>::empty());
        }
    }
    board_columns(stages, &prospects, "company")
}

/// The number of cards on a board whose columns are the stages with ids `sids`.
pub open spec fn cards_total(ps: Seq<JsonView>, sids: Seq<Seq<char>>, detail_key: Seq<char>) -> nat
    decreases sids.len(),
{
    if sids.len() == 0 {
        0
    } else {
        cards_total(ps, sids.drop_last(), detail_key) + stage_cards(ps, sids.last(), detail_key).len()
    }
}

/// The number of prospects in `ps` whose stage is one of `sids`.
pub open spec fn placed_count(ps: Seq<JsonView>, sids: Seq<Seq<char>>) -> nat
    decreases ps.len(),
{
    if ps.len() == 0 {
        0
    } else {
        placed_count(ps.drop_last(), sids) + if sids.contains(stage_of(ps.last())) {
            1nat
        } else {
            0nat
        }
    }
}

/// The ids of the stages of a board.
pub open spec fn stage_ids(stages: Seq<JsonView>) -> Seq<Seq<char>> {
    stages.map_values(|s: JsonView| text_or_empty(s, "id"@))
}

proof fn lemma_total_of_push(ps: Seq<JsonView>, sids: Seq<Seq<char>>, detail_key: Seq<char>)
    requires
        ps.len() > 0,
        sids.no_duplicates(),
    ensures
        cards_total(ps, sids, detail_key) == cards_total(ps.drop_last(), sids, detail_key) + if sids.contains(
            stage_of(ps.last()),
        ) {
            1nat
        } else {
            0nat
        },
    decreases sids.len(),
{
    if sids.len() > 0 {
        let front = sids.drop_last();
        let st = stage_of(ps.last());
        assert(front.no_duplicates()) by {
            assert forall|a: int, b: int| 0 <= a < front.len() && 0 <= b < front.len() && a != b implies front[a]
                != front[b] by {
                assert(front[a] == sids[a] && front[b] == sids[b]);
            }
        }
        lemma_total_of_push(ps, front, detail_key);
        if sids.contains(st) {
            let k = choose|k: int| 0 <= k < sids.len() && sids[k] == st;
            if k < sids.len() - 1 {
                assert(front[k] == st);
                assert(st != sids.last());
            } else {
                assert(!front.contains(st)) by {
                    if front.contains(st) {
                        let j = choose|j: int| 0 <= j < front.len() && front[j] == st;
                        assert(sids[j] == sids[k]);
                    }
                }
            }
        } else {
            assert(st != sids.last());
            assert(!front.contains(st)) by {
                if front.contains(st) {
                    let j = choose|j: int| 0 <= j < front.len() && front[j] == st;
                    assert(sids[j] == st);
                }
            }
        }
        if front.contains(st) {
            let j = choose|j: int| 0 <= j < front.len() && front[j] == st;
            assert(sids[j] == st);
        }
    }
}

/// A board whose stage ids differ from one another shows each prospect that stands in one
/// of its stages exactly once: it holds as many cards as there are such prospects.
pub proof fn board_places_each_prospect_once(stages: Seq<JsonView>, ps: Seq<JsonView>, detail_key: Seq<char>)
    requires
        stage_ids(stages).no_duplicates(),
    ensures
        cards_total(ps, stage_ids(stages), detail_key) == placed_count(ps, stage_ids(stages)),
    decreases ps.len(),
{
    let sids = stage_ids(stages);
    if ps.len() == 0 {
        assert(ps =~= Seq::<JsonView>::empty());
        lemma_total_empty(sids, detail_key);
    } else {
        lemma_total_of_push(ps, sids, detail_key);
        board_places_each_prospect_once(stages, ps.drop_last(), detail_key);
    }
}

proof fn lemma_total_empty(sids: Seq<Seq<char>>, detail_key: Seq<char>)
    ensures
        cards_total(Seq::<JsonView>::empty(), sids, detail_key) == 0,
    decreases sids.len(),
{
    if sids.len() > 0 {
        lemma_total_empty(sids.drop_last(), detail_key);
    }
}

/// Every prospect that stands in stage `sid` has its card in that stage's column.
pub proof fn prospect_has_card_in_its_stage(ps: Seq<JsonView>, i: int, detail_key: Seq<char>)
    requires
        0 <= i < ps.len(),
    ensures
        stage_cards(ps, stage_of(ps[i]), detail_key).contains(card_view(ps[i], detail_key)),
    decreases ps.len(),
{
    let sid = stage_of(ps[i]);
    if i == ps.len() - 1 {
        let cs = stage_cards(ps, sid, detail_key);
        assert(cs.last() == card_view(ps[i], detail_key));
        assert(cs[cs.len() - 1] == card_view(ps[i], detail_key));
    } else {
        let front = ps.drop_last();
        assert(front[i] == ps[i]);
        prospect_has_card_in_its_stage(front, i, detail_key);
        let fc = stage_cards(front, sid, detail_key);
        let k = choose|k: int| 0 <= k < fc.len() && fc[k] == card_view(ps[i], detail_key);
        if stage_of(ps.last()) == sid {
            assert(fc.push(card_view(ps.last(), detail_key))[k] == fc[k]);
        }
    }
}

/// A stage's id and name, when the stage gives both as text.
pub open spec fn stage_entry(s: JsonView) -> Option<(Seq<char>, Seq<char>)> {
    match (field_of(s, "id"@), field_of(s, "name"@)) {
        (Some(JsonView::Str(id)), Some(JsonView::Str(name))) => Some((id, name)),
        _ => None,
    }
}

/// The name that the table's map from stage ids to names holds for `sid` when it is filled
/// from `stages` in order: that of the last stage with both texts whose id is `sid`.
pub open spec fn stage_name_of(stages: Seq<JsonView>, sid: Seq<char>) -> Option<Seq<char>>
    decreases stages.len(),
{
    if stages.len() == 0 {
        None
    } else {
        let e = stage_entry(stages.last());
        if e is Some && e.unwrap().0 == sid {
            Some(e.unwrap().1)
        } else {
            stage_name_of(stages.drop_last(), sid)
        }
    }
}

/// The stage name the table shows for `sid`: its name, or `-` when no stage has it.
pub open spec fn stage_label_text(stages: Seq<JsonView>, sid: Seq<char>) -> Seq<char> {
    match stage_name_of(stages, sid) {
        Some(n) => n,
        None => "-"@,
    }
}

/// The name of the stage whose id is `stage_id`, or `-`.
pub fn stage_label(stages: &Vec<Json>, stage_id: &str) -> (r: String)
    ensures
        r@ == stage_label_text(items_view(stages@), stage_id@),
{
    let ghost sv = items_view(stages@);
    proof {
        lemma_items_view(stages@);
    }
    let mut j: usize = stages.len();
    assert(sv.take(j as int) =~= sv);
    while j > 0
        invariant
            sv == items_view(stages@),
            sv == stages@.map_values(|x: Json| x@),
            j <= stages@.len(),
            stage_name_of(sv, stage_id@) == stage_name_of(sv.take(j as int), stage_id@),
        decreases j,
    {
        assert(sv.take(j as int).last() == stages@[j - 1]@);
        assert(sv.take(j as int).drop_last() =~= sv.take(j - 1));
        match (stages[j - 1].get("id"), stages[j - 1].get("name")) {
            (Some(Json::Str(id)), Some(Json::Str(name))) => {
                if same_text(id.as_str(), stage_id) {
                    return name.clone();
                }
            },
            _ => {},
        }
        j = j - 1;
    }
    String::from_str("-")
}

/// A row of the sales table.
pub struct SalesRow {
    pub name: String,
    pub rut: String,
    pub email: String,
    pub company: String,
    pub stage: String,
}

/// The text under `key`, or `-`.
pub open spec fn text_or_dash(p: JsonView, key: Seq<char>) -> Seq<char> {
    match field_of(p, key) {
        Some(JsonView::Str(s)) => s,
        _ => "-"@,
    }
}

/// The row of the sales table for `prospect`: its full name; its RUT, email and school,
/// each `-` when missing; and the name of its stage among `stages`, or `-`.
pub fn sales_row(prospect: &Json, stages: &Vec<Json>) -> (r: SalesRow)
    ensures
        r.name@ == full_name(prospect@),
        r.rut@ == text_or_dash(prospect@, "rut"@),
        r.email@ == text_or_dash(prospect@, "email"@),
        r.company@ == text_or_dash(prospect@, "company"@),
        r.stage@ == stage_label_text(items_view(stages@), stage_of(prospect@)),
{
    let stage_id = text_field(prospect, "current_stage_id");
    SalesRow {
        name: full_name_of(prospect),
        rut: text_field_or(prospect, "rut", "-"),
        email: text_field_or(prospect, "email", "-"),
        company: text_field_or(prospect, "company", "-"),
        stage: stage_label(stages, stage_id.as_str()),
    }
}

/// The icon of an activity of the given kind in a prospect's timeline.
pub open spec fn activity_icon_text(kind: Seq<char>) -> Seq<char> {
    if kind == "call"@ {
        "\u{260E}"@
    } else if kind == "email"@ {
        "\u{2709}"@
    } else if kind == "whatsapp"@ {
        "\u{1F4AC}"@
    } else if kind == "meeting"@ {
        "\u{1F91D}"@
    } else if kind == "proposal"@ {
        "\u{1F4C4}"@
    } else if kind == "contract"@ {
        "\u{1F4C3}"@
    } else if kind == "activation"@ {
        "\u{2705}"@
    } else if kind == "stage_change"@ {
        "\u{1F500}"@
    } else if kind == "assign"@ {
        "\u{1F464}"@
    } else {
        "\u{1F4CB}"@
    }
}

/// Each kind of activity has its own icon in the timeline: a telephone for calls, an
/// envelope for emails, a speech balloon for WhatsApp messages, a handshake for
/// meetings, a page for proposals, a curled page for contracts, a check mark for
/// activations, crossed arrows for stage changes, a bust for assignments, and a
/// clipboard for any other kind.
pub proof fn icon_by_activity_kind(kind: Seq<char>)
    ensures
        kind == "call"@ ==> activity_icon_text(kind) == "\u{260E}"@,
        kind == "email"@ ==> activity_icon_text(kind) == "\u{2709}"@,
        kind == "whatsapp"@ ==> activity_icon_text(kind) == "\u{1F4AC}"@,
        kind == "meeting"@ ==> activity_icon_text(kind) == "\u{1F91D}"@,
        kind == "proposal"@ ==> activity_icon_text(kind) == "\u{1F4C4}"@,
        kind == "contract"@ ==> activity_icon_text(kind) == "\u{1F4C3}"@,
        kind == "activation"@ ==> activity_icon_text(kind) == "\u{2705}"@,
        kind == "stage_change"@ ==> activity_icon_text(kind) == "\u{1F500}"@,
        kind == "assign"@ ==> activity_icon_text(kind) == "\u{1F464}"@,
        !(kind == "call"@ || kind == "email"@ || kind == "whatsapp"@ || kind == "meeting"@ || kind == "proposal"@ || kind == "contract"@ || kind == "activation"@ || kind == "stage_change"@ || kind == "assign"@) ==> activity_icon_text(kind)
            == "\u{1F4CB}"@,
{
    reveal_strlit("call");
    reveal_strlit("email");
    reveal_strlit("whatsapp");
    reveal_strlit("meeting");
    reveal_strlit("proposal");
    reveal_strlit("contract");
    reveal_strlit("activation");
    reveal_strlit("stage_change");
    reveal_strlit("assign");
    assert("call"@ != "email"@) by {
        assert("call"@[0] != "email"@[0]);
    }
    assert("call"@ != "whatsapp"@) by {
        assert("call"@[0] != "whatsapp"@[0]);
    }
    assert("call"@ != "meeting"@) by {
        assert("call"@[0] != "meeting"@[0]);
    }
    assert("call"@ != "proposal"@) by {
        assert("call"@[0] != "proposal"@[0]);
    }
    assert("call"@ != "contract"@) by {
        assert("call"@[1] != "contract"@[1]);
    }
    assert("call"@ != "activation"@) by {
        assert("call"@[0] != "activation"@[0]);
    }
    assert("call"@ != "stage_change"@) by {
        assert("call"@[0] != "stage_change"@[0]);
    }
    assert("call"@ != "assign"@) by {
        assert("call"@[0] != "assign"@[0]);
    }
    assert("email"@ != "whatsapp"@) by {
        assert("email"@[0] != "whatsapp"@[0]);
    }
    assert("email"@ != "meeting"@) by {
        assert("email"@[0] != "meeting"@[0]);
    }
    assert("email"@ != "proposal"@) by {
        assert("email"@[0] != "proposal"@[0]);
    }
    assert("email"@ != "contract"@) by {
        assert("email"@[0] != "contract"@[0]);
    }
    assert("email"@ != "activation"@) by {
        assert("email"@[0] != "activation"@[0]);
    }
    assert("email"@ != "stage_change"@) by {
        assert("email"@[0] != "stage_change"@[0]);
    }
    assert("email"@ != "assign"@) by {
        assert("email"@[0] != "assign"@[0]);
    }
    assert("whatsapp"@ != "meeting"@) by {
        assert("whatsapp"@[0] != "meeting"@[0]);
    }
    assert("whatsapp"@ != "proposal"@) by {
        assert("whatsapp"@[0] != "proposal"@[0]);
    }
    assert("whatsapp"@ != "contract"@) by {
        assert("whatsapp"@[0] != "contract"@[0]);
    }
    assert("whatsapp"@ != "activation"@) by {
        assert("whatsapp"@[0] != "activation"@[0]);
    }
    assert("whatsapp"@ != "stage_change"@) by {
        assert("whatsapp"@[0] != "stage_change"@[0]);
    }
    assert("whatsapp"@ != "assign"@) by {
        assert("whatsapp"@[0] != "assign"@[0]);
    }
    assert("meeting"@ != "proposal"@) by {
        assert("meeting"@[0] != "proposal"@[0]);
    }
    assert("meeting"@ != "contract"@) by {
        assert("meeting"@[0] != "contract"@[0]);
    }
    assert("meeting"@ != "activation"@) by {
        assert("meeting"@[0] != "activation"@[0]);
    }
    assert("meeting"@ != "stage_change"@) by {
        assert("meeting"@[0] != "stage_change"@[0]);
    }
    assert("meeting"@ != "assign"@) by {
        assert("meeting"@[0] != "assign"@[0]);
    }
    assert("proposal"@ != "contract"@) by {
        assert("proposal"@[0] != "contract"@[0]);
    }
    assert("proposal"@ != "activation"@) by {
        assert("proposal"@[0] != "activation"@[0]);
    }
    assert("proposal"@ != "stage_change"@) by {
        assert("proposal"@[0] != "stage_change"@[0]);
    }
    assert("proposal"@ != "assign"@) by {
        assert("proposal"@[0] != "assign"@[0]);
    }
    assert("contract"@ != "activation"@) by {
        assert("contract"@[0] != "activation"@[0]);
    }
    assert("contract"@ != "stage_change"@) by {
        assert("contract"@[0] != "stage_change"@[0]);
    }
    assert("contract"@ != "assign"@) by {
        assert("contract"@[0] != "assign"@[0]);
    }
    assert("activation"@ != "stage_change"@) by {
        assert("activation"@[0] != "stage_change"@[0]);
    }
    assert("activation"@ != "assign"@) by {
        assert("activation"@[1] != "assign"@[1]);
    }
    assert("stage_change"@ != "assign"@) by {
        assert("stage_change"@[0] != "assign"@[0]);
    }
}

/// The icon of an activity of kind `kind`.
pub fn activity_icon(kind: &str) -> (r: String)
    ensures
        r@ == activity_icon_text(kind@),
        kind@ == "call"@ ==> r@ == "\u{260E}"@,
        kind@ == "email"@ ==> r@ == "\u{2709}"@,
        kind@ == "whatsapp"@ ==> r@ == "\u{1F4AC}"@,
        kind@ == "meeting"@ ==> r@ == "\u{1F91D}"@,
        kind@ == "proposal"@ ==> r@ == "\u{1F4C4}"@,
        kind@ == "contract"@ ==> r@ == "\u{1F4C3}"@,
        kind@ == "activation"@ ==> r@ == "\u{2705}"@,
        kind@ == "stage_change"@ ==> r@ == "\u{1F500}"@,
        kind@ == "assign"@ ==> r@ == "\u{1F464}"@,
        !(kind@ == "call"@ || kind@ == "email"@ || kind@ == "whatsapp"@ || kind@ == "meeting"@ || kind@ == "proposal"@ || kind@ == "contract"@ || kind@ == "activation"@ || kind@ == "stage_change"@ || kind@ == "assign"@) ==> r@ == "\u{1F4CB}"@,
{
    proof {
        icon_by_activity_kind(kind@);
    }
    if same_text(kind, "call") {
        String::from_str("\u{260E}")
    } else if same_text(kind, "email") {
        String::from_str("\u{2709}")
    } else if same_text(kind, "whatsapp") {
        String::from_str("\u{1F4AC}")
    } else if same_text(kind, "meeting") {
        String::from_str("\u{1F91D}")
    } else if same_text(kind, "proposal") {
        String::from_str("\u{1F4C4}")
    } else if same_text(kind, "contract") {
        String::from_str("\u{1F4C3}")
    } else if same_text(kind, "activation") {
        String::from_str("\u{2705}")
    } else if same_text(kind, "stage_change") {
        String::from_str("\u{1F500}")
    } else if same_text(kind, "assign") {
        String::from_str("\u{1F464}")
    } else {
        String::from_str("\u{1F4CB}")
    }
}

/// Whether a contract can have its license activated: its status (`draft` when missing)
/// is `verified`.
pub fn contract_can_activate(contract: &Json) -> (r: bool)
    ensures
        r == (match field_of(contract@, "status"@) {
            Some(JsonView::Str(s)) => s,
            _ => "draft"@,
        } == "verified"@),
{
    let status = text_field_or(contract, "status", "draft");
    same_text(status.as_str(), "verified")
}

/// The count of a stage of the admission metrics (0 when missing).
pub open spec fn metric_count(stage: JsonView) -> i64 {
    match crate::json::int_under(stage, "count"@) {
        Some(n) => n,
        None => 0,
    }
}

/// The largest stage count of the admission metrics, and at least 1: the length of the
/// longest bar.
pub open spec fn longest_count(stages: Seq<JsonView>) -> i64
    decreases stages.len(),
{
    if stages.len() == 0 {
        1
    } else {
        let front = longest_count(stages.drop_last());
        let c = metric_count(stages.last());
        if c > front {
            c
        } else {
            front
        }
    }
}

/// The count that a full bar of the admission metrics stands for.
pub fn longest_stage_count(stages: &Vec<Json>) -> (r: i64)
    ensures
        r == longest_count(items_view(stages@)),
        r >= 1,
        forall|i: int| 0 <= i < stages@.len() ==> metric_count(#[trigger] stages@[i]@) <= r,
{
    let ghost sv = items_view(stages@);
    proof {
        lemma_items_view(stages@);
    }
    let mut best: i64 = 1;
    let mut i: usize = 0;
    while i < stages.len()
        invariant
            sv == items_view(stages@),
            sv == stages@.map_values(|j: Json| j@),
            i <= stages@.len(),
            best == longest_count(sv.take(i as int)),
            best >= 1,
            forall|k: int| 0 <= k < i ==> metric_count(#[trigger] stages@[k]@) <= best,
        decreases stages@.len() - i,
    {
        assert(sv.take(i + 1).drop_last() =~= sv.take(i as int));
        assert(sv.take(i + 1).last() == stages@[i as int]@);
        let c = crate::json::int_field_or(&stages[i], "count", 0);
        if c > best {
            best = c;
        }
        i = i + 1;
    }
    assert(sv.take(stages@.len() as int) =~= sv);
    best
}

} // verus!
