//! The finance tabs: when the student search asks the server, when a fee, payment or
//! scholarship form can be saved, the texts of their rows, and where an online payment
//! goes. Amounts are decimal numbers and are read and shown by the page itself.
use vstd::prelude::*;
use vstd::string::StringExecFns;
use crate::json::{Json, JsonView, field_of, flag_under, text_field, text_field_or, text_or_empty};

verus! {

/// Whether typing `query` in a student search asks the server: it does from two bytes on;
/// a shorter query shows no students.
pub fn student_search_asks(query: &str) -> (r: bool)
    ensures
        r == (query.len() >= 2),
{
    query.len() >= 2
}

/// Whether a fee can be saved: a student is chosen and neither the description nor the
/// amount is empty.
pub fn fee_form_ready(student_chosen: bool, description: &str, amount: &str) -> (r: bool)
    ensures
        r == (student_chosen && description@.len() > 0 && amount@.len() > 0),
{
    student_chosen && !description.is_empty() && !amount.is_empty()
}

/// Whether a payment can be saved: a student is chosen and the amount is not empty.
pub fn payment_form_ready(student_chosen: bool, amount: &str) -> (r: bool)
    ensures
        r == (student_chosen && amount@.len() > 0),
{
    student_chosen && !amount.is_empty()
}

/// Whether a scholarship can be saved: a student is chosen and neither its name nor its
/// discount is empty.
pub fn scholarship_form_ready(student_chosen: bool, name: &str, discount: &str) -> (r: bool)
    ensures
        r == (student_chosen && name@.len() > 0 && discount@.len() > 0),
{
    student_chosen && !name.is_empty() && !discount.is_empty()
}

/// The payment method a new payment starts with.
pub fn default_payment_method() -> (r: String)
    ensures
        r@ == "Efectivo"@,
{
    String::from_str("Efectivo")
}

/// The text under `key`, or `-`.
pub open spec fn text_or_dash(v: JsonView, key: Seq<char>) -> Seq<char> {
    match field_of(v, key) {
        Some(JsonView::Str(s)) => s,
        _ => "-"@,
    }
}

/// The texts of a fee's row: its id, student (`-` when missing), description and due
/// date, and whether it was paid (not unless it says so).
pub struct FeeRow {
    pub id: String,
    pub student: String,
    pub description: String,
    pub due: String,
    pub paid: bool,
}

/// The row of fee `fee`.
pub fn fee_row(fee: &Json) -> (r: FeeRow)
    ensures
        r.id@ == text_or_empty(fee@, "id"@),
        r.student@ == text_or_dash(fee@, "student_id"@),
        r.description@ == text_or_empty(fee@, "description"@),
        r.due@ == text_or_empty(fee@, "due_date"@),
        r.paid == (flag_under(fee@, "paid"@) == Some(true)),
{
    FeeRow {
        id: text_field(fee, "id"),
        student: text_field_or(fee, "student_id", "-"),
        description: text_field(fee, "description"),
        due: text_field(fee, "due_date"),
        paid: match fee.get("paid") {
            Some(Json::Bool(b)) => *b,
            _ => false,
        },
    }
}

/// The texts of a payment's row: its student and reference (`-` when missing), and its
/// date and method.
pub struct PaymentRow {
    pub student: String,
    pub date: String,
    pub method: String,
    pub reference: String,
}

/// The row of payment `p`.
pub fn payment_row(p: &Json) -> (r: PaymentRow)
    ensures
        r.student@ == text_or_dash(p@, "student_id"@),
        r.date@ == text_or_empty(p@, "payment_date"@),
        r.method@ == text_or_empty(p@, "payment_method"@),
        r.reference@ == text_or_dash(p@, "reference"@),
{
    PaymentRow {
        student: text_field_or(p, "student_id", "-"),
        date: text_field(p, "payment_date"),
        method: text_field(p, "payment_method"),
        reference: text_field_or(p, "reference", "-"),
    }
}

/// The texts of a scholarship's row: its id, student (`-` when missing), name, validity
/// and whether it was approved (not unless it says so).
pub struct ScholarshipRow {
    pub id: String,
    pub student: String,
    pub name: String,
    pub valid_from: String,
    pub valid_until: String,
    pub approved: bool,
}

/// The row of scholarship `s`.
pub fn scholarship_row(s: &Json) -> (r: ScholarshipRow)
    ensures
        r.id@ == text_or_empty(s@, "id"@),
        r.student@ == text_or_dash(s@, "student_id"@),
        r.name@ == text_or_empty(s@, "name"@),
        r.valid_from@ == text_or_empty(s@, "valid_from"@),
        r.valid_until@ == text_or_empty(s@, "valid_until"@),
        r.approved == (flag_under(s@, "approved"@) == Some(true)),
{
    ScholarshipRow {
        id: text_field(s, "id"),
        student: text_field_or(s, "student_id", "-"),
        name: text_field(s, "name"),
        valid_from: text_field(s, "valid_from"),
        valid_until: text_field(s, "valid_until"),
        approved: match s.get("approved") {
            Some(Json::Bool(b)) => *b,
            _ => false,
        },
    }
}

/// Where an online payment continues.
pub enum OnlinePayment {
    /// Open the payment page at this address.
    Redirect(String),
    /// The answer has no address: nothing happens.
    Stay,
    /// Tell the user that the request failed.
    Alert(String),
}

/// Where an online payment continues, given the server's answer: to the answer's `url`
/// text, nowhere when it has none, or to an alert `Error: ` and the error.
pub fn online_payment_outcome(res: &Result<Json, String>) -> (r: OnlinePayment)
    ensures
        match res {
            Ok(d) => match field_of(d@, "url"@) {
                Some(JsonView::Str(u)) => r matches OnlinePayment::Redirect(x) && x@ == u,
                _ => r is Stay,
            },
            Err(e) => r matches OnlinePayment::Alert(m) && m@ == "Error: "@ + e@,
        },
{
    match res {
        Ok(d) => match d.get("url") {
            Some(Json::Str(u)) => OnlinePayment::Redirect(u.clone()),
            _ => OnlinePayment::Stay,
        },
        Err(e) => {
            let mut m = String::from_str("Error: ");
            m.append(e.as_str());
            OnlinePayment::Alert(m)
        },
    }
}

} // verus!
