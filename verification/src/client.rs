//! Pure helpers of the web client: reading the login code out of the address, decoding
//! percent-encoded text, and the small text formats of its pages.
use vstd::prelude::*;
use vstd::string::{StringExecFns, StringSliceAdditionalSpecFns};
use vstd::utf8::{decode_utf8, encode_utf8};
use crate::graphql::{encode_byte, hex_digit, is_unreserved, url_encode};
use crate::text::{
    all_digits, chars_of, decimal_digits, decimal_value, digit_char, has_prefix, has_prefix_chars, lemma_decimal_prefix,
    push_char, slice_chars, split_chars, split_on, string_of, trim_start_char,
    trim_start_char_chars, views,
};

verus! {

/// The value of a hexadecimal digit, either case.
pub open spec fn hex_value(c: char) -> Option<u8> {
    if '0' <= c && c <= '9' {
        Some((c as u32 - 48) as u8)
    } else if 'a' <= c && c <= 'f' {
        Some((c as u32 - 87) as u8)
    } else if 'A' <= c && c <= 'F' {
        Some((c as u32 - 55) as u8)
    } else {
        None
    }
}

/// `u8::from_str_radix(h, 16)` for a text of at most two characters: a single leading
/// `+` is allowed before the digits, and an empty text, a lone `+` or a character that is
/// not a hexadecimal digit are errors.
pub open spec fn parse_hex_byte(h: Seq<char>) -> Option<u8>
    recommends
        h.len() <= 2,
{
    if h.len() == 0 {
        None
    } else if h[0] == '+' {
        if h.len() == 2 {
            hex_value(h[1])
        } else {
            None
        }
    } else if h.len() == 1 {
        hex_value(h[0])
    } else {
        match (hex_value(h[0]), hex_value(h[1])) {
            (Some(a), Some(b)) => Some((a * 16 + b) as u8),
            _ => None,
        }
    }
}

/// How many characters after a `%` the decoder takes: two, or what is left.
pub open spec fn escape_width(cs: Seq<char>) -> int {
    if cs.len() >= 3 {
        2
    } else {
        cs.len() - 1
    }
}

/// The decoding of a percent-encoded text: `%` takes up to two following characters and
/// writes the byte they give in hexadecimal as the character with that code (nothing
/// when they are no such byte), `+` becomes a space, and every other character stays.
pub open spec fn url_decode(cs: Seq<char>) -> Seq<char>
    decreases cs.len(),
{
    if cs.len() == 0 {
        Seq::<char>::empty()
    } else if cs[0] == '%' {
        let w = escape_width(cs);
        (match parse_hex_byte(cs.subrange(1, 1 + w)) {
            Some(b) => seq![b as char],
            None => Seq::<char>::empty(),
        }) + url_decode(cs.skip(1 + w))
    } else if cs[0] == '+' {
        seq![' '] + url_decode(cs.drop_first())
    } else {
        seq![cs[0]] + url_decode(cs.drop_first())
    }
}

fn hex_value_of(c: char) -> (r: Option<u8>)
    ensures
        r == hex_value(c),
{
    if '0' <= c && c <= '9' {
        Some((c as u32 - 48) as u8)
    } else if 'a' <= c && c <= 'f' {
        Some((c as u32 - 87) as u8)
    } else if 'A' <= c && c <= 'F' {
        Some((c as u32 - 55) as u8)
    } else {
        None
    }
}

fn parse_hex_byte_of(h: &Vec<char>) -> (r: Option<u8>)
    requires
        h@.len() <= 2,
    ensures
        r == parse_hex_byte(h@),
{
    if h.len() == 0 {
        None
    } else if h[0] == '+' {
        if h.len() == 2 {
            hex_value_of(h[1])
        } else {
            None
        }
    } else if h.len() == 1 {
        hex_value_of(h[0])
    } else {
        match (hex_value_of(h[0]), hex_value_of(h[1])) {
            (Some(a), Some(b)) => Some(a * 16 + b),
            _ => None,
        }
    }
}

/// Decodes percent-encoded text as the web client reads the login code.
pub fn urlencoding_decode(s: &str) -> (r: String)
    ensures
        r@ == url_decode(s@),
{
    let cs = chars_of(s);
    let mut r = String::new();
    let mut i: usize = 0;
    assert(cs@.skip(0) =~= cs@);
    while i < cs.len()
        invariant
            cs@ == s@,
            i <= cs@.len(),
            r@ + url_decode(cs@.skip(i as int)) == url_decode(cs@),
        decreases cs@.len() - i,
    {
        let ghost rest = cs@.skip(i as int);
        let ghost before = r@;
        let c = cs[i];
        assert(rest[0] == c);
        if c == '%' {
            let w: usize = if cs.len() - i >= 3 {
                2
            } else {
                cs.len() - i - 1
            };
            let h = slice_chars(&cs, i + 1, i + 1 + w);
            assert(h@ =~= rest.subrange(1, 1 + escape_width(rest)));
            match parse_hex_byte_of(&h) {
                Some(b) => {
                    push_char(&mut r, b as char);
                },
                None => {},
            }
            assert(rest.skip(1 + w) =~= cs@.skip(i + 1 + w));
            i = i + 1 + w;
        } else if c == '+' {
            push_char(&mut r, ' ');
            assert(rest.drop_first() =~= cs@.skip(i + 1));
            i = i + 1;
        } else {
            push_char(&mut r, c);
            assert(rest.drop_first() =~= cs@.skip(i + 1));
            i = i + 1;
        }
    }
    assert(cs@.skip(i as int) =~= Seq::<char>::empty());
    assert(r@ + url_decode(cs@.skip(i as int)) =~= r@);
    r
}

proof fn lemma_hex_digit_value(n: u8)
    requires
        n < 16,
    ensures
        hex_value(hex_digit(n)) == Some(n),
        hex_digit(n) != '+',
{
}

proof fn lemma_decode_encoded_byte(b: u8, rest: Seq<char>)
    ensures
        url_decode(encode_byte(b) + rest) == seq![b as char] + url_decode(rest),
{
    let e = encode_byte(b);
    let cs = e + rest;
    if is_unreserved(b) {
        assert(cs[0] == b as char);
        assert(cs.drop_first() =~= rest);
    } else {
        lemma_hex_digit_value(b / 16);
        lemma_hex_digit_value(b % 16);
        assert(cs.subrange(1, 3) =~= e.subrange(1, 3));
        assert(cs.skip(3) =~= rest);
        if b == 32 {
            assert(hex_value('2') == Some(2u8));
            assert(hex_value('0') == Some(0u8));
        }
        assert(parse_hex_byte(cs.subrange(1, 3)) == Some(b));
    }
}

/// Decoding undoes encoding: the percent-encoding of any bytes decodes to those bytes,
/// each read as the character with that code.
pub proof fn decoding_undoes_encoding(bytes: Seq<u8>)
    ensures
        url_decode(url_encode(bytes)) == bytes.map_values(|b: u8| b as char),
    decreases bytes.len(),
{
    if bytes.len() == 0 {
        assert(url_decode(url_encode(bytes)) =~= bytes.map_values(|b: u8| b as char));
    } else {
        decoding_undoes_encoding(bytes.drop_first());
        lemma_decode_encoded_byte(bytes[0], url_encode(bytes.drop_first()));
        assert(url_decode(url_encode(bytes)) =~= bytes.map_values(|b: u8| b as char));
    }
}

/// For ASCII text, decoding gives back exactly the text that was encoded.
pub proof fn ascii_text_round_trip(s: &str)
    requires
        vstd::string::is_ascii(s),
    ensures
        url_decode(url_encode(s.spec_bytes())) == s@,
{
    vstd::string::is_ascii_spec_bytes(s);
    decoding_undoes_encoding(s.spec_bytes());
    assert forall|i: int| 0 <= i < s@.len() implies ((s@[i] as u8) as char) == s@[i] by {
        assert('\0' <= s@[i] <= '\u{7f}');
    }
    assert(s.spec_bytes().map_values(|b: u8| b as char) =~= s@);
}

/// Whether `c` can stand in an encoded query value: an ASCII letter or digit, `-`, `_`,
/// `.`, `~` or `%`.
pub open spec fn is_url_safe(c: char) -> bool {
    ||| ('A' <= c && c <= 'Z')
    ||| ('a' <= c && c <= 'z')
    ||| ('0' <= c && c <= '9')
    ||| c == '-' || c == '_' || c == '.' || c == '~' || c == '%'
}

/// An encoded text holds only letters, digits, `-`, `_`, `.`, `~` and `%`: no `&`, `=`,
/// `+`, `#` or space that would end or change a query parameter.
pub proof fn encoding_is_query_safe(bytes: Seq<u8>)
    ensures
        forall|i: int| 0 <= i < url_encode(bytes).len() ==> is_url_safe(#[trigger] url_encode(bytes)[i]),
    decreases bytes.len(),
{
    if bytes.len() > 0 {
        encoding_is_query_safe(bytes.drop_first());
        let b = bytes[0];
        let e = encode_byte(b);
        let rest = url_encode(bytes.drop_first());
        assert forall|i: int| 0 <= i < e.len() implies is_url_safe(#[trigger] e[i]) by {
            if !is_unreserved(b) && b != 32 {
                lemma_hex_digit_value(b / 16);
                lemma_hex_digit_value(b % 16);
            }
        }
        assert forall|i: int| 0 <= i < url_encode(bytes).len() implies is_url_safe(
            #[trigger] url_encode(bytes)[i],
        ) by {
            if i < e.len() {
                assert(url_encode(bytes)[i] == e[i]);
            } else {
                assert(url_encode(bytes)[i] == rest[i - e.len()]);
            }
        }
    }
}

/// The `code=` parameter among the `&`-separated pieces: the rest of the first piece that
/// starts with it.
pub open spec fn first_code(pieces: Seq<Seq<char>>) -> Option<Seq<char>>
    decreases pieces.len(),
{
    if pieces.len() == 0 {
        None
    } else if has_prefix(pieces[0], "code="@) {
        Some(pieces[0].skip(5))
    } else {
        first_code(pieces.drop_first())
    }
}

/// The login code in the query part of the address: leading `?`s go, the first piece
/// between `&`s that starts with `code=` gives it, decoded; empty when there is none.
pub open spec fn login_code(search: Seq<char>) -> Seq<char> {
    match first_code(split_on(trim_start_char(search, '?'), '&')) {
        Some(v) => url_decode(v),
        None => Seq::<char>::empty(),
    }
}

/// The session page reads the code it was sent: for an address query `?code=` followed by
/// a value without `&`, the login code is that value, decoded.
pub proof fn login_code_reads_the_code(v: Seq<char>)
    requires
        !crate::text::has_char(v, '&'),
    ensures
        login_code(seq!['?'] + "code="@ + v) == url_decode(v),
{
    reveal_strlit("code=");
    let search = seq!['?'] + "code="@ + v;
    let rest = "code="@ + v;
    assert(search.drop_first() =~= rest);
    assert(trim_start_char(rest, '?') == rest);
    assert(trim_start_char(search, '?') == rest);
    assert(!crate::text::has_char(rest, '&')) by {
        if crate::text::has_char(rest, '&') {
            let i = choose|i: int| 0 <= i < rest.len() && rest[i] == '&';
            if i >= 5 {
                assert(v[i - 5] == '&');
            }
        }
    }
    crate::text::lemma_split_without_sep(rest, '&');
    assert(split_on(rest, '&') == seq![rest]);
    assert(rest.take(5) =~= "code="@);
    assert(rest.skip(5) =~= v);
    let pieces = seq![rest];
    assert(pieces.drop_first() =~= Seq::<Seq<char>>::empty());
    assert(first_code(pieces) == Some(v));
}

/// The login code that the session page reads out of the query part of its address.
pub fn session_code(search: &str) -> (r: String)
    ensures
        r@ == login_code(search@),
{
    proof {
        reveal_strlit("code=");
    }
    let cs = chars_of(search);
    let trimmed = trim_start_char_chars(&cs, '?');
    let pieces = split_chars(&trimmed, '&');
    let prefix = chars_of("code=");
    let ghost all = views(pieces@);
    let mut k: usize = 0;
    assert(all.skip(0) =~= all);
    while k < pieces.len()
        invariant
            all == views(pieces@),
            all == split_on(trim_start_char(search@, '?'), '&'),
            prefix@ == "code="@,
            prefix@.len() == 5,
            k <= pieces@.len(),
            first_code(all) == first_code(all.skip(k as int)),
        decreases pieces@.len() - k,
    {
        let p = &pieces[k];
        assert(all.skip(k as int)[0] == p@);
        if has_prefix_chars(p, &prefix) {
            let v = slice_chars(p, 5, p.len());
            assert(v@ =~= p@.skip(5));
            let text = string_of(v.as_slice());
            return urlencoding_decode(text.as_str());
        }
        assert(all.skip(k as int).drop_first() =~= all.skip(k + 1));
        k = k + 1;
    }
    String::new()
}

/// The first character of `s`, or `?` for the empty text; the pages show it as an avatar.
pub fn first_letter(s: &str) -> (r: String)
    ensures
        r@ == (if s@.len() > 0 {
            seq![s@[0]]
        } else {
            seq!['?']
        }),
{
    let cs = chars_of(s);
    let mut r = String::new();
    if cs.len() > 0 {
        push_char(&mut r, cs[0]);
    } else {
        push_char(&mut r, '?');
    }
    r
}

/// Whether a course of the given level needs a study plan: the last two years of
/// secondary school.
pub fn needs_plan(level: &str) -> (r: bool)
    ensures
        r == (level@ == "3° Medio"@ || level@ == "4° Medio"@),
{
    crate::text::same_text(level, "3° Medio") || crate::text::same_text(level, "4° Medio")
}

/// The document title for a page.
pub fn page_title(title: &str) -> (r: String)
    ensures
        r@ == title@ + " | SchoolCBB"@,
{
    let mut r = String::from_str(title);
    r.append(" | SchoolCBB");
    r
}

/// The description meta text for a page whose document title is `full_title`.
pub fn page_description(full_title: &str) -> (r: String)
    ensures
        r@ == "SchoolCBB - "@ + full_title@,
{
    let mut r = String::from_str("SchoolCBB - ");
    r.append(full_title);
    r
}

/// `s` when it has at most `max` bytes; otherwise its first `max` bytes followed by
/// `...`. The cut must fall between characters.
pub fn truncate(s: &str, max: usize) -> (r: String)
    requires
        s.len() <= max || s.is_char_boundary(max),
    ensures
        s.len() <= max ==> r@ == s@,
        s.len() > max ==> r@ == decode_utf8(s.spec_bytes().take(max as int))
            + "..."@,
{
    broadcast use vstd::utf8::group_utf8_lib;

    if s.len() <= max {
        String::from_str(s)
    } else {
        let (head, _) = s.split_at(max);
        assert(head.spec_bytes() =~= s.spec_bytes().take(max as int));
        assert(head.spec_bytes() == encode_utf8(head@));
        assert(decode_utf8(encode_utf8(head@)) == head@);
        assert(decode_utf8(s.spec_bytes().take(max as int)) == head@);
        let mut r = String::from_str(head);
        r.append("...");
        r
    }
}

/// The text that `format_date` shows for a date of at least ten bytes: bytes 8 to 10,
/// `/`, bytes 5 to 7, `/`, bytes 0 to 4 (`YYYY-MM-DD` becomes `DD/MM/YYYY`).
pub open spec fn day_month_year(b: Seq<u8>) -> Seq<char> {
    decode_utf8(b.subrange(8, 10)) + "/"@ + decode_utf8(b.subrange(5, 7)) + "/"@ + decode_utf8(
        b.subrange(0, 4),
    )
}

proof fn lemma_ascii_piece(d: Seq<char>, lo: int, hi: int)
    requires
        vstd::utf8::is_ascii_chars(d),
        0 <= lo <= hi <= d.len(),
    ensures
        decode_utf8(encode_utf8(d).subrange(lo, hi)) == d.subrange(lo, hi),
{
    let piece = d.subrange(lo, hi);
    assert(vstd::utf8::is_ascii_chars(piece)) by {
        assert forall|i: int| 0 <= i < piece.len() implies '\0' <= #[trigger] piece[i] <= '\u{7f}' by {
            assert(piece[i] == d[lo + i]);
        }
    }
    vstd::utf8::is_ascii_chars_encode_utf8(d);
    vstd::utf8::is_ascii_chars_encode_utf8(piece);
    assert(encode_utf8(d).subrange(lo, hi) =~= encode_utf8(piece)) by {
        assert forall|i: int| 0 <= i < hi - lo implies #[trigger] encode_utf8(d).subrange(lo, hi)[i]
            == encode_utf8(piece)[i] by {
            assert(piece[i] == d[lo + i]);
            assert(encode_utf8(d)[lo + i] == d[lo + i] as u8);
            assert(encode_utf8(piece)[i] == piece[i] as u8);
        }
    }
    vstd::utf8::encode_utf8_decode_utf8(piece);
}

/// A date is shown day first: for a text of plain characters whose first ten are
/// `YYYY-MM-DD`, the shown text is the two day characters, `/`, the two month
/// characters, `/`, and the four year characters; the month never takes the day's place.
pub proof fn dates_show_day_month_year(d: Seq<char>)
    requires
        vstd::utf8::is_ascii_chars(d),
        d.len() >= 10,
    ensures
        day_month_year(encode_utf8(d)) == d.subrange(8, 10) + "/"@ + d.subrange(5, 7) + "/"@ + d.subrange(0, 4),
{
    lemma_ascii_piece(d, 8, 10);
    lemma_ascii_piece(d, 5, 7);
    lemma_ascii_piece(d, 0, 4);
}

/// A date as the pages show it: `YYYY-MM-DD...` as `DD/MM/YYYY`, and a shorter text as it
/// is. The byte positions 4, 5, 7, 8 and 10 of a long enough text must fall between
/// characters.
pub fn format_date(date_str: &str) -> (r: String)
    requires
        date_str.len() < 10 || (date_str.is_char_boundary(4)
            && date_str.is_char_boundary(5) && date_str.is_char_boundary(7)
            && date_str.is_char_boundary(8) && date_str.is_char_boundary(10)),
    ensures
        date_str.len() < 10 ==> r@ == date_str@,
        date_str.len() >= 10 ==> r@ == day_month_year(date_str.spec_bytes()),
        date_str.len() >= 10 && vstd::utf8::is_ascii_chars(date_str@) ==> r@ == date_str@.subrange(8, 10) + "/"@
            + date_str@.subrange(5, 7) + "/"@ + date_str@.subrange(0, 4),
{
    proof {
        if date_str.len() >= 10 && vstd::utf8::is_ascii_chars(date_str@) {
            vstd::utf8::is_ascii_chars_encode_utf8(date_str@);
            if date_str@.len() >= 10 {
                dates_show_day_month_year(date_str@);
            }
        }
    }
    broadcast use vstd::utf8::group_utf8_lib;

    if date_str.len() >= 10 {
        let ghost b = date_str.spec_bytes();
        let (head, _) = date_str.split_at(10);
        let ghost hb = head.spec_bytes();
        proof {
            assert(hb =~= b.subrange(0, 10));
            vstd::utf8::encode_utf8_valid_utf8(date_str@);
            vstd::utf8::encode_utf8_valid_utf8(head@);
            vstd::utf8::is_char_boundary_iff_not_is_continuation_byte(b, 8);
            vstd::utf8::is_char_boundary_iff_not_is_continuation_byte(hb, 8);
            vstd::utf8::is_char_boundary_iff_not_is_continuation_byte(b, 7);
            vstd::utf8::is_char_boundary_iff_not_is_continuation_byte(hb, 7);
            vstd::utf8::is_char_boundary_iff_not_is_continuation_byte(b, 5);
            vstd::utf8::is_char_boundary_iff_not_is_continuation_byte(hb, 5);
            vstd::utf8::is_char_boundary_iff_not_is_continuation_byte(b, 4);
            vstd::utf8::is_char_boundary_iff_not_is_continuation_byte(hb, 4);
        }
        let (front, day) = head.split_at(8);
        let ghost fb = front.spec_bytes();
        proof {
            assert(fb =~= b.subrange(0, 8));
            assert(day.spec_bytes() =~= b.subrange(8, 10));
            vstd::utf8::encode_utf8_valid_utf8(front@);
            vstd::utf8::is_char_boundary_iff_not_is_continuation_byte(fb, 7);
            vstd::utf8::is_char_boundary_iff_not_is_continuation_byte(fb, 5);
            vstd::utf8::is_char_boundary_iff_not_is_continuation_byte(fb, 4);
        }
        let (front2, _) = front.split_at(7);
        let ghost f2 = front2.spec_bytes();
        proof {
            assert(f2 =~= b.subrange(0, 7));
            vstd::utf8::encode_utf8_valid_utf8(front2@);
            vstd::utf8::is_char_boundary_iff_not_is_continuation_byte(f2, 5);
            vstd::utf8::is_char_boundary_iff_not_is_continuation_byte(f2, 4);
        }
        let (front3, month) = front2.split_at(5);
        let ghost f3 = front3.spec_bytes();
        proof {
            assert(f3 =~= b.subrange(0, 5));
            assert(month.spec_bytes() =~= b.subrange(5, 7));
            vstd::utf8::encode_utf8_valid_utf8(front3@);
            vstd::utf8::is_char_boundary_iff_not_is_continuation_byte(f3, 4);
        }
        let (year, _) = front3.split_at(4);
        proof {
            assert(year.spec_bytes() =~= b.subrange(0, 4));
            assert(decode_utf8(encode_utf8(day@)) == day@);
            assert(decode_utf8(encode_utf8(month@)) == month@);
            assert(decode_utf8(encode_utf8(year@)) == year@);
            assert(decode_utf8(b.subrange(8, 10)) == day@);
            assert(decode_utf8(b.subrange(5, 7)) == month@);
            assert(decode_utf8(b.subrange(0, 4)) == year@);
        }
        let mut r = String::from_str(day);
        r.append("/");
        r.append(month);
        r.append("/");
        r.append(year);
        r
    } else {
        String::from_str(date_str)
    }
}

/// The characters after an optional leading `+`.
pub open spec fn unsigned_digits(cs: Seq<char>) -> Seq<char> {
    if cs.len() > 0 && cs[0] == '+' {
        cs.drop_first()
    } else {
        cs
    }
}

/// `str::parse::<u32>`: optional `+`, then at least one ASCII digit, and a value that fits.
pub open spec fn parse_u32(cs: Seq<char>) -> Option<u32> {
    let ds = unsigned_digits(cs);
    if ds.len() == 0 || !all_digits(ds) || decimal_value(ds) > u32::MAX {
        None
    } else {
        Some(decimal_value(ds) as u32)
    }
}

proof fn lemma_digits_read_back(n: nat)
    ensures
        decimal_digits(n).len() > 0,
        all_digits(decimal_digits(n)),
        decimal_value(decimal_digits(n)) == n,
    decreases n,
{
    let ds = decimal_digits(n);
    if n < 10 {
        assert(ds.drop_last() =~= Seq::<char>::empty());
        assert(digit_char(n) as nat == n + 48);
        assert(ds.last() == digit_char(n));
        assert(decimal_value(ds.drop_last()) == 0);
        assert(decimal_value(ds) == n);
    } else {
        lemma_digits_read_back(n / 10);
        let front = decimal_digits(n / 10);
        assert(ds.drop_last() =~= front);
        assert(digit_char(n % 10) as nat == n % 10 + 48);
        assert(ds.last() == digit_char(n % 10));
        assert(decimal_value(ds) == decimal_value(front) * 10 + (n % 10));
        assert((n / 10) * 10 + n % 10 == n) by (nonlinear_arith);
        assert(decimal_value(front) == n / 10);
        assert(decimal_value(ds) == n);
        assert forall|i: int| 0 <= i < ds.len() implies '0' <= #[trigger] ds[i] && ds[i] <= '9' by {
            if i < front.len() {
                assert(ds[i] == front[i]);
            }
        }
    }
}

/// A number written in decimal reads back as itself: `parse::<u32>` of the digits of any
/// `u32` gives that number.
pub proof fn written_numbers_read_back(n: u32)
    ensures
        parse_u32(decimal_digits(n as nat)) == Some(n),
{
    lemma_digits_read_back(n as nat);
    let ds = decimal_digits(n as nat);
    assert(ds[0] != '+');
    assert(unsigned_digits(ds) == ds);
}

/// `str::parse::<u32>` on a text given by its characters.
pub fn parse_u32_chars(cs: &Vec<char>) -> (r: Option<u32>)
    ensures
        r == parse_u32(cs@),
{
    let start: usize = if cs.len() > 0 && cs[0] == '+' {
        1
    } else {
        0
    };
    let ds = slice_chars(cs, start, cs.len());
    assert(ds@ =~= unsigned_digits(cs@));
    if ds.len() == 0 {
        return None;
    }
    let mut i: usize = 0;
    while i < ds.len()
        invariant
            ds@ == unsigned_digits(cs@),
            i <= ds@.len(),
            forall|j: int| 0 <= j < i ==> '0' <= #[trigger] ds@[j] && ds@[j] <= '9',
        decreases ds@.len() - i,
    {
        if !('0' <= ds[i] && ds[i] <= '9') {
            assert(!all_digits(ds@)) by {
                assert(!('0' <= ds@[i as int] && ds@[i as int] <= '9'));
            }
            return None;
        }
        i = i + 1;
    }
    let mut acc: u64 = 0;
    let mut k: usize = 0;
    assert(ds@.take(0) =~= Seq::<char>::empty());
    while k < ds.len()
        invariant
            ds@ == unsigned_digits(cs@),
            all_digits(ds@),
            k <= ds@.len(),
            acc == decimal_value(ds@.take(k as int)),
            acc <= u32::MAX,
        decreases ds@.len() - k,
    {
        assert(ds@.take(k + 1).drop_last() =~= ds@.take(k as int));
        assert(ds@.take(k + 1).last() == ds@[k as int]);
        let d: u64 = (ds[k] as u32 - 48) as u64;
        assert('0' <= ds@[k as int] && ds@[k as int] <= '9');
        acc = acc * 10 + d;
        k = k + 1;
        assert(acc == decimal_value(ds@.take(k as int)));
        if acc > 4294967295 {
            proof {
                lemma_decimal_prefix(ds@, k as int);
            }
            return None;
        }
    }
    assert(ds@.take(ds@.len() as int) =~= ds@);
    Some(acc as u32)
}

/// `str::parse::<i32>`: an optional `+` or `-`, then at least one ASCII digit, and a value
/// that fits.
pub open spec fn parse_i32(cs: Seq<char>) -> Option<i32> {
    let signed = cs.len() > 0 && (cs[0] == '-' || cs[0] == '+');
    let ds = if signed {
        cs.drop_first()
    } else {
        cs
    };
    let v: int = if cs.len() > 0 && cs[0] == '-' {
        -(decimal_value(ds) as int)
    } else {
        decimal_value(ds) as int
    };
    if ds.len() == 0 || !all_digits(ds) || v < i32::MIN || v > i32::MAX {
        None
    } else {
        Some(v as i32)
    }
}

/// A whole number written as `Display` writes it reads back as itself: `parse::<i32>` of
/// the decimal text of any `i32`, negative ones with their `-`, gives that number.
pub proof fn written_integers_read_back(n: i32)
    ensures
        parse_i32(crate::text::decimal_text(n as int)) == Some(n),
{
    let t = crate::text::decimal_text(n as int);
    if n < 0 {
        lemma_digits_read_back((-n) as nat);
        let ds = decimal_digits((-n) as nat);
        assert(t.drop_first() =~= ds);
        assert(t[0] == '-');
    } else {
        lemma_digits_read_back(n as nat);
        let ds = decimal_digits(n as nat);
        assert(t == ds);
        assert('0' <= ds[0] <= '9');
        assert(t[0] != '-' && t[0] != '+');
    }
}

/// `str::parse::<i32>`.
pub fn parse_i32_text(s: &str) -> (r: Option<i32>)
    ensures
        r == parse_i32(s@),
{
    let cs = chars_of(s);
    let negative: bool = cs.len() > 0 && cs[0] == '-';
    let start: usize = if cs.len() > 0 && (cs[0] == '-' || cs[0] == '+') {
        1
    } else {
        0
    };
    let ds = slice_chars(&cs, start, cs.len());
    assert(ds@ =~= (if start == 1 { s@.drop_first() } else { s@ }));
    if ds.len() == 0 {
        return None;
    }
    let mut i: usize = 0;
    while i < ds.len()
        invariant
            ds@ == (if s@.len() > 0 && (s@[0] == '-' || s@[0] == '+') {
                s@.drop_first()
            } else {
                s@
            }),
            negative == (s@.len() > 0 && s@[0] == '-'),
            i <= ds@.len(),
            forall|j: int| 0 <= j < i ==> '0' <= #[trigger] ds@[j] && ds@[j] <= '9',
        decreases ds@.len() - i,
    {
        if !('0' <= ds[i] && ds[i] <= '9') {
            assert(!all_digits(ds@)) by {
                assert(!('0' <= ds@[i as int] && ds@[i as int] <= '9'));
            }
            return None;
        }
        i = i + 1;
    }
    let mut acc: u64 = 0;
    let mut k: usize = 0;
    assert(ds@.take(0) =~= Seq::<char>::empty());
    while k < ds.len()
        invariant
            ds@ == (if s@.len() > 0 && (s@[0] == '-' || s@[0] == '+') {
                s@.drop_first()
            } else {
                s@
            }),
            negative == (s@.len() > 0 && s@[0] == '-'),
            ds@.len() > 0,
            all_digits(ds@),
            k <= ds@.len(),
            acc == decimal_value(ds@.take(k as int)),
            acc <= 2147483648,
        decreases ds@.len() - k,
    {
        assert(ds@.take(k + 1).drop_last() =~= ds@.take(k as int));
        assert(ds@.take(k + 1).last() == ds@[k as int]);
        let d: u64 = (ds[k] as u32 - 48) as u64;
        assert('0' <= ds@[k as int] && ds@[k as int] <= '9');
        acc = acc * 10 + d;
        k = k + 1;
        assert(acc == decimal_value(ds@.take(k as int)));
        if acc > 2147483648 {
            proof {
                lemma_decimal_prefix(ds@, k as int);
            }
            return None;
        }
    }
    assert(ds@.take(ds@.len() as int) =~= ds@);
    if negative {
        if acc == 2147483648 {
            Some(-2147483647i32 - 1)
        } else {
            Some(0i32 - (acc as i32))
        }
    } else if acc == 2147483648 {
        None
    } else {
        Some(acc as i32)
    }
}

/// The abbreviated Spanish month name for months 1 to 12, and `---` for any other number.
pub open spec fn month_abbrev(n: u32) -> Seq<char> {
    if n == 1 {
        "Ene"@
    } else if n == 2 {
        "Feb"@
    } else if n == 3 {
        "Mar"@
    } else if n == 4 {
        "Abr"@
    } else if n == 5 {
        "May"@
    } else if n == 6 {
        "Jun"@
    } else if n == 7 {
        "Jul"@
    } else if n == 8 {
        "Ago"@
    } else if n == 9 {
        "Sep"@
    } else if n == 10 {
        "Oct"@
    } else if n == 11 {
        "Nov"@
    } else if n == 12 {
        "Dic"@
    } else {
        "---"@
    }
}

/// The months are named in calendar order, January (`Ene`) through December (`Dic`), each
/// by its own name, and every number outside 1 to 12 by `---`.
pub proof fn months_in_calendar_order(a: u32, b: u32)
    ensures
        1 <= a <= 12 ==> month_abbrev(a) == seq!["Ene"@, "Feb"@, "Mar"@, "Abr"@, "May"@, "Jun"@, "Jul"@, "Ago"@, "Sep"@, "Oct"@, "Nov"@, "Dic"@][a - 1],
        !(1 <= a <= 12) ==> month_abbrev(a) == "---"@,
        1 <= a <= 12 && 1 <= b <= 12 && a != b ==> month_abbrev(a) != month_abbrev(b),
{
    reveal_strlit("Ene");
    reveal_strlit("Feb");
    reveal_strlit("Mar");
    reveal_strlit("Abr");
    reveal_strlit("May");
    reveal_strlit("Jun");
    reveal_strlit("Jul");
    reveal_strlit("Ago");
    reveal_strlit("Sep");
    reveal_strlit("Oct");
    reveal_strlit("Nov");
    reveal_strlit("Dic");
    assert("Ene"@ != "Feb"@) by {
        assert("Ene"@[0] != "Feb"@[0]);
    }
    assert("Ene"@ != "Mar"@) by {
        assert("Ene"@[0] != "Mar"@[0]);
    }
    assert("Ene"@ != "Abr"@) by {
        assert("Ene"@[0] != "Abr"@[0]);
    }
    assert("Ene"@ != "May"@) by {
        assert("Ene"@[0] != "May"@[0]);
    }
    assert("Ene"@ != "Jun"@) by {
        assert("Ene"@[0] != "Jun"@[0]);
    }
    assert("Ene"@ != "Jul"@) by {
        assert("Ene"@[0] != "Jul"@[0]);
    }
    assert("Ene"@ != "Ago"@) by {
        assert("Ene"@[0] != "Ago"@[0]);
    }
    assert("Ene"@ != "Sep"@) by {
        assert("Ene"@[0] != "Sep"@[0]);
    }
    assert("Ene"@ != "Oct"@) by {
        assert("Ene"@[0] != "Oct"@[0]);
    }
    assert("Ene"@ != "Nov"@) by {
        assert("Ene"@[0] != "Nov"@[0]);
    }
    assert("Ene"@ != "Dic"@) by {
        assert("Ene"@[0] != "Dic"@[0]);
    }
    assert("Feb"@ != "Mar"@) by {
        assert("Feb"@[0] != "Mar"@[0]);
    }
    assert("Feb"@ != "Abr"@) by {
        assert("Feb"@[0] != "Abr"@[0]);
    }
    assert("Feb"@ != "May"@) by {
        assert("Feb"@[0] != "May"@[0]);
    }
    assert("Feb"@ != "Jun"@) by {
        assert("Feb"@[0] != "Jun"@[0]);
    }
    assert("Feb"@ != "Jul"@) by {
        assert("Feb"@[0] != "Jul"@[0]);
    }
    assert("Feb"@ != "Ago"@) by {
        assert("Feb"@[0] != "Ago"@[0]);
    }
    assert("Feb"@ != "Sep"@) by {
        assert("Feb"@[0] != "Sep"@[0]);
    }
    assert("Feb"@ != "Oct"@) by {
        assert("Feb"@[0] != "Oct"@[0]);
    }
    assert("Feb"@ != "Nov"@) by {
        assert("Feb"@[0] != "Nov"@[0]);
    }
    assert("Feb"@ != "Dic"@) by {
        assert("Feb"@[0] != "Dic"@[0]);
    }
    assert("Mar"@ != "Abr"@) by {
        assert("Mar"@[0] != "Abr"@[0]);
    }
    assert("Mar"@ != "May"@) by {
        assert("Mar"@[2] != "May"@[2]);
    }
    assert("Mar"@ != "Jun"@) by {
        assert("Mar"@[0] != "Jun"@[0]);
    }
    assert("Mar"@ != "Jul"@) by {
        assert("Mar"@[0] != "Jul"@[0]);
    }
    assert("Mar"@ != "Ago"@) by {
        assert("Mar"@[0] != "Ago"@[0]);
    }
    assert("Mar"@ != "Sep"@) by {
        assert("Mar"@[0] != "Sep"@[0]);
    }
    assert("Mar"@ != "Oct"@) by {
        assert("Mar"@[0] != "Oct"@[0]);
    }
    assert("Mar"@ != "Nov"@) by {
        assert("Mar"@[0] != "Nov"@[0]);
    }
    assert("Mar"@ != "Dic"@) by {
        assert("Mar"@[0] != "Dic"@[0]);
    }
    assert("Abr"@ != "May"@) by {
        assert("Abr"@[0] != "May"@[0]);
    }
    assert("Abr"@ != "Jun"@) by {
        assert("Abr"@[0] != "Jun"@[0]);
    }
    assert("Abr"@ != "Jul"@) by {
        assert("Abr"@[0] != "Jul"@[0]);
    }
    assert("Abr"@ != "Ago"@) by {
        assert("Abr"@[1] != "Ago"@[1]);
    }
    assert("Abr"@ != "Sep"@) by {
        assert("Abr"@[0] != "Sep"@[0]);
    }
    assert("Abr"@ != "Oct"@) by {
        assert("Abr"@[0] != "Oct"@[0]);
    }
    assert("Abr"@ != "Nov"@) by {
        assert("Abr"@[0] != "Nov"@[0]);
    }
    assert("Abr"@ != "Dic"@) by {
        assert("Abr"@[0] != "Dic"@[0]);
    }
    assert("May"@ != "Jun"@) by {
        assert("May"@[0] != "Jun"@[0]);
    }
    assert("May"@ != "Jul"@) by {
        assert("May"@[0] != "Jul"@[0]);
    }
    assert("May"@ != "Ago"@) by {
        assert("May"@[0] != "Ago"@[0]);
    }
    assert("May"@ != "Sep"@) by {
        assert("May"@[0] != "Sep"@[0]);
    }
    assert("May"@ != "Oct"@) by {
        assert("May"@[0] != "Oct"@[0]);
    }
    assert("May"@ != "Nov"@) by {
        assert("May"@[0] != "Nov"@[0]);
    }
    assert("May"@ != "Dic"@) by {
        assert("May"@[0] != "Dic"@[0]);
    }
    assert("Jun"@ != "Jul"@) by {
        assert("Jun"@[2] != "Jul"@[2]);
    }
    assert("Jun"@ != "Ago"@) by {
        assert("Jun"@[0] != "Ago"@[0]);
    }
    assert("Jun"@ != "Sep"@) by {
        assert("Jun"@[0] != "Sep"@[0]);
    }
    assert("Jun"@ != "Oct"@) by {
        assert("Jun"@[0] != "Oct"@[0]);
    }
    assert("Jun"@ != "Nov"@) by {
        assert("Jun"@[0] != "Nov"@[0]);
    }
    assert("Jun"@ != "Dic"@) by {
        assert("Jun"@[0] != "Dic"@[0]);
    }
    assert("Jul"@ != "Ago"@) by {
        assert("Jul"@[0] != "Ago"@[0]);
    }
    assert("Jul"@ != "Sep"@) by {
        assert("Jul"@[0] != "Sep"@[0]);
    }
    assert("Jul"@ != "Oct"@) by {
        assert("Jul"@[0] != "Oct"@[0]);
    }
    assert("Jul"@ != "Nov"@) by {
        assert("Jul"@[0] != "Nov"@[0]);
    }
    assert("Jul"@ != "Dic"@) by {
        assert("Jul"@[0] != "Dic"@[0]);
    }
    assert("Ago"@ != "Sep"@) by {
        assert("Ago"@[0] != "Sep"@[0]);
    }
    assert("Ago"@ != "Oct"@) by {
        assert("Ago"@[0] != "Oct"@[0]);
    }
    assert("Ago"@ != "Nov"@) by {
        assert("Ago"@[0] != "Nov"@[0]);
    }
    assert("Ago"@ != "Dic"@) by {
        assert("Ago"@[0] != "Dic"@[0]);
    }
    assert("Sep"@ != "Oct"@) by {
        assert("Sep"@[0] != "Oct"@[0]);
    }
    assert("Sep"@ != "Nov"@) by {
        assert("Sep"@[0] != "Nov"@[0]);
    }
    assert("Sep"@ != "Dic"@) by {
        assert("Sep"@[0] != "Dic"@[0]);
    }
    assert("Oct"@ != "Nov"@) by {
        assert("Oct"@[0] != "Nov"@[0]);
    }
    assert("Oct"@ != "Dic"@) by {
        assert("Oct"@[0] != "Dic"@[0]);
    }
    assert("Nov"@ != "Dic"@) by {
        assert("Nov"@[0] != "Dic"@[0]);
    }
}

fn month_abbrev_of(n: u32) -> (r: String)
    ensures
        r@ == month_abbrev(n),
{
    let name = if n == 1 {
        "Ene"
    } else if n == 2 {
        "Feb"
    } else if n == 3 {
        "Mar"
    } else if n == 4 {
        "Abr"
    } else if n == 5 {
        "May"
    } else if n == 6 {
        "Jun"
    } else if n == 7 {
        "Jul"
    } else if n == 8 {
        "Ago"
    } else if n == 9 {
        "Sep"
    } else if n == 10 {
        "Oct"
    } else if n == 11 {
        "Nov"
    } else if n == 12 {
        "Dic"
    } else {
        "---"
    };
    String::from_str(name)
}

/// The month number that `parse_date` reads from the middle part: its value, or 1 when it
/// is no number.
pub open spec fn month_number(part: Seq<char>) -> u32 {
    match parse_u32(part) {
        Some(n) => n,
        None => 1,
    }
}

/// Day and abbreviated month of a `YYYY-MM-DD` date for the agenda: with exactly three
/// parts between `-`, the last part and the month name of the middle one (`---` outside 1
/// to 12, and month 1 when the middle is no number); otherwise `--` and `---`. A middle
/// part that reads as month 0 is left out: the month's position in the list of names is
/// the number less one, which does not exist for 0.
pub fn parse_date(date_str: &str) -> (r: (String, String))
    requires
        !(split_on(date_str@, '-').len() == 3 && parse_u32(split_on(date_str@, '-')[1]) == Some(
            0u32,
        )),
    ensures
        split_on(date_str@, '-').len() == 3 ==> r.0@ == split_on(date_str@, '-')[2] && r.1@
            == month_abbrev(month_number(split_on(date_str@, '-')[1])),
        split_on(date_str@, '-').len() != 3 ==> r.0@ == "--"@ && r.1@ == "---"@,
{
    let cs = chars_of(date_str);
    let parts = split_chars(&cs, '-');
    assert(views(parts@) == split_on(date_str@, '-'));
    if parts.len() == 3 {
        assert(parts@[2]@ == split_on(date_str@, '-')[2]);
        assert(parts@[1]@ == split_on(date_str@, '-')[1]);
        let day = string_of(parts[2].as_slice());
        let month_num: u32 = match parse_u32_chars(&parts[1]) {
            Some(n) => n,
            None => 1,
        };
        (day, month_abbrev_of(month_num))
    } else {
        (String::from_str("--"), String::from_str("---"))
    }
}

} // verus!
