//! The `jwt_token` session cookie: how the web client writes it, how the gateway reads it
//! back out of a `Cookie` header, and how the client tests for it.
use vstd::prelude::*;
use vstd::string::StringExecFns;
use crate::text::{
    chars_of, has_char, has_prefix, has_prefix_chars, is_white_space, lemma_split_without_sep,
    slice_chars, split_chars, split_on, string_of, trim, trim_chars, views,
};

verus! {

/// The text that starts the session cookie piece: its name and `=`.
pub open spec fn jwt_cookie_prefix() -> Seq<char> {
    "jwt_token="@
}

/// The attributes that the web client writes after the token.
pub open spec fn session_cookie_attributes() -> Seq<char> {
    "; Path=/; SameSite=Lax; Max-Age=43200"@
}

/// The cookie text that the web client writes for `token`.
pub open spec fn session_cookie_text(token: Seq<char>) -> Seq<char> {
    jwt_cookie_prefix() + token + session_cookie_attributes()
}

/// The token of the first piece that, once trimmed, starts with `jwt_token=`.
pub open spec fn first_jwt(pieces: Seq<Seq<char>>) -> Option<Seq<char>>
    decreases pieces.len(),
{
    if pieces.len() == 0 {
        None
    } else {
        let t = trim(pieces[0]);
        if has_prefix(t, jwt_cookie_prefix()) {
            Some(t.skip(jwt_cookie_prefix().len() as int))
        } else {
            first_jwt(pieces.drop_first())
        }
    }
}

/// The session token in a cookie text: the pieces between `;` are trimmed, and the
/// first that starts with `jwt_token=` gives the rest of it, which may be empty.
pub open spec fn cookie_jwt(cookie: Seq<char>) -> Option<Seq<char>> {
    first_jwt(split_on(cookie, ';'))
}

/// Whether a cookie piece, trimmed, is `jwt_token=` followed by at least one character.
pub open spec fn names_nonempty_jwt(piece: Seq<char>) -> bool {
    has_prefix(trim(piece), jwt_cookie_prefix()) && trim(piece).len()
        > jwt_cookie_prefix().len()
}

/// Whether some piece of the cookie text carries a non-empty session token.
pub open spec fn cookie_has_jwt(cookie: Seq<char>) -> bool {
    exists|i: int|
        0 <= i < split_on(cookie, ';').len() && #[trigger] names_nonempty_jwt(
            split_on(cookie, ';')[i],
        )
}

/// The session token that a cookie text carries, if a piece names `jwt_token`.
pub fn jwt_from_cookie(cookie: &str) -> (r: Option<String>)
    ensures
        match r {
            Some(t) => cookie_jwt(cookie@) == Some(t@),
            None => cookie_jwt(cookie@) is None,
        },
{
    let cs = chars_of(cookie);
    let pieces = split_chars(&cs, ';');
    let prefix = chars_of("jwt_token=");
    let ghost all = views(pieces@);
    let mut k: usize = 0;
    assert(all.skip(0) =~= all);
    while k < pieces.len()
        invariant
            all == views(pieces@),
            all == split_on(cs@, ';'),
            cs@ == cookie@,
            prefix@ == jwt_cookie_prefix(),
            k <= pieces@.len(),
            first_jwt(all) == first_jwt(all.skip(k as int)),
        decreases pieces@.len() - k,
    {
        let t = trim_chars(&pieces[k]);
        assert(all.skip(k as int)[0] == pieces@[k as int]@);
        if has_prefix_chars(&t, &prefix) {
            let rest = slice_chars(&t, prefix.len(), t.len());
            assert(rest@ =~= t@.skip(prefix@.len() as int));
            return Some(string_of(rest.as_slice()));
        }
        assert(all.skip(k as int).drop_first() =~= all.skip(k + 1));
        k = k + 1;
    }
    None
}

/// Whether some piece of the cookie text carries a non-empty session token.
pub fn has_jwt_token(cookie: &str) -> (r: bool)
    ensures
        r == cookie_has_jwt(cookie@),
{
    let cs = chars_of(cookie);
    let pieces = split_chars(&cs, ';');
    let prefix = chars_of("jwt_token=");
    let ghost all = views(pieces@);
    let mut k: usize = 0;
    while k < pieces.len()
        invariant
            all == views(pieces@),
            all == split_on(cs@, ';'),
            cs@ == cookie@,
            prefix@ == jwt_cookie_prefix(),
            k <= pieces@.len(),
            forall|j: int| 0 <= j < k ==> !names_nonempty_jwt(#[trigger] all[j]),
        decreases pieces@.len() - k,
    {
        let t = trim_chars(&pieces[k]);
        assert(all[k as int] == pieces@[k as int]@);
        if has_prefix_chars(&t, &prefix) && t.len() > prefix.len() {
            assert(names_nonempty_jwt(all[k as int]));
            return true;
        }
        k = k + 1;
    }
    false
}

/// The cookie text that the web client writes once it holds a session token.
pub fn session_cookie(token: &str) -> (r: String)
    ensures
        r@ == session_cookie_text(token@),
{
    let mut r = String::from_str("jwt_token=");
    r.append(token);
    r.append("; Path=/; SameSite=Lax; Max-Age=43200");
    r
}

proof fn lemma_first_jwt_found(pieces: Seq<Seq<char>>, i: int)
    requires
        0 <= i < pieces.len(),
        has_prefix(trim(pieces[i]), jwt_cookie_prefix()),
    ensures
        first_jwt(pieces) is Some,
    decreases pieces.len(),
{
    if i > 0 && !has_prefix(trim(pieces[0]), jwt_cookie_prefix()) {
        lemma_first_jwt_found(pieces.drop_first(), i - 1);
    }
}

proof fn lemma_first_jwt_witness(pieces: Seq<Seq<char>>, t: Seq<char>)
    requires
        first_jwt(pieces) == Some(t),
    ensures
        exists|i: int|
            0 <= i < pieces.len() && has_prefix(trim(#[trigger] pieces[i]), jwt_cookie_prefix())
                && trim(pieces[i]).skip(jwt_cookie_prefix().len() as int) == t,
    decreases pieces.len(),
{
    if !has_prefix(trim(pieces[0]), jwt_cookie_prefix()) {
        lemma_first_jwt_witness(pieces.drop_first(), t);
        let i = choose|i: int|
            0 <= i < pieces.drop_first().len() && has_prefix(
                trim(#[trigger] pieces.drop_first()[i]),
                jwt_cookie_prefix(),
            ) && trim(pieces.drop_first()[i]).skip(jwt_cookie_prefix().len() as int) == t;
        assert(pieces[i + 1] == pieces.drop_first()[i]);
    } else {
        assert(pieces[0] == pieces[0]);
    }
}

/// Presence and extraction agree: a cookie that carries a non-empty session token
/// yields a token when read, and a cookie read as a non-empty token carries one.
pub proof fn jwt_presence_agrees_with_extraction(cookie: Seq<char>)
    ensures
        cookie_has_jwt(cookie) ==> cookie_jwt(cookie) is Some,
        (cookie_jwt(cookie) matches Some(t) && t.len() > 0) ==> cookie_has_jwt(cookie),
{
    let pieces = split_on(cookie, ';');
    if cookie_has_jwt(cookie) {
        let i = choose|i: int| 0 <= i < pieces.len() && #[trigger] names_nonempty_jwt(pieces[i]);
        lemma_first_jwt_found(pieces, i);
    }
    if let Some(t) = cookie_jwt(cookie) {
        if t.len() > 0 {
            lemma_first_jwt_witness(pieces, t);
            let i = choose|i: int|
                0 <= i < pieces.len() && has_prefix(trim(#[trigger] pieces[i]), jwt_cookie_prefix())
                    && trim(pieces[i]).skip(jwt_cookie_prefix().len() as int) == t;
            assert(names_nonempty_jwt(pieces[i]));
        }
    }
}

proof fn lemma_split_first_piece(s: Seq<char>, sep: char, k: int)
    requires
        0 <= k < s.len(),
        s[k] == sep,
        !has_char(s.take(k), sep),
    ensures
        split_on(s, sep).len() >= 2,
        split_on(s, sep)[0] == s.take(k),
    decreases s.len(),
{
    let d = s.drop_last();
    if k == s.len() - 1 {
        assert(d =~= s.take(k));
        lemma_split_without_sep(d, sep);
    } else {
        assert(d.take(k) =~= s.take(k));
        lemma_split_first_piece(d, sep, k);
        assert(d[k] == sep);
    }
}

proof fn lemma_trim_keeps(s: Seq<char>)
    requires
        s.len() > 0,
        !is_white_space(s[0]),
        !is_white_space(s.last()),
    ensures
        trim(s) == s,
{
}

/// What the web client writes is what the gateway reads: the session cookie written for a
/// token without `;` and without trailing white space yields that token again, and when
/// the token is not empty the client's own test finds it.
pub proof fn session_cookie_reads_back(token: Seq<char>)
    requires
        !has_char(token, ';'),
        token.len() == 0 || !is_white_space(token.last()),
    ensures
        cookie_jwt(session_cookie_text(token)) == Some(token),
        token.len() > 0 ==> cookie_has_jwt(session_cookie_text(token)),
{
    reveal_strlit("jwt_token=");
    reveal_strlit("; Path=/; SameSite=Lax; Max-Age=43200");
    let p = jwt_cookie_prefix();
    let a = session_cookie_attributes();
    let c = session_cookie_text(token);
    let first = p + token;
    let k = first.len() as int;
    assert(c =~= first + a);
    assert(c[k] == ';');
    assert(c.take(k) =~= first);
    assert(!has_char(first, ';')) by {
        if has_char(first, ';') {
            let i = choose|i: int| 0 <= i < first.len() && first[i] == ';';
            if i >= p.len() {
                assert(token[i - p.len()] == ';');
            }
        }
    }
    lemma_split_first_piece(c, ';', k);
    let pieces = split_on(c, ';');
    assert(first[0] == 'j');
    assert(first.last() == '=' || first.last() == token.last());
    lemma_trim_keeps(first);
    assert(first.take(p.len() as int) =~= p);
    assert(first.skip(p.len() as int) =~= token);
    assert(cookie_jwt(c) == Some(token));
    if token.len() > 0 {
        assert(names_nonempty_jwt(pieces[0]));
    }
}

} // verus!
