use vstd::prelude::*;

use crate::lexer::{
    digit_run, is_digit, is_letter, is_whitespace, letter_run, scan_kind, scan_literal,
    scan_rest, skip_ws, token_kind, token_len,
};
use crate::token::TokenType;

verus! {

/// Every character of `w` is whitespace.
pub open spec fn all_whitespace(w: Seq<char>) -> bool {
    forall|i: int| 0 <= i < w.len() ==> is_whitespace(#[trigger] w[i])
}

/// The tokens that successive calls of `next_token` return on the input `r`,
/// up to and including the first `EOF`; `None` when one of those calls fails.
pub open spec fn tokens(r: Seq<char>) -> Option<Seq<(TokenType, Seq<char>)>>
    decreases r.len(),
    via tokens_decreases
{
    match scan_kind(r) {
        None => None,
        Some(k) => {
            if k == TokenType::EOF {
                Some(seq![(k, scan_literal(r))])
            } else {
                match tokens(scan_rest(r)) {
                    None => None,
                    Some(more) => Some(seq![(k, scan_literal(r))] + more),
                }
            }
        },
    }
}

#[via_fn]
proof fn tokens_decreases(r: Seq<char>) {
    if scan_kind(r) is Some && scan_kind(r) != Some(TokenType::EOF) {
        lemma_scan_consumes(r);
    }
}

proof fn lemma_skip_ws_len(r: Seq<char>)
    ensures
        skip_ws(r).len() <= r.len(),
    decreases r.len(),
{
    if r.len() > 0 && is_whitespace(r[0]) {
        lemma_skip_ws_len(r.drop_first());
    }
}

proof fn lemma_letter_run_len(r: Seq<char>)
    ensures
        letter_run(r) <= r.len(),
    decreases r.len(),
{
    if r.len() > 0 && is_letter(r[0]) {
        lemma_letter_run_len(r.drop_first());
    }
}

proof fn lemma_digit_run_len(r: Seq<char>)
    ensures
        digit_run(r) <= r.len(),
    decreases r.len(),
{
    if r.len() > 0 && is_digit(r[0]) {
        lemma_digit_run_len(r.drop_first());
    }
}

/// A token of `t` lies within `t`, and every token but `EOF` consumes something.
proof fn lemma_token_len(t: Seq<char>)
    ensures
        token_len(t) <= t.len(),
        token_kind(t) is Some && token_kind(t) != Some(TokenType::EOF) ==> token_len(t) >= 1,
{
    lemma_letter_run_len(t);
    lemma_digit_run_len(t);
}

/// A successful scan that is not at the end consumes at least one character.
proof fn lemma_scan_consumes(r: Seq<char>)
    requires
        scan_kind(r) is Some,
        scan_kind(r) != Some(TokenType::EOF),
    ensures
        scan_rest(r).len() < r.len(),
{
    lemma_skip_ws_len(r);
    lemma_token_len(skip_ws(r));
}

/// After an `EOF` token nothing is left to read, and reading on gives `EOF`
/// with an empty literal again: scanning is idempotent at the end of input.
pub proof fn lemma_end_is_stable(r: Seq<char>)
    requires
        scan_kind(r) == Some(TokenType::EOF),
    ensures
        scan_literal(r) == Seq::<char>::empty(),
        scan_rest(r) == Seq::<char>::empty(),
        scan_kind(scan_rest(r)) == Some(TokenType::EOF),
        scan_literal(scan_rest(r)) == Seq::<char>::empty(),
        scan_rest(scan_rest(r)) == Seq::<char>::empty(),
{
    let t = skip_ws(r);
    assert(t.len() == 0);
    assert(scan_literal(r) =~= Seq::<char>::empty());
    assert(scan_rest(r) =~= Seq::<char>::empty());
    assert(skip_ws(Seq::<char>::empty()) == Seq::<char>::empty());
    assert(scan_literal(Seq::<char>::empty()) =~= Seq::<char>::empty());
    assert(scan_rest(Seq::<char>::empty()) =~= Seq::<char>::empty());
}

/// `c` cannot extend a token that ends where `c` begins.
pub open spec fn starts_apart(c: Seq<char>) -> bool {
    c.len() == 0 || is_whitespace(c[0])
}

proof fn lemma_skip_ws_blank_prefix(a: Seq<char>, c: Seq<char>)
    requires
        skip_ws(a).len() == 0,
    ensures
        skip_ws(a + c) == skip_ws(c),
    decreases a.len(),
{
    if a.len() == 0 {
        assert(a + c =~= c);
    } else {
        assert((a + c).drop_first() =~= a.drop_first() + c);
        lemma_skip_ws_blank_prefix(a.drop_first(), c);
    }
}

proof fn lemma_skip_ws_prefix(a: Seq<char>, c: Seq<char>)
    requires
        skip_ws(a).len() > 0,
    ensures
        skip_ws(a + c) == skip_ws(a) + c,
    decreases a.len(),
{
    if is_whitespace(a[0]) {
        assert((a + c).drop_first() =~= a.drop_first() + c);
        lemma_skip_ws_prefix(a.drop_first(), c);
    }
}

proof fn lemma_skip_ws_all_whitespace(w: Seq<char>)
    requires
        all_whitespace(w),
    ensures
        skip_ws(w).len() == 0,
    decreases w.len(),
{
    if w.len() > 0 {
        assert(is_whitespace(w[0]));
        assert forall|i: int| 0 <= i < w.drop_first().len() implies is_whitespace(
            #[trigger] w.drop_first()[i],
        ) by {
            assert(w.drop_first()[i] == w[i + 1]);
        }
        lemma_skip_ws_all_whitespace(w.drop_first());
    }
}

proof fn lemma_letter_run_append(a: Seq<char>, c: Seq<char>)
    requires
        starts_apart(c),
    ensures
        letter_run(a + c) == letter_run(a),
    decreases a.len(),
{
    if a.len() == 0 {
        assert(a + c =~= c);
    } else if is_letter(a[0]) {
        assert((a + c).drop_first() =~= a.drop_first() + c);
        lemma_letter_run_append(a.drop_first(), c);
    }
}

proof fn lemma_digit_run_append(a: Seq<char>, c: Seq<char>)
    requires
        starts_apart(c),
    ensures
        digit_run(a + c) == digit_run(a),
    decreases a.len(),
{
    if a.len() == 0 {
        assert(a + c =~= c);
    } else if is_digit(a[0]) {
        assert((a + c).drop_first() =~= a.drop_first() + c);
        lemma_digit_run_append(a.drop_first(), c);
    }
}

/// The token stream depends only on what follows the leading whitespace.
proof fn lemma_tokens_after_skip(r1: Seq<char>, r2: Seq<char>)
    requires
        skip_ws(r1) == skip_ws(r2),
    ensures
        tokens(r1) == tokens(r2),
{
    assert(scan_kind(r1) == scan_kind(r2));
    assert(scan_literal(r1) == scan_literal(r2));
    assert(scan_rest(r1) == scan_rest(r2));
}

/// Two continuations that skip to the same text, and neither of which can
/// extend a token of `a`, give the same token stream after `a`.
proof fn lemma_tokens_continuation(a: Seq<char>, c1: Seq<char>, c2: Seq<char>)
    requires
        starts_apart(c1),
        starts_apart(c2),
        skip_ws(c1) == skip_ws(c2),
    ensures
        tokens(a + c1) == tokens(a + c2),
    decreases a.len(),
{
    let s = skip_ws(a);
    if s.len() == 0 {
        lemma_skip_ws_blank_prefix(a, c1);
        lemma_skip_ws_blank_prefix(a, c2);
        lemma_tokens_after_skip(a + c1, a + c2);
    } else {
        lemma_skip_ws_prefix(a, c1);
        lemma_skip_ws_prefix(a, c2);
        lemma_skip_ws_len(a);
        lemma_letter_run_append(s, c1);
        lemma_letter_run_append(s, c2);
        lemma_digit_run_append(s, c1);
        lemma_digit_run_append(s, c2);
        lemma_token_len(s);
        let t1 = s + c1;
        let t2 = s + c2;
        assert(t1[0] == s[0] && t2[0] == s[0]);
        let n = token_len(s);
        assert(token_len(t1) == n);
        assert(token_len(t2) == n);
        assert(t1.take(letter_run(t1) as int) =~= s.take(letter_run(s) as int));
        assert(t2.take(letter_run(t2) as int) =~= s.take(letter_run(s) as int));
        assert(token_kind(t1) == token_kind(s));
        assert(token_kind(t2) == token_kind(s));
        assert(scan_literal(a + c1) =~= s.take(n as int));
        assert(scan_literal(a + c2) =~= s.take(n as int));
        assert(scan_rest(a + c1) =~= s.skip(n as int) + c1);
        assert(scan_rest(a + c2) =~= s.skip(n as int) + c2);
        if token_kind(s) is Some && token_kind(s) != Some(TokenType::EOF) {
            lemma_tokens_continuation(s.skip(n as int), c1, c2);
        }
    }
}

/// Whitespace transparency: the whitespace that separates two parts of the
/// input may be replaced by any other non-empty mixture of spaces, tabs,
/// newlines and carriage returns without changing the token stream.
pub proof fn lemma_whitespace_transparent(
    a: Seq<char>,
    w1: Seq<char>,
    w2: Seq<char>,
    b: Seq<char>,
)
    requires
        all_whitespace(w1),
        all_whitespace(w2),
        w1.len() > 0,
        w2.len() > 0,
    ensures
        tokens(a + w1 + b) == tokens(a + w2 + b),
{
    lemma_skip_ws_all_whitespace(w1);
    lemma_skip_ws_all_whitespace(w2);
    lemma_skip_ws_blank_prefix(w1, b);
    lemma_skip_ws_blank_prefix(w2, b);
    assert(is_whitespace(w1[0]) && is_whitespace(w2[0]));
    assert((w1 + b)[0] == w1[0]);
    assert((w2 + b)[0] == w2[0]);
    lemma_tokens_continuation(a, w1 + b, w2 + b);
    assert(a + w1 + b =~= a + (w1 + b));
    assert(a + w2 + b =~= a + (w2 + b));
}

/// Whitespace before the first token or after the last one leaves the token
/// stream unchanged.
pub proof fn lemma_surrounding_whitespace(w1: Seq<char>, s: Seq<char>, w2: Seq<char>)
    requires
        all_whitespace(w1),
        all_whitespace(w2),
    ensures
        tokens(w1 + s + w2) == tokens(s),
{
    lemma_skip_ws_all_whitespace(w1);
    lemma_skip_ws_all_whitespace(w2);
    lemma_skip_ws_blank_prefix(w1, s + w2);
    lemma_tokens_after_skip(w1 + (s + w2), s + w2);
    lemma_skip_ws_blank_prefix(w2, Seq::<char>::empty());
    assert(w2 + Seq::<char>::empty() =~= w2);
    if w2.len() > 0 {
        assert(is_whitespace(w2[0]));
    }
    lemma_tokens_continuation(s, w2, Seq::<char>::empty());
    assert(s + Seq::<char>::empty() =~= s);
    assert(w1 + s + w2 =~= w1 + (s + w2));
}

} // verus!
