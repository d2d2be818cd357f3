//! Properties of the scanner, stated over its specification and proved.
use vstd::prelude::*;
use crate::token::{TokenType, TokenView};
use crate::lox::{
    CharClass, ScanError, ScanView, canonical_number, eof_token, is_digit, lemma_run_end_bounds,
    lemma_step_advances, lex_step, newlines, opt_seq, pair_double, pair_single, run_end, scan_from,
    scan_source, scan_spec, single_kind,
};

verus! {

// ---------------------------------------------------------------------------
// Counting newlines

pub proof fn lemma_newlines_concat(a: Seq<char>, b: Seq<char>)
    ensures
        newlines(a + b) == newlines(a) + newlines(b),
    decreases b.len(),
{
    if b.len() == 0 {
        assert(a + b =~= a);
    } else {
        assert((a + b).drop_last() =~= a + b.drop_last());
        lemma_newlines_concat(a, b.drop_last());
    }
}

pub proof fn lemma_newlines_free(x: Seq<char>)
    requires
        forall|k: int| 0 <= k < x.len() ==> x[k] != '\n',
    ensures
        newlines(x) == 0,
    decreases x.len(),
{
    if x.len() > 0 {
        lemma_newlines_free(x.drop_last());
    }
}

/// The line after one step is the line before it plus the newlines that the
/// step consumed.
proof fn lemma_step_line(s: Seq<char>, i: int, line: nat)
    requires
        0 <= i < s.len(),
    ensures
        lex_step(s, i, line).line == line + newlines(s.subrange(i, lex_step(s, i, line).next)),
{
    let st = lex_step(s, i, line);
    let c = s[i];
    lemma_step_advances(s, i, line);
    let consumed = s.subrange(i, st.next);
    if c == '\n' {
        assert(consumed.drop_last() =~= Seq::<char>::empty());
        assert(newlines(Seq::<char>::empty()) == 0);
    } else if c == '"' {
        let e = run_end(s, i + 1, CharClass::NotQuote);
        lemma_run_end_bounds(s, i + 1, CharClass::NotQuote);
        let inner = s.subrange(i + 1, e);
        lemma_newlines_free(seq![c]);
        lemma_newlines_concat(seq![c], inner);
        if e < s.len() {
            assert(consumed =~= seq![c] + inner + seq!['"']);
            lemma_newlines_free(seq!['"']);
            lemma_newlines_concat(seq![c] + inner, seq!['"']);
        } else {
            assert(consumed =~= seq![c] + inner);
        }
    } else if c == '/' && i + 1 < s.len() && s[i + 1] == '/' {
        lemma_run_end_bounds(s, i + 2, CharClass::NotNewline);
        lemma_newlines_free(consumed);
    } else if is_digit(c) {
        let a = run_end(s, i, CharClass::Digit);
        lemma_run_end_bounds(s, i, CharClass::Digit);
        if a + 1 < s.len() {
            lemma_run_end_bounds(s, a + 1, CharClass::Digit);
        }
        lemma_newlines_free(consumed);
    } else if ('a' <= c && c <= 'z') || ('A' <= c && c <= 'Z') || c == '_' {
        lemma_run_end_bounds(s, i + 1, CharClass::IdentChar);
        lemma_newlines_free(consumed);
    } else {
        lemma_newlines_free(consumed);
    }
}

proof fn lemma_scan_from_eof(s: Seq<char>, i: int, line: nat)
    requires
        0 <= i <= s.len(),
    ensures
        scan_from(s, i, line).tokens.len() >= 1,
        scan_from(s, i, line).tokens.last() == eof_token(line + newlines(s.subrange(i, s.len() as int))),
    decreases s.len() - i,
{
    if i < s.len() {
        let st = lex_step(s, i, line);
        lemma_step_advances(s, i, line);
        lemma_step_line(s, i, line);
        lemma_scan_from_eof(s, st.next, st.line);
        assert(s.subrange(i, s.len() as int) =~= s.subrange(i, st.next) + s.subrange(
            st.next,
            s.len() as int,
        ));
        lemma_newlines_concat(s.subrange(i, st.next), s.subrange(st.next, s.len() as int));
    } else {
        assert(s.subrange(i, s.len() as int) =~= Seq::<char>::empty());
    }
}

/// The end-of-input token stands on the line numbered one more than the
/// newlines of the scanned text, wherever they stand: between tokens, in
/// string literals, or at the end of line comments.
pub proof fn law_eof_line(s: Seq<char>)
    ensures
        scan_spec(s).tokens.len() >= 1,
        scan_spec(s).tokens.last() == eof_token(newlines(s) + 1),
{
    lemma_scan_from_eof(s, 0, 1);
    assert(s.subrange(0, s.len() as int) =~= s);
}

// ---------------------------------------------------------------------------
// The empty text

/// Scanning the empty text yields the end-of-input token on line 1 alone,
/// and no error.
pub proof fn law_empty_source()
    ensures
        scan_source(Seq::empty()) == (ScanView {
            tokens: seq![eof_token(1)],
            errors: Seq::empty(),
        }),
{
    let e = Seq::<char>::empty();
    assert(e.take(0) =~= e);
}

// ---------------------------------------------------------------------------
// Maximal munch over operator characters

/// The characters that make up one- and two-character operators.
pub open spec fn is_operator_char(c: char) -> bool {
    single_kind(c) is Some || pair_single(c) is Some
}

/// The operator table: the kind of a word of one or two characters that is
/// an operator.
pub open spec fn operator_kind(w: Seq<char>) -> Option<TokenType> {
    if w.len() == 1 && single_kind(w[0]) is Some {
        single_kind(w[0])
    } else if w.len() == 1 {
        pair_single(w[0])
    } else if w.len() == 2 && pair_single(w[0]) is Some && w[1] == '=' {
        Some(pair_double(w[0]))
    } else {
        None
    }
}

/// Greedy left-to-right tokenization: at each position the longest word of
/// the operator table.
pub open spec fn munch(s: Seq<char>) -> Seq<TokenType>
    decreases s.len(),
{
    if s.len() == 0 {
        Seq::empty()
    } else if s.len() >= 2 && operator_kind(s.take(2)) is Some {
        seq![operator_kind(s.take(2))->0] + munch(s.skip(2))
    } else {
        seq![operator_kind(s.take(1))->0] + munch(s.skip(1))
    }
}

pub open spec fn kinds(ts: Seq<TokenView>) -> Seq<TokenType> {
    ts.map_values(|t: TokenView| t.kind)
}

proof fn lemma_munch_from(s: Seq<char>, i: int, line: nat)
    requires
        0 <= i <= s.len(),
        forall|k: int| 0 <= k < s.len() ==> is_operator_char(#[trigger] s[k]),
    ensures
        kinds(scan_from(s, i, line).tokens) == munch(s.skip(i)).push(TokenType::Eof),
        scan_from(s, i, line).errors.len() == 0,
    decreases s.len() - i,
{
    let rest_chars = s.skip(i);
    if i < s.len() {
        let st = lex_step(s, i, line);
        lemma_step_advances(s, i, line);
        lemma_munch_from(s, st.next, st.line);
        let c = s[i];
        assert(is_operator_char(c));
        assert(rest_chars.take(1) =~= seq![c]);
        assert(rest_chars.skip(1) =~= s.skip(i + 1));
        if i + 1 < s.len() {
            assert(rest_chars.take(2) =~= seq![c, s[i + 1]]);
            assert(rest_chars.skip(2) =~= s.skip(i + 2));
        }
        let rest = scan_from(s, st.next, st.line);
        assert(st.token is Some);
        assert(kinds(opt_seq(st.token) + rest.tokens) =~= seq![st.token->0.kind] + kinds(
            rest.tokens,
        ));
        assert(opt_seq(st.error) =~= Seq::<ScanError>::empty());
    } else {
        assert(rest_chars =~= Seq::<char>::empty());
        assert(kinds(seq![eof_token(line)]) =~= seq![TokenType::Eof]);
    }
}

/// A text made only of operator characters is scanned without error into
/// the kinds that greedy longest-match over the operator table gives,
/// followed by the end-of-input kind.
pub proof fn law_maximal_munch(s: Seq<char>)
    requires
        forall|k: int| 0 <= k < s.len() ==> is_operator_char(#[trigger] s[k]),
    ensures
        kinds(scan_spec(s).tokens) == munch(s).push(TokenType::Eof),
        scan_spec(s).errors.len() == 0,
{
    lemma_munch_from(s, 0, 1);
    assert(s.skip(0) =~= s);
}

// ---------------------------------------------------------------------------
// A number followed by a bare dot

proof fn lemma_digit_run(d: Seq<char>, j: int)
    requires
        0 <= j <= d.len(),
        forall|k: int| 0 <= k < d.len() ==> is_digit(#[trigger] d[k]),
    ensures
        run_end(d, j, CharClass::Digit) == d.len(),
        run_end(d.push('.'), j, CharClass::Digit) == d.len(),
    decreases d.len() - j,
{
    if j < d.len() {
        lemma_digit_run(d, j + 1);
    }
}

/// A run of digits followed by a `.` with no digit after it scans to the same
/// first token as the digits alone, a number whose lexeme is the digits and
/// whose literal is their canonical decimal; the `.` becomes a token of its
/// own.
pub proof fn law_trailing_dot(d: Seq<char>)
    requires
        d.len() > 0,
        forall|k: int| 0 <= k < d.len() ==> is_digit(#[trigger] d[k]),
    ensures
        scan_spec(d.push('.')).tokens[0] == scan_spec(d).tokens[0],
        scan_spec(d).tokens[0] == (TokenView {
            kind: TokenType::Number,
            lexeme: d,
            literal: Some(canonical_number(d, Seq::empty())),
            line: 1,
        }),
        scan_spec(d.push('.')).tokens[1].kind == TokenType::Dot,
{
    let dd = d.push('.');
    lemma_digit_run(d, 0);
    lemma_step_advances(d, 0, 1);
    lemma_step_advances(dd, 0, 1);
    assert(dd.subrange(0, d.len() as int) =~= d);
    assert(d.subrange(0, d.len() as int) =~= d);
    assert(dd[d.len() as int] == '.');
    lemma_step_advances(dd, d.len() as int, 1);
    let first = lex_step(dd, 0, 1);
    assert(first.next == d.len());
    assert(first.token is Some);
    let after = scan_from(dd, d.len() as int, 1);
    assert(after.tokens[0].kind == TokenType::Dot);
    assert(scan_spec(dd).tokens == opt_seq(first.token) + after.tokens);
}

} // verus!
