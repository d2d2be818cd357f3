use unicode_segmentation::UnicodeSegmentation;
use vstd::prelude::*;
use crate::token::{Token, TokenType, TokenView, token_views};

verus! {

// ---------------------------------------------------------------------------
// Character classes

/// How many extended grapheme clusters a text holds.
pub uninterp spec fn grapheme_count(s: Seq<char>) -> nat;

/// Relies on `UnicodeSegmentation::graphemes` of unicode-segmentation, in its
/// extended form, counted: the count depends on the characters alone.
#[verifier::external_body]
fn count_graphemes(s: &str) -> (r: usize)
    ensures
        r as nat == grapheme_count(s@),
{
    s.graphemes(true).count()
}

pub open spec fn is_digit(c: char) -> bool {
    '0' <= c && c <= '9'
}

pub open spec fn is_alpha_start(c: char) -> bool {
    ('a' <= c && c <= 'z') || ('A' <= c && c <= 'Z') || c == '_'
}

/// The classes of characters over which the scanner consumes maximal runs.
#[derive(Clone, Copy, PartialEq, Eq, Structural)]
pub enum CharClass {
    Digit,
    IdentChar,
    NotNewline,
    NotQuote,
}

pub open spec fn in_class(c: char, cls: CharClass) -> bool {
    match cls {
        CharClass::Digit => is_digit(c),
        CharClass::IdentChar => is_alpha_start(c) || is_digit(c),
        CharClass::NotNewline => c != '\n',
        CharClass::NotQuote => c != '"',
    }
}

/// The first position at or after `j` whose character is not in `cls`, or
/// the end of `s`.
pub open spec fn run_end(s: Seq<char>, j: int, cls: CharClass) -> int
    decreases s.len() - j,
{
    if 0 <= j < s.len() && in_class(s[j], cls) {
        run_end(s, j + 1, cls)
    } else {
        j
    }
}

/// The number of newline characters in `s`.
pub open spec fn newlines(s: Seq<char>) -> nat
    decreases s.len(),
{
    if s.len() == 0 {
        0
    } else {
        newlines(s.drop_last()) + if s.last() == '\n' {
            1nat
        } else {
            0nat
        }
    }
}

// ---------------------------------------------------------------------------
// Lexical rules

/// The kind of a one-character token that never combines with what follows.
pub open spec fn single_kind(c: char) -> Option<TokenType> {
    if c == '(' {
        Some(TokenType::LeftParen)
    } else if c == ')' {
        Some(TokenType::RightParen)
    } else if c == '{' {
        Some(TokenType::LeftBrace)
    } else if c == '}' {
        Some(TokenType::RightBrace)
    } else if c == ',' {
        Some(TokenType::Comma)
    } else if c == '.' {
        Some(TokenType::Dot)
    } else if c == '-' {
        Some(TokenType::Minus)
    } else if c == '+' {
        Some(TokenType::Plus)
    } else if c == ';' {
        Some(TokenType::Semicolon)
    } else if c == '*' {
        Some(TokenType::Star)
    } else {
        None
    }
}

/// The kind of a character that may begin a two-character operator, when it
/// stands alone.
pub open spec fn pair_single(c: char) -> Option<TokenType> {
    if c == '!' {
        Some(TokenType::Bang)
    } else if c == '=' {
        Some(TokenType::Equal)
    } else if c == '<' {
        Some(TokenType::Less)
    } else if c == '>' {
        Some(TokenType::Greater)
    } else {
        None
    }
}

/// The kind of the two-character operator made of `c` followed by `=`.
pub open spec fn pair_double(c: char) -> TokenType {
    if c == '!' {
        TokenType::BangEqual
    } else if c == '=' {
        TokenType::EqualEqual
    } else if c == '<' {
        TokenType::LessEqual
    } else {
        TokenType::GreaterEqual
    }
}

/// The kind of a word: a keyword's own kind, or `Identifier`.
pub open spec fn keyword_kind(w: Seq<char>) -> TokenType {
    if w == "and"@ {
        TokenType::And
    } else if w == "class"@ {
        TokenType::Class
    } else if w == "else"@ {
        TokenType::Else
    } else if w == "false"@ {
        TokenType::False
    } else if w == "for"@ {
        TokenType::For
    } else if w == "fun"@ {
        TokenType::Fun
    } else if w == "if"@ {
        TokenType::If
    } else if w == "nil"@ {
        TokenType::Nil
    } else if w == "or"@ {
        TokenType::Or
    } else if w == "print"@ {
        TokenType::Print
    } else if w == "return"@ {
        TokenType::Return
    } else if w == "super"@ {
        TokenType::Super
    } else if w == "this"@ {
        TokenType::This
    } else if w == "true"@ {
        TokenType::True
    } else if w == "var"@ {
        TokenType::Var
    } else if w == "while"@ {
        TokenType::While
    } else {
        TokenType::Identifier
    }
}

/// A run of digits without its leading zeros, keeping at least one digit.
pub open spec fn strip_leading_zeros(d: Seq<char>) -> Seq<char>
    decreases d.len(),
{
    if d.len() > 1 && d[0] == '0' {
        strip_leading_zeros(d.drop_first())
    } else {
        d
    }
}

/// A run of digits without its trailing zeros.
pub open spec fn strip_trailing_zeros(f: Seq<char>) -> Seq<char>
    decreases f.len(),
{
    if f.len() > 0 && f.last() == '0' {
        strip_trailing_zeros(f.drop_last())
    } else {
        f
    }
}

/// The canonical decimal text of the number with integer digits `int_part`
/// and fraction digits `frac`: no leading zeros before the point, no
/// trailing zeros after it, and at least one digit on either side.
pub open spec fn canonical_number(int_part: Seq<char>, frac: Seq<char>) -> Seq<char> {
    let f = strip_trailing_zeros(frac);
    strip_leading_zeros(int_part) + "."@ + if f.len() == 0 {
        "0"@
    } else {
        f
    }
}

/// Why a character sequence could not be scanned.
#[derive(Clone, Copy, Debug, PartialEq, Eq, Structural)]
pub enum ScanErrorKind {
    UnexpectedCharacter(char),
    UnterminatedString,
}

/// A lexical error and the line it was found on.
#[derive(Clone, Copy, Debug, PartialEq, Eq, Structural)]
pub struct ScanError {
    pub line: usize,
    pub kind: ScanErrorKind,
}

pub open spec fn simple_token(kind: TokenType, lexeme: Seq<char>, line: nat) -> TokenView {
    TokenView { kind, lexeme, literal: None, line }
}

/// One step of the scanner at position `i` on line `line`: the token or the
/// error it yields (if any), where the next step starts, and on which line.
pub struct Step {
    pub token: Option<TokenView>,
    pub error: Option<ScanError>,
    pub next: int,
    pub line: nat,
}

pub open spec fn skip(next: int, line: nat) -> Step {
    Step { token: None, error: None, next, line }
}

pub open spec fn emit(t: TokenView, next: int, line: nat) -> Step {
    Step { token: Some(t), error: None, next, line }
}

/// Where a number starting at `i` ends: its digits, and a `.` with further
/// digits only when at least one digit follows the `.`.
pub open spec fn number_end(s: Seq<char>, i: int) -> int {
    let a = run_end(s, i, CharClass::Digit);
    if a + 1 < s.len() && s[a] == '.' && is_digit(s[a + 1]) {
        run_end(s, a + 1, CharClass::Digit)
    } else {
        a
    }
}

/// The token of a number whose text is `s[i..e]`.
pub open spec fn number_token(s: Seq<char>, i: int, e: int, line: nat) -> TokenView {
    let a = run_end(s, i, CharClass::Digit);
    let frac = if e > a {
        s.subrange(a + 1, e)
    } else {
        Seq::empty()
    };
    TokenView {
        kind: TokenType::Number,
        lexeme: s.subrange(i, e),
        literal: Some(canonical_number(s.subrange(i, a), frac)),
        line,
    }
}

pub open spec fn lex_step(s: Seq<char>, i: int, line: nat) -> Step {
    let c = s[i];
    let next_is = |d: char| i + 1 < s.len() && s[i + 1] == d;
    if c == '\n' {
        skip(i + 1, line + 1)
    } else if c == ' ' || c == '\r' || c == '\t' {
        skip(i + 1, line)
    } else if single_kind(c) is Some {
        emit(simple_token(single_kind(c)->0, seq![c], line), i + 1, line)
    } else if pair_single(c) is Some {
        if next_is('=') {
            emit(simple_token(pair_double(c), seq![c, '='], line), i + 2, line)
        } else {
            emit(simple_token(pair_single(c)->0, seq![c], line), i + 1, line)
        }
    } else if c == '/' {
        if next_is('/') {
            skip(run_end(s, i + 2, CharClass::NotNewline), line)
        } else {
            emit(simple_token(TokenType::Slash, seq![c], line), i + 1, line)
        }
    } else if c == '"' {
        let e = run_end(s, i + 1, CharClass::NotQuote);
        let end_line = line + newlines(s.subrange(i + 1, e));
        if e < s.len() {
            emit(
                TokenView {
                    kind: TokenType::String,
                    lexeme: s.subrange(i, e + 1),
                    literal: Some(s.subrange(i + 1, e)),
                    line,
                },
                e + 1,
                end_line,
            )
        } else {
            Step {
                token: None,
                error: Some(
                    ScanError { line: end_line as usize, kind: ScanErrorKind::UnterminatedString },
                ),
                next: e,
                line: end_line,
            }
        }
    } else if is_digit(c) {
        let e = number_end(s, i);
        emit(number_token(s, i, e, line), e, line)
    } else if is_alpha_start(c) {
        let e = run_end(s, i + 1, CharClass::IdentChar);
        let w = s.subrange(i, e);
        emit(simple_token(keyword_kind(w), w, line), e, line)
    } else {
        Step {
            token: None,
            error: Some(
                ScanError { line: line as usize, kind: ScanErrorKind::UnexpectedCharacter(c) },
            ),
            next: i + 1,
            line,
        }
    }
}

/// The tokens and the errors of one scan.
#[verifier::ext_equal]
pub struct ScanView {
    pub tokens: Seq<TokenView>,
    pub errors: Seq<ScanError>,
}

pub open spec fn opt_seq<A>(o: Option<A>) -> Seq<A> {
    match o {
        Some(a) => seq![a],
        None => Seq::empty(),
    }
}

pub open spec fn eof_token(line: nat) -> TokenView {
    simple_token(TokenType::Eof, Seq::empty(), line)
}

/// Scanning `s` from position `i` on line `line` to its end.
pub open spec fn scan_from(s: Seq<char>, i: int, line: nat) -> ScanView
    decreases s.len() - i,
    via scan_from_decreases
{
    if 0 <= i < s.len() {
        let st = lex_step(s, i, line);
        let rest = scan_from(s, st.next, st.line);
        ScanView {
            tokens: opt_seq(st.token) + rest.tokens,
            errors: opt_seq(st.error) + rest.errors,
        }
    } else {
        ScanView { tokens: seq![eof_token(line)], errors: Seq::empty() }
    }
}

#[via_fn]
proof fn scan_from_decreases(s: Seq<char>, i: int, line: nat) {
    if 0 <= i < s.len() {
        lemma_step_advances(s, i, line);
    }
}

/// The whole scan of `s`, from its start on line 1.
pub open spec fn scan_spec(s: Seq<char>) -> ScanView {
    scan_from(s, 0, 1)
}

pub proof fn lemma_run_end_bounds(s: Seq<char>, j: int, cls: CharClass)
    requires
        0 <= j <= s.len(),
    ensures
        j <= run_end(s, j, cls) <= s.len(),
        run_end(s, j, cls) < s.len() ==> !in_class(s[run_end(s, j, cls)], cls),
        forall|k: int| j <= k < run_end(s, j, cls) ==> in_class(#[trigger] s[k], cls),
    decreases s.len() - j,
{
    if j < s.len() && in_class(s[j], cls) {
        lemma_run_end_bounds(s, j + 1, cls);
    }
}

pub proof fn lemma_step_advances(s: Seq<char>, i: int, line: nat)
    requires
        0 <= i < s.len(),
    ensures
        i < lex_step(s, i, line).next <= s.len(),
{
    lemma_run_end_bounds(s, i, CharClass::Digit);
    lemma_run_end_bounds(s, i + 1, CharClass::IdentChar);
    lemma_run_end_bounds(s, i + 1, CharClass::NotQuote);
    if i + 2 <= s.len() {
        lemma_run_end_bounds(s, i + 2, CharClass::NotNewline);
    }
    let a = run_end(s, i, CharClass::Digit);
    if a + 1 < s.len() {
        lemma_run_end_bounds(s, a + 1, CharClass::Digit);
    }
}

/// The scan of the first `limit` characters of `src` (all of it when it is
/// shorter).
pub open spec fn scan_bounded(src: Seq<char>, limit: int) -> ScanView {
    scan_spec(
        src.take(
            if limit < src.len() {
                limit
            } else {
                src.len() as int
            },
        ),
    )
}

/// The scan of a whole source text: the scanner walks it by characters and
/// stops after as many characters as the text has grapheme clusters.
pub open spec fn scan_source(src: Seq<char>) -> ScanView {
    scan_bounded(src, grapheme_count(src) as int)
}

// ---------------------------------------------------------------------------
// Executable scanner

/// The result of a scan: the tokens, ending with the end-of-input token, and
/// the lexical errors met on the way, both in source order.
pub struct Scanned {
    pub tokens: Vec<Token>,
    pub errors: Vec<ScanError>,
}

impl View for Scanned {
    type V = ScanView;

    open spec fn view(&self) -> ScanView {
        ScanView { tokens: token_views(self.tokens@), errors: self.errors@ }
    }
}

fn char_in_class(c: char, cls: CharClass) -> (r: bool)
    ensures
        r == in_class(c, cls),
{
    match cls {
        CharClass::Digit => '0' <= c && c <= '9',
        CharClass::IdentChar => ('a' <= c && c <= 'z') || ('A' <= c && c <= 'Z') || c == '_' || ('0'
            <= c && c <= '9'),
        CharClass::NotNewline => c != '\n',
        CharClass::NotQuote => c != '"',
    }
}

/// The end of the run of characters of class `cls` that starts at `j`.
fn class_end(s: &str, n: usize, j: usize, cls: CharClass) -> (r: usize)
    requires
        n == s@.len(),
        j <= n,
    ensures
        r == run_end(s@, j as int, cls),
        j <= r <= n,
        r < n ==> !in_class(s@[r as int], cls),
        forall|k: int| j <= k < r ==> in_class(#[trigger] s@[k], cls),
{
    let mut k = j;
    while k < n && char_in_class(s.get_char(k), cls)
        invariant
            n == s@.len(),
            j <= k <= n,
            run_end(s@, j as int, cls) == run_end(s@, k as int, cls),
            forall|m: int| j <= m < k ==> in_class(#[trigger] s@[m], cls),
        decreases n - k,
    {
        k = k + 1;
    }
    k
}

/// The number of newlines in `s[from..to]`.
fn count_newlines(s: &str, from: usize, to: usize) -> (r: usize)
    requires
        from <= to <= s@.len(),
    ensures
        r == newlines(s@.subrange(from as int, to as int)),
        r <= to - from,
{
    let mut k = from;
    let mut count: usize = 0;
    while k < to
        invariant
            from <= k <= to <= s@.len(),
            count == newlines(s@.subrange(from as int, k as int)),
            count <= k - from,
        decreases to - k,
    {
        proof {
            assert(s@.subrange(from as int, k + 1).drop_last() =~= s@.subrange(from as int, k as int));
        }
        if s.get_char(k) == '\n' {
            count = count + 1;
        }
        k = k + 1;
    }
    count
}

/// Whether two texts hold the same characters.
fn same_text(a: &str, b: &str) -> (r: bool)
    ensures
        r == (a@ == b@),
{
    let n = a.unicode_len();
    if n != b.unicode_len() {
        return false;
    }
    let mut i: usize = 0;
    while i < n
        invariant
            n == a@.len() == b@.len(),
            i <= n,
            forall|k: int| 0 <= k < i ==> a@[k] == b@[k],
        decreases n - i,
    {
        if a.get_char(i) != b.get_char(i) {
            return false;
        }
        i = i + 1;
    }
    assert(a@ =~= b@);
    true
}

fn single_kind_of(c: char) -> (r: Option<TokenType>)
    ensures
        r == single_kind(c),
{
    if c == '(' {
        Some(TokenType::LeftParen)
    } else if c == ')' {
        Some(TokenType::RightParen)
    } else if c == '{' {
        Some(TokenType::LeftBrace)
    } else if c == '}' {
        Some(TokenType::RightBrace)
    } else if c == ',' {
        Some(TokenType::Comma)
    } else if c == '.' {
        Some(TokenType::Dot)
    } else if c == '-' {
        Some(TokenType::Minus)
    } else if c == '+' {
        Some(TokenType::Plus)
    } else if c == ';' {
        Some(TokenType::Semicolon)
    } else if c == '*' {
        Some(TokenType::Star)
    } else {
        None
    }
}

fn pair_single_of(c: char) -> (r: Option<TokenType>)
    ensures
        r == pair_single(c),
{
    if c == '!' {
        Some(TokenType::Bang)
    } else if c == '=' {
        Some(TokenType::Equal)
    } else if c == '<' {
        Some(TokenType::Less)
    } else if c == '>' {
        Some(TokenType::Greater)
    } else {
        None
    }
}

fn pair_double_of(c: char) -> (r: TokenType)
    ensures
        r == pair_double(c),
{
    if c == '!' {
        TokenType::BangEqual
    } else if c == '=' {
        TokenType::EqualEqual
    } else if c == '<' {
        TokenType::LessEqual
    } else {
        TokenType::GreaterEqual
    }
}

fn keyword_kind_of(w: &str) -> (r: TokenType)
    ensures
        r == keyword_kind(w@),
{
    if same_text(w, "and") {
        TokenType::And
    } else if same_text(w, "class") {
        TokenType::Class
    } else if same_text(w, "else") {
        TokenType::Else
    } else if same_text(w, "false") {
        TokenType::False
    } else if same_text(w, "for") {
        TokenType::For
    } else if same_text(w, "fun") {
        TokenType::Fun
    } else if same_text(w, "if") {
        TokenType::If
    } else if same_text(w, "nil") {
        TokenType::Nil
    } else if same_text(w, "or") {
        TokenType::Or
    } else if same_text(w, "print") {
        TokenType::Print
    } else if same_text(w, "return") {
        TokenType::Return
    } else if same_text(w, "super") {
        TokenType::Super
    } else if same_text(w, "this") {
        TokenType::This
    } else if same_text(w, "true") {
        TokenType::True
    } else if same_text(w, "var") {
        TokenType::Var
    } else if same_text(w, "while") {
        TokenType::While
    } else {
        TokenType::Identifier
    }
}

/// The canonical text of the number with integer digits `s[i..a]` and
/// fraction digits `s[fs..fe]`.
fn number_literal(s: &str, i: usize, a: usize, fs: usize, fe: usize) -> (r: String)
    requires
        i < a <= s@.len(),
        fs <= fe <= s@.len(),
    ensures
        r@ == canonical_number(s@.subrange(i as int, a as int), s@.subrange(fs as int, fe as int)),
{
    let mut k = i;
    while k + 1 < a && s.get_char(k) == '0'
        invariant
            i <= k < a <= s@.len(),
            strip_leading_zeros(s@.subrange(k as int, a as int)) == strip_leading_zeros(
                s@.subrange(i as int, a as int),
            ),
        decreases a - k,
    {
        proof {
            assert(s@.subrange(k as int, a as int).drop_first() =~= s@.subrange(k + 1, a as int));
        }
        k = k + 1;
    }
    let mut t = fe;
    while t > fs && s.get_char(t - 1) == '0'
        invariant
            fs <= t <= fe <= s@.len(),
            strip_trailing_zeros(s@.subrange(fs as int, t as int)) == strip_trailing_zeros(
                s@.subrange(fs as int, fe as int),
            ),
        decreases t - fs,
    {
        proof {
            assert(s@.subrange(fs as int, t as int).drop_last() =~= s@.subrange(fs as int, t - 1));
        }
        t = t - 1;
    }
    let mut r = s.substring_char(k, a).to_owned();
    r.append(".");
    if t > fs {
        r.append(s.substring_char(fs, t));
    } else {
        r.append("0");
    }
    r
}

pub open spec fn token_opt_view(t: Option<Token>) -> Option<TokenView> {
    match t {
        Some(t) => Some(t@),
        None => None,
    }
}

/// One step of the scanner: the token or error at position `i`, where the
/// next step starts, and on which line.
fn lex_at(s: &str, n: usize, i: usize, line: usize) -> (r: (
    Option<Token>,
    Option<ScanError>,
    usize,
    usize,
))
    requires
        n == s@.len(),
        n < usize::MAX,
        i < n,
        line <= i + 1,
    ensures
        token_opt_view(r.0) == lex_step(s@, i as int, line as nat).token,
        r.1 == lex_step(s@, i as int, line as nat).error,
        r.2 == lex_step(s@, i as int, line as nat).next,
        r.3 == lex_step(s@, i as int, line as nat).line,
        r.3 <= r.2 + 1,
{
    let c = s.get_char(i);
    if c == '\n' {
        return (None, None, i + 1, line + 1);
    }
    if c == ' ' || c == '\r' || c == '\t' {
        return (None, None, i + 1, line);
    }
    if let Some(kind) = single_kind_of(c) {
        let lexeme = s.substring_char(i, i + 1).to_owned();
        assert(lexeme@ =~= seq![c]);
        return (Some(Token::new(kind, lexeme, None, line)), None, i + 1, line);
    }
    if let Some(kind) = pair_single_of(c) {
        if i + 1 < n && s.get_char(i + 1) == '=' {
            let lexeme = s.substring_char(i, i + 2).to_owned();
            assert(lexeme@ =~= seq![c, '=']);
            return (Some(Token::new(pair_double_of(c), lexeme, None, line)), None, i + 2, line);
        } else {
            let lexeme = s.substring_char(i, i + 1).to_owned();
            assert(lexeme@ =~= seq![c]);
            return (Some(Token::new(kind, lexeme, None, line)), None, i + 1, line);
        }
    }
    if c == '/' {
        if i + 1 < n && s.get_char(i + 1) == '/' {
            let e = class_end(s, n, i + 2, CharClass::NotNewline);
            return (None, None, e, line);
        } else {
            let lexeme = s.substring_char(i, i + 1).to_owned();
            assert(lexeme@ =~= seq![c]);
            return (Some(Token::new(TokenType::Slash, lexeme, None, line)), None, i + 1, line);
        }
    }
    if c == '"' {
        let e = class_end(s, n, i + 1, CharClass::NotQuote);
        let nl = count_newlines(s, i + 1, e);
        let end_line = line + nl;
        if e < n {
            let lexeme = s.substring_char(i, e + 1).to_owned();
            let value = s.substring_char(i + 1, e).to_owned();
            return (
                Some(Token::new(TokenType::String, lexeme, Some(value), line)),
                None,
                e + 1,
                end_line,
            );
        } else {
            let err = ScanError { line: end_line, kind: ScanErrorKind::UnterminatedString };
            return (None, Some(err), e, end_line);
        }
    }
    if '0' <= c && c <= '9' {
        let a = class_end(s, n, i, CharClass::Digit);
        let e = if a + 1 < n && s.get_char(a) == '.' && char_in_class(
            s.get_char(a + 1),
            CharClass::Digit,
        ) {
            class_end(s, n, a + 1, CharClass::Digit)
        } else {
            a
        };
        let literal = if e > a {
            number_literal(s, i, a, a + 1, e)
        } else {
            let lit = number_literal(s, i, a, a, a);
            assert(s@.subrange(a as int, a as int) =~= Seq::<char>::empty());
            lit
        };
        let lexeme = s.substring_char(i, e).to_owned();
        return (Some(Token::new(TokenType::Number, lexeme, Some(literal), line)), None, e, line);
    }
    if ('a' <= c && c <= 'z') || ('A' <= c && c <= 'Z') || c == '_' {
        let e = class_end(s, n, i + 1, CharClass::IdentChar);
        let word = s.substring_char(i, e);
        let kind = keyword_kind_of(word);
        return (Some(Token::new(kind, word.to_owned(), None, line)), None, e, line);
    }
    let err = ScanError { line, kind: ScanErrorKind::UnexpectedCharacter(c) };
    (None, Some(err), i + 1, line)
}

/// Scans the whole of `s`.
fn scan_text(s: &str) -> (r: Scanned)
    requires
        s@.len() < usize::MAX,
    ensures
        r@ == scan_spec(s@),
{
    let n = s.unicode_len();
    let mut tokens: Vec<Token> = Vec::new();
    let mut errors: Vec<ScanError> = Vec::new();
    let mut i: usize = 0;
    let mut line: usize = 1;
    while i < n
        invariant
            n == s@.len(),
            n < usize::MAX,
            i <= n,
            1 <= line <= i + 1,
            scan_spec(s@).tokens == token_views(tokens@) + scan_from(s@, i as int, line as nat).tokens,
            scan_spec(s@).errors == errors@ + scan_from(s@, i as int, line as nat).errors,
        decreases n - i,
    {
        let (tok, err, next, next_line) = lex_at(s, n, i, line);
        proof {
            lemma_step_advances(s@, i as int, line as nat);
        }
        let ghost rest = scan_from(s@, next as int, next_line as nat);
        let ghost old_views = token_views(tokens@);
        let ghost old_errors = errors@;
        match tok {
            Some(t) => {
                tokens.push(t);
                proof {
                    assert(token_views(tokens@) =~= old_views.push(t@));
                    assert(token_views(tokens@) + rest.tokens =~= old_views + (seq![t@]
                        + rest.tokens));
                }
            },
            None => {
                assert(old_views + rest.tokens =~= old_views + (Seq::<TokenView>::empty()
                    + rest.tokens));
            },
        }
        match err {
            Some(e) => {
                errors.push(e);
                assert(errors@ + rest.errors =~= old_errors + (seq![e] + rest.errors));
            },
            None => {
                assert(old_errors + rest.errors =~= old_errors + (Seq::<ScanError>::empty()
                    + rest.errors));
            },
        }
        i = next;
        line = next_line;
    }
    let ghost before = token_views(tokens@);
    tokens.push(Token::new(TokenType::Eof, String::new(), None, line));
    proof {
        assert(token_views(tokens@) =~= before.push(eof_token(line as nat)));
        assert(errors@ =~= errors@ + Seq::<ScanError>::empty());
    }
    let r = Scanned { tokens, errors };
    assert(r@ =~= scan_spec(s@));
    r
}

/// Scans the first `limit` characters of `source` (all of it when it is
/// shorter).
pub fn scan_within(source: &str, limit: usize) -> (r: Scanned)
    requires
        source@.len() < usize::MAX,
    ensures
        r@ == scan_bounded(source@, limit as int),
{
    let total = source.unicode_len();
    let n = if limit < total {
        limit
    } else {
        total
    };
    let prefix = source.substring_char(0, n);
    assert(prefix@ =~= source@.take(n as int));
    scan_text(prefix)
}

/// Scans a source text into its tokens and lexical errors.
pub fn scan(source: &str) -> (r: Scanned)
    requires
        source@.len() < usize::MAX,
    ensures
        r@ == scan_source(source@),
{
    let clusters = count_graphemes(source);
    scan_within(source, clusters)
}

/// A scanning session that remembers whether any scan reported an error.
pub struct Lox {
    pub had_error: bool,
}

impl Default for Lox {
    fn default() -> (r: Self)
        ensures
            !r.had_error,
    {
        Lox { had_error: false }
    }
}

/// Scans `input`, and records in `lox` whether a lexical error was met.
pub fn tokenize(lox: &mut Lox, input: &str) -> (r: Vec<Token>)
    requires
        input@.len() < usize::MAX,
    ensures
        token_views(r@) == scan_source(input@).tokens,
        final(lox).had_error == (old(lox).had_error || scan_source(input@).errors.len() > 0),
{
    let scanned = scan(input);
    if scanned.errors.len() > 0 {
        lox.had_error = true;
    }
    scanned.tokens
}

} // verus!
