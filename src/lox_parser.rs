use vstd::prelude::*;
use crate::expr::{Binary, ExprEnum, ExprView, Grouping, Literal, LiteralValue, LiteralView, Unary, Variable};
use crate::token::{Token, TokenType, TokenView, token_views};

verus! {

// ---------------------------------------------------------------------------
// The grammar
//
// expression -> equality
// equality   -> comparison (("!=" | "==") comparison)*
// comparison -> term ((">" | ">=" | "<" | "<=") term)*
// term       -> factor (("-" | "+") factor)*
// factor     -> unary (("/" | "*") unary)*
// unary      -> ("!" | "-") unary | primary
// primary    -> NUMBER | STRING | IDENTIFIER | "true" | "false" | "nil"
//             | "(" expression ")"

/// The left-associative binary levels of the grammar, loosest first.
#[derive(Clone, Copy, Debug, PartialEq, Eq, Structural)]
pub enum Level {
    Equality,
    Comparison,
    Term,
    Factor,
}

/// What a syntax error says was expected.
#[derive(Clone, Copy, Debug, PartialEq, Eq, Structural)]
pub enum SyntaxErrorKind {
    ExpectExpression,
    ExpectRightParen,
}

/// The outcome of a grammar rule at a position: a tree and the position
/// after it, or the position of the offending token and what was expected.
pub enum Parsed {
    Done { expr: ExprView, next: int },
    Failed { at: int, kind: SyntaxErrorKind },
}

/// The kind of the token at `p`; past either end, the end of input.
pub open spec fn kind_at(s: Seq<TokenView>, p: int) -> TokenType {
    if 0 <= p < s.len() {
        s[p].kind
    } else {
        TokenType::Eof
    }
}

pub open spec fn is_level_op(l: Level, k: TokenType) -> bool {
    match l {
        Level::Equality => k == TokenType::BangEqual || k == TokenType::EqualEqual,
        Level::Comparison => k == TokenType::Greater || k == TokenType::GreaterEqual || k
            == TokenType::Less || k == TokenType::LessEqual,
        Level::Term => k == TokenType::Minus || k == TokenType::Plus,
        Level::Factor => k == TokenType::Slash || k == TokenType::Star,
    }
}

pub open spec fn rank(l: Level) -> int {
    match l {
        Level::Equality => 5,
        Level::Comparison => 4,
        Level::Term => 3,
        Level::Factor => 2,
    }
}

/// The text of a number or string token's value: its literal, or its lexeme
/// when it carries none.
pub open spec fn value_text(t: TokenView) -> Seq<char> {
    match t.literal {
        Some(l) => l,
        None => t.lexeme,
    }
}

pub open spec fn expression(s: Seq<TokenView>, p: int) -> Parsed
    decreases s.len() - p, 6int, 0int,
{
    binary(Level::Equality, s, p)
}

/// One operand of level `l`, then as many `operator operand` pairs as follow.
/// Every operand takes at least one token, so the position check always
/// holds; it only makes termination evident.
pub open spec fn binary(l: Level, s: Seq<TokenView>, p: int) -> Parsed
    decreases s.len() - p, rank(l), 1int,
{
    match operand(l, s, p) {
        Parsed::Done { expr, next } => if p < next <= s.len() {
            tail(l, s, expr, next)
        } else {
            Parsed::Done { expr, next }
        },
        failed => failed,
    }
}

/// The next tighter level below `l`.
pub open spec fn operand(l: Level, s: Seq<TokenView>, p: int) -> Parsed
    decreases s.len() - p, rank(l), 0int,
{
    match l {
        Level::Equality => binary(Level::Comparison, s, p),
        Level::Comparison => binary(Level::Term, s, p),
        Level::Term => binary(Level::Factor, s, p),
        Level::Factor => unary(s, p),
    }
}

/// Folds `left` with the `operator operand` pairs of level `l` from `p` on,
/// into a left-deepening tree.
pub open spec fn tail(l: Level, s: Seq<TokenView>, left: ExprView, p: int) -> Parsed
    decreases s.len() - p, rank(l), 2int,
{
    if is_level_op(l, kind_at(s, p)) {
        match operand(l, s, p + 1) {
            Parsed::Done { expr, next } => {
                let joined = ExprView::Binary(Box::new(left), s[p], Box::new(expr));
                if p < next <= s.len() {
                    tail(l, s, joined, next)
                } else {
                    Parsed::Done { expr: joined, next }
                }
            },
            failed => failed,
        }
    } else {
        Parsed::Done { expr: left, next: p }
    }
}

pub open spec fn unary(s: Seq<TokenView>, p: int) -> Parsed
    decreases s.len() - p, 1int, 0int,
{
    let k = kind_at(s, p);
    if k == TokenType::Bang || k == TokenType::Minus {
        match unary(s, p + 1) {
            Parsed::Done { expr, next } => Parsed::Done {
                expr: ExprView::Unary(s[p], Box::new(expr)),
                next,
            },
            failed => failed,
        }
    } else {
        primary(s, p)
    }
}

pub open spec fn primary(s: Seq<TokenView>, p: int) -> Parsed
    decreases s.len() - p, 0int, 0int,
{
    let k = kind_at(s, p);
    if k == TokenType::False {
        Parsed::Done { expr: ExprView::Literal(LiteralView::Boolean(false)), next: p + 1 }
    } else if k == TokenType::True {
        Parsed::Done { expr: ExprView::Literal(LiteralView::Boolean(true)), next: p + 1 }
    } else if k == TokenType::Nil {
        Parsed::Done { expr: ExprView::Literal(LiteralView::Nil), next: p + 1 }
    } else if k == TokenType::Number {
        Parsed::Done { expr: ExprView::Literal(LiteralView::Number(value_text(s[p]))), next: p + 1 }
    } else if k == TokenType::String {
        Parsed::Done { expr: ExprView::Literal(LiteralView::Str(value_text(s[p]))), next: p + 1 }
    } else if k == TokenType::Identifier {
        Parsed::Done { expr: ExprView::Variable(s[p]), next: p + 1 }
    } else if k == TokenType::LeftParen {
        match expression(s, p + 1) {
            Parsed::Done { expr, next } => if kind_at(s, next) == TokenType::RightParen {
                Parsed::Done { expr: ExprView::Grouping(Box::new(expr)), next: next + 1 }
            } else {
                Parsed::Failed { at: next, kind: SyntaxErrorKind::ExpectRightParen }
            },
            failed => failed,
        }
    } else {
        Parsed::Failed { at: p, kind: SyntaxErrorKind::ExpectExpression }
    }
}

// ---------------------------------------------------------------------------
// The parser

/// A syntax error: the offending token and what was expected there.
#[derive(Debug)]
pub struct ParseError {
    pub token: Token,
    pub kind: SyntaxErrorKind,
}

impl ParseError {
    pub fn message(&self) -> (r: &'static str)
        ensures
            r@ == (match self.kind {
                SyntaxErrorKind::ExpectExpression => "Expect expression."@,
                SyntaxErrorKind::ExpectRightParen => "Expect ')' after expression."@,
            }),
    {
        match self.kind {
            SyntaxErrorKind::ExpectExpression => "Expect expression.",
            SyntaxErrorKind::ExpectRightParen => "Expect ')' after expression.",
        }
    }

    /// Whether the offending token is the end of input.
    pub fn at_end(&self) -> (r: bool)
        ensures
            r == (self.token.token_type == TokenType::Eof),
    {
        self.token.token_type == TokenType::Eof
    }
}

/// Whether a rule's result is the one the grammar gives: the same tree, or an
/// error at the same token with the same kind.
pub open spec fn agrees(s: Seq<TokenView>, r: Result<ExprEnum, ParseError>, p: Parsed) -> bool {
    match p {
        Parsed::Done { expr, next } => r is Ok && r->Ok_0@ == expr,
        Parsed::Failed { at, kind } => r is Err && 0 <= at < s.len() && r->Err_0.token@ == s[at]
            && r->Err_0.kind == kind,
    }
}

/// A recursive-descent parser over a token sequence that ends with the
/// end-of-input token.
pub struct LoxParser {
    tokens: Vec<Token>,
    current: usize,
    pub has_error: bool,
}

impl LoxParser {
    pub closed spec fn toks(&self) -> Seq<TokenView> {
        token_views(self.tokens@)
    }

    pub closed spec fn pos(&self) -> int {
        self.current as int
    }

    /// Whether a syntax error has been met.
    pub closed spec fn error_flag(&self) -> bool {
        self.has_error
    }

    pub closed spec fn wf(&self) -> bool {
        &&& self.tokens@.len() > 0
        &&& self.tokens@.last().token_type == TokenType::Eof
        &&& self.current < self.tokens@.len()
    }

    /// `self` is `before` after a rule that produced `p`: same tokens and
    /// error flag, and the cursor after the parsed text.
    pub closed spec fn moved(&self, before: &Self, p: Parsed) -> bool {
        &&& self.wf()
        &&& self.toks() == before.toks()
        &&& self.error_flag() == before.error_flag()
        &&& p is Done ==> self.pos() == p->next && before.pos() < p->next
    }

    pub fn new(tokens: Vec<Token>) -> (r: Self)
        requires
            tokens@.len() > 0,
            tokens@.last().token_type == TokenType::Eof,
        ensures
            r.wf(),
            r.toks() == token_views(tokens@),
            r.pos() == 0,
            !r.error_flag(),
    {
        LoxParser { tokens, current: 0, has_error: false }
    }

    proof fn lemma_kind_at(&self, p: int)
        requires
            0 <= p < self.tokens@.len(),
        ensures
            kind_at(self.toks(), p) == self.tokens@[p].token_type,
            self.toks()[p] == self.tokens@[p]@,
            self.toks().len() == self.tokens@.len(),
    {
    }

    /// Parses one expression from the cursor on. On an error the flag
    /// `has_error` is set and no tree is returned.
    pub fn parse(&mut self) -> (r: Result<ExprEnum, ParseError>)
        requires
            old(self).wf(),
        ensures
            final(self).wf(),
            final(self).toks() == old(self).toks(),
            agrees(old(self).toks(), r, expression(old(self).toks(), old(self).pos())),
            r is Ok ==> final(self).pos() == expression(old(self).toks(), old(self).pos())->next,
            final(self).error_flag() == (old(self).error_flag() || r is Err),
    {
        let r = self.expression();
        if r.is_err() {
            self.has_error = true;
        }
        r
    }

    pub fn expression(&mut self) -> (r: Result<ExprEnum, ParseError>)
        requires
            old(self).wf(),
        ensures
            agrees(old(self).toks(), r, expression(old(self).toks(), old(self).pos())),
            final(self).moved(old(self), expression(old(self).toks(), old(self).pos())),
        decreases old(self).toks().len() - old(self).pos(), 6int, 0int,
    {
        self.equality()
    }

    fn equality(&mut self) -> (r: Result<ExprEnum, ParseError>)
        requires
            old(self).wf(),
        ensures
            agrees(old(self).toks(), r, binary(Level::Equality, old(self).toks(), old(self).pos())),
            final(self).moved(old(self), binary(Level::Equality, old(self).toks(), old(self).pos())),
        decreases old(self).toks().len() - old(self).pos(), 5int, 2int,
    {
        self.binary(Level::Equality)
    }

    fn comparison(&mut self) -> (r: Result<ExprEnum, ParseError>)
        requires
            old(self).wf(),
        ensures
            agrees(old(self).toks(), r, binary(Level::Comparison, old(self).toks(), old(self).pos())),
            final(self).moved(old(self), binary(Level::Comparison, old(self).toks(), old(self).pos())),
        decreases old(self).toks().len() - old(self).pos(), 4int, 2int,
    {
        self.binary(Level::Comparison)
    }

    fn term(&mut self) -> (r: Result<ExprEnum, ParseError>)
        requires
            old(self).wf(),
        ensures
            agrees(old(self).toks(), r, binary(Level::Term, old(self).toks(), old(self).pos())),
            final(self).moved(old(self), binary(Level::Term, old(self).toks(), old(self).pos())),
        decreases old(self).toks().len() - old(self).pos(), 3int, 2int,
    {
        self.binary(Level::Term)
    }

    fn factor(&mut self) -> (r: Result<ExprEnum, ParseError>)
        requires
            old(self).wf(),
        ensures
            agrees(old(self).toks(), r, binary(Level::Factor, old(self).toks(), old(self).pos())),
            final(self).moved(old(self), binary(Level::Factor, old(self).toks(), old(self).pos())),
        decreases old(self).toks().len() - old(self).pos(), 2int, 2int,
    {
        self.binary(Level::Factor)
    }

    fn operand(&mut self, l: Level) -> (r: Result<ExprEnum, ParseError>)
        requires
            old(self).wf(),
        ensures
            agrees(old(self).toks(), r, operand(l, old(self).toks(), old(self).pos())),
            final(self).moved(old(self), operand(l, old(self).toks(), old(self).pos())),
        decreases old(self).toks().len() - old(self).pos(), rank(l), 0int,
    {
        match l {
            Level::Equality => self.comparison(),
            Level::Comparison => self.term(),
            Level::Term => self.factor(),
            Level::Factor => self.unary(),
        }
    }

    fn binary(&mut self, l: Level) -> (r: Result<ExprEnum, ParseError>)
        requires
            old(self).wf(),
        ensures
            agrees(old(self).toks(), r, binary(l, old(self).toks(), old(self).pos())),
            final(self).moved(old(self), binary(l, old(self).toks(), old(self).pos())),
        decreases old(self).toks().len() - old(self).pos(), rank(l), 1int,
    {
        let ghost s = self.toks();
        let ghost p0 = self.pos();
        let mut expr = match self.operand(l) {
            Ok(e) => e,
            Err(e) => return Err(e),
        };
        loop
            invariant
                self.wf(),
                self.toks() == s,
                s == old(self).toks(),
                p0 == old(self).pos(),
                self.error_flag() == old(self).error_flag(),
                p0 < self.pos(),
                binary(l, s, p0) == tail(l, s, expr@, self.pos()),
            decreases s.len() - self.pos(),
        {
            let ghost before = *self;
            let ghost left = expr@;
            proof {
                self.lemma_kind_at(self.pos());
            }
            if !self.match_level(l) {
                assert(tail(l, s, expr@, self.pos()) == (Parsed::Done { expr: expr@, next: self.pos() }));
                return Ok(expr);
            }
            let op = self.previous().duplicate();
            let right = match self.operand(l) {
                Ok(e) => e,
                Err(e) => return Err(e),
            };
            expr = ExprEnum::Binary(Binary { left: Box::new(expr), op, right: Box::new(right) });
            assert(expr@ == ExprView::Binary(Box::new(left), s[before.pos()], Box::new(right@)));
        }
    }

    fn unary(&mut self) -> (r: Result<ExprEnum, ParseError>)
        requires
            old(self).wf(),
        ensures
            agrees(old(self).toks(), r, unary(old(self).toks(), old(self).pos())),
            final(self).moved(old(self), unary(old(self).toks(), old(self).pos())),
        decreases old(self).toks().len() - old(self).pos(), 1int, 0int,
    {
        proof {
            self.lemma_kind_at(self.pos());
        }
        if self.match_tokens(vec![TokenType::Bang, TokenType::Minus]) {
            let op = self.previous().duplicate();
            let right = match self.unary() {
                Ok(e) => e,
                Err(e) => return Err(e),
            };
            return Ok(ExprEnum::Unary(Unary { op, right: Box::new(right) }));
        }
        self.primary()
    }

    fn primary(&mut self) -> (r: Result<ExprEnum, ParseError>)
        requires
            old(self).wf(),
        ensures
            agrees(old(self).toks(), r, primary(old(self).toks(), old(self).pos())),
            final(self).moved(old(self), primary(old(self).toks(), old(self).pos())),
        decreases old(self).toks().len() - old(self).pos(), 0int, 0int,
    {
        proof {
            self.lemma_kind_at(self.pos());
        }
        let kind = self.peek().token_type;
        if kind == TokenType::False || kind == TokenType::True || kind == TokenType::Nil {
            self.advance();
            let value = if kind == TokenType::False {
                LiteralValue::Boolean(false)
            } else if kind == TokenType::True {
                LiteralValue::Boolean(true)
            } else {
                LiteralValue::Nil
            };
            return Ok(ExprEnum::Literal(Literal { value }));
        }
        if kind == TokenType::Number || kind == TokenType::String {
            let tok = self.advance();
            let text = match tok.literal {
                Some(l) => l,
                None => tok.lexeme,
            };
            let value = if kind == TokenType::Number {
                LiteralValue::Number(text)
            } else {
                LiteralValue::Str(text)
            };
            return Ok(ExprEnum::Literal(Literal { value }));
        }
        if kind == TokenType::Identifier {
            let name = self.advance();
            return Ok(ExprEnum::Variable(Variable { name }));
        }
        if kind == TokenType::LeftParen {
            self.advance();
            let inner = match self.expression() {
                Ok(e) => e,
                Err(e) => return Err(e),
            };
            if let Err(e) = self.consume(TokenType::RightParen, SyntaxErrorKind::ExpectRightParen) {
                return Err(e);
            }
            return Ok(ExprEnum::Grouping(Grouping { expression: Box::new(inner) }));
        }
        Err(self.error(SyntaxErrorKind::ExpectExpression))
    }

    /// Takes a token of kind `kind`, or fails at the current token.
    fn consume(&mut self, kind: TokenType, err: SyntaxErrorKind) -> (r: Result<(), ParseError>)
        requires
            old(self).wf(),
            kind != TokenType::Eof,
        ensures
            final(self).wf(),
            final(self).toks() == old(self).toks(),
            final(self).error_flag() == old(self).error_flag(),
            kind_at(old(self).toks(), old(self).pos()) == kind ==> r is Ok && final(self).pos()
                == old(self).pos() + 1,
            kind_at(old(self).toks(), old(self).pos()) != kind ==> r is Err && r->Err_0.token@
                == old(self).toks()[old(self).pos()] && r->Err_0.kind == err,
    {
        proof {
            self.lemma_kind_at(self.pos());
        }
        if self.match_token(kind) {
            self.advance();
            Ok(())
        } else {
            Err(self.error(err))
        }
    }

    /// A syntax error at the current token.
    fn error(&self, kind: SyntaxErrorKind) -> (r: ParseError)
        requires
            self.wf(),
        ensures
            r.token@ == self.toks()[self.pos()],
            r.kind == kind,
    {
        ParseError { token: self.peek().duplicate(), kind }
    }

    fn is_at_end(&self) -> (r: bool)
        requires
            self.wf(),
        ensures
            r == (kind_at(self.toks(), self.pos()) == TokenType::Eof),
    {
        self.peek().token_type == TokenType::Eof
    }

    /// Whether the current token is of kind `kind` (never at the end).
    fn match_token(&self, kind: TokenType) -> (r: bool)
        requires
            self.wf(),
        ensures
            r == (kind_at(self.toks(), self.pos()) != TokenType::Eof && kind_at(
                self.toks(),
                self.pos(),
            ) == kind),
    {
        if self.is_at_end() {
            return false;
        }
        self.peek().token_type == kind
    }

    /// Takes the current token if its kind is one of `kinds`.
    fn match_tokens(&mut self, kinds: Vec<TokenType>) -> (r: bool)
        requires
            old(self).wf(),
        ensures
            final(self).wf(),
            final(self).toks() == old(self).toks(),
            final(self).error_flag() == old(self).error_flag(),
            r == (kind_at(old(self).toks(), old(self).pos()) != TokenType::Eof && kinds@.contains(
                kind_at(old(self).toks(), old(self).pos()),
            )),
            final(self).pos() == if r {
                old(self).pos() + 1
            } else {
                old(self).pos()
            },
    {
        let mut i: usize = 0;
        while i < kinds.len()
            invariant
                self == old(self),
                self.wf(),
                i <= kinds.len(),
                forall|j: int|
                    0 <= j < i ==> !(kind_at(self.toks(), self.pos()) != TokenType::Eof
                        && kinds@[j] == kind_at(self.toks(), self.pos())),
            decreases kinds.len() - i,
        {
            if self.match_token(kinds[i]) {
                self.advance();
                return true;
            }
            i = i + 1;
        }
        false
    }

    /// Takes the current token if it is an operator of level `l`.
    fn match_level(&mut self, l: Level) -> (r: bool)
        requires
            old(self).wf(),
        ensures
            final(self).wf(),
            final(self).toks() == old(self).toks(),
            final(self).error_flag() == old(self).error_flag(),
            r == is_level_op(l, kind_at(old(self).toks(), old(self).pos())),
            final(self).pos() == if r {
                old(self).pos() + 1
            } else {
                old(self).pos()
            },
    {
        let kinds = match l {
            Level::Equality => vec![TokenType::BangEqual, TokenType::EqualEqual],
            Level::Comparison => vec![
                TokenType::Greater,
                TokenType::GreaterEqual,
                TokenType::Less,
                TokenType::LessEqual,
            ],
            Level::Term => vec![TokenType::Minus, TokenType::Plus],
            Level::Factor => vec![TokenType::Slash, TokenType::Star],
        };
        let ghost k = kind_at(self.toks(), self.pos());
        proof {
            if is_level_op(l, k) {
                if k == kinds@[0] {
                } else if k == kinds@[1] {
                } else if k == kinds@[2] {
                } else {
                    assert(k == kinds@[3]);
                }
            }
        }
        self.match_tokens(kinds)
    }

    /// The token at the cursor.
    pub fn peek(&self) -> (r: &Token)
        requires
            self.wf(),
        ensures
            r@ == self.toks()[self.pos()],
    {
        &self.tokens[self.current]
    }

    /// Moves the cursor past the current token unless it is the end of input,
    /// and returns the token just before the cursor.
    pub fn advance(&mut self) -> (r: Token)
        requires
            old(self).wf(),
            old(self).pos() > 0 || kind_at(old(self).toks(), old(self).pos()) != TokenType::Eof,
        ensures
            final(self).wf(),
            final(self).toks() == old(self).toks(),
            final(self).error_flag() == old(self).error_flag(),
            final(self).pos() == if kind_at(old(self).toks(), old(self).pos()) == TokenType::Eof {
                old(self).pos()
            } else {
                old(self).pos() + 1
            },
            r@ == final(self).toks()[final(self).pos() - 1],
    {
        proof {
            self.lemma_kind_at(self.pos());
        }
        let n = self.tokens.len();
        if !self.is_at_end() {
            assert(self.tokens@.last() == self.tokens@[n - 1]);
            self.current = self.current + 1;
        }
        proof {
            self.lemma_kind_at(self.pos() - 1);
        }
        self.previous().duplicate()
    }

    /// The token just before the cursor.
    pub fn previous(&self) -> (r: &Token)
        requires
            self.wf(),
            self.pos() > 0,
        ensures
            r@ == self.toks()[self.pos() - 1],
    {
        &self.tokens[self.current - 1]
    }
}

} // verus!
