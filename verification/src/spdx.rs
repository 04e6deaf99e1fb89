//! SPDX expressions: the abstract syntax and a recursive-descent parser.
//!
//! Precedence, lowest first: `OR`, `AND`, `WITH`; parentheses override it.
//! The grammar is written down as the spec functions `p_or` .. `p_primary`
//! over the token sequence of [`crate::lexer::lex`]; [`parse_spdx_expr`] is
//! proved to compute exactly [`parse_spec`].
use vstd::prelude::*;
use crate::catalog::{resolve_identifier, resolve_spec};
use crate::family::{License, LicenseView, license_text};
use crate::lexer::{Lexer, Token, TokenView, lex, token_views};
use crate::text::{debug_str, decimal, decimal_string, push_char, str_debug_text};

verus! {

/// Errors produced during SPDX expression parsing.
#[derive(Debug, Clone)]
pub enum SpdxParseError {
    UnexpectedToken(String),
    UnexpectedEnd,
    UnmatchedParen,
    EmptyExpression,
    ResolutionError(String),
}

/// Mathematical model of a [`SpdxParseError`].
pub enum SpdxParseErrorView {
    UnexpectedToken(Seq<char>),
    UnexpectedEnd,
    UnmatchedParen,
    EmptyExpression,
    ResolutionError(Seq<char>),
}

impl View for SpdxParseError {
    type V = SpdxParseErrorView;

    open spec fn view(&self) -> SpdxParseErrorView {
        match self {
            SpdxParseError::UnexpectedToken(s) => SpdxParseErrorView::UnexpectedToken(s@),
            SpdxParseError::UnexpectedEnd => SpdxParseErrorView::UnexpectedEnd,
            SpdxParseError::UnmatchedParen => SpdxParseErrorView::UnmatchedParen,
            SpdxParseError::EmptyExpression => SpdxParseErrorView::EmptyExpression,
            SpdxParseError::ResolutionError(s) => SpdxParseErrorView::ResolutionError(s@),
        }
    }
}

/// The message of a parse error.
pub open spec fn parse_error_text(e: SpdxParseErrorView) -> Seq<char> {
    match e {
        SpdxParseErrorView::UnexpectedToken(t) => "unexpected token: "@ + t,
        SpdxParseErrorView::UnexpectedEnd => "unexpected end of expression"@,
        SpdxParseErrorView::UnmatchedParen => "unmatched closing parenthesis"@,
        SpdxParseErrorView::EmptyExpression => "empty expression"@,
        SpdxParseErrorView::ResolutionError(t) => "failed to resolve identifier: "@ + t,
    }
}

impl SpdxParseError {
    /// The human-readable message of the error.
    pub fn to_string(&self) -> (s: String)
        ensures
            s@ == parse_error_text(self@),
    {
        match self {
            SpdxParseError::UnexpectedToken(t) => {
                let mut s = String::from_str("unexpected token: ");
                s.append(t.as_str());
                s
            },
            SpdxParseError::UnexpectedEnd => String::from_str("unexpected end of expression"),
            SpdxParseError::UnmatchedParen => String::from_str("unmatched closing parenthesis"),
            SpdxParseError::EmptyExpression => String::from_str("empty expression"),
            SpdxParseError::ResolutionError(t) => {
                let mut s = String::from_str("failed to resolve identifier: ");
                s.append(t.as_str());
                s
            },
        }
    }
}

/// A parsed SPDX expression.
#[derive(Debug, PartialEq, Eq)]
pub enum SpdxExpr {
    /// A single license identifier.
    Simple(License),
    /// Dual licensing: the user chooses.
    Or(Box<SpdxExpr>, Box<SpdxExpr>),
    /// Both apply.
    And(Box<SpdxExpr>, Box<SpdxExpr>),
    /// A license with an exception.
    With(Box<SpdxExpr>, String),
}

/// Mathematical model of a [`SpdxExpr`].
pub enum SpdxExprView {
    Simple(LicenseView),
    Or(Box<SpdxExprView>, Box<SpdxExprView>),
    And(Box<SpdxExprView>, Box<SpdxExprView>),
    With(Box<SpdxExprView>, Seq<char>),
}

impl View for SpdxExpr {
    type V = SpdxExprView;

    open spec fn view(&self) -> SpdxExprView
        decreases self,
    {
        match self {
            SpdxExpr::Simple(l) => SpdxExprView::Simple(l@),
            SpdxExpr::Or(a, b) => SpdxExprView::Or(Box::new((**a).view()), Box::new((**b).view())),
            SpdxExpr::And(a, b) => SpdxExprView::And(
                Box::new((**a).view()),
                Box::new((**b).view()),
            ),
            SpdxExpr::With(a, e) => SpdxExprView::With(Box::new((**a).view()), e@),
        }
    }
}

/// The display form of an expression (operands joined by ` OR `, ` AND `,
/// ` WITH `; no parentheses are added).
pub open spec fn expr_text(e: SpdxExprView) -> Seq<char>
    decreases e,
{
    match e {
        SpdxExprView::Simple(l) => license_text(l),
        SpdxExprView::Or(a, b) => expr_text(*a) + " OR "@ + expr_text(*b),
        SpdxExprView::And(a, b) => expr_text(*a) + " AND "@ + expr_text(*b),
        SpdxExprView::With(a, x) => expr_text(*a) + " WITH "@ + x,
    }
}

impl SpdxExpr {
    /// The display form of the expression.
    pub fn to_string(&self) -> (s: String)
        ensures
            s@ == expr_text(self@),
        decreases self,
    {
        match self {
            SpdxExpr::Simple(l) => l.to_string(),
            SpdxExpr::Or(a, b) => {
                let mut s = a.to_string();
                s.append(" OR ");
                let r = b.to_string();
                s.append(r.as_str());
                s
            },
            SpdxExpr::And(a, b) => {
                let mut s = a.to_string();
                s.append(" AND ");
                let r = b.to_string();
                s.append(r.as_str());
                s
            },
            SpdxExpr::With(a, x) => {
                let mut s = a.to_string();
                s.append(" WITH ");
                s.append(x.as_str());
                s
            },
        }
    }
}

/// Structural equality of two expressions.
pub fn expr_same(a: &SpdxExpr, b: &SpdxExpr) -> (r: bool)
    ensures
        r == (a@ == b@),
    decreases a,
{
    match (a, b) {
        (SpdxExpr::Simple(x), SpdxExpr::Simple(y)) => crate::compat::license_same(x, y),
        (SpdxExpr::Or(a1, a2), SpdxExpr::Or(b1, b2)) => expr_same(a1, b1) && expr_same(a2, b2),
        (SpdxExpr::And(a1, a2), SpdxExpr::And(b1, b2)) => expr_same(a1, b1) && expr_same(a2, b2),
        (SpdxExpr::With(a1, x), SpdxExpr::With(b1, y)) => expr_same(a1, b1) && crate::text::str_eq(
            x.as_str(),
            y.as_str(),
        ),
        _ => false,
    }
}

/// The `Debug` text of a token, as it appears in `UnexpectedToken` errors.
pub open spec fn token_debug(t: TokenView) -> Seq<char> {
    match t {
        TokenView::Ident(s) => "Ident("@ + str_debug_text(s) + seq![')'],
        TokenView::Number(n) => "Number("@ + decimal(n as nat) + seq![')'],
        TokenView::Dash => "Dash"@,
        TokenView::Dot => "Dot"@,
        TokenView::OrLater => "OrLater"@,
        TokenView::Or => "Or"@,
        TokenView::And => "And"@,
        TokenView::With => "With"@,
        TokenView::LParen => "LParen"@,
        TokenView::RParen => "RParen"@,
    }
}

impl Token {
    /// The `Debug` text of the token.
    pub fn describe(&self) -> (s: String)
        ensures
            s@ == token_debug(self@),
    {
        match self {
            Token::Ident(w) => {
                let mut s = String::from_str("Ident(");
                let d = debug_str(w.as_str());
                s.append(d.as_str());
                push_char(&mut s, ')');
                s
            },
            Token::Number(n) => {
                let mut s = String::from_str("Number(");
                let d = decimal_string(*n as u64);
                s.append(d.as_str());
                push_char(&mut s, ')');
                s
            },
            Token::Dash => String::from_str("Dash"),
            Token::Dot => String::from_str("Dot"),
            Token::OrLater => String::from_str("OrLater"),
            Token::Or => String::from_str("Or"),
            Token::And => String::from_str("And"),
            Token::With => String::from_str("With"),
            Token::LParen => String::from_str("LParen"),
            Token::RParen => String::from_str("RParen"),
        }
    }

    /// A copy with the same view.
    pub fn duplicate(&self) -> (r: Token)
        ensures
            r@ == self@,
    {
        match self {
            Token::Ident(w) => Token::Ident(w.clone()),
            Token::Number(n) => Token::Number(*n),
            Token::Dash => Token::Dash,
            Token::Dot => Token::Dot,
            Token::OrLater => Token::OrLater,
            Token::Or => Token::Or,
            Token::And => Token::And,
            Token::With => Token::With,
            Token::LParen => Token::LParen,
            Token::RParen => Token::RParen,
        }
    }
}

/// Result of a grammar rule: the parsed value or error, and the position
/// after it.
pub type ParseStep = (Result<SpdxExprView, SpdxParseErrorView>, nat);

/// The rest of a license identifier after its first word: `-` and a
/// number (with an optional `.` and the token after it, kept when it is a
/// number), or `-` and a word; `-or-later` or a bare `OrLater` ends it
/// with the or-later flag.
pub open spec fn lid_loop(t: Seq<TokenView>, pos: nat, parts: Seq<char>) -> (Seq<char>, bool, nat)
    decreases t.len() - pos,
{
    if pos < t.len() && t[pos as int] == TokenView::Dash {
        if pos + 1 < t.len() && t[pos + 1int] == TokenView::OrLater {
            (parts, true, pos + 2)
        } else {
            let parts2 = parts.push('-');
            let q = pos + 1;
            if q < t.len() && t[q as int] is Number {
                let parts3 = parts2 + decimal(t[q as int]->Number_0 as nat);
                let q2 = q + 1;
                if q2 < t.len() && t[q2 as int] == TokenView::Dot {
                    let parts4 = parts3.push('.');
                    let q3 = q2 + 1;
                    if q3 < t.len() {
                        if t[q3 as int] is Number {
                            lid_loop(t, q3 + 1, parts4 + decimal(t[q3 as int]->Number_0 as nat))
                        } else {
                            lid_loop(t, q3 + 1, parts4)
                        }
                    } else {
                        lid_loop(t, q3, parts4)
                    }
                } else {
                    lid_loop(t, q2, parts3)
                }
            } else if q < t.len() && t[q as int] is Ident {
                lid_loop(t, q + 1, parts2 + t[q as int]->Ident_0)
            } else {
                (parts2, false, q)
            }
        }
    } else if pos < t.len() && t[pos as int] == TokenView::OrLater {
        (parts, true, pos + 1)
    } else {
        (parts, false, pos)
    }
}

/// An exception name after `WITH`: identifiers, dashes, numbers and dots.
pub open spec fn istr_loop(t: Seq<TokenView>, pos: nat, parts: Seq<char>) -> (Seq<char>, nat)
    decreases t.len() - pos,
{
    if pos < t.len() {
        match t[pos as int] {
            TokenView::Ident(s) => istr_loop(t, pos + 1, parts + s),
            TokenView::Dash => istr_loop(t, pos + 1, parts.push('-')),
            TokenView::Number(n) => istr_loop(t, pos + 1, parts + decimal(n as nat)),
            TokenView::Dot => istr_loop(t, pos + 1, parts.push('.')),
            _ => (parts, pos),
        }
    } else {
        (parts, pos)
    }
}

/// `expr := and (OR and)*`
pub open spec fn p_or(t: Seq<TokenView>, pos: nat) -> ParseStep
    decreases t.len() - pos, 4nat,
{
    let (r, p) = p_and(t, pos);
    match r {
        Err(e) => (Err(e), p),
        Ok(left) => if pos < p <= t.len() {
            p_or_rest(t, left, p)
        } else {
            (Err(SpdxParseErrorView::UnexpectedEnd), p)
        },
    }
}

pub open spec fn p_or_rest(t: Seq<TokenView>, left: SpdxExprView, pos: nat) -> ParseStep
    decreases t.len() - pos, 5nat,
{
    if pos < t.len() && t[pos as int] == TokenView::Or {
        let (r, p) = p_and(t, pos + 1);
        match r {
            Err(e) => (Err(e), p),
            Ok(right) => if pos < p <= t.len() {
                p_or_rest(t, SpdxExprView::Or(Box::new(left), Box::new(right)), p)
            } else {
                (Err(SpdxParseErrorView::UnexpectedEnd), p)
            },
        }
    } else {
        (Ok(left), pos)
    }
}

/// `and := with (AND with)*`
pub open spec fn p_and(t: Seq<TokenView>, pos: nat) -> ParseStep
    decreases t.len() - pos, 3nat,
{
    let (r, p) = p_with(t, pos);
    match r {
        Err(e) => (Err(e), p),
        Ok(left) => if pos < p <= t.len() {
            p_and_rest(t, left, p)
        } else {
            (Err(SpdxParseErrorView::UnexpectedEnd), p)
        },
    }
}

pub open spec fn p_and_rest(t: Seq<TokenView>, left: SpdxExprView, pos: nat) -> ParseStep
    decreases t.len() - pos, 5nat,
{
    if pos < t.len() && t[pos as int] == TokenView::And {
        let (r, p) = p_with(t, pos + 1);
        match r {
            Err(e) => (Err(e), p),
            Ok(right) => if pos < p <= t.len() {
                p_and_rest(t, SpdxExprView::And(Box::new(left), Box::new(right)), p)
            } else {
                (Err(SpdxParseErrorView::UnexpectedEnd), p)
            },
        }
    } else {
        (Ok(left), pos)
    }
}

/// `with := primary (WITH exception)?`
pub open spec fn p_with(t: Seq<TokenView>, pos: nat) -> ParseStep
    decreases t.len() - pos, 2nat,
{
    let (r, p) = p_primary(t, pos);
    match r {
        Err(e) => (Err(e), p),
        Ok(left) => if p < t.len() && t[p as int] == TokenView::With {
            let (name, q) = istr_loop(t, p + 1, seq![]);
            if q == p + 1 {
                (Err(SpdxParseErrorView::UnexpectedEnd), q)
            } else {
                (Ok(SpdxExprView::With(Box::new(left), name)), q)
            }
        } else {
            (Ok(left), p)
        },
    }
}

/// `primary := ( expr ) | license-id`
pub open spec fn p_primary(t: Seq<TokenView>, pos: nat) -> ParseStep
    decreases t.len() - pos, 1nat,
{
    if pos >= t.len() {
        (Err(SpdxParseErrorView::UnexpectedEnd), pos)
    } else {
        match t[pos as int] {
            TokenView::LParen => {
                let (r, p) = p_or(t, pos + 1);
                match r {
                    Err(e) => (Err(e), p),
                    Ok(x) => if p < t.len() && t[p as int] == TokenView::RParen {
                        (Ok(x), p + 1)
                    } else {
                        (Err(SpdxParseErrorView::UnmatchedParen), p)
                    },
                }
            },
            TokenView::Ident(name) => {
                let (id, or_later, p) = lid_loop(t, pos + 1, name);
                (Ok(SpdxExprView::Simple(resolve_spec(id, or_later))), p)
            },
            other => (Err(SpdxParseErrorView::UnexpectedToken(token_debug(other))), pos),
        }
    }
}

/// The result of parsing an SPDX expression text: no tokens is an empty
/// expression, and tokens left after a complete expression are an error.
pub open spec fn parse_spec(s: Seq<char>) -> Result<SpdxExprView, SpdxParseErrorView> {
    let t = lex(s);
    if t.len() == 0 {
        Err(SpdxParseErrorView::EmptyExpression)
    } else {
        let (r, p) = p_or(t, 0);
        match r {
            Err(e) => Err(e),
            Ok(x) => if p < t.len() {
                Err(SpdxParseErrorView::UnexpectedToken(token_debug(t[p as int])))
            } else {
                Ok(x)
            },
        }
    }
}

/// The view of a parse result.
pub open spec fn result_view(r: Result<SpdxExpr, SpdxParseError>) -> Result<
    SpdxExprView,
    SpdxParseErrorView,
> {
    match r {
        Ok(x) => Ok(x@),
        Err(e) => Err(e@),
    }
}

/// Parser state: the tokens and the position of the next one.
struct Parser {
    tokens: Vec<Token>,
    pos: usize,
}

impl Parser {
    spec fn tv(&self) -> Seq<TokenView> {
        token_views(self.tokens@)
    }

    fn new(tokens: Vec<Token>) -> (p: Parser)
        ensures
            p.tokens@ == tokens@,
            p.pos == 0,
    {
        Parser { tokens, pos: 0 }
    }

    /// The current token, if any.
    fn peek(&self) -> (r: Option<&Token>)
        ensures
            self.pos < self.tokens@.len() ==> r == Some(&self.tokens@[self.pos as int]),
            self.pos >= self.tokens@.len() ==> r is None,
    {
        if self.pos < self.tokens.len() {
            Some(&self.tokens[self.pos])
        } else {
            None
        }
    }

    /// Consume the current token.
    fn advance(&mut self) -> (r: Option<Token>)
        ensures
            final(self).tokens@ == old(self).tokens@,
            old(self).pos < old(self).tokens@.len() ==> (r matches Some(t) && t@
                == old(self).tokens@[old(self).pos as int]@ && final(self).pos == old(self).pos + 1),
            old(self).pos >= old(self).tokens@.len() ==> r is None && final(self).pos
                == old(self).pos,
    {
        if self.pos < self.tokens.len() {
            let token = self.tokens[self.pos].duplicate();
            self.pos = self.pos + 1;
            Some(token)
        } else {
            None
        }
    }

    /// Is the current token `k`?
    fn at(&self, k: TokenKind) -> (r: bool)
        ensures
            r == (self.pos < self.tokens@.len() && kind_matches(
                self.tokens@[self.pos as int]@,
                k,
            )),
    {
        match self.peek() {
            Some(t) => token_is(t, k),
            None => false,
        }
    }

    fn parse_expr(&mut self) -> (r: Result<SpdxExpr, SpdxParseError>)
        requires
            old(self).pos <= old(self).tokens@.len(),
        ensures
            final(self).tokens@ == old(self).tokens@,
            result_view(r) == p_or(old(self).tv(), old(self).pos as nat).0,
            r is Ok ==> final(self).pos == p_or(old(self).tv(), old(self).pos as nat).1 && old(
                self,
            ).pos < final(self).pos <= final(self).tokens@.len(),
        decreases old(self).tokens@.len() - old(self).pos, 6nat,
    {
        self.parse_or()
    }

    #[verifier::loop_isolation(false)]
    fn parse_or(&mut self) -> (r: Result<SpdxExpr, SpdxParseError>)
        requires
            old(self).pos <= old(self).tokens@.len(),
        ensures
            final(self).tokens@ == old(self).tokens@,
            result_view(r) == p_or(old(self).tv(), old(self).pos as nat).0,
            r is Ok ==> final(self).pos == p_or(old(self).tv(), old(self).pos as nat).1 && old(
                self,
            ).pos < final(self).pos <= final(self).tokens@.len(),
        decreases old(self).tokens@.len() - old(self).pos, 4nat,
    {
        let ghost t = self.tv();
        let ghost toks = self.tokens@;
        let ghost start = self.pos as nat;
        let mut left = match self.parse_and() {
            Ok(l) => l,
            Err(e) => return Err(e),
        };
        let ghost target = p_or(t, start);
        assert(target == p_or_rest(t, left@, self.pos as nat));
        while self.at(TokenKind::Or)
            invariant
                self.tokens@.len() == t.len(),
                self.tv() == t,
                self.tokens@ == toks,
                forall|k: int| 0 <= k < t.len() ==> #[trigger] t[k] == toks[k]@,
                start < self.pos <= t.len(),
                p_or_rest(t, left@, self.pos as nat) == target,
            decreases t.len() - self.pos,
        {
            let ghost p = self.pos as nat;
            self.advance();
            let right = match self.parse_and() {
                Ok(r) => r,
                Err(e) => return Err(e),
            };
            left = SpdxExpr::Or(Box::new(left), Box::new(right));
        }
        Ok(left)
    }

    #[verifier::loop_isolation(false)]
    fn parse_and(&mut self) -> (r: Result<SpdxExpr, SpdxParseError>)
        requires
            old(self).pos <= old(self).tokens@.len(),
        ensures
            final(self).tokens@ == old(self).tokens@,
            result_view(r) == p_and(old(self).tv(), old(self).pos as nat).0,
            r is Ok ==> final(self).pos == p_and(old(self).tv(), old(self).pos as nat).1 && old(
                self,
            ).pos < final(self).pos <= final(self).tokens@.len(),
        decreases old(self).tokens@.len() - old(self).pos, 3nat,
    {
        let ghost t = self.tv();
        let ghost toks = self.tokens@;
        let ghost start = self.pos as nat;
        let mut left = match self.parse_with() {
            Ok(l) => l,
            Err(e) => return Err(e),
        };
        let ghost target = p_and(t, start);
        assert(target == p_and_rest(t, left@, self.pos as nat));
        while self.at(TokenKind::And)
            invariant
                self.tokens@.len() == t.len(),
                self.tv() == t,
                self.tokens@ == toks,
                forall|k: int| 0 <= k < t.len() ==> #[trigger] t[k] == toks[k]@,
                start < self.pos <= t.len(),
                p_and_rest(t, left@, self.pos as nat) == target,
            decreases t.len() - self.pos,
        {
            self.advance();
            let right = match self.parse_with() {
                Ok(r) => r,
                Err(e) => return Err(e),
            };
            left = SpdxExpr::And(Box::new(left), Box::new(right));
        }
        Ok(left)
    }

    fn parse_with(&mut self) -> (r: Result<SpdxExpr, SpdxParseError>)
        requires
            old(self).pos <= old(self).tokens@.len(),
        ensures
            final(self).tokens@ == old(self).tokens@,
            result_view(r) == p_with(old(self).tv(), old(self).pos as nat).0,
            r is Ok ==> final(self).pos == p_with(old(self).tv(), old(self).pos as nat).1 && old(
                self,
            ).pos < final(self).pos <= final(self).tokens@.len(),
        decreases old(self).tokens@.len() - old(self).pos, 2nat,
    {
        let left = match self.parse_primary() {
            Ok(l) => l,
            Err(e) => return Err(e),
        };
        if self.at(TokenKind::With) {
            self.advance();
            let exception = match self.parse_identifier_string() {
                Ok(x) => x,
                Err(e) => return Err(e),
            };
            Ok(SpdxExpr::With(Box::new(left), exception))
        } else {
            Ok(left)
        }
    }

    fn parse_primary(&mut self) -> (r: Result<SpdxExpr, SpdxParseError>)
        requires
            old(self).pos <= old(self).tokens@.len(),
        ensures
            final(self).tokens@ == old(self).tokens@,
            result_view(r) == p_primary(old(self).tv(), old(self).pos as nat).0,
            r is Ok ==> final(self).pos == p_primary(old(self).tv(), old(self).pos as nat).1 && old(
                self,
            ).pos < final(self).pos <= final(self).tokens@.len(),
        decreases old(self).tokens@.len() - old(self).pos, 1nat,
    {
        let ghost t = self.tv();
        let ghost toks = self.tokens@;
        if self.pos >= self.tokens.len() {
            return Err(SpdxParseError::UnexpectedEnd);
        }
        assert(t[self.pos as int] == self.tokens@[self.pos as int]@);
        if self.at(TokenKind::LParen) {
            self.advance();
            let expr = match self.parse_expr() {
                Ok(x) => x,
                Err(e) => return Err(e),
            };
            if self.at(TokenKind::RParen) {
                self.advance();
                Ok(expr)
            } else {
                self.advance();
                Err(SpdxParseError::UnmatchedParen)
            }
        } else if self.at(TokenKind::Ident) {
            let (id, or_later) = self.parse_license_id();
            match resolve_identifier(id.as_str(), or_later) {
                Ok(license) => Ok(SpdxExpr::Simple(license)),
                Err(_) => Err(SpdxParseError::UnexpectedEnd),
            }
        } else {
            let d = self.tokens[self.pos].describe();
            Err(SpdxParseError::UnexpectedToken(d))
        }
    }

    /// Read a license identifier: its first word, then dash-separated
    /// segments, and the or-later flag.
    #[verifier::loop_isolation(false)]
    fn parse_license_id(&mut self) -> (r: (String, bool))
        requires
            old(self).pos < old(self).tokens@.len(),
            old(self).tokens@[old(self).pos as int]@ is Ident,
        ensures
            final(self).tokens@ == old(self).tokens@,
            ({
                let t = old(self).tv();
                let res = lid_loop(
                    t,
                    (old(self).pos + 1) as nat,
                    t[old(self).pos as int]->Ident_0,
                );
                r.0@ == res.0 && r.1 == res.1 && final(self).pos == res.2
            }),
            old(self).pos < final(self).pos <= final(self).tokens@.len(),
    {
        let ghost t = self.tv();
        let ghost toks = self.tokens@;
        let ghost start = self.pos;
        let mut id = match self.advance() {
            Some(Token::Ident(name)) => name,
            _ => String::new(),
        };
        let ghost target = lid_loop(t, (start + 1) as nat, id@);
        let n = self.tokens.len();
        loop
            invariant
                self.tokens@.len() == n,
                n == t.len(),
                self.tv() == t,
                self.tokens@ == toks,
                forall|k: int| 0 <= k < t.len() ==> #[trigger] t[k] == toks[k]@,
                start < self.pos <= n,
                lid_loop(t, self.pos as nat, id@) == target,
            decreases n - self.pos,
        {
            if self.at(TokenKind::Dash) {
                if self.pos + 1 < n && token_is(&self.tokens[self.pos + 1], TokenKind::OrLater) {
                    self.advance();
                    self.advance();
                    return (id, true);
                }
                self.advance();
                push_char(&mut id, '-');
                if self.at(TokenKind::Number) {
                    if let Some(Token::Number(v)) = self.advance() {
                        let d = decimal_string(v as u64);
                        id.append(d.as_str());
                    }
                    if self.at(TokenKind::Dot) {
                        self.advance();
                        push_char(&mut id, '.');
                        if let Some(Token::Number(m)) = self.advance() {
                            let d = decimal_string(m as u64);
                            id.append(d.as_str());
                        }
                    }
                } else if self.at(TokenKind::Ident) {
                    if let Some(Token::Ident(w)) = self.advance() {
                        id.append(w.as_str());
                    }
                } else {
                    return (id, false);
                }
            } else if self.at(TokenKind::OrLater) {
                self.advance();
                return (id, true);
            } else {
                return (id, false);
            }
        }
    }

    /// Read an exception name: identifiers, dashes, numbers and dots.
    #[verifier::loop_isolation(false)]
    fn parse_identifier_string(&mut self) -> (r: Result<String, SpdxParseError>)
        requires
            old(self).pos <= old(self).tokens@.len(),
        ensures
            final(self).tokens@ == old(self).tokens@,
            ({
                let res = istr_loop(old(self).tv(), old(self).pos as nat, seq![]);
                &&& final(self).pos == res.1
                &&& res.1 == old(self).pos ==> (r matches Err(e) && e@
                    == SpdxParseErrorView::UnexpectedEnd)
                &&& res.1 != old(self).pos ==> (r matches Ok(s) && s@ == res.0)
            }),
            old(self).pos <= final(self).pos <= final(self).tokens@.len(),
    {
        let ghost t = self.tv();
        let ghost toks = self.tokens@;
        let start = self.pos;
        let mut s = String::new();
        let ghost target = istr_loop(t, start as nat, seq![]);
        let n = self.tokens.len();
        loop
            invariant
                self.tokens@.len() == n,
                n == t.len(),
                self.tv() == t,
                self.tokens@ == toks,
                forall|k: int| 0 <= k < t.len() ==> #[trigger] t[k] == toks[k]@,
                start <= self.pos <= n,
                istr_loop(t, self.pos as nat, s@) == target,
            decreases n - self.pos,
        {
            if self.pos >= n {
                break;
            }
            match self.advance() {
                Some(Token::Ident(w)) => {
                    s.append(w.as_str());
                },
                Some(Token::Dash) => {
                    push_char(&mut s, '-');
                },
                Some(Token::Number(v)) => {
                    let d = decimal_string(v as u64);
                    s.append(d.as_str());
                },
                Some(Token::Dot) => {
                    push_char(&mut s, '.');
                },
                _ => {
                    self.pos = self.pos - 1;
                    break;
                },
            }
        }
        if self.pos == start {
            return Err(SpdxParseError::UnexpectedEnd);
        }
        Ok(s)
    }
}

/// Token shapes the parser asks about.
pub enum TokenKind {
    Ident,
    Number,
    Dash,
    Dot,
    OrLater,
    Or,
    And,
    With,
    LParen,
    RParen,
}

/// The token has the given shape.
pub open spec fn kind_matches(t: TokenView, k: TokenKind) -> bool {
    match k {
        TokenKind::Ident => t is Ident,
        TokenKind::Number => t is Number,
        TokenKind::Dash => t == TokenView::Dash,
        TokenKind::Dot => t == TokenView::Dot,
        TokenKind::OrLater => t == TokenView::OrLater,
        TokenKind::Or => t == TokenView::Or,
        TokenKind::And => t == TokenView::And,
        TokenKind::With => t == TokenView::With,
        TokenKind::LParen => t == TokenView::LParen,
        TokenKind::RParen => t == TokenView::RParen,
    }
}

fn token_is(t: &Token, k: TokenKind) -> (r: bool)
    ensures
        r == kind_matches(t@, k),
{
    match (t, k) {
        (Token::Ident(_), TokenKind::Ident) => true,
        (Token::Number(_), TokenKind::Number) => true,
        (Token::Dash, TokenKind::Dash) => true,
        (Token::Dot, TokenKind::Dot) => true,
        (Token::OrLater, TokenKind::OrLater) => true,
        (Token::Or, TokenKind::Or) => true,
        (Token::And, TokenKind::And) => true,
        (Token::With, TokenKind::With) => true,
        (Token::LParen, TokenKind::LParen) => true,
        (Token::RParen, TokenKind::RParen) => true,
        _ => false,
    }
}

/// Parse an SPDX expression such as `MIT OR Apache-2.0` or
/// `PMPL-2.0-or-later`.
pub fn parse_spdx_expr(input: &str) -> (r: Result<SpdxExpr, SpdxParseError>)
    ensures
        result_view(r) == parse_spec(input@),
{
    let tokens = Lexer::new(input).tokenize();
    if tokens.len() == 0 {
        return Err(SpdxParseError::EmptyExpression);
    }
    let mut parser = Parser::new(tokens);
    let expr = match parser.parse_expr() {
        Ok(x) => x,
        Err(e) => return Err(e),
    };
    if parser.pos < parser.tokens.len() {
        let d = parser.tokens[parser.pos].describe();
        return Err(SpdxParseError::UnexpectedToken(d));
    }
    Ok(expr)
}

} // verus!
