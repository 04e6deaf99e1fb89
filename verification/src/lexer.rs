//! SPDX expression tokeniser: turns an expression such as
//! `PAGPL-1.0-or-later` into `[Ident("PAGPL"), Dash, Number(1), Dot,
//! Number(0), OrLater]`.
//!
//! The token sequence of a text is given by the spec function [`lex`].
use vstd::prelude::*;
use crate::text::{
    alphanumeric, chars_of, digits_value, has_prefix, is_alphanumeric, is_ascii_digit,
    is_white_space, is_whitespace, push_char, str_eq,
};

verus! {

/// Tokens produced by the SPDX expression lexer.
#[derive(Debug, Clone, PartialEq, Eq)]
pub enum Token {
    /// A textual identifier such as `MIT`, `PAGPL`, `Apache`.
    Ident(String),
    /// A numeric literal.
    Number(u32),
    /// `-`
    Dash,
    /// `.`
    Dot,
    /// `-or-later` or `+`.
    OrLater,
    /// The keyword `OR`.
    Or,
    /// The keyword `AND`.
    And,
    /// The keyword `WITH`.
    With,
    /// `(`
    LParen,
    /// `)`
    RParen,
}

/// Mathematical model of a [`Token`].
pub enum TokenView {
    Ident(Seq<char>),
    Number(u32),
    Dash,
    Dot,
    OrLater,
    Or,
    And,
    With,
    LParen,
    RParen,
}

impl View for Token {
    type V = TokenView;

    open spec fn view(&self) -> TokenView {
        match self {
            Token::Ident(s) => TokenView::Ident(s@),
            Token::Number(n) => TokenView::Number(*n),
            Token::Dash => TokenView::Dash,
            Token::Dot => TokenView::Dot,
            Token::OrLater => TokenView::OrLater,
            Token::Or => TokenView::Or,
            Token::And => TokenView::And,
            Token::With => TokenView::With,
            Token::LParen => TokenView::LParen,
            Token::RParen => TokenView::RParen,
        }
    }
}

/// The views of a sequence of tokens.
pub open spec fn token_views(v: Seq<Token>) -> Seq<TokenView> {
    v.map_values(|t: Token| t@)
}

/// Characters that continue a word: alphanumerics, `_` and `+`.
pub open spec fn is_word_char(c: char) -> bool {
    alphanumeric(c) || c == '_' || c == '+'
}

/// Length of the run of word characters starting at `i`.
pub open spec fn word_len(s: Seq<char>, i: int) -> nat
    decreases s.len() - i,
{
    if 0 <= i < s.len() && is_word_char(s[i]) {
        1 + word_len(s, i + 1int)
    } else {
        0
    }
}

/// Length of the run of ASCII digits starting at `i`.
pub open spec fn digit_len(s: Seq<char>, i: int) -> nat
    decreases s.len() - i,
{
    if 0 <= i < s.len() && is_ascii_digit(s[i]) {
        1 + digit_len(s, i + 1int)
    } else {
        0
    }
}

pub proof fn lemma_word_len_bound(s: Seq<char>, i: int)
    requires
        0 <= i <= s.len(),
    ensures
        i + word_len(s, i) <= s.len(),
        forall|k: int| i <= k < i + word_len(s, i) ==> is_word_char(#[trigger] s[k]),
    decreases s.len() - i,
{
    if i < s.len() && is_word_char(s[i]) {
        lemma_word_len_bound(s, i + 1int);
    }
}

pub proof fn lemma_digit_len_bound(s: Seq<char>, i: int)
    requires
        0 <= i <= s.len(),
    ensures
        i + digit_len(s, i) <= s.len(),
        forall|k: int| i <= k < i + digit_len(s, i) ==> is_ascii_digit(#[trigger] s[k]),
    decreases s.len() - i,
{
    if i < s.len() && is_ascii_digit(s[i]) {
        lemma_digit_len_bound(s, i + 1int);
    }
}

/// The value of a digit run as `u32`: its decimal value, or 0 when that
/// does not fit (what `parse().unwrap_or(0)` gives).
pub open spec fn number_value(run: Seq<char>) -> u32 {
    if digits_value(run) <= u32::MAX {
        digits_value(run) as u32
    } else {
        0
    }
}

/// A word is a keyword (`OR`, `AND`, `WITH`) or an identifier.
pub open spec fn word_token(w: Seq<char>) -> TokenView {
    if w == "OR"@ {
        TokenView::Or
    } else if w == "AND"@ {
        TokenView::And
    } else if w == "WITH"@ {
        TokenView::With
    } else {
        TokenView::Ident(w)
    }
}

/// The tokens of `s` from position `i` on. White space and characters that
/// start no token are skipped; `-` directly followed by `or-later` is one
/// `OrLater` token, as is `+`.
pub open spec fn lex_from(s: Seq<char>, i: nat) -> Seq<TokenView>
    decreases s.len() - i,
{
    if i >= s.len() {
        seq![]
    } else {
        let c = s[i as int];
        if is_white_space(c) {
            lex_from(s, i + 1)
        } else if c == '(' {
            seq![TokenView::LParen] + lex_from(s, i + 1)
        } else if c == ')' {
            seq![TokenView::RParen] + lex_from(s, i + 1)
        } else if c == '.' {
            seq![TokenView::Dot] + lex_from(s, i + 1)
        } else if c == '-' {
            if has_prefix(s.subrange(i + 1int, s.len() as int), "or-later"@) {
                proof {
                    reveal_strlit("or-later");
                }
                seq![TokenView::OrLater] + lex_from(s, i + 9)
            } else {
                seq![TokenView::Dash] + lex_from(s, i + 1)
            }
        } else if is_ascii_digit(c) {
            let e = i + 1 + digit_len(s, i + 1int);
            proof {
                lemma_digit_len_bound(s, i + 1int);
            }
            seq![TokenView::Number(number_value(s.subrange(i as int, e as int)))] + lex_from(s, e)
        } else if c == '+' {
            seq![TokenView::OrLater] + lex_from(s, i + 1)
        } else if alphanumeric(c) {
            let e = i + 1 + word_len(s, i + 1int);
            proof {
                lemma_word_len_bound(s, i + 1int);
            }
            seq![word_token(s.subrange(i as int, e as int))] + lex_from(s, e)
        } else {
            lex_from(s, i + 1)
        }
    }
}

/// The token sequence of an SPDX expression text.
pub open spec fn lex(s: Seq<char>) -> Seq<TokenView> {
    lex_from(s, 0)
}

/// Lexer state: the characters of the input and the current position.
pub struct Lexer {
    chars: Vec<char>,
    pos: usize,
}

impl Lexer {
    /// The characters being tokenised.
    pub closed spec fn source(&self) -> Seq<char> {
        self.chars@
    }

    /// The position of the next character to read.
    pub closed spec fn position(&self) -> nat {
        self.pos as nat
    }

    /// Create a lexer at the start of `input`.
    pub fn new(input: &str) -> (l: Lexer)
        ensures
            l.source() == input@,
            l.position() == 0,
    {
        Lexer { chars: chars_of(input), pos: 0 }
    }

    /// Tokenise the rest of the input.
    pub fn tokenize(self) -> (r: Vec<Token>)
        ensures
            token_views(r@) == lex_from(self.source(), self.position()),
    {
        let ghost s = self.chars@;
        let ghost start = self.pos as nat;
        let mut lexer = self;
        let mut tokens: Vec<Token> = Vec::new();
        if lexer.pos > lexer.chars.len() {
            assert(token_views(tokens@) =~= lex_from(s, start));
            return tokens;
        }
        loop
            invariant_except_break
                lexer.chars@ == s,
                lexer.pos <= s.len(),
                token_views(tokens@) + lex_from(s, lexer.pos as nat) == lex_from(s, start),
            ensures
                token_views(tokens@) == lex_from(s, start),
            decreases s.len() - lexer.pos,
        {
            let ghost before = lexer.pos;
            let ghost old_tokens = tokens@;
            match lexer.next_token() {
                Some(t) => {
                    tokens.push(t);
                    assert(token_views(tokens@) =~= token_views(old_tokens).push(t@));
                    assert(token_views(tokens@) + lex_from(s, lexer.pos as nat) =~= token_views(
                        old_tokens,
                    ) + (seq![t@] + lex_from(s, lexer.pos as nat)));
                },
                None => {
                    assert(token_views(tokens@) =~= token_views(tokens@) + lex_from(
                        s,
                        before as nat,
                    ));
                    assert(token_views(tokens@) == lex_from(s, start));
                    break;
                },
            }
        }
        tokens
    }

    /// Read the next token, skipping white space and unrecognised characters.
    fn next_token(&mut self) -> (r: Option<Token>)
        ensures
            final(self).chars@ == old(self).chars@,
            r is None ==> lex_from(old(self).chars@, old(self).pos as nat) == Seq::<
                TokenView,
            >::empty(),
            r matches Some(t) ==> lex_from(old(self).chars@, old(self).pos as nat) == seq![t@]
                + lex_from(final(self).chars@, final(self).pos as nat),
            r is Some ==> old(self).pos < final(self).pos <= final(self).chars@.len(),
    {
        let ghost s = self.chars@;
        let ghost start = self.pos as nat;
        let n = self.chars.len();
        if self.pos > n {
            return None;
        }
        // Skip white space and characters that start no token.
        while self.pos < n && (is_whitespace(self.chars[self.pos]) || !starts_token(
            self.chars[self.pos],
        ))
            invariant
                self.chars@ == s,
                n == s.len(),
                start <= self.pos <= n,
                lex_from(s, self.pos as nat) == lex_from(s, start),
            decreases n - self.pos,
        {
            self.pos = self.pos + 1;
        }
        if self.pos >= n {
            return None;
        }
        let i = self.pos;
        let c = self.chars[i];
        proof {
            assert(!is_white_space(c));
        }
        if c == '(' {
            self.pos = i + 1;
            Some(Token::LParen)
        } else if c == ')' {
            self.pos = i + 1;
            Some(Token::RParen)
        } else if c == '.' {
            self.pos = i + 1;
            Some(Token::Dot)
        } else if c == '-' {
            if self.or_later_at(i + 1) {
                proof {
                    reveal_strlit("or-later");
                }
                self.pos = i + 9;
                Some(Token::OrLater)
            } else {
                self.pos = i + 1;
                Some(Token::Dash)
            }
        } else if '0' <= c && c <= '9' {
            let num = self.read_number();
            Some(Token::Number(num))
        } else if c == '+' {
            self.pos = i + 1;
            Some(Token::OrLater)
        } else {
            let word = self.read_word();
            if str_eq(word.as_str(), "OR") {
                Some(Token::Or)
            } else if str_eq(word.as_str(), "AND") {
                Some(Token::And)
            } else if str_eq(word.as_str(), "WITH") {
                Some(Token::With)
            } else {
                Some(Token::Ident(word))
            }
        }
    }

    /// Do the characters from `at` on begin with `or-later`?
    fn or_later_at(&self, at: usize) -> (r: bool)
        requires
            at <= self.chars@.len(),
        ensures
            r == has_prefix(self.chars@.subrange(at as int, self.chars@.len() as int), "or-later"@),
    {
        let pat = chars_of("or-later");
        let n = self.chars.len();
        if n - at < pat.len() {
            return false;
        }
        let mut k: usize = 0;
        while k < pat.len()
            invariant
                at + pat@.len() <= n,
                n == self.chars@.len(),
                pat@ == "or-later"@,
                k <= pat@.len(),
                forall|j: int| 0 <= j < k ==> self.chars@[at + j] == pat@[j],
            decreases pat@.len() - k,
        {
            if self.chars[at + k] != pat[k] {
                assert(self.chars@.subrange(at as int, n as int).subrange(0, pat@.len() as int)[k as int]
                    != pat@[k as int]);
                return false;
            }
            k = k + 1;
        }
        assert(self.chars@.subrange(at as int, n as int).subrange(0, pat@.len() as int) =~= pat@);
        true
    }

    /// Read a run of ASCII digits and return its value (0 when it overflows).
    fn read_number(&mut self) -> (v: u32)
        requires
            old(self).pos < old(self).chars@.len(),
            is_ascii_digit(old(self).chars@[old(self).pos as int]),
        ensures
            final(self).chars@ == old(self).chars@,
            final(self).pos == old(self).pos + 1 + digit_len(old(self).chars@, old(self).pos + 1),
            v == number_value(old(self).chars@.subrange(old(self).pos as int, final(self).pos as int)),
            final(self).pos <= final(self).chars@.len(),
    {
        let ghost s = self.chars@;
        let start = self.pos;
        let n = self.chars.len();
        let mut value: u64 = 0;
        let mut overflow = false;
        proof {
            lemma_digit_len_bound(s, start + 1);
        }
        let ghost end = start + 1 + digit_len(s, start + 1);
        proof {
            lemma_digit_run_end(s, start + 1);
        }
        while self.pos < n && '0' <= self.chars[self.pos] && self.chars[self.pos] <= '9'
            invariant
                self.chars@ == s,
                n == s.len(),
                start <= self.pos <= end <= n,
                end == start + 1 + digit_len(s, start + 1),
                forall|k: int| start < k < end ==> is_ascii_digit(#[trigger] s[k]),
                is_ascii_digit(s[start as int]),
                end < n ==> !is_ascii_digit(s[end as int]),
                overflow <==> digits_value(s.subrange(start as int, self.pos as int)) > u32::MAX,
                !overflow ==> value == digits_value(s.subrange(start as int, self.pos as int)),
            decreases n - self.pos,
        {
            let c = self.chars[self.pos];
            let ghost prev = s.subrange(start as int, self.pos as int);
            proof {
                assert(s.subrange(start as int, self.pos + 1).drop_last() =~= prev);
            }
            if !overflow {
                let d: u64 = (c as u32 - '0' as u32) as u64;
                value = value * 10 + d;
                if value > 0xffff_ffff {
                    overflow = true;
                }
            }
            self.pos = self.pos + 1;
        }
        if overflow {
            0
        } else {
            value as u32
        }
    }

    /// Read a run of word characters (alphanumerics, `_`, `+`).
    fn read_word(&mut self) -> (w: String)
        requires
            old(self).pos < old(self).chars@.len(),
            alphanumeric(old(self).chars@[old(self).pos as int]),
        ensures
            final(self).chars@ == old(self).chars@,
            final(self).pos == old(self).pos + 1 + word_len(old(self).chars@, old(self).pos + 1),
            w@ == old(self).chars@.subrange(old(self).pos as int, final(self).pos as int),
            final(self).pos <= final(self).chars@.len(),
    {
        let ghost s = self.chars@;
        let start = self.pos;
        let n = self.chars.len();
        let mut w = String::new();
        proof {
            lemma_word_len_bound(s, start + 1);
            lemma_word_run_end(s, start + 1);
        }
        let ghost end = start + 1 + word_len(s, start + 1);
        loop
            invariant
                self.chars@ == s,
                n == s.len(),
                start <= self.pos <= end <= n,
                end == start + 1 + word_len(s, start + 1),
                forall|k: int| start < k < end ==> is_word_char(#[trigger] s[k]),
                is_word_char(s[start as int]),
                end < n ==> !is_word_char(s[end as int]),
                w@ == s.subrange(start as int, self.pos as int),
            ensures
                self.chars@ == s,
                self.pos == end,
                w@ == s.subrange(start as int, self.pos as int),
            decreases n - self.pos,
        {
            if self.pos >= n {
                break;
            }
            let c = self.chars[self.pos];
            if !(is_alphanumeric(c) || c == '_' || c == '+') {
                break;
            }
            push_char(&mut w, c);
            self.pos = self.pos + 1;
            assert(w@ =~= s.subrange(start as int, self.pos as int));
        }
        w
    }
}

/// Characters at which a token starts (after white space is skipped).
pub open spec fn token_start(c: char) -> bool {
    c == '(' || c == ')' || c == '.' || c == '-' || is_ascii_digit(c) || c == '+'
        || alphanumeric(c)
}

fn starts_token(c: char) -> (r: bool)
    ensures
        r == token_start(c),
{
    c == '(' || c == ')' || c == '.' || c == '-' || ('0' <= c && c <= '9') || c == '+'
        || is_alphanumeric(c)
}

proof fn lemma_digit_run_end(s: Seq<char>, i: int)
    requires
        0 <= i <= s.len(),
    ensures
        i + digit_len(s, i) < s.len() ==> !is_ascii_digit(s[i + digit_len(s, i)]),
    decreases s.len() - i,
{
    if i < s.len() && is_ascii_digit(s[i]) {
        lemma_digit_run_end(s, i + 1);
    }
}

proof fn lemma_word_run_end(s: Seq<char>, i: int)
    requires
        0 <= i <= s.len(),
    ensures
        i + word_len(s, i) < s.len() ==> !is_word_char(s[i + word_len(s, i)]),
    decreases s.len() - i,
{
    if i < s.len() && is_word_char(s[i]) {
        lemma_word_run_end(s, i + 1);
    }
}


/// Tokens from `i` are the tokens from `k` when only white space lies
/// between the two positions.
pub proof fn lemma_lex_skip_space(y: Seq<char>, i: nat, k: nat)
    requires
        i <= k <= y.len(),
        forall|j: int| i <= j < k ==> is_white_space(#[trigger] y[j]),
    ensures
        lex_from(y, i) == lex_from(y, k),
    decreases k - i,
{
    if i < k {
        lemma_lex_skip_space(y, i + 1, k);
    }
}

proof fn lemma_word_len_window(y: Seq<char>, k: int, m: int, i: int)
    requires
        0 <= k <= m <= y.len(),
        0 <= i <= m - k,
        m < y.len() ==> !is_word_char(y[m]),
    ensures
        word_len(y.subrange(k, m), i) == word_len(y, k + i),
    decreases m - k - i,
{
    if i < m - k {
        assert(y.subrange(k, m)[i] == y[k + i]);
        lemma_word_len_window(y, k, m, i + 1);
    }
}

proof fn lemma_digit_len_window(y: Seq<char>, k: int, m: int, i: int)
    requires
        0 <= k <= m <= y.len(),
        0 <= i <= m - k,
        m < y.len() ==> !is_ascii_digit(y[m]),
    ensures
        digit_len(y.subrange(k, m), i) == digit_len(y, k + i),
    decreases m - k - i,
{
    if i < m - k {
        assert(y.subrange(k, m)[i] == y[k + i]);
        lemma_digit_len_window(y, k, m, i + 1);
    }
}

/// The tokens of a window `y[k..m]` of a text are the tokens of the text
/// from `k` on, when all that follows the window is white space that no
/// word continues into.
pub proof fn lemma_lex_window(y: Seq<char>, k: nat, m: nat, i: nat)
    requires
        k <= m <= y.len(),
        i <= m - k,
        forall|j: int| m <= j < y.len() ==> is_white_space(#[trigger] y[j]) && !is_word_char(y[j]),
    ensures
        lex_from(y.subrange(k as int, m as int), i) == lex_from(y, k + i),
    decreases m - k - i,
{
    let z = y.subrange(k as int, m as int);
    let n = y.len();
    if i == m - k {
        lemma_lex_skip_space(y, m, n);
        assert(lex_from(y, n) =~= Seq::<TokenView>::empty());
    } else {
        let c = z[i as int];
        assert(c == y[(k + i) as int]);
        if is_white_space(c) || c == '(' || c == ')' || c == '.' || c == '+' {
            lemma_lex_window(y, k, m, i + 1);
        } else if c == '-' {
            reveal_strlit("or-later");
            let zp = z.subrange(i + 1int, z.len() as int);
            let yp = y.subrange(k + i + 1int, n as int);
            if has_prefix(yp, "or-later"@) {
                assert(yp[7] == "or-later"@[7]);
                assert(yp[7] == y[(k + i + 8) as int]);
                assert(k + i + 8 < m);
                assert(zp.subrange(0, 8) =~= yp.subrange(0, 8)) by {
                    assert forall|t: int| 0 <= t < 8 implies zp[t] == yp[t] by {
                        assert(zp[t] == y[k + i + 1 + t]);
                    }
                }
                assert(has_prefix(zp, "or-later"@));
                lemma_lex_window(y, k, m, i + 9);
            } else {
                if has_prefix(zp, "or-later"@) {
                    assert(yp.subrange(0, 8) =~= zp.subrange(0, 8)) by {
                        assert forall|t: int| 0 <= t < 8 implies zp[t] == yp[t] by {
                            assert(zp[t] == y[k + i + 1 + t]);
                        }
                    }
                }
                lemma_lex_window(y, k, m, i + 1);
            }
        } else if is_ascii_digit(c) {
            if m < n {
                assert(is_white_space(y[m as int]));
            }
            lemma_digit_len_window(y, k as int, m as int, i + 1int);
            lemma_digit_len_bound(z, i + 1int);
            let e = i + 1 + digit_len(z, i + 1int);
            assert(z.subrange(i as int, e as int) =~= y.subrange((k + i) as int, (k + e) as int));
            lemma_lex_window(y, k, m, e);
        } else if alphanumeric(c) {
            if m < n {
                assert(!is_word_char(y[m as int]));
            }
            lemma_word_len_window(y, k as int, m as int, i + 1int);
            lemma_word_len_bound(z, i + 1int);
            let e = i + 1 + word_len(z, i + 1int);
            assert(z.subrange(i as int, e as int) =~= y.subrange((k + i) as int, (k + e) as int));
            lemma_lex_window(y, k, m, e);
        } else {
            lemma_lex_window(y, k, m, i + 1);
        }
    }
}

} // verus!
