//! Tokens and the tokenizer: source text in, an ordered token sequence out.
//!
//! The tokenizer is specified by the mirror function `spec_lex`: `lex` is
//! proved to return exactly its value, so tokenization is deterministic.
use vstd::prelude::*;
use vstd::string::StrSliceExecFns;
use crate::error::CompileError;
use crate::error::ErrV;

verus! {

/// The keywords of the language.
#[derive(Debug, Eq, PartialEq, Clone, Copy)]
pub enum Keyword {
    Int,
    Char,
    Return,
    If,
    Else,
    While,
}

/// A literal value: integers are 32 bits, characters one byte.
#[derive(Debug, Eq, PartialEq, Clone, Copy)]
pub enum Value {
    Int(u32),
    Char(u8),
}

/// One token of the source language.
#[derive(Debug, Eq, PartialEq, Clone)]
pub enum Token {
    // punctuation
    OpenBrace,
    CloseBrace,
    OpenParen,
    CloseParen,
    SemiColon,
    Comma,
    Colon,
    Question,
    // words and numbers
    Keyword(Keyword),
    Identifier(String),
    Literal(Value),
    // bitwise
    BitComp,
    BitwiseLeft,
    BitwiseRight,
    BitwiseAnd,
    BitwiseXor,
    BitwiseOr,
    // logical
    LogicalNeg,
    And,
    Or,
    // arithmetic
    Negation,
    Addition,
    Multiplication,
    Division,
    Modulus,
    // comparison
    Equal,
    NotEqual,
    LessThan,
    LessThanOrEqual,
    GreaterThan,
    GreaterThanOrEqual,
    // assignment
    Assign,
    AssignAdd,
    AssignSub,
    AssignDiv,
    AssignMul,
    AssignMod,
    AssignBitLeft,
    AssignBitRight,
    AssignAnd,
    AssignOr,
    AssignXor,
    // increment/decrement
    Increment,
    Decrement,
}

/// Mathematical image of a `Token`: the identifier name is a `Seq<char>`.
pub enum TokenV {
    OpenBrace,
    CloseBrace,
    OpenParen,
    CloseParen,
    SemiColon,
    Comma,
    Colon,
    Question,
    Keyword(Keyword),
    Identifier(Seq<char>),
    Literal(Value),
    BitComp,
    BitwiseLeft,
    BitwiseRight,
    BitwiseAnd,
    BitwiseXor,
    BitwiseOr,
    LogicalNeg,
    And,
    Or,
    Negation,
    Addition,
    Multiplication,
    Division,
    Modulus,
    Equal,
    NotEqual,
    LessThan,
    LessThanOrEqual,
    GreaterThan,
    GreaterThanOrEqual,
    Assign,
    AssignAdd,
    AssignSub,
    AssignDiv,
    AssignMul,
    AssignMod,
    AssignBitLeft,
    AssignBitRight,
    AssignAnd,
    AssignOr,
    AssignXor,
    Increment,
    Decrement,
}

impl DeepView for Token {
    type V = TokenV;

    open spec fn deep_view(&self) -> TokenV {
        match self {
            Token::OpenBrace => TokenV::OpenBrace,
            Token::CloseBrace => TokenV::CloseBrace,
            Token::OpenParen => TokenV::OpenParen,
            Token::CloseParen => TokenV::CloseParen,
            Token::SemiColon => TokenV::SemiColon,
            Token::Comma => TokenV::Comma,
            Token::Colon => TokenV::Colon,
            Token::Question => TokenV::Question,
            Token::Keyword(k) => TokenV::Keyword(*k),
            Token::Identifier(s) => TokenV::Identifier(s@),
            Token::Literal(v) => TokenV::Literal(*v),
            Token::BitComp => TokenV::BitComp,
            Token::BitwiseLeft => TokenV::BitwiseLeft,
            Token::BitwiseRight => TokenV::BitwiseRight,
            Token::BitwiseAnd => TokenV::BitwiseAnd,
            Token::BitwiseXor => TokenV::BitwiseXor,
            Token::BitwiseOr => TokenV::BitwiseOr,
            Token::LogicalNeg => TokenV::LogicalNeg,
            Token::And => TokenV::And,
            Token::Or => TokenV::Or,
            Token::Negation => TokenV::Negation,
            Token::Addition => TokenV::Addition,
            Token::Multiplication => TokenV::Multiplication,
            Token::Division => TokenV::Division,
            Token::Modulus => TokenV::Modulus,
            Token::Equal => TokenV::Equal,
            Token::NotEqual => TokenV::NotEqual,
            Token::LessThan => TokenV::LessThan,
            Token::LessThanOrEqual => TokenV::LessThanOrEqual,
            Token::GreaterThan => TokenV::GreaterThan,
            Token::GreaterThanOrEqual => TokenV::GreaterThanOrEqual,
            Token::Assign => TokenV::Assign,
            Token::AssignAdd => TokenV::AssignAdd,
            Token::AssignSub => TokenV::AssignSub,
            Token::AssignDiv => TokenV::AssignDiv,
            Token::AssignMul => TokenV::AssignMul,
            Token::AssignMod => TokenV::AssignMod,
            Token::AssignBitLeft => TokenV::AssignBitLeft,
            Token::AssignBitRight => TokenV::AssignBitRight,
            Token::AssignAnd => TokenV::AssignAnd,
            Token::AssignOr => TokenV::AssignOr,
            Token::AssignXor => TokenV::AssignXor,
            Token::Increment => TokenV::Increment,
            Token::Decrement => TokenV::Decrement,
        }
    }
}

/// Whitespace that separates tokens.
pub open spec fn is_space(c: char) -> bool {
    c == ' ' || c == '\t' || c == '\n' || c == '\r'
}

/// A decimal digit.
pub open spec fn is_digit(c: char) -> bool {
    48 <= c as u32 <= 57
}

/// A character that may start an identifier: a letter or an underscore.
pub open spec fn is_ident_start(c: char) -> bool {
    (97 <= c as u32 <= 122) || (65 <= c as u32 <= 90) || c == '_'
}

/// A character that may continue an identifier.
pub open spec fn is_ident_char(c: char) -> bool {
    is_ident_start(c) || is_digit(c)
}

fn space_char(c: char) -> (b: bool)
    ensures
        b == is_space(c),
{
    c == ' ' || c == '\t' || c == '\n' || c == '\r'
}

fn digit_char(c: char) -> (b: bool)
    ensures
        b == is_digit(c),
{
    let u: u32 = c as u32;
    48 <= u && u <= 57
}

fn ident_start_char(c: char) -> (b: bool)
    ensures
        b == is_ident_start(c),
{
    let u: u32 = c as u32;
    (97 <= u && u <= 122) || (65 <= u && u <= 90) || c == '_'
}

fn ident_char(c: char) -> (b: bool)
    ensures
        b == is_ident_char(c),
{
    ident_start_char(c) || digit_char(c)
}

/// The keyword a word denotes, if any.
pub open spec fn spec_keyword(w: Seq<char>) -> Option<Keyword> {
    if w.len() == 3 && w[0] == 'i' && w[1] == 'n' && w[2] == 't' {
        Some(Keyword::Int)
    } else if w.len() == 4 && w[0] == 'c' && w[1] == 'h' && w[2] == 'a' && w[3] == 'r' {
        Some(Keyword::Char)
    } else if w.len() == 6 && w[0] == 'r' && w[1] == 'e' && w[2] == 't' && w[3] == 'u' && w[4]
        == 'r' && w[5] == 'n' {
        Some(Keyword::Return)
    } else if w.len() == 2 && w[0] == 'i' && w[1] == 'f' {
        Some(Keyword::If)
    } else if w.len() == 4 && w[0] == 'e' && w[1] == 'l' && w[2] == 's' && w[3] == 'e' {
        Some(Keyword::Else)
    } else if w.len() == 5 && w[0] == 'w' && w[1] == 'h' && w[2] == 'i' && w[3] == 'l' && w[4]
        == 'e' {
        Some(Keyword::While)
    } else {
        None
    }
}

/// Clamp a scan's end position into the open-closed interval after `lo`,
/// so that recursion over positions has a well-founded measure.
pub open spec fn adv(j: nat, lo: nat, len: nat) -> nat {
    if lo < j <= len {
        j
    } else {
        len
    }
}

/// The value and end of a run of decimal digits starting at `i`, folded
/// left onto `acc`; a digit that would overflow 32 bits is a lexical error.
pub open spec fn spec_scan_int(s: Seq<char>, i: nat, acc: u32) -> Result<(u32, nat), ErrV>
    decreases s.len() - i,
{
    if i < s.len() && is_digit(s[i as int]) {
        let d = (s[i as int] as u32 - 48) as u32;
        if acc < 429496729 || (acc == 429496729 && d <= 5) {
            spec_scan_int(s, (i + 1) as nat, (acc * 10 + d) as u32)
        } else {
            Err(ErrV::Lexical { found: s[i as int], position: i as usize })
        }
    } else {
        Ok((acc, i))
    }
}

/// The end of the run of identifier characters starting at `i`.
pub open spec fn spec_ident_end(s: Seq<char>, i: nat) -> nat
    decreases s.len() - i,
{
    if i < s.len() && is_ident_char(s[i as int]) {
        spec_ident_end(s, (i + 1) as nat)
    } else {
        i
    }
}

/// The token starting at position `i` (not whitespace, `i` in range) and
/// the position just past it, or the lexical error there.
pub open spec fn spec_scan_token(s: Seq<char>, i: nat) -> Result<(TokenV, nat), ErrV> {
    let c = s[i as int];
    let n = s.len();
    if c == '{' {
        Ok((TokenV::OpenBrace, (i + 1) as nat))
    } else if c == '}' {
        Ok((TokenV::CloseBrace, (i + 1) as nat))
    } else if c == '(' {
        Ok((TokenV::OpenParen, (i + 1) as nat))
    } else if c == ')' {
        Ok((TokenV::CloseParen, (i + 1) as nat))
    } else if c == ';' {
        Ok((TokenV::SemiColon, (i + 1) as nat))
    } else if c == ',' {
        Ok((TokenV::Comma, (i + 1) as nat))
    } else if c == ':' {
        Ok((TokenV::Colon, (i + 1) as nat))
    } else if c == '?' {
        Ok((TokenV::Question, (i + 1) as nat))
    } else if c == '~' {
        Ok((TokenV::BitComp, (i + 1) as nat))
    } else if c == '+' {
        if i + 1 < n && s[(i + 1) as int] == '=' {
            Ok((TokenV::AssignAdd, (i + 2) as nat))
        } else if i + 1 < n && s[(i + 1) as int] == '+' {
            Ok((TokenV::Increment, (i + 2) as nat))
        } else {
            Ok((TokenV::Addition, (i + 1) as nat))
        }
    } else if c == '-' {
        if i + 1 < n && s[(i + 1) as int] == '=' {
            Ok((TokenV::AssignSub, (i + 2) as nat))
        } else if i + 1 < n && s[(i + 1) as int] == '-' {
            Ok((TokenV::Decrement, (i + 2) as nat))
        } else {
            Ok((TokenV::Negation, (i + 1) as nat))
        }
    } else if c == '*' {
        if i + 1 < n && s[(i + 1) as int] == '=' {
            Ok((TokenV::AssignMul, (i + 2) as nat))
        } else {
            Ok((TokenV::Multiplication, (i + 1) as nat))
        }
    } else if c == '/' {
        if i + 1 < n && s[(i + 1) as int] == '=' {
            Ok((TokenV::AssignDiv, (i + 2) as nat))
        } else {
            Ok((TokenV::Division, (i + 1) as nat))
        }
    } else if c == '%' {
        if i + 1 < n && s[(i + 1) as int] == '=' {
            Ok((TokenV::AssignMod, (i + 2) as nat))
        } else {
            Ok((TokenV::Modulus, (i + 1) as nat))
        }
    } else if c == '=' {
        if i + 1 < n && s[(i + 1) as int] == '=' {
            Ok((TokenV::Equal, (i + 2) as nat))
        } else {
            Ok((TokenV::Assign, (i + 1) as nat))
        }
    } else if c == '!' {
        if i + 1 < n && s[(i + 1) as int] == '=' {
            Ok((TokenV::NotEqual, (i + 2) as nat))
        } else {
            Ok((TokenV::LogicalNeg, (i + 1) as nat))
        }
    } else if c == '&' {
        if i + 1 < n && s[(i + 1) as int] == '&' {
            Ok((TokenV::And, (i + 2) as nat))
        } else if i + 1 < n && s[(i + 1) as int] == '=' {
            Ok((TokenV::AssignAnd, (i + 2) as nat))
        } else {
            Ok((TokenV::BitwiseAnd, (i + 1) as nat))
        }
    } else if c == '|' {
        if i + 1 < n && s[(i + 1) as int] == '|' {
            Ok((TokenV::Or, (i + 2) as nat))
        } else if i + 1 < n && s[(i + 1) as int] == '=' {
            Ok((TokenV::AssignOr, (i + 2) as nat))
        } else {
            Ok((TokenV::BitwiseOr, (i + 1) as nat))
        }
    } else if c == '^' {
        if i + 1 < n && s[(i + 1) as int] == '=' {
            Ok((TokenV::AssignXor, (i + 2) as nat))
        } else {
            Ok((TokenV::BitwiseXor, (i + 1) as nat))
        }
    } else if c == '<' {
        if i + 1 < n && s[(i + 1) as int] == '=' {
            Ok((TokenV::LessThanOrEqual, (i + 2) as nat))
        } else if i + 1 < n && s[(i + 1) as int] == '<' {
            if i + 2 < n && s[(i + 2) as int] == '=' {
                Ok((TokenV::AssignBitLeft, (i + 3) as nat))
            } else {
                Ok((TokenV::BitwiseLeft, (i + 2) as nat))
            }
        } else {
            Ok((TokenV::LessThan, (i + 1) as nat))
        }
    } else if c == '>' {
        if i + 1 < n && s[(i + 1) as int] == '=' {
            Ok((TokenV::GreaterThanOrEqual, (i + 2) as nat))
        } else if i + 1 < n && s[(i + 1) as int] == '>' {
            if i + 2 < n && s[(i + 2) as int] == '=' {
                Ok((TokenV::AssignBitRight, (i + 3) as nat))
            } else {
                Ok((TokenV::BitwiseRight, (i + 2) as nat))
            }
        } else {
            Ok((TokenV::GreaterThan, (i + 1) as nat))
        }
    } else if is_digit(c) {
        match spec_scan_int(s, i, 0u32) {
            Ok(p) => Ok((TokenV::Literal(Value::Int(p.0)), p.1)),
            Err(e) => Err(e),
        }
    } else if c == '\'' {
        if i + 2 < n && s[(i + 1) as int] != '\'' && s[(i + 2) as int] == '\'' {
            if s[(i + 1) as int] as u32 <= 255 {
                Ok((TokenV::Literal(Value::Char((s[(i + 1) as int] as u32) as u8)), (i + 3) as nat))
            } else {
                Err(ErrV::Lexical { found: s[(i + 1) as int], position: (i + 1) as usize })
            }
        } else {
            Err(ErrV::Lexical { found: '\'', position: i as usize })
        }
    } else if is_ident_start(c) {
        let j = spec_ident_end(s, (i + 1) as nat);
        let w = s.subrange(i as int, j as int);
        match spec_keyword(w) {
            Some(k) => Ok((TokenV::Keyword(k), j)),
            None => Ok((TokenV::Identifier(w), j)),
        }
    } else {
        Err(ErrV::Lexical { found: c, position: i as usize })
    }
}

/// The tokens of the source from position `i` on, or the first lexical
/// error; whitespace separates tokens and is skipped.
pub open spec fn spec_lex_rest(s: Seq<char>, i: nat) -> Result<Seq<TokenV>, ErrV>
    decreases s.len() - i,
{
    if i >= s.len() {
        Ok(Seq::empty())
    } else if is_space(s[i as int]) {
        spec_lex_rest(s, (i + 1) as nat)
    } else {
        match spec_scan_token(s, i) {
            Err(e) => Err(e),
            Ok(p) => match spec_lex_rest(s, adv(p.1, i, s.len())) {
                Err(e) => Err(e),
                Ok(ts) => Ok(seq![p.0] + ts),
            },
        }
    }
}

/// The full token sequence of a source text, or its first lexical error.
pub open spec fn spec_lex(s: Seq<char>) -> Result<Seq<TokenV>, ErrV> {
    spec_lex_rest(s, 0)
}

/// The cursor of the tokenizer: the token sequence built so far and a
/// position over the source characters.
pub struct TokenParser<'a> {
    pub tokens: Vec<Token>,
    source: &'a str,
    pos: usize,
    len: usize,
}

impl<'a> TokenParser<'a> {
    /// The source characters under the cursor.
    pub closed spec fn src(&self) -> Seq<char> {
        self.source@
    }

    /// The current character position.
    pub closed spec fn at(&self) -> int {
        self.pos as int
    }

    /// The tokens recorded so far.
    pub closed spec fn toks(&self) -> Seq<Token> {
        self.tokens@
    }

    /// The mathematical image of the tokens recorded so far.
    pub closed spec fn toksv(&self) -> Seq<TokenV> {
        self.tokens.deep_view()
    }

    /// The cursor is inside its source and remembers the right length.
    pub closed spec fn wf(&self) -> bool {
        self.len == self.source@.len() && self.pos <= self.len
    }

    pub fn new(source: &'a str) -> (r: TokenParser<'a>)
        ensures
            r.wf(),
            r.src() == source@,
            r.at() == 0,
            r.toks() =~= Seq::<Token>::empty(),
            r.toksv() =~= Seq::<TokenV>::empty(),
    {
        let n: usize = source.unicode_len();
        TokenParser { tokens: Vec::new(), source, pos: 0, len: n }
    }

    /// Step past the character under the cursor and record a token for it.
    pub fn push(&mut self, token: Token)
        requires
            old(self).wf(),
            old(self).at() < old(self).src().len(),
        ensures
            final(self).wf(),
            final(self).src() == old(self).src(),
            final(self).at() == old(self).at() + 1,
            final(self).toks() == old(self).toks().push(token),
            final(self).toksv() == old(self).toksv().push(token.deep_view()),
    {
        self.pos = self.pos + 1;
        self.tokens.push(token);
        proof {
            assert(self.tokens.deep_view() =~= old(self).tokens.deep_view().push(
                token.deep_view(),
            ));
        }
    }

    /// Record a token without moving the cursor.
    pub fn push_back(&mut self, token: Token)
        requires
            old(self).wf(),
        ensures
            final(self).wf(),
            final(self).src() == old(self).src(),
            final(self).at() == old(self).at(),
            final(self).toks() == old(self).toks().push(token),
            final(self).toksv() == old(self).toksv().push(token.deep_view()),
    {
        self.tokens.push(token);
        proof {
            assert(self.tokens.deep_view() =~= old(self).tokens.deep_view().push(
                token.deep_view(),
            ));
        }
    }

    /// The character under the cursor, stepping past it.
    pub fn next(&mut self) -> (r: Option<char>)
        requires
            old(self).wf(),
        ensures
            final(self).wf(),
            final(self).src() == old(self).src(),
            final(self).toks() == old(self).toks(),
            final(self).toksv() == old(self).toksv(),
            old(self).at() < old(self).src().len() ==> r == Some(old(self).src()[old(self).at()])
                && final(self).at() == old(self).at() + 1,
            old(self).at() >= old(self).src().len() ==> r is None && final(self).at() == old(
                self,
            ).at(),
    {
        if self.pos < self.len {
            let c: char = self.source.get_char(self.pos);
            self.pos = self.pos + 1;
            Some(c)
        } else {
            None
        }
    }

    /// Step past the character under the cursor, keeping nothing.
    pub fn drop(&mut self)
        requires
            old(self).wf(),
        ensures
            final(self).wf(),
            final(self).src() == old(self).src(),
            final(self).toks() == old(self).toks(),
            old(self).at() < old(self).src().len() ==> final(self).at() == old(self).at() + 1,
            old(self).at() >= old(self).src().len() ==> final(self).at() == old(self).at(),
    {
        if self.pos < self.len {
            self.pos = self.pos + 1;
        }
    }

    /// The character under the cursor, without moving.
    pub fn peek(&self) -> (r: Option<char>)
        requires
            self.wf(),
        ensures
            self.at() < self.src().len() ==> r == Some(self.src()[self.at()]),
            self.at() >= self.src().len() ==> r is None,
    {
        if self.pos < self.len {
            Some(self.source.get_char(self.pos))
        } else {
            None
        }
    }

    /// Step past the longest run of characters the predicate accepts and
    /// hand it back as one string.
    pub fn get_string<F: Fn(&char) -> bool>(&mut self, func: F) -> (r: String)
        requires
            old(self).wf(),
            forall|c: char| #[trigger] call_requires(func, (&c,)),
        ensures
            final(self).wf(),
            final(self).src() == old(self).src(),
            final(self).toks() == old(self).toks(),
            final(self).toksv() == old(self).toksv(),
            old(self).at() <= final(self).at() <= old(self).src().len(),
            r@ == old(self).src().subrange(old(self).at(), final(self).at()),
            forall|i: int|
                old(self).at() <= i < final(self).at() ==> call_ensures(
                    func,
                    (&old(self).src()[i],),
                    true,
                ),
            final(self).at() < old(self).src().len() ==> call_ensures(
                func,
                (&old(self).src()[final(self).at()],),
                false,
            ),
    {
        let start = self.pos;
        loop
            invariant_except_break
                self.wf(),
                self.src() == old(self).src(),
                self.toks() == old(self).toks(),
                self.toksv() == old(self).toksv(),
                start <= self.pos <= self.src().len(),
                old(self).at() == start as int,
                forall|c: char| #[trigger] call_requires(func, (&c,)),
                forall|i: int|
                    start <= i < self.at() ==> call_ensures(func, (&self.src()[i],), true),
            ensures
                self.wf(),
                self.src() == old(self).src(),
                self.toks() == old(self).toks(),
                self.toksv() == old(self).toksv(),
                start <= self.pos <= self.src().len(),
                forall|i: int|
                    start <= i < self.at() ==> call_ensures(func, (&self.src()[i],), true),
                self.at() < self.src().len() ==> call_ensures(
                    func,
                    (&self.src()[self.at()],),
                    false,
                ),
            decreases self.src().len() - self.at(),
        {
            if self.pos >= self.len {
                break ;
            }
            let c: char = self.source.get_char(self.pos);
            if func(&c) {
                self.pos = self.pos + 1;
            } else {
                break ;
            }
        }
        let sub: &str = self.source.substring_char(start, self.pos);
        sub.to_owned()
    }

    /// The character at an arbitrary position, without moving.
    fn peek_at(&self, k: usize) -> (r: Option<char>)
        requires
            self.wf(),
        ensures
            k < self.src().len() ==> r == Some(self.src()[k as int]),
            k >= self.src().len() ==> r is None,
    {
        if k < self.len {
            Some(self.source.get_char(k))
        } else {
            None
        }
    }

    /// Fold the run of digits at the cursor onto `acc`.
    fn scan_int(&mut self, acc: u32) -> (r: Result<u32, CompileError>)
        requires
            old(self).wf(),
        ensures
            final(self).wf(),
            final(self).src() == old(self).src(),
            final(self).toks() == old(self).toks(),
            final(self).toksv() == old(self).toksv(),
            match spec_scan_int(old(self).src(), old(self).at() as nat, acc) {
                Ok(p) => r matches Ok(v) && v == p.0 && final(self).at() == p.1 && old(self).at()
                    <= p.1 <= old(self).src().len() && ((old(self).at() < old(self).src().len()
                    && is_digit(old(self).src()[old(self).at()])) ==> old(self).at() < p.1),
                Err(e) => r matches Err(e2) && e2.deep_view() == e,
            },
        decreases self.src().len() - self.at(),
    {
        if self.pos < self.len {
            let c: char = self.source.get_char(self.pos);
            if digit_char(c) {
                let d: u32 = (c as u32) - 48;
                if acc < 429496729 || (acc == 429496729 && d <= 5) {
                    let acc2: u32 = acc * 10 + d;
                    self.pos = self.pos + 1;
                    return self.scan_int(acc2);
                } else {
                    return Err(CompileError::Lexical { found: c, position: self.pos });
                }
            }
        }
        Ok(acc)
    }

    /// The end of the run of identifier characters starting at `from`.
    fn ident_end(&self, from: usize) -> (j: usize)
        requires
            self.wf(),
            from <= self.src().len(),
        ensures
            j == spec_ident_end(self.src(), from as nat),
            from <= j <= self.src().len(),
        decreases self.src().len() - from,
    {
        if from < self.len {
            let c: char = self.source.get_char(from);
            if ident_char(c) {
                return self.ident_end(from + 1);
            }
        }
        from
    }

    /// The keyword spelled by the characters in `[i, j)`, if any.
    fn keyword_in_range(&self, i: usize, j: usize) -> (r: Option<Keyword>)
        requires
            self.wf(),
            i <= j <= self.src().len(),
        ensures
            r == spec_keyword(self.src().subrange(i as int, j as int)),
    {
        let n: usize = j - i;
        if n == 3 && self.source.get_char(i) == 'i' && self.source.get_char(i + 1) == 'n'
            && self.source.get_char(i + 2) == 't' {
            Some(Keyword::Int)
        } else if n == 4 && self.source.get_char(i) == 'c' && self.source.get_char(i + 1) == 'h'
            && self.source.get_char(i + 2) == 'a' && self.source.get_char(i + 3) == 'r' {
            Some(Keyword::Char)
        } else if n == 6 && self.source.get_char(i) == 'r' && self.source.get_char(i + 1) == 'e'
            && self.source.get_char(i + 2) == 't' && self.source.get_char(i + 3) == 'u'
            && self.source.get_char(i + 4) == 'r' && self.source.get_char(i + 5) == 'n' {
            Some(Keyword::Return)
        } else if n == 2 && self.source.get_char(i) == 'i' && self.source.get_char(i + 1) == 'f' {
            Some(Keyword::If)
        } else if n == 4 && self.source.get_char(i) == 'e' && self.source.get_char(i + 1) == 'l'
            && self.source.get_char(i + 2) == 's' && self.source.get_char(i + 3) == 'e' {
            Some(Keyword::Else)
        } else if n == 5 && self.source.get_char(i) == 'w' && self.source.get_char(i + 1) == 'h'
            && self.source.get_char(i + 2) == 'i' && self.source.get_char(i + 3) == 'l'
            && self.source.get_char(i + 4) == 'e' {
            Some(Keyword::While)
        } else {
            None
        }
    }

    /// Scan the one token starting at the cursor (not on whitespace).
    fn scan_token(&mut self) -> (r: Result<Token, CompileError>)
        requires
            old(self).wf(),
            old(self).at() < old(self).src().len(),
        ensures
            final(self).wf(),
            final(self).src() == old(self).src(),
            final(self).toks() == old(self).toks(),
            final(self).toksv() == old(self).toksv(),
            match spec_scan_token(old(self).src(), old(self).at() as nat) {
                Ok(p) => r matches Ok(t) && t.deep_view() == p.0 && final(self).at() == p.1 && old(
                    self,
                ).at() < p.1 <= old(self).src().len(),
                Err(e) => r matches Err(e2) && e2.deep_view() == e,
            },
    {
        let i: usize = self.pos;
        let c: char = self.source.get_char(i);
        if c == '{' {
            self.pos = i + 1;
            Ok(Token::OpenBrace)
        } else if c == '}' {
            self.pos = i + 1;
            Ok(Token::CloseBrace)
        } else if c == '(' {
            self.pos = i + 1;
            Ok(Token::OpenParen)
        } else if c == ')' {
            self.pos = i + 1;
            Ok(Token::CloseParen)
        } else if c == ';' {
            self.pos = i + 1;
            Ok(Token::SemiColon)
        } else if c == ',' {
            self.pos = i + 1;
            Ok(Token::Comma)
        } else if c == ':' {
            self.pos = i + 1;
            Ok(Token::Colon)
        } else if c == '?' {
            self.pos = i + 1;
            Ok(Token::Question)
        } else if c == '~' {
            self.pos = i + 1;
            Ok(Token::BitComp)
        } else if c == '+' {
            match self.peek_at(i + 1) {
                Some('=') => {
                    self.pos = i + 2;
                    Ok(Token::AssignAdd)
                },
                Some('+') => {
                    self.pos = i + 2;
                    Ok(Token::Increment)
                },
                _ => {
                    self.pos = i + 1;
                    Ok(Token::Addition)
                },
            }
        } else if c == '-' {
            match self.peek_at(i + 1) {
                Some('=') => {
                    self.pos = i + 2;
                    Ok(Token::AssignSub)
                },
                Some('-') => {
                    self.pos = i + 2;
                    Ok(Token::Decrement)
                },
                _ => {
                    self.pos = i + 1;
                    Ok(Token::Negation)
                },
            }
        } else if c == '*' {
            match self.peek_at(i + 1) {
                Some('=') => {
                    self.pos = i + 2;
                    Ok(Token::AssignMul)
                },
                _ => {
                    self.pos = i + 1;
                    Ok(Token::Multiplication)
                },
            }
        } else if c == '/' {
            match self.peek_at(i + 1) {
                Some('=') => {
                    self.pos = i + 2;
                    Ok(Token::AssignDiv)
                },
                _ => {
                    self.pos = i + 1;
                    Ok(Token::Division)
                },
            }
        } else if c == '%' {
            match self.peek_at(i + 1) {
                Some('=') => {
                    self.pos = i + 2;
                    Ok(Token::AssignMod)
                },
                _ => {
                    self.pos = i + 1;
                    Ok(Token::Modulus)
                },
            }
        } else if c == '=' {
            match self.peek_at(i + 1) {
                Some('=') => {
                    self.pos = i + 2;
                    Ok(Token::Equal)
                },
                _ => {
                    self.pos = i + 1;
                    Ok(Token::Assign)
                },
            }
        } else if c == '!' {
            match self.peek_at(i + 1) {
                Some('=') => {
                    self.pos = i + 2;
                    Ok(Token::NotEqual)
                },
                _ => {
                    self.pos = i + 1;
                    Ok(Token::LogicalNeg)
                },
            }
        } else if c == '&' {
            match self.peek_at(i + 1) {
                Some('&') => {
                    self.pos = i + 2;
                    Ok(Token::And)
                },
                Some('=') => {
                    self.pos = i + 2;
                    Ok(Token::AssignAnd)
                },
                _ => {
                    self.pos = i + 1;
                    Ok(Token::BitwiseAnd)
                },
            }
        } else if c == '|' {
            match self.peek_at(i + 1) {
                Some('|') => {
                    self.pos = i + 2;
                    Ok(Token::Or)
                },
                Some('=') => {
                    self.pos = i + 2;
                    Ok(Token::AssignOr)
                },
                _ => {
                    self.pos = i + 1;
                    Ok(Token::BitwiseOr)
                },
            }
        } else if c == '^' {
            match self.peek_at(i + 1) {
                Some('=') => {
                    self.pos = i + 2;
                    Ok(Token::AssignXor)
                },
                _ => {
                    self.pos = i + 1;
                    Ok(Token::BitwiseXor)
                },
            }
        } else if c == '<' {
            match self.peek_at(i + 1) {
                Some('=') => {
                    self.pos = i + 2;
                    Ok(Token::LessThanOrEqual)
                },
                Some('<') => {
                    match self.peek_at(i + 2) {
                        Some('=') => {
                            self.pos = i + 3;
                            Ok(Token::AssignBitLeft)
                        },
                        _ => {
                            self.pos = i + 2;
                            Ok(Token::BitwiseLeft)
                        },
                    }
                },
                _ => {
                    self.pos = i + 1;
                    Ok(Token::LessThan)
                },
            }
        } else if c == '>' {
            match self.peek_at(i + 1) {
                Some('=') => {
                    self.pos = i + 2;
                    Ok(Token::GreaterThanOrEqual)
                },
                Some('>') => {
                    match self.peek_at(i + 2) {
                        Some('=') => {
                            self.pos = i + 3;
                            Ok(Token::AssignBitRight)
                        },
                        _ => {
                            self.pos = i + 2;
                            Ok(Token::BitwiseRight)
                        },
                    }
                },
                _ => {
                    self.pos = i + 1;
                    Ok(Token::GreaterThan)
                },
            }
        } else if digit_char(c) {
            match self.scan_int(0) {
                Ok(v) => Ok(Token::Literal(Value::Int(v))),
                Err(e) => Err(e),
            }
        } else if c == '\'' {
            match self.peek_at(i + 1) {
                Some(b) => {
                    match self.peek_at(i + 2) {
                        Some(q) => {
                            if b != '\'' && q == '\'' {
                                let u: u32 = b as u32;
                                if u <= 255 {
                                    self.pos = i + 3;
                                    Ok(Token::Literal(Value::Char(u as u8)))
                                } else {
                                    Err(CompileError::Lexical { found: b, position: i + 1 })
                                }
                            } else {
                                Err(CompileError::Lexical { found: '\'', position: i })
                            }
                        },
                        None => Err(CompileError::Lexical { found: '\'', position: i }),
                    }
                },
                None => Err(CompileError::Lexical { found: '\'', position: i }),
            }
        } else if ident_start_char(c) {
            let j: usize = self.ident_end(i + 1);
            let r = self.keyword_in_range(i, j);
            self.pos = j;
            match r {
                Some(k) => Ok(Token::Keyword(k)),
                None => {
                    let sub: &str = self.source.substring_char(i, j);
                    let name: String = sub.to_owned();
                    Ok(Token::Identifier(name))
                },
            }
        } else {
            Err(CompileError::Lexical { found: c, position: i })
        }
    }

    /// Tokenize the rest of the source, appending to the recorded tokens.
    fn lex_rest(&mut self) -> (r: Result<(), CompileError>)
        requires
            old(self).wf(),
        ensures
            final(self).wf(),
            final(self).src() == old(self).src(),
            match spec_lex_rest(old(self).src(), old(self).at() as nat) {
                Ok(ts) => r matches Ok(u) && final(self).toksv() == old(self).toksv() + ts,
                Err(e) => r matches Err(e2) && e2.deep_view() == e,
            },
        decreases self.src().len() - self.at(),
    {
        if self.pos >= self.len {
            proof {
                assert(self.toksv() =~= self.toksv() + Seq::<TokenV>::empty());
            }
            return Ok(());
        }
        let c: char = self.source.get_char(self.pos);
        if space_char(c) {
            self.pos = self.pos + 1;
            self.lex_rest()
        } else {
            match self.scan_token() {
                Err(e) => Err(e),
                Ok(t) => {
                    self.push_back(t);
                    let ghost mid = *self;
                    match self.lex_rest() {
                        Err(e) => Err(e),
                        Ok(u) => {
                            proof {
                                match spec_scan_token(old(self).src(), old(self).at() as nat) {
                                    Ok(p) => {
                                        match spec_lex_rest(old(self).src(), mid.at() as nat) {
                                            Ok(ts) => {
                                                assert(old(self).toksv().push(p.0) + ts =~= old(
                                                    self,
                                                ).toksv() + (seq![p.0] + ts));
                                            },
                                            Err(_) => {},
                                        }
                                    },
                                    Err(_) => {},
                                }
                            }
                            Ok(())
                        },
                    }
                },
            }
        }
    }
}

/// Whether two keywords are the same.
pub fn keyword_eq(a: &Keyword, b: &Keyword) -> (r: bool)
    ensures
        r == (a == b),
{
    match (a, b) {
        (Keyword::Int, Keyword::Int) => true,
        (Keyword::Char, Keyword::Char) => true,
        (Keyword::Return, Keyword::Return) => true,
        (Keyword::If, Keyword::If) => true,
        (Keyword::Else, Keyword::Else) => true,
        (Keyword::While, Keyword::While) => true,
        _ => false,
    }
}

/// Whether two literal values are the same.
pub fn value_eq(a: &Value, b: &Value) -> (r: bool)
    ensures
        r == (a == b),
{
    match (a, b) {
        (Value::Int(x), Value::Int(y)) => x == y,
        (Value::Char(x), Value::Char(y)) => x == y,
        _ => false,
    }
}

/// A copy of a token with the same image.
pub fn clone_token(t: &Token) -> (r: Token)
    ensures
        r.deep_view() == t.deep_view(),
{
    match t {
        Token::OpenBrace => Token::OpenBrace,
        Token::CloseBrace => Token::CloseBrace,
        Token::OpenParen => Token::OpenParen,
        Token::CloseParen => Token::CloseParen,
        Token::SemiColon => Token::SemiColon,
        Token::Comma => Token::Comma,
        Token::Colon => Token::Colon,
        Token::Question => Token::Question,
        Token::Keyword(k) => Token::Keyword(*k),
        Token::Identifier(s) => Token::Identifier(s.clone()),
        Token::Literal(v) => Token::Literal(*v),
        Token::BitComp => Token::BitComp,
        Token::BitwiseLeft => Token::BitwiseLeft,
        Token::BitwiseRight => Token::BitwiseRight,
        Token::BitwiseAnd => Token::BitwiseAnd,
        Token::BitwiseXor => Token::BitwiseXor,
        Token::BitwiseOr => Token::BitwiseOr,
        Token::LogicalNeg => Token::LogicalNeg,
        Token::And => Token::And,
        Token::Or => Token::Or,
        Token::Negation => Token::Negation,
        Token::Addition => Token::Addition,
        Token::Multiplication => Token::Multiplication,
        Token::Division => Token::Division,
        Token::Modulus => Token::Modulus,
        Token::Equal => Token::Equal,
        Token::NotEqual => Token::NotEqual,
        Token::LessThan => Token::LessThan,
        Token::LessThanOrEqual => Token::LessThanOrEqual,
        Token::GreaterThan => Token::GreaterThan,
        Token::GreaterThanOrEqual => Token::GreaterThanOrEqual,
        Token::Assign => Token::Assign,
        Token::AssignAdd => Token::AssignAdd,
        Token::AssignSub => Token::AssignSub,
        Token::AssignDiv => Token::AssignDiv,
        Token::AssignMul => Token::AssignMul,
        Token::AssignMod => Token::AssignMod,
        Token::AssignBitLeft => Token::AssignBitLeft,
        Token::AssignBitRight => Token::AssignBitRight,
        Token::AssignAnd => Token::AssignAnd,
        Token::AssignOr => Token::AssignOr,
        Token::AssignXor => Token::AssignXor,
        Token::Increment => Token::Increment,
        Token::Decrement => Token::Decrement,
    }
}

/// Whether two tokens have the same image.
pub fn token_eq(a: &Token, b: &Token) -> (r: bool)
    ensures
        r == (a.deep_view() == b.deep_view()),
{
    match (a, b) {
        (Token::OpenBrace, Token::OpenBrace) => true,
        (Token::CloseBrace, Token::CloseBrace) => true,
        (Token::OpenParen, Token::OpenParen) => true,
        (Token::CloseParen, Token::CloseParen) => true,
        (Token::SemiColon, Token::SemiColon) => true,
        (Token::Comma, Token::Comma) => true,
        (Token::Colon, Token::Colon) => true,
        (Token::Question, Token::Question) => true,
        (Token::Keyword(x), Token::Keyword(y)) => keyword_eq(x, y),
        (Token::Identifier(x), Token::Identifier(y)) => x.eq(y),
        (Token::Literal(x), Token::Literal(y)) => value_eq(x, y),
        (Token::BitComp, Token::BitComp) => true,
        (Token::BitwiseLeft, Token::BitwiseLeft) => true,
        (Token::BitwiseRight, Token::BitwiseRight) => true,
        (Token::BitwiseAnd, Token::BitwiseAnd) => true,
        (Token::BitwiseXor, Token::BitwiseXor) => true,
        (Token::BitwiseOr, Token::BitwiseOr) => true,
        (Token::LogicalNeg, Token::LogicalNeg) => true,
        (Token::And, Token::And) => true,
        (Token::Or, Token::Or) => true,
        (Token::Negation, Token::Negation) => true,
        (Token::Addition, Token::Addition) => true,
        (Token::Multiplication, Token::Multiplication) => true,
        (Token::Division, Token::Division) => true,
        (Token::Modulus, Token::Modulus) => true,
        (Token::Equal, Token::Equal) => true,
        (Token::NotEqual, Token::NotEqual) => true,
        (Token::LessThan, Token::LessThan) => true,
        (Token::LessThanOrEqual, Token::LessThanOrEqual) => true,
        (Token::GreaterThan, Token::GreaterThan) => true,
        (Token::GreaterThanOrEqual, Token::GreaterThanOrEqual) => true,
        (Token::Assign, Token::Assign) => true,
        (Token::AssignAdd, Token::AssignAdd) => true,
        (Token::AssignSub, Token::AssignSub) => true,
        (Token::AssignDiv, Token::AssignDiv) => true,
        (Token::AssignMul, Token::AssignMul) => true,
        (Token::AssignMod, Token::AssignMod) => true,
        (Token::AssignBitLeft, Token::AssignBitLeft) => true,
        (Token::AssignBitRight, Token::AssignBitRight) => true,
        (Token::AssignAnd, Token::AssignAnd) => true,
        (Token::AssignOr, Token::AssignOr) => true,
        (Token::AssignXor, Token::AssignXor) => true,
        (Token::Increment, Token::Increment) => true,
        (Token::Decrement, Token::Decrement) => true,
        _ => false,
    }
}

/// Turn source text into its ordered token sequence, or report the first
/// lexical error: the character that starts no token, with its position.
pub fn lex(source: &str) -> (r: Result<Vec<Token>, CompileError>)
    ensures
        match spec_lex(source@) {
            Ok(ts) => r matches Ok(v) && v.deep_view() == ts,
            Err(e) => r matches Err(e2) && e2.deep_view() == e,
        },
{
    let mut tp = TokenParser::new(source);
    match tp.lex_rest() {
        Ok(_) => {
            proof {
                match spec_lex(source@) {
                    Ok(ts) => {
                        assert(tp.toksv() =~= ts);
                    },
                    Err(_) => {},
                }
            }
            Ok(tp.tokens)
        },
        Err(e) => Err(e),
    }
}

} // verus!
