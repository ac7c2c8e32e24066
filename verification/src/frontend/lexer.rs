//! The tokenizer.
//!
//! [`Lexer::get_token`] hands out one token at a time and interns identifier
//! names into an integer-indexed table.  Its contract pins down what the
//! evaluator and the parser rely on: the input text never changes, the
//! identifier table only grows, every identifier token indexes into that
//! table, every number token is canonical, and the position strictly
//! advances whenever a token (or a bad character) was consumed — which is
//! what makes every parsing loop terminate.

#![verifier::loop_isolation(false)]

use vstd::prelude::*;

use crate::ast::Op;
use crate::bigint::BigInt;

verus! {

/// The keywords of the language.
#[derive(Debug, Clone, Copy, PartialEq, Eq, Structural)]
pub enum KeywordTypes {
    Var,
    Const,
    Fn,
    Return,
    If,
    Else,
    For,
    In,
    While,
    Break,
    Continue,
}

/// The keyword a name denotes, if any.
pub open spec fn keyword_of(s: Seq<char>) -> Option<KeywordTypes> {
    if s == "var"@ {
        Some(KeywordTypes::Var)
    } else if s == "const"@ {
        Some(KeywordTypes::Const)
    } else if s == "fn"@ {
        Some(KeywordTypes::Fn)
    } else if s == "return"@ {
        Some(KeywordTypes::Return)
    } else if s == "if"@ {
        Some(KeywordTypes::If)
    } else if s == "else"@ {
        Some(KeywordTypes::Else)
    } else if s == "for"@ {
        Some(KeywordTypes::For)
    } else if s == "in"@ {
        Some(KeywordTypes::In)
    } else if s == "while"@ {
        Some(KeywordTypes::While)
    } else if s == "break"@ {
        Some(KeywordTypes::Break)
    } else if s == "continue"@ {
        Some(KeywordTypes::Continue)
    } else {
        None
    }
}

impl KeywordTypes {
    /// The keyword a name denotes, if any.
    pub fn from_string(string: &str) -> (r: Option<KeywordTypes>)
        ensures
            r == keyword_of(string@),
    {
        let s = string.to_owned();
        if s == "var".to_owned() {
            Some(KeywordTypes::Var)
        } else if s == "const".to_owned() {
            Some(KeywordTypes::Const)
        } else if s == "fn".to_owned() {
            Some(KeywordTypes::Fn)
        } else if s == "return".to_owned() {
            Some(KeywordTypes::Return)
        } else if s == "if".to_owned() {
            Some(KeywordTypes::If)
        } else if s == "else".to_owned() {
            Some(KeywordTypes::Else)
        } else if s == "for".to_owned() {
            Some(KeywordTypes::For)
        } else if s == "in".to_owned() {
            Some(KeywordTypes::In)
        } else if s == "while".to_owned() {
            Some(KeywordTypes::While)
        } else if s == "break".to_owned() {
            Some(KeywordTypes::Break)
        } else if s == "continue".to_owned() {
            Some(KeywordTypes::Continue)
        } else {
            None
        }
    }
}

/// One token of the source text.
#[derive(Debug, PartialEq, Eq)]
pub enum Token {
    /// An integer literal.
    Number(BigInt),
    /// A binary operator.
    Operator(Op),
    LParen,
    RParen,
    /// An interned identifier.
    Id(usize),
    Keyword(KeywordTypes),
    /// `=`
    Assign,
    /// `;`
    Semi,
    /// `{`
    LBrace,
    /// `}`
    RBrace,
    /// `,`
    Comma,
    /// `[`
    LBracket,
    /// `]`
    RBracket,
}

impl Token {
    /// The operator inside, if the token is one.
    pub fn as_operator(&self) -> (r: Option<Op>)
        ensures
            match r {
                Some(op) => *self == Token::Operator(op),
                None => !(self is Operator),
            },
    {
        match self {
            Token::Operator(op) => Some(*op),
            _ => None,
        }
    }

    /// The identifier id inside, if the token is one.
    pub fn as_ident(&self) -> (r: Option<usize>)
        ensures
            match r {
                Some(id) => *self == Token::Id(id),
                None => !(self is Id),
            },
    {
        match self {
            Token::Id(id) => Some(*id),
            _ => None,
        }
    }
}

/// A character the tokenizer has no rule for.
#[derive(Debug, Clone, Copy, PartialEq, Eq, Structural)]
pub struct LexError {
    pub unexpected: char,
}

/// The first table lists everything the second does, in the same places.
pub open spec fn table_extends(a: Seq<Seq<char>>, b: Seq<Seq<char>>) -> bool {
    a.len() <= b.len() && forall|i: int| 0 <= i < a.len() ==> a[i] == #[trigger] b[i]
}

/// A token's claims hold against an identifier table: identifier ids index
/// into the table and number literals are canonical.
pub open spec fn token_wf(t: Token, tbl: Seq<Seq<char>>) -> bool {
    match t {
        Token::Number(b) => b.wf(),
        Token::Id(n) => (n as int) < tbl.len(),
        _ => true,
    }
}

/// Relies on std's `String::from_iter` over chars: the string with exactly
/// the given characters.
#[verifier::external_body]
fn chars_to_string(v: &Vec<char>) -> (r: String)
    ensures
        r@ == v@,
{
    v.iter().collect()
}

/// The tokenizer: the source text as characters, the reading position, and
/// the table of interned identifier names.
pub struct Lexer {
    chars: Vec<char>,
    position: usize,
    string_table: Vec<String>,
}

impl Lexer {
    /// The source text.
    pub closed spec fn text(&self) -> Seq<char> {
        self.chars@
    }

    /// The reading position, a character index.
    pub closed spec fn pos(&self) -> int {
        self.position as int
    }

    /// The interned identifier names, by id.
    pub closed spec fn table(&self) -> Seq<Seq<char>> {
        self.string_table@.map_values(|s: String| s@)
    }

    /// The position lies within the text.
    pub open spec fn wf(&self) -> bool {
        0 <= self.pos() <= self.text().len()
    }

    /// A lexer over the given source text, at the start, with an empty
    /// identifier table.
    pub fn new(input: String) -> (r: Lexer)
        ensures
            r.wf(),
            r.text() == input@,
            r.pos() == 0,
            r.table() =~= Seq::<Seq<char>>::empty(),
    {
        let s = input.as_str();
        let n = s.unicode_len();
        let mut chars: Vec<char> = Vec::new();
        let mut i: usize = 0;
        while i < n
            invariant
                i <= n,
                n == s@.len(),
                s@ == input@,
                chars@ =~= input@.subrange(0, i as int),
            decreases n - i,
        {
            let c = s.get_char(i);
            chars.push(c);
            i = i + 1;
        }
        proof {
            assert(chars@ =~= input@);
        }
        Lexer { chars, position: 0, string_table: Vec::new() }
    }

    /// The character at the reading position, or the NUL character at the
    /// end of the text.
    pub fn current_char(&self) -> (c: char)
        requires
            self.wf(),
        ensures
            c == if self.pos() < self.text().len() {
                self.text()[self.pos()]
            } else {
                '\u{0}'
            },
    {
        if self.position >= self.chars.len() {
            '\u{0}'
        } else {
            self.chars[self.position]
        }
    }

    /// Consumes and returns the character at the reading position, if any.
    fn advance(&mut self) -> (c: Option<char>)
        requires
            old(self).wf(),
        ensures
            final(self).wf(),
            final(self).text() == old(self).text(),
            final(self).table() == old(self).table(),
            match c {
                Some(ch) => old(self).pos() < old(self).text().len()
                    && ch == old(self).text()[old(self).pos()]
                    && final(self).pos() == old(self).pos() + 1,
                None => old(self).pos() == old(self).text().len()
                    && final(self).pos() == old(self).pos(),
            },
    {
        if self.position >= self.chars.len() {
            return None;
        }
        let c = self.chars[self.position];
        self.position = self.position + 1;
        Some(c)
    }

    /// A copy of the identifier table.
    pub fn string_table(&self) -> (r: Vec<String>)
        ensures
            r@.len() == self.table().len(),
            forall|i: int| 0 <= i < r@.len() ==> (#[trigger] r@[i])@ == self.table()[i],
    {
        let mut out: Vec<String> = Vec::new();
        let mut i: usize = 0;
        while i < self.string_table.len()
            invariant
                i <= self.string_table@.len(),
                out@.len() == i,
                forall|j: int| 0 <= j < i ==> (#[trigger] out@[j])@ == self.table()[j],
            decreases self.string_table@.len() - i,
        {
            let s = self.string_table[i].clone();
            out.push(s);
            i = i + 1;
        }
        out
    }

    /// The next token, `Ok(None)` at the end of the text, or the first
    /// character no rule covers.  Spaces and line breaks are skipped.  The
    /// text never changes, the identifier table only grows, and the position
    /// strictly advances whenever a token or a bad character was consumed:
    /// that is what makes parsing loops terminate.  Identifiers are made of
    /// letters and underscores; interning gives equal names equal ids.
    pub fn get_token(&mut self) -> (r: Result<Option<Token>, LexError>)
        requires
            old(self).wf(),
        ensures
            final(self).wf(),
            final(self).text() == old(self).text(),
            table_extends(old(self).table(), final(self).table()),
            final(self).pos() >= old(self).pos(),
            match r {
                Ok(t) => match t {
                    Some(tok) => final(self).pos() > old(self).pos() && token_wf(
                        tok,
                        final(self).table(),
                    ),
                    None => final(self).pos() == final(self).text().len(),
                },
                Err(_) => final(self).pos() > old(self).pos(),
            },
    {
        loop
            invariant
                self.wf(),
                self.text() == old(self).text(),
                self.table() == old(self).table(),
                self.pos() >= old(self).pos(),
            decreases self.text().len() - self.pos(),
        {
            let ch = match self.advance() {
                None => {
                    return Ok(None);
                },
                Some(c) => c,
            };
            if ch == ' ' || ch == '\n' || ch == '\r' || ch == '\t' {
                continue;
            }
            if '0' <= ch && ch <= '9' {
                let mut num = BigInt::from_u64(((ch as u32) - ('0' as u32)) as u64);
                loop
                    invariant
                        self.wf(),
                        self.text() == old(self).text(),
                        self.table() == old(self).table(),
                        self.pos() > old(self).pos(),
                        num.wf(),
                    decreases self.text().len() - self.pos(),
                {
                    let c2 = self.current_char();
                    if '0' <= c2 && c2 <= '9' {
                        let _ = self.advance();
                        let ten = BigInt::from_u64(10);
                        let d = BigInt::from_u64(((c2 as u32) - ('0' as u32)) as u64);
                        num = num.times(&ten).plus(&d);
                    } else {
                        return Ok(Some(Token::Number(num)));
                    }
                }
            }
            if ch == '+' {
                return Ok(Some(Token::Operator(Op::Add)));
            }
            if ch == '-' {
                return Ok(Some(Token::Operator(Op::Sub)));
            }
            if ch == '*' {
                return Ok(Some(Token::Operator(Op::Mul)));
            }
            if ch == '/' {
                return Ok(Some(Token::Operator(Op::Div)));
            }
            if ch == '(' {
                return Ok(Some(Token::LParen));
            }
            if ch == ')' {
                return Ok(Some(Token::RParen));
            }
            if ch == ';' {
                return Ok(Some(Token::Semi));
            }
            if ch == '{' {
                return Ok(Some(Token::LBrace));
            }
            if ch == '}' {
                return Ok(Some(Token::RBrace));
            }
            if ch == '[' {
                return Ok(Some(Token::LBracket));
            }
            if ch == ']' {
                return Ok(Some(Token::RBracket));
            }
            if ch == ',' {
                return Ok(Some(Token::Comma));
            }
            if ch == '=' {
                if self.current_char() == '=' {
                    let _ = self.advance();
                    return Ok(Some(Token::Operator(Op::Eq)));
                }
                return Ok(Some(Token::Assign));
            }
            if ch == '!' {
                if self.current_char() == '=' {
                    let _ = self.advance();
                    return Ok(Some(Token::Operator(Op::Ne)));
                }
                return Err(LexError { unexpected: ch });
            }
            if ch == '>' {
                if self.current_char() == '=' {
                    let _ = self.advance();
                    return Ok(Some(Token::Operator(Op::Ge)));
                }
                if self.current_char() == '>' {
                    let _ = self.advance();
                    return Ok(Some(Token::Operator(Op::RShift)));
                }
                return Ok(Some(Token::Operator(Op::Gt)));
            }
            if ch == '<' {
                if self.current_char() == '=' {
                    let _ = self.advance();
                    return Ok(Some(Token::Operator(Op::Le)));
                }
                if self.current_char() == '<' {
                    let _ = self.advance();
                    return Ok(Some(Token::Operator(Op::LShift)));
                }
                return Ok(Some(Token::Operator(Op::Lt)));
            }
            if ch == '|' {
                if self.current_char() == '|' {
                    let _ = self.advance();
                    return Ok(Some(Token::Operator(Op::Or)));
                }
                return Err(LexError { unexpected: ch });
            }
            if ch == '&' {
                if self.current_char() == '&' {
                    let _ = self.advance();
                    return Ok(Some(Token::Operator(Op::And)));
                }
                return Err(LexError { unexpected: ch });
            }
            if ('a' <= ch && ch <= 'z') || ('A' <= ch && ch <= 'Z') || ch == '_' {
                let mut name_chars: Vec<char> = Vec::new();
                name_chars.push(ch);
                loop
                    invariant
                        self.wf(),
                        self.text() == old(self).text(),
                        self.table() == old(self).table(),
                        self.pos() > old(self).pos(),
                    decreases self.text().len() - self.pos(),
                {
                    let c2 = self.current_char();
                    if ('a' <= c2 && c2 <= 'z') || ('A' <= c2 && c2 <= 'Z') || c2 == '_' {
                        let _ = self.advance();
                        name_chars.push(c2);
                    } else {
                        let name = chars_to_string(&name_chars);
                        match KeywordTypes::from_string(name.as_str()) {
                            Some(k) => {
                                return Ok(Some(Token::Keyword(k)));
                            },
                            None => {},
                        }
                        let mut j: usize = 0;
                        while j < self.string_table.len()
                            invariant
                                j <= self.string_table@.len(),
                            decreases self.string_table@.len() - j,
                        {
                            if self.string_table[j] == name {
                                return Ok(Some(Token::Id(j)));
                            }
                            j = j + 1;
                        }
                        let n_id = self.string_table.len();
                        self.string_table.push(name);
                        proof {
                            assert(forall|k: int|
                                0 <= k < old(self).table().len() ==> old(self).table()[k] == (
                                #[trigger] self.table()[k]));
                        }
                        return Ok(Some(Token::Id(n_id)));
                    }
                }
            }
            return Err(LexError { unexpected: ch });
        }
    }
}

} // verus!
