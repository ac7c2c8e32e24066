//! The recursive-descent parser.
//!
//! One token of lookahead, plus the grammar's one quirk: after an
//! identifier it peeks at the next raw character to tell a call from an
//! assignment or a variable read.  Every parsing function consumes at least
//! one token on success — the contract every loop's termination rests on —
//! and every tree it returns is well-formed ([`ast_wf`]), so the evaluator
//! can run it directly.  Malformed input is an error value, never a panic.

#![verifier::loop_isolation(false)]

use std::rc::Rc;
use vstd::prelude::*;

use crate::ast::{all_exprs, ast_wf, block_wf, is_expr, AstNodes, Op};
use crate::bigint::BigInt;
use super::lexer::{token_wf, KeywordTypes, LexError, Lexer, Token};

verus! {

/// Why parsing stopped.
#[derive(Debug, Clone, Copy, PartialEq, Eq, Structural)]
pub enum ParseError {
    /// The tokenizer met a character it has no rule for.
    BadChar(char),
    /// A token that does not fit the grammar at this point.
    UnexpectedToken,
    /// The text ended in the middle of a construct.
    UnexpectedEnd,
}

/// The punctuation and keyword tokens the parser demands by kind.
#[derive(Debug, Clone, Copy, PartialEq, Eq, Structural)]
enum Expected {
    LParen,
    RParen,
    Assign,
    Semi,
    LBrace,
    RBrace,
    Comma,
    RBracket,
    KwIn,
}

/// The parser: the tokenizer and one token of lookahead.
pub struct Parser {
    lexer: Lexer,
    current_token: Option<Token>,
}

impl Parser {
    /// The lookahead token.
    pub closed spec fn cur(&self) -> Option<Token> {
        self.current_token
    }

    /// The lookahead is consistent with the identifier table.
    pub closed spec fn wf(&self) -> bool {
        &&& self.lexer.wf()
        &&& match self.current_token {
            Some(t) => token_wf(t, self.lexer.table()),
            None => true,
        }
    }

    /// How much input is left: unread characters plus the lookahead.
    pub closed spec fn remaining(&self) -> int {
        self.lexer.text().len() - self.lexer.pos() + (
        if self.current_token is Some {
            1int
        } else {
            0int
        })
    }

    /// A parser over the given tokenizer, with the first token read.
    pub fn new(lexer: Lexer) -> (r: Result<Parser, ParseError>)
        requires
            lexer.wf(),
        ensures
            match r {
                Ok(p) => p.wf(),
                Err(_) => true,
            },
    {
        let mut lexer = lexer;
        let tok = match lexer.get_token() {
            Ok(t) => t,
            Err(e) => {
                return Err(ParseError::BadChar(e.unexpected));
            },
        };
        Ok(Parser { lexer, current_token: tok })
    }

    /// Reads the next token into the lookahead.
    fn advance(&mut self) -> (r: Result<(), ParseError>)
        requires
            old(self).wf(),
            old(self).cur() is Some,
        ensures
            final(self).wf(),
            final(self).remaining() < old(self).remaining(),
            r is Err ==> !(final(self).cur() is Some),
    {
        match self.lexer.get_token() {
            Ok(t) => {
                self.current_token = t;
                Ok(())
            },
            Err(e) => {
                self.current_token = None;
                Err(ParseError::BadChar(e.unexpected))
            },
        }
    }

    /// The raw character the tokenizer would read next; the grammar's
    /// lookahead for telling calls apart from reads and assignments.
    fn peek_char(&self) -> (c: char)
        requires
            self.wf(),
    {
        self.lexer.current_char()
    }

    /// Demands and consumes a token of the given kind.
    fn eat(&mut self, want: Expected) -> (r: Result<(), ParseError>)
        requires
            old(self).wf(),
        ensures
            final(self).wf(),
            final(self).remaining() <= old(self).remaining(),
            r is Ok ==> final(self).remaining() < old(self).remaining(),
    {
        let ok: bool = match (&self.current_token, &want) {
            (Some(Token::LParen), Expected::LParen) => true,
            (Some(Token::RParen), Expected::RParen) => true,
            (Some(Token::Assign), Expected::Assign) => true,
            (Some(Token::Semi), Expected::Semi) => true,
            (Some(Token::LBrace), Expected::LBrace) => true,
            (Some(Token::RBrace), Expected::RBrace) => true,
            (Some(Token::Comma), Expected::Comma) => true,
            (Some(Token::RBracket), Expected::RBracket) => true,
            (Some(Token::Keyword(KeywordTypes::In)), Expected::KwIn) => true,
            _ => false,
        };
        if ok {
            self.advance()?;
            Ok(())
        } else {
            match &self.current_token {
                Some(_) => Err(ParseError::UnexpectedToken),
                None => Err(ParseError::UnexpectedEnd),
            }
        }
    }

    /// Demands and consumes an identifier, returning its id.
    fn eat_id(&mut self) -> (r: Result<usize, ParseError>)
        requires
            old(self).wf(),
        ensures
            final(self).wf(),
            final(self).remaining() <= old(self).remaining(),
            r is Ok ==> final(self).remaining() < old(self).remaining(),
    {
        let id = match &self.current_token {
            Some(Token::Id(id)) => *id,
            Some(_) => {
                return Err(ParseError::UnexpectedToken);
            },
            None => {
                return Err(ParseError::UnexpectedEnd);
            },
        };
        self.advance()?;
        Ok(id)
    }

    /// Consumes a semicolon if one is next; `break` and `continue` may be
    /// written with or without one.
    fn skip_semi(&mut self) -> (r: Result<(), ParseError>)
        requires
            old(self).wf(),
        ensures
            final(self).wf(),
            final(self).remaining() <= old(self).remaining(),
    {
        match &self.current_token {
            Some(Token::Semi) => {
                self.advance()?;
                Ok(())
            },
            _ => Ok(()),
        }
    }

    /// Whether a block is finished: the lookahead is `}` or the text ended.
    fn block_done(&self) -> (r: bool)
        requires
            self.wf(),
        ensures
            r == !(self.cur() is Some) || self.cur() == Some(Token::RBrace),
    {
        match &self.current_token {
            None => true,
            Some(Token::RBrace) => true,
            Some(_) => false,
        }
    }

    /// The whole program: statements until the text ends, plus the interned
    /// identifier table for diagnostics and built-in dispatch.
    pub fn parse_compile_unit(&mut self) -> (r: Result<(AstNodes, Vec<String>), ParseError>)
        requires
            old(self).wf(),
        ensures
            final(self).wf(),
            match r {
                Ok(p) => ast_wf(p.0),
                Err(_) => true,
            },
        decreases self.remaining(), 10int,
    {
        let mut children: Vec<AstNodes> = Vec::new();
        loop
            invariant
                self.wf(),
                block_wf(children@),
                self.remaining() <= old(self).remaining(),
            decreases self.remaining(),
        {
            match &self.current_token {
                None => {
                    return Ok((AstNodes::CompileUnit(children), self.lexer.string_table()));
                },
                Some(_) => {
                    let stmt = self.parse_statement()?;
                    children.push(stmt);
                },
            }
        }
    }

    /// One statement, chosen by the leading keyword; a bare identifier is a
    /// call when a `(` follows it in the raw text, else an assignment.
    fn parse_statement(&mut self) -> (r: Result<AstNodes, ParseError>)
        requires
            old(self).wf(),
        ensures
            final(self).wf(),
            final(self).remaining() <= old(self).remaining(),
            match r {
                Ok(ast) => ast_wf(ast) && final(self).remaining() < old(self).remaining(),
                Err(_) => true,
            },
        decreases self.remaining(), 8int,
    {
        match &self.current_token {
            Some(Token::Keyword(KeywordTypes::Var)) => self.parse_var(),
            Some(Token::Keyword(KeywordTypes::Const)) => self.parse_const(),
            Some(Token::Keyword(KeywordTypes::Fn)) => self.parse_function(),
            Some(Token::Keyword(KeywordTypes::Return)) => self.parse_return(),
            Some(Token::Keyword(KeywordTypes::If)) => self.parse_if(),
            Some(Token::Keyword(KeywordTypes::For)) => self.parse_for(),
            Some(Token::Keyword(KeywordTypes::While)) => self.parse_while(),
            Some(Token::Keyword(KeywordTypes::Break)) => {
                self.advance()?;
                self.skip_semi()?;
                Ok(AstNodes::Break)
            },
            Some(Token::Keyword(KeywordTypes::Continue)) => {
                self.advance()?;
                self.skip_semi()?;
                Ok(AstNodes::Continue)
            },
            Some(Token::Id(_)) => {
                if self.peek_char() == '(' {
                    self.parse_call(true)
                } else {
                    self.parse_assign()
                }
            },
            Some(_) => Err(ParseError::UnexpectedToken),
            None => Err(ParseError::UnexpectedEnd),
        }
    }

    /// `{`-delimited statements; the braces themselves are the caller's.
    fn parse_block(&mut self) -> (r: Result<Vec<AstNodes>, ParseError>)
        requires
            old(self).wf(),
        ensures
            final(self).wf(),
            final(self).remaining() <= old(self).remaining(),
            match r {
                Ok(b) => block_wf(b@),
                Err(_) => true,
            },
        decreases self.remaining(), 9int,
    {
        let mut children: Vec<AstNodes> = Vec::new();
        while !self.block_done()
            invariant
                self.wf(),
                block_wf(children@),
                self.remaining() <= old(self).remaining(),
            decreases self.remaining(),
        {
            let stmt = self.parse_statement()?;
            children.push(stmt);
        }
        Ok(children)
    }

    /// `var` id `=` initializer `;` — the initializer may be a list literal.
    fn parse_var(&mut self) -> (r: Result<AstNodes, ParseError>)
        requires
            old(self).wf(),
            old(self).cur() is Some,
        ensures
            final(self).wf(),
            final(self).remaining() <= old(self).remaining(),
            match r {
                Ok(ast) => ast_wf(ast) && final(self).remaining() < old(self).remaining(),
                Err(_) => true,
            },
        decreases self.remaining(), 7int,
    {
        self.advance()?;
        let id = self.eat_id()?;
        self.eat(Expected::Assign)?;
        let init = match &self.current_token {
            Some(Token::LBracket) => self.parse_list()?,
            _ => self.parse_expr()?,
        };
        self.eat(Expected::Semi)?;
        Ok(AstNodes::VarDef(id, Box::new(init)))
    }

    /// `const` id `=` initializer `;`
    fn parse_const(&mut self) -> (r: Result<AstNodes, ParseError>)
        requires
            old(self).wf(),
            old(self).cur() is Some,
        ensures
            final(self).wf(),
            final(self).remaining() <= old(self).remaining(),
            match r {
                Ok(ast) => ast_wf(ast) && final(self).remaining() < old(self).remaining(),
                Err(_) => true,
            },
        decreases self.remaining(), 7int,
    {
        self.advance()?;
        let id = self.eat_id()?;
        self.eat(Expected::Assign)?;
        let init = self.parse_expr()?;
        self.eat(Expected::Semi)?;
        Ok(AstNodes::ConstDef(id, Box::new(init)))
    }

    /// `return` expression `;`
    fn parse_return(&mut self) -> (r: Result<AstNodes, ParseError>)
        requires
            old(self).wf(),
            old(self).cur() is Some,
        ensures
            final(self).wf(),
            final(self).remaining() <= old(self).remaining(),
            match r {
                Ok(ast) => ast_wf(ast) && final(self).remaining() < old(self).remaining(),
                Err(_) => true,
            },
        decreases self.remaining(), 7int,
    {
        self.advance()?;
        let e = self.parse_expr()?;
        self.eat(Expected::Semi)?;
        Ok(AstNodes::Return(Box::new(e)))
    }

    /// `while` condition `{` body `}`
    fn parse_while(&mut self) -> (r: Result<AstNodes, ParseError>)
        requires
            old(self).wf(),
            old(self).cur() is Some,
        ensures
            final(self).wf(),
            final(self).remaining() <= old(self).remaining(),
            match r {
                Ok(ast) => ast_wf(ast) && final(self).remaining() < old(self).remaining(),
                Err(_) => true,
            },
        decreases self.remaining(), 7int,
    {
        self.advance()?;
        let cond = self.parse_expr()?;
        self.eat(Expected::LBrace)?;
        let body = self.parse_block()?;
        self.eat(Expected::RBrace)?;
        Ok(AstNodes::While(Box::new(cond), body))
    }

    /// `if` condition `{` then `}` with an optional `else` `{` block `}`.
    fn parse_if(&mut self) -> (r: Result<AstNodes, ParseError>)
        requires
            old(self).wf(),
            old(self).cur() is Some,
        ensures
            final(self).wf(),
            final(self).remaining() <= old(self).remaining(),
            match r {
                Ok(ast) => ast_wf(ast) && final(self).remaining() < old(self).remaining(),
                Err(_) => true,
            },
        decreases self.remaining(), 7int,
    {
        self.advance()?;
        let cond = self.parse_expr()?;
        self.eat(Expected::LBrace)?;
        let then_block = self.parse_block()?;
        self.eat(Expected::RBrace)?;
        let else_block: Vec<AstNodes> = match &self.current_token {
            Some(Token::Keyword(KeywordTypes::Else)) => {
                self.advance()?;
                self.eat(Expected::LBrace)?;
                let b = self.parse_block()?;
                self.eat(Expected::RBrace)?;
                b
            },
            _ => Vec::new(),
        };
        proof {
            assert(block_wf(then_block@));
            assert(block_wf(else_block@));
            assert(ast_wf(AstNodes::If(Box::new(cond), then_block, else_block)));
        }
        Ok(AstNodes::If(Box::new(cond), then_block, else_block))
    }

    /// `for` id `in` `(` start `,` end [`,` step] `)` `{` body `}` — the
    /// step defaults to 1.
    fn parse_for(&mut self) -> (r: Result<AstNodes, ParseError>)
        requires
            old(self).wf(),
            old(self).cur() is Some,
        ensures
            final(self).wf(),
            final(self).remaining() <= old(self).remaining(),
            match r {
                Ok(ast) => ast_wf(ast) && final(self).remaining() < old(self).remaining(),
                Err(_) => true,
            },
        decreases self.remaining(), 7int,
    {
        self.advance()?;
        let variable = self.eat_id()?;
        self.eat(Expected::KwIn)?;
        self.eat(Expected::LParen)?;
        let start = self.parse_expr()?;
        self.eat(Expected::Comma)?;
        let end = self.parse_expr()?;
        let step = match &self.current_token {
            Some(Token::Comma) => {
                self.advance()?;
                self.parse_expr()?
            },
            _ => AstNodes::Number(BigInt::from_u64(1)),
        };
        self.eat(Expected::RParen)?;
        self.eat(Expected::LBrace)?;
        let body = self.parse_block()?;
        self.eat(Expected::RBrace)?;
        proof {
            assert(ast_wf(step));
            assert(block_wf(body@));
            assert(ast_wf(AstNodes::For(
                variable,
                Box::new(start),
                Box::new(end),
                Box::new(step),
                body,
            )));
        }
        Ok(AstNodes::For(variable, Box::new(start), Box::new(end), Box::new(step), body))
    }

    /// `fn` id `(` parameters `)` `{` body `}`
    fn parse_function(&mut self) -> (r: Result<AstNodes, ParseError>)
        requires
            old(self).wf(),
            old(self).cur() is Some,
        ensures
            final(self).wf(),
            final(self).remaining() <= old(self).remaining(),
            match r {
                Ok(ast) => ast_wf(ast) && final(self).remaining() < old(self).remaining(),
                Err(_) => true,
            },
        decreases self.remaining(), 7int,
    {
        self.advance()?;
        let id = self.eat_id()?;
        self.eat(Expected::LParen)?;
        let params = self.parse_params()?;
        self.eat(Expected::RParen)?;
        self.eat(Expected::LBrace)?;
        let body = self.parse_block()?;
        self.eat(Expected::RBrace)?;
        Ok(AstNodes::FunctionDef(id, Rc::new(params), Rc::new(body)))
    }

    /// Comma-separated parameter ids, up to the closing `)`.
    fn parse_params(&mut self) -> (r: Result<Vec<usize>, ParseError>)
        requires
            old(self).wf(),
        ensures
            final(self).wf(),
            final(self).remaining() <= old(self).remaining(),
        decreases self.remaining(), 1int,
    {
        let mut params: Vec<usize> = Vec::new();
        loop
            invariant
                self.wf(),
                self.remaining() <= old(self).remaining(),
            decreases self.remaining(),
        {
            match &self.current_token {
                Some(Token::Id(id)) => {
                    params.push(*id);
                    self.advance()?;
                    match &self.current_token {
                        Some(Token::Comma) => {
                            self.advance()?;
                        },
                        Some(Token::RParen) => {
                            return Ok(params);
                        },
                        Some(_) => {
                            return Err(ParseError::UnexpectedToken);
                        },
                        None => {
                            return Ok(params);
                        },
                    }
                },
                Some(Token::RParen) => {
                    return Ok(params);
                },
                Some(_) => {
                    return Err(ParseError::UnexpectedToken);
                },
                None => {
                    return Err(ParseError::UnexpectedEnd);
                },
            }
        }
    }

    /// `[` elements `]`, or `[` template `;` count `]`.
    fn parse_list(&mut self) -> (r: Result<AstNodes, ParseError>)
        requires
            old(self).wf(),
            old(self).cur() == Some(Token::LBracket),
        ensures
            final(self).wf(),
            final(self).remaining() <= old(self).remaining(),
            match r {
                Ok(ast) => ast_wf(ast) && final(self).remaining() < old(self).remaining(),
                Err(_) => true,
            },
        decreases self.remaining(), 7int,
    {
        self.advance()?;
        let mut value_list: Vec<AstNodes> = Vec::new();
        match &self.current_token {
            Some(Token::RBracket) => {
                self.advance()?;
                proof {
                    assert(value_list@.len() == 0);
                    assert(block_wf(value_list@));
                    assert(ast_wf(AstNodes::List(value_list)));
                }
                return Ok(AstNodes::List(value_list));
            },
            _ => {},
        }
        let first_value = self.parse_expr()?;
        match &self.current_token {
            Some(Token::Semi) => {
                self.advance()?;
                let num = self.parse_expr()?;
                self.eat(Expected::RBracket)?;
                return Ok(AstNodes::TemplateList(Box::new(first_value), Box::new(num)));
            },
            _ => {},
        }
        value_list.push(first_value);
        loop
            invariant
                self.wf(),
                block_wf(value_list@),
                self.remaining() < old(self).remaining(),
            decreases self.remaining(),
        {
            match &self.current_token {
                Some(Token::RBracket) => {
                    self.advance()?;
                    return Ok(AstNodes::List(value_list));
                },
                _ => {},
            }
            self.eat(Expected::Comma)?;
            let value = self.parse_expr()?;
            value_list.push(value);
        }
    }

    /// A bare assignment statement: id [`[` index `]`] `=` expression `;`.
    fn parse_assign(&mut self) -> (r: Result<AstNodes, ParseError>)
        requires
            old(self).wf(),
        ensures
            final(self).wf(),
            final(self).remaining() <= old(self).remaining(),
            match r {
                Ok(ast) => ast_wf(ast) && final(self).remaining() < old(self).remaining(),
                Err(_) => true,
            },
        decreases self.remaining(), 7int,
    {
        let id = self.eat_id()?;
        let index: Option<Box<AstNodes>> = match &self.current_token {
            Some(Token::LBracket) => {
                self.advance()?;
                let ix = self.parse_expr()?;
                self.eat(Expected::RBracket)?;
                Some(Box::new(ix))
            },
            _ => None,
        };
        self.eat(Expected::Assign)?;
        let expr = self.parse_expr()?;
        self.eat(Expected::Semi)?;
        Ok(AstNodes::Assign(id, index, Box::new(expr)))
    }

    /// id `(` arguments `)` — with a closing `;` when used as a statement.
    fn parse_call(&mut self, stmt: bool) -> (r: Result<AstNodes, ParseError>)
        requires
            old(self).wf(),
        ensures
            final(self).wf(),
            final(self).remaining() <= old(self).remaining(),
            match r {
                Ok(ast) => ast_wf(ast) && is_expr(ast) && final(self).remaining() < old(
                    self,
                ).remaining(),
                Err(_) => true,
            },
        decreases self.remaining(), 0int,
    {
        let id = self.eat_id()?;
        self.eat(Expected::LParen)?;
        let args = self.parse_args()?;
        self.eat(Expected::RParen)?;
        if stmt {
            self.eat(Expected::Semi)?;
        }
        Ok(AstNodes::Call(id, args))
    }

    /// Comma-separated argument expressions, up to the closing `)`.
    fn parse_args(&mut self) -> (r: Result<Vec<AstNodes>, ParseError>)
        requires
            old(self).wf(),
        ensures
            final(self).wf(),
            final(self).remaining() <= old(self).remaining(),
            match r {
                Ok(b) => block_wf(b@) && all_exprs(b@),
                Err(_) => true,
            },
        decreases self.remaining(), 7int,
    {
        let mut args: Vec<AstNodes> = Vec::new();
        loop
            invariant
                self.wf(),
                block_wf(args@),
                all_exprs(args@),
                self.remaining() <= old(self).remaining(),
            decreases self.remaining(),
        {
            match &self.current_token {
                Some(Token::RParen) => {
                    return Ok(args);
                },
                None => {
                    return Ok(args);
                },
                _ => {},
            }
            let a = self.parse_expr()?;
            args.push(a);
            match &self.current_token {
                Some(Token::Comma) => {
                    self.advance()?;
                },
                _ => {
                    return Ok(args);
                },
            }
        }
    }

    /// Lowest precedence: `||` and `&&` over equality expressions.
    fn parse_expr(&mut self) -> (r: Result<AstNodes, ParseError>)
        requires
            old(self).wf(),
        ensures
            final(self).wf(),
            final(self).remaining() <= old(self).remaining(),
            match r {
                Ok(ast) => ast_wf(ast) && is_expr(ast) && final(self).remaining() < old(
                    self,
                ).remaining(),
                Err(_) => true,
            },
        decreases self.remaining(), 6int,
    {
        let mut node = self.parse_eq_expr()?;
        loop
            invariant
                self.wf(),
                ast_wf(node),
                is_expr(node),
                self.remaining() < old(self).remaining(),
            decreases self.remaining(),
        {
            let op = match &self.current_token {
                Some(Token::Operator(op)) => match op {
                    Op::Or => Op::Or,
                    Op::And => Op::And,
                    _ => {
                        return Ok(node);
                    },
                },
                _ => {
                    return Ok(node);
                },
            };
            self.advance()?;
            let rhs = self.parse_eq_expr()?;
            node = AstNodes::BinaryOp(Box::new(node), op, Box::new(rhs));
        }
    }

    /// Comparisons over additive expressions.
    fn parse_eq_expr(&mut self) -> (r: Result<AstNodes, ParseError>)
        requires
            old(self).wf(),
        ensures
            final(self).wf(),
            final(self).remaining() <= old(self).remaining(),
            match r {
                Ok(ast) => ast_wf(ast) && is_expr(ast) && final(self).remaining() < old(
                    self,
                ).remaining(),
                Err(_) => true,
            },
        decreases self.remaining(), 5int,
    {
        let mut node = self.parse_add_expr()?;
        loop
            invariant
                self.wf(),
                ast_wf(node),
                is_expr(node),
                self.remaining() < old(self).remaining(),
            decreases self.remaining(),
        {
            let op = match &self.current_token {
                Some(Token::Operator(op)) => match op {
                    Op::Eq => Op::Eq,
                    Op::Ne => Op::Ne,
                    Op::Ge => Op::Ge,
                    Op::Le => Op::Le,
                    Op::Lt => Op::Lt,
                    Op::Gt => Op::Gt,
                    _ => {
                        return Ok(node);
                    },
                },
                _ => {
                    return Ok(node);
                },
            };
            self.advance()?;
            let rhs = self.parse_add_expr()?;
            node = AstNodes::BinaryOp(Box::new(node), op, Box::new(rhs));
        }
    }

    /// `+` and `-` over shift expressions.
    fn parse_add_expr(&mut self) -> (r: Result<AstNodes, ParseError>)
        requires
            old(self).wf(),
        ensures
            final(self).wf(),
            final(self).remaining() <= old(self).remaining(),
            match r {
                Ok(ast) => ast_wf(ast) && is_expr(ast) && final(self).remaining() < old(
                    self,
                ).remaining(),
                Err(_) => true,
            },
        decreases self.remaining(), 4int,
    {
        let mut node = self.parse_move_expr()?;
        loop
            invariant
                self.wf(),
                ast_wf(node),
                is_expr(node),
                self.remaining() < old(self).remaining(),
            decreases self.remaining(),
        {
            let op = match &self.current_token {
                Some(Token::Operator(op)) => match op {
                    Op::Add => Op::Add,
                    Op::Sub => Op::Sub,
                    _ => {
                        return Ok(node);
                    },
                },
                _ => {
                    return Ok(node);
                },
            };
            self.advance()?;
            let rhs = self.parse_move_expr()?;
            node = AstNodes::BinaryOp(Box::new(node), op, Box::new(rhs));
        }
    }

    /// `<<` and `>>` over multiplicative expressions.
    fn parse_move_expr(&mut self) -> (r: Result<AstNodes, ParseError>)
        requires
            old(self).wf(),
        ensures
            final(self).wf(),
            final(self).remaining() <= old(self).remaining(),
            match r {
                Ok(ast) => ast_wf(ast) && is_expr(ast) && final(self).remaining() < old(
                    self,
                ).remaining(),
                Err(_) => true,
            },
        decreases self.remaining(), 3int,
    {
        let mut node = self.parse_term()?;
        loop
            invariant
                self.wf(),
                ast_wf(node),
                is_expr(node),
                self.remaining() < old(self).remaining(),
            decreases self.remaining(),
        {
            let op = match &self.current_token {
                Some(Token::Operator(op)) => match op {
                    Op::LShift => Op::LShift,
                    Op::RShift => Op::RShift,
                    _ => {
                        return Ok(node);
                    },
                },
                _ => {
                    return Ok(node);
                },
            };
            self.advance()?;
            let rhs = self.parse_term()?;
            node = AstNodes::BinaryOp(Box::new(node), op, Box::new(rhs));
        }
    }

    /// `*`, `/` and `%` over factors.
    fn parse_term(&mut self) -> (r: Result<AstNodes, ParseError>)
        requires
            old(self).wf(),
        ensures
            final(self).wf(),
            final(self).remaining() <= old(self).remaining(),
            match r {
                Ok(ast) => ast_wf(ast) && is_expr(ast) && final(self).remaining() < old(
                    self,
                ).remaining(),
                Err(_) => true,
            },
        decreases self.remaining(), 2int,
    {
        let mut node = self.parse_factor()?;
        loop
            invariant
                self.wf(),
                ast_wf(node),
                is_expr(node),
                self.remaining() < old(self).remaining(),
            decreases self.remaining(),
        {
            let op = match &self.current_token {
                Some(Token::Operator(op)) => match op {
                    Op::Mul => Op::Mul,
                    Op::Div => Op::Div,
                    Op::Rem => Op::Rem,
                    _ => {
                        return Ok(node);
                    },
                },
                _ => {
                    return Ok(node);
                },
            };
            self.advance()?;
            let rhs = self.parse_factor()?;
            node = AstNodes::BinaryOp(Box::new(node), op, Box::new(rhs));
        }
    }

    /// A literal, a parenthesised expression, a unary `+`/`-`, a call, a
    /// list element read, or a variable read.
    fn parse_factor(&mut self) -> (r: Result<AstNodes, ParseError>)
        requires
            old(self).wf(),
        ensures
            final(self).wf(),
            final(self).remaining() <= old(self).remaining(),
            match r {
                Ok(ast) => ast_wf(ast) && is_expr(ast) && final(self).remaining() < old(
                    self,
                ).remaining(),
                Err(_) => true,
            },
        decreases self.remaining(), 1int,
    {
        match &self.current_token {
            Some(Token::Number(num)) => {
                let n = num.duplicate();
                self.advance()?;
                Ok(AstNodes::Number(n))
            },
            Some(Token::LParen) => {
                self.advance()?;
                let node = self.parse_expr()?;
                self.eat(Expected::RParen)?;
                Ok(node)
            },
            Some(Token::Operator(op)) => match op {
                Op::Add => {
                    let o = *op;
                    self.advance()?;
                    let node = self.parse_expr()?;
                    Ok(AstNodes::UnaryOp(o, Box::new(node)))
                },
                Op::Sub => {
                    let o = *op;
                    self.advance()?;
                    let node = self.parse_expr()?;
                    Ok(AstNodes::UnaryOp(o, Box::new(node)))
                },
                _ => Err(ParseError::UnexpectedToken),
            },
            Some(Token::Id(id)) => {
                let id = *id;
                if self.peek_char() == '(' {
                    self.parse_call(false)
                } else if self.peek_char() == '[' {
                    self.advance()?;
                    self.advance_over_bracket()?;
                    let index_value = self.parse_expr()?;
                    self.eat(Expected::RBracket)?;
                    Ok(AstNodes::Index(id, Box::new(index_value)))
                } else {
                    self.advance()?;
                    Ok(AstNodes::ReadVar(id))
                }
            },
            Some(_) => Err(ParseError::UnexpectedToken),
            None => Err(ParseError::UnexpectedEnd),
        }
    }

    /// Consumes the lookahead, which the raw-text peek promised to be `[`.
    fn advance_over_bracket(&mut self) -> (r: Result<(), ParseError>)
        requires
            old(self).wf(),
        ensures
            final(self).wf(),
            final(self).remaining() <= old(self).remaining(),
            r is Ok ==> final(self).remaining() < old(self).remaining(),
    {
        match &self.current_token {
            Some(_) => {
                self.advance()?;
                Ok(())
            },
            None => Err(ParseError::UnexpectedEnd),
        }
    }

}

} // verus!
