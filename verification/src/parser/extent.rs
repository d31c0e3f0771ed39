use vstd::prelude::*;

use crate::common::error::{AiScriptBasicErrorKind, EngineResult};
use crate::common::position::Position;
use crate::lexer::token::{Token, TokenKind};
use crate::lexer::token_stream::{at_kind, current_token, token_at, unexpected_message};

use super::expressions::level_operator;
use super::grammar::{is_literal_kind, skip_newline, skip_newlines, skip_terminators};
use super::statement::assign_operator;

verus! {

// How far each construct reaches: for the tokens `t` under the cursor, the tokens left once
// the construct is read from the start of `t`, each part read as far as it goes; or, where
// `t` does not begin with the construct, the syntax error that reading it meets first: its
// message and its position. On a stream that cannot fail, the parser gives exactly these.

/// What reading a construct comes to: the tokens left, or the message and position of the
/// syntax error met first.
pub type Extent = Result<Seq<Token>, (Seq<char>, Position)>;

/// Whether the outcome `r`, which leaves `u`, is the one that `o` describes: the same tokens
/// left, or a syntax error with the same message and position.
pub open spec fn settles<T>(o: Extent, r: EngineResult<T>, u: Seq<Token>) -> bool {
    match o {
        Ok(v) => r is Ok && v == u,
        Err(f) => r matches Err(e) && e.kind == AiScriptBasicErrorKind::Syntax && e.message@
            == f.0 && e.pos == Some(f.1),
    }
}

/// The error for the token under the cursor of `t` being unexpected.
pub open spec fn unexpected_at(t: Seq<Token>) -> (Seq<char>, Position) {
    (unexpected_message(current_token(t).kind), current_token(t).pos)
}

/// The error with the message `message` at the token under the cursor of `t`.
pub open spec fn fault_at(message: Seq<char>, t: Seq<Token>) -> (Seq<char>, Position) {
    (message, current_token(t).pos)
}

/// The error for a missing separator.
pub open spec fn no_separator(t: Seq<Token>) -> (Seq<char>, Position) {
    fault_at("separator expected"@, t)
}

/// The error for a statement followed by another on the same line.
pub open spec fn no_terminator(t: Seq<Token>) -> (Seq<char>, Position) {
    fault_at("Multiple statements cannot be placed on a single line."@, t)
}

/// Reading a token of the kind of `k`.
pub open spec fn expect(t: Seq<Token>, k: TokenKind) -> Extent {
    if t.len() > 0 && at_kind(t, k) {
        Ok(t.drop_first())
    } else {
        Err(unexpected_at(t))
    }
}

/// Reading a name.
pub open spec fn expect_name(t: Seq<Token>) -> Extent {
    if t.len() > 0 && t[0].kind is Identifier {
        Ok(t.drop_first())
    } else {
        Err(unexpected_at(t))
    }
}

/// Reading a literal: a number, a string, `true`, `false` or `null`.
pub open spec fn literal_end(t: Seq<Token>) -> Extent {
    if t.len() > 0 && is_literal_kind(t[0].kind) {
        Ok(t.drop_first())
    } else {
        Err(unexpected_at(t))
    }
}

/// What is left once a separator after an item is read: a comma and at most one new line,
/// or a new line, or nothing before `close`.
pub open spec fn after_separator(q: Seq<Token>, close: TokenKind) -> Extent {
    if at_kind(q, TokenKind::Comma) && q.len() > 0 {
        Ok(skip_newline(q.drop_first()))
    } else if at_kind(q, TokenKind::NewLine) && q.len() > 0 {
        Ok(q.drop_first())
    } else if at_kind(q, close) {
        Ok(q)
    } else {
        Err(no_separator(q))
    }
}

/// A static expression: a literal, or an array or object of static expressions.
pub open spec fn static_end(t: Seq<Token>) -> Extent
    decreases t.len(), 0nat,
{
    if t.len() > 0 && at_kind(t, TokenKind::OpenBracket) {
        match static_items(skip_newline(t.drop_first()), TokenKind::CloseBracket) {
            Ok(m) => expect(m, TokenKind::CloseBracket),
            Err(f) => Err(f),
        }
    } else if t.len() > 0 && at_kind(t, TokenKind::OpenBrace) {
        match static_entries(skip_newline(t.drop_first())) {
            Ok(m) => expect(m, TokenKind::CloseBrace),
            Err(f) => Err(f),
        }
    } else {
        literal_end(t)
    }
}

/// Static items each with its separator, up to `close`, which is left to read.
pub open spec fn static_items(b: Seq<Token>, close: TokenKind) -> Extent
    decreases b.len(), 1nat,
{
    if at_kind(b, close) {
        Ok(b)
    } else {
        match static_end(b) {
            Ok(q) => if q.len() < b.len() {
                match after_separator(q, close) {
                    Ok(n) => if n.len() <= q.len() {
                        static_items(n, close)
                    } else {
                        Err(unexpected_at(b))
                    },
                    Err(f) => Err(f),
                }
            } else {
                Err(unexpected_at(b))
            },
            Err(f) => Err(f),
        }
    }
}

/// The key of an entry and its colon: a name or a string, then `:`.
pub open spec fn key_end(b: Seq<Token>) -> Extent {
    if b.len() > 0 && (b[0].kind is Identifier || b[0].kind is StringLiteral) {
        expect(b.drop_first(), TokenKind::Colon)
    } else {
        Err(unexpected_at(b))
    }
}

/// Static entries `key: value` each with its separator, up to `}`, which is left to read.
pub open spec fn static_entries(b: Seq<Token>) -> Extent
    decreases b.len(), 1nat,
{
    if at_kind(b, TokenKind::CloseBrace) {
        Ok(b)
    } else {
        match key_end(b) {
            Ok(k) => if k.len() < b.len() {
                match static_end(k) {
                    Ok(q) => if q.len() < b.len() {
                        match after_separator(q, TokenKind::CloseBrace) {
                            Ok(n) => if n.len() <= q.len() {
                                static_entries(n)
                            } else {
                                Err(unexpected_at(b))
                            },
                            Err(f) => Err(f),
                        }
                    } else {
                        Err(unexpected_at(b))
                    },
                    Err(f) => Err(f),
                }
            } else {
                Err(unexpected_at(b))
            },
            Err(f) => Err(f),
        }
    }
}

/// A type: a function type where `@` is under the cursor, a named type otherwise.
pub open spec fn type_end(t: Seq<Token>) -> Extent
    decreases t.len(), 2nat,
{
    if at_kind(t, TokenKind::At) {
        fn_type_end(t)
    } else {
        named_type_end(t)
    }
}

/// A named type: `name` or `name<type>`.
pub open spec fn named_type_end(t: Seq<Token>) -> Extent
    decreases t.len(), 1nat,
{
    match expect_name(t) {
        Ok(t1) => if t1.len() > 0 && at_kind(t1, TokenKind::Lt) && t1.len() < t.len() {
            match type_end(t1.drop_first()) {
                Ok(m) => expect(m, TokenKind::Gt),
                Err(f) => Err(f),
            }
        } else {
            Ok(t1)
        },
        Err(f) => Err(f),
    }
}

/// A function type: `@(types) => type`.
pub open spec fn fn_type_end(t: Seq<Token>) -> Extent
    decreases t.len(), 1nat,
{
    match expect(t, TokenKind::At) {
        Ok(t1) => match expect(t1, TokenKind::OpenParen) {
            Ok(t2) => if t2.len() < t.len() {
                match type_params_end(t2, true) {
                    Ok(m) => match expect(m, TokenKind::CloseParen) {
                        Ok(m1) => match expect(m1, TokenKind::Arrow) {
                            Ok(m2) => if m2.len() < t.len() {
                                type_end(m2)
                            } else {
                                Err(unexpected_at(t))
                            },
                            Err(f) => Err(f),
                        },
                        Err(f) => Err(f),
                    },
                    Err(f) => Err(f),
                }
            } else {
                Err(unexpected_at(t))
            },
            Err(f) => Err(f),
        },
        Err(f) => Err(f),
    }
}

/// The parameter types of a function type, up to `)`, which is left to read; each type
/// after the first follows a comma. `first` tells whether no type was read yet.
pub open spec fn type_params_end(b: Seq<Token>, first: bool) -> Extent
    decreases b.len(), 3nat,
{
    if at_kind(b, TokenKind::CloseParen) {
        Ok(b)
    } else if first {
        match type_end(b) {
            Ok(q) => if q.len() < b.len() {
                type_params_end(q, false)
            } else {
                Err(unexpected_at(b))
            },
            Err(f) => Err(f),
        }
    } else if b.len() > 0 && at_kind(b, TokenKind::Comma) {
        match type_end(b.drop_first()) {
            Ok(q) => if q.len() < b.len() {
                type_params_end(q, false)
            } else {
                Err(unexpected_at(b))
            },
            Err(f) => Err(f),
        }
    } else {
        Err(no_separator(b))
    }
}

/// An expression (not a static one).
pub open spec fn expr_end(t: Seq<Token>) -> Extent
    decreases t.len(), 50nat,
{
    binary_end(t, 0)
}

/// Binary operators of level `level` and above, each level to the left.
pub open spec fn binary_end(t: Seq<Token>, level: int) -> Extent
    decreases t.len(), (if level < 0 {
        48int
    } else if level > 7 {
        41int
    } else {
        48 - level
    }) as nat,
{
    if level < 0 || level >= 7 {
        prefix_end(t)
    } else {
        match binary_end(t, level + 1) {
            Ok(u) => if u.len() < t.len() {
                binary_loop(u, level)
            } else {
                Err(unexpected_at(t))
            },
            Err(f) => Err(f),
        }
    }
}

/// The right operands of the operators of level `level` that follow a left operand.
pub open spec fn binary_loop(u: Seq<Token>, level: int) -> Extent
    decreases u.len(), 40nat,
{
    if 0 <= level < 7 && u.len() > 0 && level_operator(level as u8, u[0].kind) is Some {
        match binary_end(u.drop_first(), level + 1) {
            Ok(v) => if v.len() < u.len() {
                binary_loop(v, level)
            } else {
                Err(unexpected_at(u))
            },
            Err(f) => Err(f),
        }
    } else {
        Ok(u)
    }
}

/// Negations and what they negate.
pub open spec fn prefix_end(t: Seq<Token>) -> Extent
    decreases t.len(), 30nat,
{
    if t.len() > 0 && at_kind(t, TokenKind::Not) {
        prefix_end(t.drop_first())
    } else {
        postfix_end(t)
    }
}

/// An atom and the calls, indexes and properties after it.
pub open spec fn postfix_end(t: Seq<Token>) -> Extent
    decreases t.len(), 29nat,
{
    match atom_end(t) {
        Ok(u) => if u.len() < t.len() {
            postfix_loop(u)
        } else {
            Err(unexpected_at(t))
        },
        Err(f) => Err(f),
    }
}

/// The calls, indexes and properties after an atom.
pub open spec fn postfix_loop(u: Seq<Token>) -> Extent
    decreases u.len(), 28nat,
{
    if at_kind(u, TokenKind::OpenParen) {
        match items_end(u, TokenKind::OpenParen, TokenKind::CloseParen) {
            Ok(v) => if v.len() < u.len() {
                postfix_loop(v)
            } else {
                Err(unexpected_at(u))
            },
            Err(f) => Err(f),
        }
    } else if u.len() > 0 && at_kind(u, TokenKind::OpenBracket) {
        match expr_end(u.drop_first()) {
            Ok(m) => match expect(m, TokenKind::CloseBracket) {
                Ok(v) => if v.len() < u.len() {
                    postfix_loop(v)
                } else {
                    Err(unexpected_at(u))
                },
                Err(f) => Err(f),
            },
            Err(f) => Err(f),
        }
    } else if u.len() > 0 && at_kind(u, TokenKind::Dot) {
        match expect_name(u.drop_first()) {
            Ok(v) => if v.len() < u.len() {
                postfix_loop(v)
            } else {
                Err(unexpected_at(u))
            },
            Err(f) => Err(f),
        }
    } else {
        Ok(u)
    }
}

/// An atom.
pub open spec fn atom_end(t: Seq<Token>) -> Extent
    decreases t.len(), 28nat,
{
    if t.len() == 0 {
        Err(unexpected_at(t))
    } else {
        match t[0].kind {
            TokenKind::Identifier(_) => Ok(t.drop_first()),
            TokenKind::OpenParen => match expr_end(t.drop_first()) {
                Ok(m) => expect(m, TokenKind::CloseParen),
                Err(f) => Err(f),
            },
            TokenKind::OpenBracket => items_end(t, TokenKind::OpenBracket, TokenKind::CloseBracket),
            TokenKind::OpenBrace => entries_end(t),
            TokenKind::IfKeyword => if_end(t),
            TokenKind::At => match params_end(t.drop_first()) {
                Ok(m) => if m.len() < t.len() {
                    match type_after_colon(m) {
                        Ok(m2) => if m2.len() < t.len() {
                            block_end(m2)
                        } else {
                            Err(unexpected_at(t))
                        },
                        Err(f) => Err(f),
                    }
                } else {
                    Err(unexpected_at(t))
                },
                Err(f) => Err(f),
            },
            TokenKind::EvalKeyword => block_end(t.drop_first()),
            TokenKind::ExistsKeyword => expect_name(t.drop_first()),
            _ => literal_end(t),
        }
    }
}

/// A type after `:`, where a `:` is under the cursor; nothing otherwise.
pub open spec fn type_after_colon(m: Seq<Token>) -> Extent {
    if m.len() > 0 && at_kind(m, TokenKind::Colon) {
        type_end(m.drop_first())
    } else {
        Ok(m)
    }
}

/// `open`, at most one new line, expressions each with its separator, and `close`.
pub open spec fn items_end(t: Seq<Token>, open: TokenKind, close: TokenKind) -> Extent
    decreases t.len(), 27nat,
{
    match expect(t, open) {
        Ok(t1) => if t1.len() < t.len() {
            match expr_items(skip_newline(t1), close) {
                Ok(m) => expect(m, close),
                Err(f) => Err(f),
            }
        } else {
            Err(unexpected_at(t))
        },
        Err(f) => Err(f),
    }
}

/// Expressions each with its separator, up to `close`, which is left to read.
pub open spec fn expr_items(b: Seq<Token>, close: TokenKind) -> Extent
    decreases b.len(), 56nat,
{
    if at_kind(b, close) {
        Ok(b)
    } else {
        match expr_end(b) {
            Ok(q) => if q.len() < b.len() {
                match after_separator(q, close) {
                    Ok(n) => if n.len() <= q.len() {
                        expr_items(n, close)
                    } else {
                        Err(unexpected_at(b))
                    },
                    Err(f) => Err(f),
                }
            } else {
                Err(unexpected_at(b))
            },
            Err(f) => Err(f),
        }
    }
}

/// `{`, at most one new line, entries `key: value` each with its separator, and `}`.
pub open spec fn entries_end(t: Seq<Token>) -> Extent
    decreases t.len(), 27nat,
{
    match expect(t, TokenKind::OpenBrace) {
        Ok(t1) => if t1.len() < t.len() {
            match expr_entries(skip_newline(t1)) {
                Ok(m) => expect(m, TokenKind::CloseBrace),
                Err(f) => Err(f),
            }
        } else {
            Err(unexpected_at(t))
        },
        Err(f) => Err(f),
    }
}

/// Entries `key: value` each with its separator, up to `}`, which is left to read.
pub open spec fn expr_entries(b: Seq<Token>) -> Extent
    decreases b.len(), 56nat,
{
    if at_kind(b, TokenKind::CloseBrace) {
        Ok(b)
    } else {
        match key_end(b) {
            Ok(k) => if k.len() < b.len() {
                match expr_end(k) {
                    Ok(q) => if q.len() < b.len() {
                        match after_separator(q, TokenKind::CloseBrace) {
                            Ok(n) => if n.len() <= q.len() {
                                expr_entries(n)
                            } else {
                                Err(unexpected_at(b))
                            },
                            Err(f) => Err(f),
                        }
                    } else {
                        Err(unexpected_at(b))
                    },
                    Err(f) => Err(f),
                }
            } else {
                Err(unexpected_at(b))
            },
            Err(f) => Err(f),
        }
    }
}

/// `if`, the condition and the body, the `elif`s, and the `else`.
pub open spec fn if_end(t: Seq<Token>) -> Extent
    decreases t.len(), 27nat,
{
    match expect(t, TokenKind::IfKeyword) {
        Ok(t1) => if t1.len() < t.len() {
            match expr_end(t1) {
                Ok(m1) => if m1.len() < t.len() {
                    match bos_end(m1) {
                        Ok(m2) => if m2.len() < t.len() {
                            match elifs_end(m2) {
                                Ok(m3) => if m3.len() < t.len() {
                                    if m3.len() > 0 && at_kind(m3, TokenKind::ElseKeyword) {
                                        bos_end(m3.drop_first())
                                    } else {
                                        Ok(m3)
                                    }
                                } else {
                                    Err(unexpected_at(t))
                                },
                                Err(f) => Err(f),
                            }
                        } else {
                            Err(unexpected_at(t))
                        },
                        Err(f) => Err(f),
                    }
                } else {
                    Err(unexpected_at(t))
                },
                Err(f) => Err(f),
            }
        } else {
            Err(unexpected_at(t))
        },
        Err(f) => Err(f),
    }
}

/// The `elif`s: each `elif`, its condition and its body.
pub open spec fn elifs_end(u: Seq<Token>) -> Extent
    decreases u.len(), 27nat,
{
    if u.len() > 0 && at_kind(u, TokenKind::ElifKeyword) {
        match expr_end(u.drop_first()) {
            Ok(q) => if q.len() < u.len() {
                match bos_end(q) {
                    Ok(v) => if v.len() < u.len() {
                        elifs_end(v)
                    } else {
                        Err(unexpected_at(u))
                    },
                    Err(f) => Err(f),
                }
            } else {
                Err(unexpected_at(u))
            },
            Err(f) => Err(f),
        }
    } else {
        Ok(u)
    }
}

/// The parameters of a function: `(`, at most one new line, each with its separator, `)`.
pub open spec fn params_end(t: Seq<Token>) -> Extent
    decreases t.len(), 27nat,
{
    match expect(t, TokenKind::OpenParen) {
        Ok(t1) => if t1.len() < t.len() {
            match params_list(skip_newline(t1)) {
                Ok(m) => expect(m, TokenKind::CloseParen),
                Err(f) => Err(f),
            }
        } else {
            Err(unexpected_at(t))
        },
        Err(f) => Err(f),
    }
}

/// Parameters each with its separator, up to `)`, which is left to read.
pub open spec fn params_list(b: Seq<Token>) -> Extent
    decreases b.len(), 56nat,
{
    if at_kind(b, TokenKind::CloseParen) {
        Ok(b)
    } else {
        match dest_end(b) {
            Ok(q1) => if q1.len() < b.len() {
                match param_value_end(q1) {
                    Ok(q2) => if q2.len() < b.len() {
                        match type_after_colon(q2) {
                            Ok(q3) => if q3.len() < b.len() {
                                match after_separator(q3, TokenKind::CloseParen) {
                                    Ok(n) => if n.len() < b.len() {
                                        params_list(n)
                                    } else {
                                        Err(unexpected_at(b))
                                    },
                                    Err(f) => Err(f),
                                }
                            } else {
                                Err(unexpected_at(b))
                            },
                            Err(f) => Err(f),
                        }
                    } else {
                        Err(unexpected_at(b))
                    },
                    Err(f) => Err(f),
                }
            } else {
                Err(unexpected_at(b))
            },
            Err(f) => Err(f),
        }
    }
}

/// After a parameter's name: `?`, or a default after `=`, or nothing.
pub open spec fn param_value_end(q: Seq<Token>) -> Extent
    decreases q.len(), 51nat,
{
    if q.len() > 0 && at_kind(q, TokenKind::Question) {
        Ok(q.drop_first())
    } else if q.len() > 0 && at_kind(q, TokenKind::Eq) {
        expr_end(q.drop_first())
    } else {
        Ok(q)
    }
}

/// The left-hand side of a definition: a name, or an expression.
pub open spec fn dest_end(t: Seq<Token>) -> Extent
    decreases t.len(), 51nat,
{
    if t.len() > 0 && t[0].kind is Identifier {
        Ok(t.drop_first())
    } else {
        expr_end(t)
    }
}

/// A block: `{`, new lines, statements each with its terminator, and `}`.
pub open spec fn block_end(t: Seq<Token>) -> Extent
    decreases t.len(), 27nat,
{
    match expect(t, TokenKind::OpenBrace) {
        Ok(t1) => if skip_newlines(t1).len() < t.len() {
            match statements_list(skip_newlines(t1)) {
                Ok(m) => expect(m, TokenKind::CloseBrace),
                Err(f) => Err(f),
            }
        } else {
            Err(unexpected_at(t))
        },
        Err(f) => Err(f),
    }
}

/// Statements each with its terminator, up to `}`, which is left to read.
pub open spec fn statements_list(b: Seq<Token>) -> Extent
    decreases b.len(), 65nat,
{
    if at_kind(b, TokenKind::CloseBrace) {
        Ok(b)
    } else {
        match statement_end(b) {
            Ok(q) => if q.len() < b.len() {
                if at_kind(q, TokenKind::NewLine) || at_kind(q, TokenKind::SemiColon) {
                    if skip_terminators(q).len() < b.len() {
                        statements_list(skip_terminators(q))
                    } else {
                        Err(unexpected_at(b))
                    }
                } else if at_kind(q, TokenKind::CloseBrace) {
                    Ok(q)
                } else {
                    Err(no_terminator(q))
                }
            } else {
                Err(unexpected_at(b))
            },
            Err(f) => Err(f),
        }
    }
}

/// A block, where `{` is under the cursor; a statement otherwise.
pub open spec fn bos_end(t: Seq<Token>) -> Extent
    decreases t.len(), 62nat,
{
    if at_kind(t, TokenKind::OpenBrace) {
        block_end(t)
    } else {
        statement_end(t)
    }
}

/// Whether a statement begins with a keyword of its own (or with `@` and a name).
pub open spec fn keyword_statement(t: Seq<Token>) -> bool {
    let k = current_token(t).kind;
    ||| k is VarKeyword
    ||| k is LetKeyword
    ||| k is At && token_at(t, 1).kind is Identifier
    ||| k is Out
    ||| k is ReturnKeyword
    ||| k is OpenSharpBracket
    ||| k is EachKeyword
    ||| k is ForKeyword
    ||| k is LoopKeyword
    ||| k is DoKeyword
    ||| k is WhileKeyword
    ||| k is BreakKeyword
    ||| k is ContinueKeyword
}

/// A statement.
pub open spec fn statement_end(t: Seq<Token>) -> Extent
    decreases t.len(), 60nat,
{
    let k = current_token(t).kind;
    if k is VarKeyword || k is LetKeyword {
        var_def_end(t)
    } else if k is At && token_at(t, 1).kind is Identifier {
        fn_def_end(t)
    } else if (k is Out || k is ReturnKeyword) && t.len() > 0 {
        expr_end(t.drop_first())
    } else if k is OpenSharpBracket {
        with_attr_end(t)
    } else if k is EachKeyword {
        each_end(t)
    } else if k is ForKeyword {
        for_end(t)
    } else if k is LoopKeyword && t.len() > 0 {
        block_end(t.drop_first())
    } else if k is DoKeyword {
        do_while_end(t)
    } else if k is WhileKeyword {
        while_end(t)
    } else if (k is BreakKeyword || k is ContinueKeyword) && t.len() > 0 {
        Ok(t.drop_first())
    } else {
        match expr_end(t) {
            Ok(q) => if q.len() > 0 && assign_operator(q[0].kind) is Some && q.len() < t.len() {
                expr_end(q.drop_first())
            } else {
                Ok(q)
            },
            Err(f) => Err(f),
        }
    }
}

/// Where a statement that begins with no keyword of its own starts: at its assignment
/// operator if it is an assignment, at its first token otherwise.
pub open spec fn statement_pos(t: Seq<Token>) -> Position
    decreases t.len(), 58nat,
{
    if keyword_statement(t) {
        current_token(t).pos
    } else {
        match expr_end(t) {
            Ok(q) => if q.len() > 0 && assign_operator(q[0].kind) is Some {
                q[0].pos
            } else {
                current_token(t).pos
            },
            Err(_) => current_token(t).pos,
        }
    }
}

/// `var` or `let`, the left-hand side, a type after `:`, `=`, new lines and the value.
pub open spec fn var_def_end(t: Seq<Token>) -> Extent
    decreases t.len(), 55nat,
{
    if t.len() > 0 && (t[0].kind is VarKeyword || t[0].kind is LetKeyword) {
        match dest_end(t.drop_first()) {
            Ok(q1) => if q1.len() < t.len() {
                match type_after_colon(q1) {
                    Ok(q2) => match expect(q2, TokenKind::Eq) {
                        Ok(q3) => if skip_newlines(q3).len() < t.len() {
                            expr_end(skip_newlines(q3))
                        } else {
                            Err(unexpected_at(t))
                        },
                        Err(f) => Err(f),
                    },
                    Err(f) => Err(f),
                }
            } else {
                Err(unexpected_at(t))
            },
            Err(f) => Err(f),
        }
    } else {
        Err(unexpected_at(t))
    }
}

/// `@`, the name, the parameters, a return type after `:`, and the body.
pub open spec fn fn_def_end(t: Seq<Token>) -> Extent
    decreases t.len(), 55nat,
{
    match expect(t, TokenKind::At) {
        Ok(t1) => match expect_name(t1) {
            Ok(t2) => if t2.len() < t.len() {
                match params_end(t2) {
                    Ok(m) => if m.len() < t.len() {
                        match type_after_colon(m) {
                            Ok(m2) => if m2.len() < t.len() {
                                block_end(m2)
                            } else {
                                Err(unexpected_at(t))
                            },
                            Err(f) => Err(f),
                        }
                    } else {
                        Err(unexpected_at(t))
                    },
                    Err(f) => Err(f),
                }
            } else {
                Err(unexpected_at(t))
            },
            Err(f) => Err(f),
        },
        Err(f) => Err(f),
    }
}

/// A definition: a `var` or `let` definition, or a function.
pub open spec fn def_end(t: Seq<Token>) -> Extent
    decreases t.len(), 56nat,
{
    if at_kind(t, TokenKind::VarKeyword) || at_kind(t, TokenKind::LetKeyword) {
        var_def_end(t)
    } else if at_kind(t, TokenKind::At) {
        fn_def_end(t)
    } else {
        Err(unexpected_at(t))
    }
}

/// Attributes, each followed by a new line, and the statement they stand on, which must be
/// a definition.
pub open spec fn with_attr_end(t: Seq<Token>) -> Extent
    decreases t.len(), 55nat,
{
    match attrs_end(t) {
        Ok(m) => if m.len() < t.len() {
            match statement_end(m) {
                Ok(u) => if at_kind(m, TokenKind::VarKeyword) || at_kind(m, TokenKind::LetKeyword)
                    || (at_kind(m, TokenKind::At) && token_at(m, 1).kind is Identifier) {
                    Ok(u)
                } else {
                    Err(("invalid attribute."@, statement_pos(m)))
                },
                Err(f) => Err(f),
            }
        } else {
            Err(unexpected_at(t))
        },
        Err(f) => Err(f),
    }
}

/// An attribute: `#[`, a name, a static value or none, and `]`.
pub open spec fn attr_end(t: Seq<Token>) -> Extent {
    match expect(t, TokenKind::OpenSharpBracket) {
        Ok(t1) => match expect_name(t1) {
            Ok(t2) => if at_kind(t2, TokenKind::CloseBracket) {
                expect(t2, TokenKind::CloseBracket)
            } else {
                match static_end(t2) {
                    Ok(m) => expect(m, TokenKind::CloseBracket),
                    Err(f) => Err(f),
                }
            },
            Err(f) => Err(f),
        },
        Err(f) => Err(f),
    }
}

/// Attributes, each followed by a new line, while `#[` is under the cursor.
pub open spec fn attrs_end(u: Seq<Token>) -> Extent
    decreases u.len(), 54nat,
{
    if at_kind(u, TokenKind::OpenSharpBracket) {
        match attr_end(u) {
            Ok(a) => match expect(a, TokenKind::NewLine) {
                Ok(n) => if n.len() < u.len() {
                    attrs_end(n)
                } else {
                    Err(unexpected_at(u))
                },
                Err(f) => Err(f),
            },
            Err(f) => Err(f),
        }
    } else {
        Ok(u)
    }
}

/// Where the part of `each` or `for` after its keyword begins: after `(`, if there is one.
pub open spec fn after_open(t: Seq<Token>) -> Seq<Token> {
    if t.len() >= 2 && at_kind(t.drop_first(), TokenKind::OpenParen) {
        t.skip(2)
    } else {
        t.drop_first()
    }
}

/// `)` where the head of `each` or `for` began with `(`; nothing otherwise.
pub open spec fn close_if_open(t: Seq<Token>, m: Seq<Token>) -> Extent {
    if t.len() >= 2 && at_kind(t.drop_first(), TokenKind::OpenParen) {
        expect(m, TokenKind::CloseParen)
    } else {
        Ok(m)
    }
}

/// A comma, or the error for a missing separator.
pub open spec fn expect_comma(m: Seq<Token>) -> Extent {
    if m.len() > 0 && at_kind(m, TokenKind::Comma) {
        Ok(m.drop_first())
    } else {
        Err(no_separator(m))
    }
}

/// `each`, an optional `(`, `let`, the variable, `,`, the items, `)`, and the body.
pub open spec fn each_end(t: Seq<Token>) -> Extent
    decreases t.len(), 55nat,
{
    match expect(t, TokenKind::EachKeyword) {
        Ok(_) => match expect(after_open(t), TokenKind::LetKeyword) {
            Ok(t2) => if t2.len() < t.len() {
                match dest_end(t2) {
                    Ok(m) => match expect_comma(m) {
                        Ok(m1) => if m1.len() < t.len() {
                            match expr_end(m1) {
                                Ok(m2) => match close_if_open(t, m2) {
                                    Ok(m3) => if m3.len() < t.len() {
                                        bos_end(m3)
                                    } else {
                                        Err(unexpected_at(t))
                                    },
                                    Err(f) => Err(f),
                                },
                                Err(f) => Err(f),
                            }
                        } else {
                            Err(unexpected_at(t))
                        },
                        Err(f) => Err(f),
                    },
                    Err(f) => Err(f),
                }
            } else {
                Err(unexpected_at(t))
            },
            Err(f) => Err(f),
        },
        Err(f) => Err(f),
    }
}

/// `for`, an optional `(`, a range or a number of times, `)`, and the body.
pub open spec fn for_end(t: Seq<Token>) -> Extent
    decreases t.len(), 55nat,
{
    match expect(t, TokenKind::ForKeyword) {
        Ok(_) => if after_open(t).len() < t.len() {
            match for_head_end(after_open(t)) {
                Ok(m) => match close_if_open(t, m) {
                    Ok(m2) => if m2.len() < t.len() {
                        bos_end(m2)
                    } else {
                        Err(unexpected_at(t))
                    },
                    Err(f) => Err(f),
                },
                Err(f) => Err(f),
            }
        } else {
            Err(unexpected_at(t))
        },
        Err(f) => Err(f),
    }
}

/// The head of `for`: `let`, a name, a start after `=`, `,` and the end; or the number of
/// times.
pub open spec fn for_head_end(t1: Seq<Token>) -> Extent
    decreases t1.len(), 54nat,
{
    if t1.len() > 0 && at_kind(t1, TokenKind::LetKeyword) {
        match expect_name(t1.drop_first()) {
            Ok(t2) => if t2.len() < t1.len() {
                let from = if t2.len() > 0 && at_kind(t2, TokenKind::Eq) {
                    expr_end(t2.drop_first())
                } else {
                    Ok(t2)
                };
                match from {
                    Ok(q1) => match expect_comma(q1) {
                        Ok(q2) => if q2.len() < t1.len() {
                            expr_end(q2)
                        } else {
                            Err(unexpected_at(t1))
                        },
                        Err(f) => Err(f),
                    },
                    Err(f) => Err(f),
                }
            } else {
                Err(unexpected_at(t1))
            },
            Err(f) => Err(f),
        }
    } else {
        expr_end(t1)
    }
}

/// `do`, the body, `while` and the condition.
pub open spec fn do_while_end(t: Seq<Token>) -> Extent
    decreases t.len(), 55nat,
{
    match expect(t, TokenKind::DoKeyword) {
        Ok(t1) => if t1.len() < t.len() {
            match bos_end(t1) {
                Ok(m) => match expect(m, TokenKind::WhileKeyword) {
                    Ok(m1) => if m1.len() < t.len() {
                        expr_end(m1)
                    } else {
                        Err(unexpected_at(t))
                    },
                    Err(f) => Err(f),
                },
                Err(f) => Err(f),
            }
        } else {
            Err(unexpected_at(t))
        },
        Err(f) => Err(f),
    }
}

/// `while`, the condition and the body.
pub open spec fn while_end(t: Seq<Token>) -> Extent
    decreases t.len(), 55nat,
{
    match expect(t, TokenKind::WhileKeyword) {
        Ok(t1) => if t1.len() < t.len() {
            match expr_end(t1) {
                Ok(m) => if m.len() < t.len() {
                    bos_end(m)
                } else {
                    Err(unexpected_at(t))
                },
                Err(f) => Err(f),
            }
        } else {
            Err(unexpected_at(t))
        },
        Err(f) => Err(f),
    }
}

/// A namespace: `::`, its name, `{`, its members each with its terminator, and `}`.
pub open spec fn namespace_end(t: Seq<Token>) -> Extent
    decreases t.len(), 1nat,
{
    match expect(t, TokenKind::Colon2) {
        Ok(t1) => match expect_name(t1) {
            Ok(t2) => match expect(t2, TokenKind::OpenBrace) {
                Ok(t3) => if skip_newlines(t3).len() < t.len() {
                    match members_list(skip_newlines(t3)) {
                        Ok(m) => expect(m, TokenKind::CloseBrace),
                        Err(f) => Err(f),
                    }
                } else {
                    Err(unexpected_at(t))
                },
                Err(f) => Err(f),
            },
            Err(f) => Err(f),
        },
        Err(f) => Err(f),
    }
}

/// The members of a namespace, each with its terminator, up to `}`, which is left to
/// read; a lone terminator may stand where no member does.
pub open spec fn members_list(b: Seq<Token>) -> Extent
    decreases b.len(), 2nat,
{
    if at_kind(b, TokenKind::CloseBrace) {
        Ok(b)
    } else {
        let member = if at_kind(b, TokenKind::VarKeyword) || at_kind(b, TokenKind::LetKeyword) {
            var_def_end(b)
        } else if at_kind(b, TokenKind::At) {
            fn_def_end(b)
        } else if at_kind(b, TokenKind::Colon2) {
            namespace_end(b)
        } else {
            Ok(b)
        };
        match member {
            Ok(q) => if at_kind(q, TokenKind::NewLine) || at_kind(q, TokenKind::SemiColon) {
                if skip_terminators(q).len() < b.len() {
                    members_list(skip_terminators(q))
                } else {
                    Err(unexpected_at(b))
                }
            } else if at_kind(q, TokenKind::CloseBrace) && q.len() < b.len() {
                Ok(q)
            } else {
                Err(no_terminator(q))
            },
            Err(f) => Err(f),
        }
    }
}

/// Where the value of a meta block that begins at `t` starts: after `###` and the name, if
/// there is one.
pub open spec fn meta_value_start(t: Seq<Token>) -> Seq<Token> {
    let t1 = t.drop_first();
    if t1.len() > 0 && t1[0].kind is Identifier {
        t1.drop_first()
    } else {
        t1
    }
}

/// A meta block: `###`, an optional name, and a static value.
pub open spec fn meta_end(t: Seq<Token>) -> Extent {
    match expect(t, TokenKind::Sharp3) {
        Ok(_) => static_end(meta_value_start(t)),
        Err(f) => Err(f),
    }
}

/// One top-level node: a namespace, a meta block or a statement.
pub open spec fn node_end(t: Seq<Token>) -> Extent {
    if at_kind(t, TokenKind::Colon2) {
        namespace_end(t)
    } else if at_kind(t, TokenKind::Sharp3) {
        meta_end(t)
    } else {
        statement_end(t)
    }
}

/// Top-level nodes each with its terminator, up to the end of input.
pub open spec fn nodes_list(b: Seq<Token>) -> Extent
    decreases b.len(),
{
    if at_kind(b, TokenKind::EOF) {
        Ok(b)
    } else {
        match node_end(b) {
            Ok(q) => if q.len() < b.len() {
                if at_kind(q, TokenKind::NewLine) || at_kind(q, TokenKind::SemiColon) {
                    if skip_terminators(q).len() < b.len() {
                        nodes_list(skip_terminators(q))
                    } else {
                        Err(unexpected_at(b))
                    }
                } else if at_kind(q, TokenKind::EOF) {
                    Ok(q)
                } else {
                    Err(no_terminator(q))
                }
            } else {
                Err(unexpected_at(b))
            },
            Err(f) => Err(f),
        }
    }
}

} // verus!
