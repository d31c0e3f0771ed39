use vstd::prelude::*;

use crate::ast::nodes::{self as ast, Expression, Loc};
use crate::common::error::{syntax_error, EngineResult};
use crate::common::path::NamePath;
use crate::lexer::token::{RawToken, Token, TokenKind};
use crate::lexer::token_stream::{at_kind, current_token, ITokenStream};
use super::grammar::{
    eat, lemma_rebase_back, reads_atom, reads_binary, reads_elifs, reads_entries,
    reads_entry_list, reads_expr, reads_if, reads_items, reads_list, reads_literal, reads_postfix,
    reads_prefix, reads_static, rebase_spec, skip_newline, boundary, item_then_separator,
    entry_then_separator, expr_ends, postfix_ends, is_literal_kind,
};

use super::common::{at, parse_block, parse_params, parse_type, skip_one_newline};
use super::statement::parse_block_or_statement;



use super::extent::{settles, unexpected_at, literal_end, after_separator, static_end, static_items, static_entries, expr_end, binary_end, binary_loop, prefix_end, postfix_end, postfix_loop, atom_end, items_end, expr_items, entries_end, expr_entries, if_end, elifs_end, bos_end, Extent};

verus! {

/// The operators of one level of binary precedence.
#[derive(Clone, Copy, PartialEq, Eq, Structural)]
enum Level {
    Or,
    And,
    Equality,
    Comparison,
    Additive,
    Multiplicative,
    Power,
}

/// The operator that the kind `kind` stands for at level `level`, if any.
pub open spec fn level_operator(level: u8, kind: TokenKind) -> Option<ast::BinaryOperator> {
    match kind {
        TokenKind::Or2 => if level == 0 {
            Some(ast::BinaryOperator::Logical(ast::BinaryLogicalOperator::Or))
        } else {
            None
        },
        TokenKind::And2 => if level == 1 {
            Some(ast::BinaryOperator::Logical(ast::BinaryLogicalOperator::And))
        } else {
            None
        },
        TokenKind::Eq2 => if level == 2 {
            Some(ast::BinaryOperator::Arithmetic(ast::BinaryArithmeticOperator::Eq))
        } else {
            None
        },
        TokenKind::NotEq => if level == 2 {
            Some(ast::BinaryOperator::Arithmetic(ast::BinaryArithmeticOperator::Neq))
        } else {
            None
        },
        TokenKind::Lt => if level == 3 {
            Some(ast::BinaryOperator::Arithmetic(ast::BinaryArithmeticOperator::Lt))
        } else {
            None
        },
        TokenKind::LtEq => if level == 3 {
            Some(ast::BinaryOperator::Arithmetic(ast::BinaryArithmeticOperator::Lteq))
        } else {
            None
        },
        TokenKind::Gt => if level == 3 {
            Some(ast::BinaryOperator::Arithmetic(ast::BinaryArithmeticOperator::Gt))
        } else {
            None
        },
        TokenKind::GtEq => if level == 3 {
            Some(ast::BinaryOperator::Arithmetic(ast::BinaryArithmeticOperator::Gteq))
        } else {
            None
        },
        TokenKind::Plus => if level == 4 {
            Some(ast::BinaryOperator::Arithmetic(ast::BinaryArithmeticOperator::Add))
        } else {
            None
        },
        TokenKind::Minus => if level == 4 {
            Some(ast::BinaryOperator::Arithmetic(ast::BinaryArithmeticOperator::Sub))
        } else {
            None
        },
        TokenKind::Asterisk => if level == 5 {
            Some(ast::BinaryOperator::Arithmetic(ast::BinaryArithmeticOperator::Mul))
        } else {
            None
        },
        TokenKind::Slash => if level == 5 {
            Some(ast::BinaryOperator::Arithmetic(ast::BinaryArithmeticOperator::Div))
        } else {
            None
        },
        TokenKind::Percent => if level == 5 {
            Some(ast::BinaryOperator::Arithmetic(ast::BinaryArithmeticOperator::Rem))
        } else {
            None
        },
        TokenKind::Hat => if level == 6 {
            Some(ast::BinaryOperator::Arithmetic(ast::BinaryArithmeticOperator::Pow))
        } else {
            None
        },
        _ => None,
    }
}

/// The operator that the kind `kind` stands for at level `level`, if any.
fn operator_at(level: u8, kind: &TokenKind) -> (r: Option<ast::BinaryOperator>)
    ensures
        r == level_operator(level, *kind),
{
    match kind {
        TokenKind::Or2 => if level == 0 {
            Some(ast::BinaryOperator::Logical(ast::BinaryLogicalOperator::Or))
        } else {
            None
        },
        TokenKind::And2 => if level == 1 {
            Some(ast::BinaryOperator::Logical(ast::BinaryLogicalOperator::And))
        } else {
            None
        },
        TokenKind::Eq2 => if level == 2 {
            Some(ast::BinaryOperator::Arithmetic(ast::BinaryArithmeticOperator::Eq))
        } else {
            None
        },
        TokenKind::NotEq => if level == 2 {
            Some(ast::BinaryOperator::Arithmetic(ast::BinaryArithmeticOperator::Neq))
        } else {
            None
        },
        TokenKind::Lt => if level == 3 {
            Some(ast::BinaryOperator::Arithmetic(ast::BinaryArithmeticOperator::Lt))
        } else {
            None
        },
        TokenKind::LtEq => if level == 3 {
            Some(ast::BinaryOperator::Arithmetic(ast::BinaryArithmeticOperator::Lteq))
        } else {
            None
        },
        TokenKind::Gt => if level == 3 {
            Some(ast::BinaryOperator::Arithmetic(ast::BinaryArithmeticOperator::Gt))
        } else {
            None
        },
        TokenKind::GtEq => if level == 3 {
            Some(ast::BinaryOperator::Arithmetic(ast::BinaryArithmeticOperator::Gteq))
        } else {
            None
        },
        TokenKind::Plus => if level == 4 {
            Some(ast::BinaryOperator::Arithmetic(ast::BinaryArithmeticOperator::Add))
        } else {
            None
        },
        TokenKind::Minus => if level == 4 {
            Some(ast::BinaryOperator::Arithmetic(ast::BinaryArithmeticOperator::Sub))
        } else {
            None
        },
        TokenKind::Asterisk => if level == 5 {
            Some(ast::BinaryOperator::Arithmetic(ast::BinaryArithmeticOperator::Mul))
        } else {
            None
        },
        TokenKind::Slash => if level == 5 {
            Some(ast::BinaryOperator::Arithmetic(ast::BinaryArithmeticOperator::Div))
        } else {
            None
        },
        TokenKind::Percent => if level == 5 {
            Some(ast::BinaryOperator::Arithmetic(ast::BinaryArithmeticOperator::Rem))
        } else {
            None
        },
        TokenKind::Hat => if level == 6 {
            Some(ast::BinaryOperator::Arithmetic(ast::BinaryArithmeticOperator::Pow))
        } else {
            None
        },
        _ => None,
    }
}

/// ```abnf
/// Expr = StaticExpr / Binary
/// ```
/// With `is_static`, only literals, arrays and objects of them are accepted.
pub fn parse_expr<S: ITokenStream>(s: &mut S, is_static: bool) -> (r: EngineResult<Expression>)
    ensures
        final(s).remaining().len() <= old(s).remaining().len(),
        r is Ok ==> final(s).remaining().len() < old(s).remaining().len(),
        r matches Ok(e) ==> e.loc_spec().start == current_token(old(s).remaining()).pos,
        r matches Ok(e) ==> reads_expr(old(s).remaining(), final(s).remaining(), e, is_static),
        !is_static && r is Ok ==> expr_ends(final(s).remaining(), 0),
        is_static && old(s).reliable() ==> final(s).reliable() && settles(
            static_end(old(s).remaining()),
            r,
            final(s).remaining(),
        ),
        !is_static && old(s).reliable() ==> final(s).reliable() && settles(
            expr_end(old(s).remaining()),
            r,
            final(s).remaining(),
        ),
        is_static ==> (r matches Ok(e) ==> e.loc_spec().end == current_token(final(s).remaining()).pos),
    decreases old(s).remaining().len(), 21nat,
{
    if is_static {
        parse_static(s)
    } else {
        parse_binary(s, 0)
    }
}

/// Binary operators of level `level` and above, each level associating to the left.
fn parse_binary<S: ITokenStream>(s: &mut S, level: u8) -> (r: EngineResult<Expression>)
    requires
        level <= 7,
    ensures
        final(s).remaining().len() <= old(s).remaining().len(),
        r is Ok ==> final(s).remaining().len() < old(s).remaining().len(),
        r matches Ok(e) ==> e.loc_spec().start == current_token(old(s).remaining()).pos,
        r matches Ok(e) ==> reads_binary(old(s).remaining(), final(s).remaining(), e, level as int),
        r is Ok ==> expr_ends(final(s).remaining(), level as int),
        old(s).reliable() ==> final(s).reliable() && settles(
            binary_end(old(s).remaining(), level as int),
            r,
            final(s).remaining(),
        ),
    decreases old(s).remaining().len(), 13nat + (7 - level) as nat,
{
    let ghost t0 = s.remaining();
    if level == 7 {
        return parse_prefix(s);
    }
    let start = s.get_pos();
    let mut left = parse_binary(s, level + 1)?;
    while operator_at(level, s.get_token_kind()).is_some()
        invariant
            level < 7,
            s.remaining().len() < old(s).remaining().len(),
            left.loc_spec().start == start,
            start == current_token(old(s).remaining()).pos,
            t0 == old(s).remaining(),
            reads_binary(t0, s.remaining(), left, level as int),
            expr_ends(s.remaining(), level + 1),
            old(s).reliable() ==> s.reliable() && binary_loop(s.remaining(), level as int)
                == binary_end(t0, level as int),
        decreases s.remaining().len(),
    {
        let ghost m = s.remaining();
        let op = operator_at(level, s.get_token_kind()).unwrap();
        s.next()?;
        let right = match parse_binary(s, level + 1) {
            Ok(v) => v,
            Err(err) => {
                proof {
                    if old(s).reliable() {
                        assert(binary_loop(m, level as int) is Err);
                        assert(binary_end(t0, level as int) is Err);
                    }
                }
                return Err(err);
            },
        };
        let ghost old_left = left;
        proof {
            if old(s).reliable() {
                assert(binary_loop(m, level as int) == binary_loop(s.remaining(), level as int));
            }
        }
        left = Expression::Binary(
            ast::Binary {
                loc: Loc { start, end: s.get_pos() },
                op,
                left: Box::new(left),
                right: Box::new(right),
            },
        );
        proof {
            assert(m.len() > 0);
            assert(boundary(m));
            assert(reads_binary(t0, s.remaining(), left, level as int));
        }
    }
    Ok(left)
}

/// ```abnf
/// Prefix = "!" Prefix / Postfix
/// ```
fn parse_prefix<S: ITokenStream>(s: &mut S) -> (r: EngineResult<Expression>)
    ensures
        final(s).remaining().len() <= old(s).remaining().len(),
        r is Ok ==> final(s).remaining().len() < old(s).remaining().len(),
        r matches Ok(e) ==> e.loc_spec().start == current_token(old(s).remaining()).pos,
        current_token(old(s).remaining()).kind is Not ==> (r matches Ok(e) ==> e is Not),
        r matches Ok(e) ==> reads_prefix(old(s).remaining(), final(s).remaining(), e),
        r is Ok ==> postfix_ends(final(s).remaining()),
        old(s).reliable() ==> final(s).reliable() && settles(
            prefix_end(old(s).remaining()),
            r,
            final(s).remaining(),
        ),
    decreases old(s).remaining().len(), 12nat,
{
    if at(s, &TokenKind::Not) {
        let start = s.next()?.pos;
        let expr = parse_prefix(s)?;
        return Ok(
            Expression::Not(
                ast::Not { loc: Loc { start, end: s.get_pos() }, expr: Box::new(expr) },
            ),
        );
    }
    parse_postfix(s)
}

/// ```abnf
/// Postfix = Atom *("(" Args ")" / "[" Expr "]" / "." IDENT)
/// ```
fn parse_postfix<S: ITokenStream>(s: &mut S) -> (r: EngineResult<Expression>)
    ensures
        final(s).remaining().len() <= old(s).remaining().len(),
        r is Ok ==> final(s).remaining().len() < old(s).remaining().len(),
        r matches Ok(e) ==> e.loc_spec().start == current_token(old(s).remaining()).pos,
        r matches Ok(e) ==> reads_postfix(old(s).remaining(), final(s).remaining(), e),
        r is Ok ==> postfix_ends(final(s).remaining()),
        old(s).reliable() ==> final(s).reliable() && settles(
            postfix_end(old(s).remaining()),
            r,
            final(s).remaining(),
        ),
    decreases old(s).remaining().len(), 11nat,
{
    let ghost t0 = s.remaining();
    let start = s.get_pos();
    let mut expr = parse_atom(s)?;
    loop
        invariant
            s.remaining().len() < old(s).remaining().len(),
            expr.loc_spec().start == start,
            start == current_token(old(s).remaining()).pos,
            t0 == old(s).remaining(),
            reads_postfix(t0, s.remaining(), expr),
            old(s).reliable() ==> s.reliable() && postfix_loop(s.remaining()) == postfix_end(t0),
        decreases s.remaining().len(),
    {
        let ghost m = s.remaining();
        if at(s, &TokenKind::OpenParen) {
            let args = match parse_items(s, &TokenKind::OpenParen, &TokenKind::CloseParen) {
                Ok(v) => v,
                Err(err) => {
                    proof {
                        if old(s).reliable() {
                            assert(postfix_loop(m) is Err);
                            assert(postfix_end(t0) is Err);
                        }
                    }
                    return Err(err);
                },
            };
            expr = Expression::Call(
                ast::Call { loc: Loc { start, end: s.get_pos() }, target: Box::new(expr), args },
            );
            proof {
                assert(boundary(m));
                if old(s).reliable() {
                    assert(postfix_loop(m) == postfix_loop(s.remaining()));
                }
            }
        } else if at(s, &TokenKind::OpenBracket) {
            s.next()?;
            let index = match parse_expr(s, false) {
                Ok(v) => v,
                Err(err) => {
                    proof {
                        if old(s).reliable() {
                            assert(postfix_loop(m) is Err);
                            assert(postfix_end(t0) is Err);
                        }
                    }
                    return Err(err);
                },
            };
            let ghost m2 = s.remaining();
            match s.expect_and_next(&TokenKind::CloseBracket) {
                Ok(_) => {},
                Err(err) => {
                    proof {
                        if old(s).reliable() {
                            assert(postfix_loop(m) is Err);
                            assert(postfix_end(t0) is Err);
                        }
                    }
                    return Err(err);
                },
            }
            expr = Expression::Index(
                ast::Index {
                    loc: Loc { start, end: s.get_pos() },
                    target: Box::new(expr),
                    index: Box::new(index),
                },
            );
            proof {
                assert(boundary(m));
                assert(boundary(m2));
                if old(s).reliable() {
                    assert(postfix_loop(m) == postfix_loop(s.remaining()));
                }
            }
        } else if at(s, &TokenKind::Dot) {
            s.next()?;
            let RawToken { raw: name, .. } = match s.expect_identifier_and_next() {
                Ok(v) => v,
                Err(err) => {
                    proof {
                        if old(s).reliable() {
                            assert(postfix_loop(m) is Err);
                            assert(postfix_end(t0) is Err);
                        }
                    }
                    return Err(err);
                },
            };
            expr = Expression::Prop(
                ast::Prop { loc: Loc { start, end: s.get_pos() }, target: Box::new(expr), name },
            );
            proof {
                assert(boundary(m));
                assert(m.drop_first().drop_first() =~= m.skip(2));
                if old(s).reliable() {
                    assert(postfix_loop(m) == postfix_loop(s.remaining()));
                }
            }
        } else {
            return Ok(expr);
        }
    }
}

/// `open`, expressions separated by commas or new lines, and `close`.
fn parse_items<S: ITokenStream>(s: &mut S, open: &TokenKind, close: &TokenKind) -> (r: EngineResult<
    Vec<Expression>,
>)
    requires
        !(*open is EOF),
        !(*close is EOF),
    ensures
        final(s).remaining().len() <= old(s).remaining().len(),
        r is Ok ==> final(s).remaining().len() < old(s).remaining().len(),
        !at_kind(old(s).remaining(), *open) ==> r is Err,
        r matches Ok(items) ==> reads_items(old(s).remaining(), final(s).remaining(), items@, *open, *close),
        old(s).reliable() ==> final(s).reliable() && settles(
            items_end(old(s).remaining(), *open, *close),
            r,
            final(s).remaining(),
        ),
    decreases old(s).remaining().len(), 7nat,
{
    let ghost t0 = s.remaining();
    let mut items: Vec<Expression> = Vec::new();
    s.expect_and_next(open)?;
    skip_one_newline(s)?;
    let ghost b = s.remaining();
    while !at(s, close)
        invariant
            s.remaining().len() < old(s).remaining().len(),
            t0 == old(s).remaining(),
            b == skip_newline(t0.drop_first()),
            s.remaining().len() <= b.len(),
            reads_list(b, s.remaining(), items@, *close, false),
            old(s).reliable() ==> s.reliable() && at_kind(t0, *open) && expr_items(s.remaining(), *close)
                == expr_items(b, *close),
        decreases s.remaining().len(),
    {
        let ghost p = s.remaining();
        let ghost before = items@;
        let e = match parse_expr(s, false) {
            Ok(e) => e,
            Err(err) => {
                proof {
                    if old(s).reliable() {
                        assert(expr_items(p, *close) is Err);
                        assert(items_end(t0, *open, *close) is Err);
                    }
                }
                return Err(err);
            },
        };
        let ghost q = s.remaining();
        let ghost ev = e;
        items.push(e);
        if at(s, &TokenKind::Comma) {
            s.next()?;
            skip_one_newline(s)?;
        } else if at(s, &TokenKind::NewLine) {
            s.next()?;
        } else if !at(s, close) {
            proof {
                if old(s).reliable() {
                    assert(after_separator(q, *close) is Err);
                    assert(expr_items(p, *close) is Err);
                    assert(items_end(t0, *open, *close) is Err);
                }
            }
            return Err(syntax_error("separator expected", s.get_pos()));
        }
        proof {
            if old(s).reliable() {
                assert(after_separator(q, *close) == Extent::Ok(s.remaining()));
                assert(expr_items(p, *close) == expr_items(s.remaining(), *close));
            }
            assert(boundary(p));
            assert(boundary(q));
            assert(items@.drop_last() =~= before);
            assert(item_then_separator(p, s.remaining(), ev, *close, false));
            assert(reads_list(b, s.remaining(), items@, *close, false));
        }
    }
    let ghost m = s.remaining();
    s.expect_and_next(close)?;
    proof {
        assert(boundary(m));
    }
    Ok(items)
}

/// `{`, entries `key: value` separated by commas or new lines, and `}`.
fn parse_entries<S: ITokenStream>(s: &mut S, is_static: bool) -> (r: EngineResult<
    Vec<(crate::common::string::Utf16String, Expression)>,
>)
    ensures
        final(s).remaining().len() <= old(s).remaining().len(),
        r is Ok ==> final(s).remaining().len() < old(s).remaining().len(),
        !at_kind(old(s).remaining(), TokenKind::OpenBrace) ==> r is Err,
        r matches Ok(es) ==> reads_entries(old(s).remaining(), final(s).remaining(), es@, is_static),
        is_static && old(s).reliable() ==> final(s).reliable() && settles(
            if at_kind(old(s).remaining(), TokenKind::OpenBrace) {
                static_end(old(s).remaining())
            } else {
                Err(unexpected_at(old(s).remaining()))
            },
            r,
            final(s).remaining(),
        ),
        !is_static && old(s).reliable() ==> final(s).reliable() && settles(
            entries_end(old(s).remaining()),
            r,
            final(s).remaining(),
        ),
    decreases old(s).remaining().len(), 7nat,
{
    let ghost t0 = s.remaining();
    let mut entries: Vec<(crate::common::string::Utf16String, Expression)> = Vec::new();
    s.expect_and_next(&TokenKind::OpenBrace)?;
    skip_one_newline(s)?;
    let ghost b = s.remaining();
    while !at(s, &TokenKind::CloseBrace)
        invariant
            s.remaining().len() < old(s).remaining().len(),
            t0 == old(s).remaining(),
            b == skip_newline(t0.drop_first()),
            s.remaining().len() <= b.len(),
            reads_entry_list(b, s.remaining(), entries@, is_static),
            is_static && old(s).reliable() ==> s.reliable() && at_kind(t0, TokenKind::OpenBrace)
                && static_entries(s.remaining()) == static_entries(b),
            !is_static && old(s).reliable() ==> s.reliable() && at_kind(t0, TokenKind::OpenBrace)
                && expr_entries(s.remaining()) == expr_entries(b),
        decreases s.remaining().len(),
    {
        let ghost p = s.remaining();
        let ghost before = entries@;
        let key = match s.get_token_kind() {
            TokenKind::Identifier(_) => s.expect_identifier_and_next()?.raw,
            TokenKind::StringLiteral(_) => {
                let token = s.next()?;
                match token.kind {
                    TokenKind::StringLiteral(v) => v,
                    _ => {
                        assert(false);
                        return Err(syntax_error("unexpected token", token.pos));
                    },
                }
            },
            _ => {
                return Err(s.unexpected_token());
            },
        };
        let ghost p1 = s.remaining();
        s.expect_and_next(&TokenKind::Colon)?;
        let value = match parse_expr(s, is_static) {
            Ok(v) => v,
            Err(err) => {
                proof {
                    if is_static && old(s).reliable() {
                        assert(p.skip(2) =~= p.drop_first().drop_first());
                        assert(static_entries(p) is Err);
                        assert(static_end(t0) is Err);
                    }
                    if !is_static && old(s).reliable() {
                        assert(p.skip(2) =~= p.drop_first().drop_first());
                        assert(expr_entries(p) is Err);
                        assert(entries_end(t0) is Err);
                    }
                }
                return Err(err);
            },
        };
        let ghost q = s.remaining();
        entries.push((key, value));
        if at(s, &TokenKind::Comma) {
            s.next()?;
            skip_one_newline(s)?;
        } else if at(s, &TokenKind::NewLine) {
            s.next()?;
        } else if !at(s, &TokenKind::CloseBrace) {
            proof {
                if is_static && old(s).reliable() {
                    assert(p.skip(2) =~= p.drop_first().drop_first());
                    assert(after_separator(q, TokenKind::CloseBrace) is Err);
                    assert(static_entries(p) is Err);
                    assert(static_end(t0) is Err);
                }
                if !is_static && old(s).reliable() {
                    assert(p.skip(2) =~= p.drop_first().drop_first());
                    assert(after_separator(q, TokenKind::CloseBrace) is Err);
                    assert(expr_entries(p) is Err);
                    assert(entries_end(t0) is Err);
                }
            }
            return Err(syntax_error("separator expected", s.get_pos()));
        }
        proof {
            assert(boundary(p));
            assert(boundary(q));
            assert(p1 == p.drop_first());
            assert(p.skip(1) =~= p.drop_first());
            assert(p.skip(2) =~= p.drop_first().drop_first());
            assert(entries@.drop_last() =~= before);
            assert(entry_then_separator(p, s.remaining(), entries@.last(), is_static));
            assert(reads_entry_list(b, s.remaining(), entries@, is_static));
            if is_static && old(s).reliable() {
                assert(after_separator(q, TokenKind::CloseBrace) == Extent::Ok(s.remaining()));
                assert(static_entries(p) == static_entries(s.remaining()));
            }
            if !is_static && old(s).reliable() {
                assert(p.skip(2) =~= p.drop_first().drop_first());
                assert(after_separator(q, TokenKind::CloseBrace) == Extent::Ok(s.remaining()));
                assert(expr_entries(p) == expr_entries(s.remaining()));
            }
        }
    }
    let ghost m = s.remaining();
    s.expect_and_next(&TokenKind::CloseBrace)?;
    proof {
        assert(boundary(m));
    }
    Ok(entries)
}

/// A literal: number, string, boolean or null. Fails on anything else.
fn parse_literal<S: ITokenStream>(s: &mut S) -> (r: EngineResult<Expression>)
    ensures
        final(s).remaining().len() <= old(s).remaining().len(),
        r is Ok ==> final(s).remaining().len() < old(s).remaining().len(),
        r matches Ok(e) ==> e.loc_spec().start == current_token(old(s).remaining()).pos,
        r matches Ok(e) ==> match current_token(old(s).remaining()).kind {
            TokenKind::NumberLiteral(_, bits) => e matches Expression::Num(n) && n.value == bits,
            TokenKind::StringLiteral(v) => e matches Expression::Str(n) && n.value == v,
            TokenKind::TrueKeyword => e matches Expression::Bool(n) && n.value,
            TokenKind::FalseKeyword => e matches Expression::Bool(n) && !n.value,
            TokenKind::NullKeyword => e is Null,
            _ => false,
        },
        r matches Ok(e) ==> reads_literal(old(s).remaining(), final(s).remaining(), e),
        old(s).reliable() ==> final(s).reliable() && settles(
            literal_end(old(s).remaining()),
            r,
            final(s).remaining(),
        ),
        r matches Ok(e) ==> e.loc_spec().end == current_token(final(s).remaining()).pos,
    decreases old(s).remaining().len(), 8nat,
{
    let is_literal = match s.get_token_kind() {
        TokenKind::NumberLiteral(..) | TokenKind::StringLiteral(_) | TokenKind::TrueKeyword
        | TokenKind::FalseKeyword | TokenKind::NullKeyword => true,
        _ => false,
    };
    if !is_literal {
        return Err(s.unexpected_token());
    }
    let token = s.next()?;
    let Token { kind, pos, .. } = token;
    let loc = Loc { start: pos, end: s.get_pos() };
    match kind {
        TokenKind::NumberLiteral(_, bits) => Ok(Expression::Num(ast::Num { loc, value: bits })),
        TokenKind::StringLiteral(value) => Ok(Expression::Str(ast::Str { loc, value })),
        TokenKind::TrueKeyword => Ok(Expression::Bool(ast::Bool { loc, value: true })),
        TokenKind::FalseKeyword => Ok(Expression::Bool(ast::Bool { loc, value: false })),
        TokenKind::NullKeyword => Ok(Expression::Null(ast::Null { loc })),
        _ => {
            assert(false);
            Err(syntax_error("unexpected token", pos))
        },
    }
}

/// ```abnf
/// StaticExpr = Literal / "[" StaticExpr *(SEP StaticExpr) "]" / "{" Entries "}"
/// ```
fn parse_static<S: ITokenStream>(s: &mut S) -> (r: EngineResult<Expression>)
    ensures
        final(s).remaining().len() <= old(s).remaining().len(),
        r is Ok ==> final(s).remaining().len() < old(s).remaining().len(),
        r matches Ok(e) ==> e.loc_spec().start == current_token(old(s).remaining()).pos,
        r matches Ok(e) ==> reads_static(old(s).remaining(), final(s).remaining(), e),
        old(s).reliable() ==> final(s).reliable() && settles(
            static_end(old(s).remaining()),
            r,
            final(s).remaining(),
        ),
        r matches Ok(e) ==> e.loc_spec().end == current_token(final(s).remaining()).pos,
    decreases old(s).remaining().len(), 9nat,
{
    let ghost t0 = s.remaining();
    if at(s, &TokenKind::OpenBracket) {
        let start = s.next()?.pos;
        let mut items: Vec<Expression> = Vec::new();
        skip_one_newline(s)?;
        let ghost b = s.remaining();
        while !at(s, &TokenKind::CloseBracket)
            invariant
                s.remaining().len() < old(s).remaining().len(),
                t0 == old(s).remaining(),
                b == skip_newline(t0.drop_first()),
                s.remaining().len() <= b.len(),
                reads_list(b, s.remaining(), items@, TokenKind::CloseBracket, true),
                old(s).reliable() ==> s.reliable() && static_items(s.remaining(), TokenKind::CloseBracket)
                    == static_items(b, TokenKind::CloseBracket),
                at_kind(t0, TokenKind::OpenBracket),
            decreases s.remaining().len(),
        {
            let ghost p = s.remaining();
            let ghost before = items@;
            let e = match parse_static(s) {
                Ok(e) => e,
                Err(err) => {
                    proof {
                        if old(s).reliable() {
                            assert(static_items(p, TokenKind::CloseBracket) is Err);
                            assert(static_end(t0) is Err);
                        }
                    }
                    return Err(err);
                },
            };
            let ghost q = s.remaining();
            items.push(e);
            if at(s, &TokenKind::Comma) {
                s.next()?;
                skip_one_newline(s)?;
            } else if at(s, &TokenKind::NewLine) {
                s.next()?;
            } else if !at(s, &TokenKind::CloseBracket) {
                proof {
                    if old(s).reliable() {
                        assert(after_separator(q, TokenKind::CloseBracket) is Err);
                        assert(static_items(p, TokenKind::CloseBracket) is Err);
                        assert(static_end(t0) is Err);
                    }
                }
                return Err(syntax_error("separator expected", s.get_pos()));
            }
            proof {
                if old(s).reliable() {
                    assert(after_separator(q, TokenKind::CloseBracket) == Extent::Ok(s.remaining()));
                    assert(static_items(p, TokenKind::CloseBracket) == static_items(s.remaining(), TokenKind::CloseBracket));
                }
                assert(boundary(p));
                assert(boundary(q));
                assert(items@.drop_last() =~= before);
                assert(item_then_separator(p, s.remaining(), items@.last(), TokenKind::CloseBracket, true));
                assert(reads_list(b, s.remaining(), items@, TokenKind::CloseBracket, true));
            }
        }
        let ghost m = s.remaining();
        s.expect_and_next(&TokenKind::CloseBracket)?;
        proof {
            assert(boundary(m));
        }
        Ok(Expression::Arr(ast::Arr { loc: Loc { start, end: s.get_pos() }, value: items }))
    } else if at(s, &TokenKind::OpenBrace) {
        let start = s.get_pos();
        let value = parse_entries(s, true)?;
        Ok(Expression::Obj(ast::Obj { loc: Loc { start, end: s.get_pos() }, value }))
    } else {
        parse_literal(s)
    }
}

/// ```abnf
/// Atom = Literal / Identifier / If / Fn / Eval / Exists / "(" Expr ")" / Arr / Obj
/// ```
fn parse_atom<S: ITokenStream>(s: &mut S) -> (r: EngineResult<Expression>)
    ensures
        final(s).remaining().len() <= old(s).remaining().len(),
        r is Ok ==> final(s).remaining().len() < old(s).remaining().len(),
        r matches Ok(e) ==> e.loc_spec().start == current_token(old(s).remaining()).pos,
        current_token(old(s).remaining()).kind is Identifier ==> (r matches Ok(e) ==> e is Identifier),
        r matches Ok(e) ==> reads_atom(old(s).remaining(), final(s).remaining(), e),
        old(s).reliable() ==> final(s).reliable() && settles(
            atom_end(old(s).remaining()),
            r,
            final(s).remaining(),
        ),
    decreases old(s).remaining().len(), 10nat,
{
    let ghost t0 = s.remaining();
    let start = s.get_pos();
    match s.get_token_kind() {
        TokenKind::Identifier(_) => {
            let RawToken { raw: name, pos, .. } = s.expect_identifier_and_next()?;
            Ok(
                Expression::Identifier(
                    ast::Identifier {
                        loc: Loc { start: pos, end: s.get_pos() },
                        name: NamePath::from_string(name),
                    },
                ),
            )
        },
        TokenKind::OpenParen => {
            s.next()?;
            let expr = parse_expr(s, false)?;
            let ghost m = s.remaining();
            s.expect_and_next(&TokenKind::CloseParen)?;
            let r = rebase(expr, start);
            proof {
                assert(boundary(m));
                lemma_rebase_back(expr, start);
            }
            Ok(r)
        },
        TokenKind::OpenBracket => {
            let value = parse_items(s, &TokenKind::OpenBracket, &TokenKind::CloseBracket)?;
            Ok(Expression::Arr(ast::Arr { loc: Loc { start, end: s.get_pos() }, value }))
        },
        TokenKind::OpenBrace => {
            let value = parse_entries(s, false)?;
            Ok(Expression::Obj(ast::Obj { loc: Loc { start, end: s.get_pos() }, value }))
        },
        TokenKind::IfKeyword => parse_if(s),
        TokenKind::At => {
            s.next()?;
            let args = parse_params(s)?;
            let ghost m = s.remaining();
            let ret_type = if at(s, &TokenKind::Colon) {
                s.next()?;
                Some(parse_type(s)?)
            } else {
                None
            };
            let ghost m2 = s.remaining();
            let children = parse_block(s)?;
            proof {
                assert(boundary(m));
                assert(boundary(m2));
            }
            Ok(
                Expression::Fn(
                    ast::Fn { loc: Loc { start, end: s.get_pos() }, args, ret_type, children },
                ),
            )
        },
        TokenKind::EvalKeyword => {
            s.next()?;
            let statements = parse_block(s)?;
            Ok(Expression::Block(ast::Block { loc: Loc { start, end: s.get_pos() }, statements }))
        },
        TokenKind::ExistsKeyword => {
            s.next()?;
            let RawToken { raw: name, pos, .. } = s.expect_identifier_and_next()?;
            proof {
                assert(t0.len() > 0);
                assert(t0.drop_first().len() > 0);
                assert(t0.drop_first().drop_first() =~= t0.skip(2));
            }
            let identifier = ast::Identifier {
                loc: Loc { start: pos, end: s.get_pos() },
                name: NamePath::from_string(name),
            };
            Ok(Expression::Exists(ast::Exists { loc: Loc { start, end: s.get_pos() }, identifier }))
        },
        _ => parse_literal(s),
    }
}

/// The expression with its start moved to `start` (for parenthesized expressions).
fn rebase(expr: Expression, start: crate::common::position::Position) -> (r: Expression)
    ensures
        r.loc_spec().start == start,
        r == rebase_spec(expr, start),
{
    match expr {
        Expression::If(mut n) => {
            n.loc.start = start;
            Expression::If(n)
        },
        Expression::Fn(mut n) => {
            n.loc.start = start;
            Expression::Fn(n)
        },
        Expression::Match(mut n) => {
            n.loc.start = start;
            Expression::Match(n)
        },
        Expression::Block(mut n) => {
            n.loc.start = start;
            Expression::Block(n)
        },
        Expression::Exists(mut n) => {
            n.loc.start = start;
            Expression::Exists(n)
        },
        Expression::Tmpl(mut n) => {
            n.loc.start = start;
            Expression::Tmpl(n)
        },
        Expression::Str(mut n) => {
            n.loc.start = start;
            Expression::Str(n)
        },
        Expression::Num(mut n) => {
            n.loc.start = start;
            Expression::Num(n)
        },
        Expression::Bool(mut n) => {
            n.loc.start = start;
            Expression::Bool(n)
        },
        Expression::Null(mut n) => {
            n.loc.start = start;
            Expression::Null(n)
        },
        Expression::Obj(mut n) => {
            n.loc.start = start;
            Expression::Obj(n)
        },
        Expression::Arr(mut n) => {
            n.loc.start = start;
            Expression::Arr(n)
        },
        Expression::Not(mut n) => {
            n.loc.start = start;
            Expression::Not(n)
        },
        Expression::Identifier(mut n) => {
            n.loc.start = start;
            Expression::Identifier(n)
        },
        Expression::Call(mut n) => {
            n.loc.start = start;
            Expression::Call(n)
        },
        Expression::Index(mut n) => {
            n.loc.start = start;
            Expression::Index(n)
        },
        Expression::Prop(mut n) => {
            n.loc.start = start;
            Expression::Prop(n)
        },
        Expression::Binary(mut n) => {
            n.loc.start = start;
            Expression::Binary(n)
        },
    }
}

/// ```abnf
/// If = "if" Expr BlockOrStatement *("elif" Expr BlockOrStatement) ["else" BlockOrStatement]
/// ```
#[verifier::rlimit(40)]
fn parse_if<S: ITokenStream>(s: &mut S) -> (r: EngineResult<Expression>)
    ensures
        final(s).remaining().len() <= old(s).remaining().len(),
        r is Ok ==> final(s).remaining().len() < old(s).remaining().len(),
        r matches Ok(e) ==> e is If && e.loc_spec().start == current_token(old(s).remaining()).pos,
        !at_kind(old(s).remaining(), TokenKind::IfKeyword) ==> r is Err,
        r matches Ok(e) ==> reads_if(old(s).remaining(), final(s).remaining(), e),
        old(s).reliable() ==> final(s).reliable() && settles(
            if_end(old(s).remaining()),
            r,
            final(s).remaining(),
        ),
        r matches Ok(e) ==> e.loc_spec().end == current_token(final(s).remaining()).pos,
    decreases old(s).remaining().len(), 8nat,
{
    let ghost t0 = s.remaining();
    let start = s.expect_and_next(&TokenKind::IfKeyword)?.pos;
    let cond = parse_expr(s, false)?;
    let ghost m1 = s.remaining();
    let then_statement = parse_block_or_statement(s)?;
    let ghost m2 = s.remaining();
    proof {
        if old(s).reliable() {
            assert(if_end(t0) == match elifs_end(m2) {
                Ok(m3) => if m3.len() < t0.len() {
                    if m3.len() > 0 && at_kind(m3, TokenKind::ElseKeyword) {
                        bos_end(m3.drop_first())
                    } else {
                        Ok(m3)
                    }
                } else {
                    Err(unexpected_at(t0))
                },
                Err(f) => Err(f),
            });
        }
    }
    let mut elseif: Vec<ast::Elseif> = Vec::new();
    while at(s, &TokenKind::ElifKeyword)
        invariant
            s.remaining().len() < old(s).remaining().len(),
            s.remaining().len() <= m2.len(),
            reads_elifs(m2, s.remaining(), elseif@),
            old(s).reliable() ==> s.reliable() && elifs_end(s.remaining()) == elifs_end(m2),
            old(s).reliable() ==> (elifs_end(m2) matches Err(f) ==> if_end(old(s).remaining()) == Extent::Err(f)),
        decreases s.remaining().len(),
    {
        let ghost p = s.remaining();
        let ghost before = elseif@;
        s.next()?;
        let elif_cond = match parse_expr(s, false) {
            Ok(v) => v,
            Err(err) => {
                proof {
                    if old(s).reliable() {
                        assert(elifs_end(p) is Err);
                        assert(elifs_end(m2) is Err);
                        assert(if_end(old(s).remaining()) is Err);
                    }
                }
                return Err(err);
            },
        };
        let ghost q = s.remaining();
        let elif_then = match parse_block_or_statement(s) {
            Ok(v) => v,
            Err(err) => {
                proof {
                    if old(s).reliable() {
                        assert(elifs_end(p) is Err);
                        assert(elifs_end(m2) is Err);
                        assert(if_end(old(s).remaining()) is Err);
                    }
                }
                return Err(err);
            },
        };
        elseif.push(ast::Elseif { cond: elif_cond, then_statement: elif_then });
        proof {
            assert(boundary(p));
            assert(boundary(q));
            assert(elseif@.drop_last() =~= before);
            assert(reads_elifs(m2, s.remaining(), elseif@));
            if old(s).reliable() {
                assert(elifs_end(p) == elifs_end(s.remaining()));
            }
        }
    }
    let ghost m3 = s.remaining();
    let else_statement = if at(s, &TokenKind::ElseKeyword) {
        s.next()?;
        Some(Box::new(parse_block_or_statement(s)?))
    } else {
        None
    };
    proof {
        assert(boundary(m1));
        assert(boundary(m2));
        assert(boundary(m3));
    }
    Ok(
        Expression::If(
            ast::If {
                loc: Loc { start, end: s.get_pos() },
                cond: Box::new(cond),
                then_statement: Box::new(then_statement),
                elseif,
                else_statement,
            },
        ),
    )
}

} // verus!
