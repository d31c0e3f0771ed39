use vstd::prelude::*;

use crate::ast::nodes::{self as ast, Expression, Loc, Statement, StatementOrExpression};
use crate::common::error::{syntax_error, AiScriptBasicErrorKind, EngineResult};
use crate::common::path::NamePath;
use crate::common::string::{Utf16Str};
use crate::lexer::token::{RawToken, TokenKind};
use crate::lexer::token_stream::{at_kind, current_token, token_at, unexpected_message, ITokenStream};

use super::common::{at, parse_block, parse_dest, parse_params, parse_type};
use super::expressions::parse_expr;
use super::grammar::{
    boundary, eat, reads_attr, reads_attrs, reads_block, reads_block_or_statement, reads_do_while,
    reads_each, reads_expr, reads_fn_def, reads_for, reads_statement, reads_var_def, reads_while,
    reads_with_attr, skip_newlines,
};



use super::extent::{settles, unexpected_at, expr_end, block_end, bos_end, statement_end, statement_pos, var_def_end, fn_def_end, def_end, with_attr_end, attr_end, attrs_end, after_open, each_end, for_end, do_while_end, while_end, Extent};

verus! {

/// The code units of `print`.
pub open spec fn print_units() -> Seq<u16> {
    seq![112u16, 114u16, 105u16, 110u16, 116u16]
}

/// ```abnf
/// Statement = VarDef / FnDef / Out / Return / StatementWithAttr / Each / For / Loop
///           / DoWhile / While / "break" / "continue" / Assign / Expr
/// ```
pub fn parse_statement<S: ITokenStream>(s: &mut S) -> (r: EngineResult<StatementOrExpression>)
    ensures
        final(s).remaining().len() <= old(s).remaining().len(),
        r is Ok ==> final(s).remaining().len() < old(s).remaining().len(),
        r matches Ok(x) ==> match current_token(old(s).remaining()).kind {
            TokenKind::VarKeyword => x matches StatementOrExpression::Statement(Statement::Def(d))
                && d.is_mut,
            TokenKind::LetKeyword => x matches StatementOrExpression::Statement(Statement::Def(d))
                && !d.is_mut,
            TokenKind::Out => x matches StatementOrExpression::Expression(Expression::Call(_)),
            TokenKind::ReturnKeyword => x matches StatementOrExpression::Statement(
                Statement::Return(_),
            ),
            TokenKind::OpenSharpBracket => x matches StatementOrExpression::Statement(
                Statement::Def(_),
            ),
            TokenKind::EachKeyword => x matches StatementOrExpression::Statement(Statement::Each(_)),
            TokenKind::ForKeyword => x matches StatementOrExpression::Statement(Statement::For(_)),
            TokenKind::LoopKeyword => x matches StatementOrExpression::Statement(Statement::Loop(_)),
            TokenKind::DoKeyword => x matches StatementOrExpression::Statement(Statement::Loop(_)),
            TokenKind::WhileKeyword => x matches StatementOrExpression::Statement(
                Statement::Loop(_),
            ),
            TokenKind::BreakKeyword => x matches StatementOrExpression::Statement(
                Statement::Break(_),
            ),
            TokenKind::ContinueKeyword => x matches StatementOrExpression::Statement(
                Statement::Continue(_),
            ),
            _ => true,
        },
        r matches Ok(x) ==> reads_statement(old(s).remaining(), final(s).remaining(), x),
        old(s).reliable() ==> final(s).reliable() && settles(
            statement_end(old(s).remaining()),
            r,
            final(s).remaining(),
        ),
        r matches Ok(x) ==> (current_token(old(s).remaining()).kind is BreakKeyword ==> x
            == StatementOrExpression::Statement(
            Statement::Break(ast::Break { loc: Loc { start: current_token(old(s).remaining()).pos, end: current_token(final(s).remaining()).pos } }),
        )),
        r matches Ok(x) ==> (current_token(old(s).remaining()).kind is ContinueKeyword ==> x
            == StatementOrExpression::Statement(
            Statement::Continue(ast::Continue { loc: Loc { start: current_token(old(s).remaining()).pos, end: current_token(final(s).remaining()).pos } }),
        )),
        old(s).reliable() && !(current_token(old(s).remaining()).kind is OpenSharpBracket) ==> (
        r matches Ok(x) ==> x.loc_spec().start == statement_pos(old(s).remaining())),
    decreases old(s).remaining().len(), 29nat,
{
    let start_pos = s.get_pos();

    match s.get_token_kind() {
        TokenKind::VarKeyword | TokenKind::LetKeyword => {
            return Ok(StatementOrExpression::Statement(Statement::Def(parse_var_def(s)?)));
        },
        TokenKind::At => {
            if let TokenKind::Identifier(_) = s.lookahead(1).kind {
                return Ok(StatementOrExpression::Statement(Statement::Def(parse_fn_def(s)?)));
            }
        },
        TokenKind::Out => {
            return Ok(StatementOrExpression::Expression(Expression::Call(parse_out(s)?)));
        },
        TokenKind::ReturnKeyword => {
            return Ok(StatementOrExpression::Statement(Statement::Return(parse_return(s)?)));
        },
        TokenKind::OpenSharpBracket => {
            return Ok(
                StatementOrExpression::Statement(Statement::Def(parse_statement_with_attr(s)?)),
            );
        },
        TokenKind::EachKeyword => {
            return Ok(StatementOrExpression::Statement(Statement::Each(parse_each(s)?)));
        },
        TokenKind::ForKeyword => {
            return Ok(StatementOrExpression::Statement(Statement::For(parse_for(s)?)));
        },
        TokenKind::LoopKeyword => {
            return Ok(StatementOrExpression::Statement(Statement::Loop(parse_loop(s)?)));
        },
        TokenKind::DoKeyword => {
            return Ok(StatementOrExpression::Statement(Statement::Loop(parse_do_while(s)?)));
        },
        TokenKind::WhileKeyword => {
            return Ok(StatementOrExpression::Statement(Statement::Loop(parse_while(s)?)));
        },
        TokenKind::BreakKeyword => {
            s.next()?;
            return Ok(
                StatementOrExpression::Statement(
                    Statement::Break(ast::Break { loc: Loc { start: start_pos, end: s.get_pos() } }),
                ),
            );
        },
        TokenKind::ContinueKeyword => {
            s.next()?;
            return Ok(
                StatementOrExpression::Statement(
                    Statement::Continue(
                        ast::Continue { loc: Loc { start: start_pos, end: s.get_pos() } },
                    ),
                ),
            );
        },
        _ => {},
    }
    let expr = parse_expr(s, false)?;
    let ghost q = s.remaining();
    let r = try_parse_assign(s, expr);
    proof {
        assert(boundary(q));
    }
    r
}

/// ```abnf
/// DefStatement = VarDef / FnDef
/// ```
pub fn parse_def_statement<S: ITokenStream>(s: &mut S) -> (r: EngineResult<ast::Definition>)
    ensures
        final(s).remaining().len() <= old(s).remaining().len(),
        r is Ok ==> final(s).remaining().len() < old(s).remaining().len(),
        !(current_token(old(s).remaining()).kind is VarKeyword || current_token(
            old(s).remaining(),
        ).kind is LetKeyword || current_token(old(s).remaining()).kind is At) ==> {
            &&& r matches Err(e) && e.kind == AiScriptBasicErrorKind::Syntax && e.message@
                == unexpected_message(current_token(old(s).remaining()).kind) && e.pos == Some(
                current_token(old(s).remaining()).pos,
            )
            &&& final(s).remaining() == old(s).remaining()
        },
        current_token(old(s).remaining()).kind is At ==> (r matches Ok(d) ==> !d.is_mut
            && d.expr is Fn),
        r matches Ok(d) ==> d.attr@.len() == 0 && if at_kind(old(s).remaining(), TokenKind::VarKeyword)
            || at_kind(old(s).remaining(), TokenKind::LetKeyword) {
            reads_var_def(old(s).remaining(), final(s).remaining(), d)
        } else {
            at_kind(old(s).remaining(), TokenKind::At) && reads_fn_def(
                old(s).remaining(),
                final(s).remaining(),
                d,
            )
        },
        old(s).reliable() ==> final(s).reliable() && settles(
            def_end(old(s).remaining()),
            r,
            final(s).remaining(),
        ),
    decreases old(s).remaining().len(), 28nat,
{
    match s.get_token_kind() {
        TokenKind::VarKeyword | TokenKind::LetKeyword => parse_var_def(s),
        TokenKind::At => parse_fn_def(s),
        _ => Err(s.unexpected_token()),
    }
}

/// ```abnf
/// BlockOrStatement = Block / Statement
/// ```
pub fn parse_block_or_statement<S: ITokenStream>(s: &mut S) -> (r: EngineResult<
    StatementOrExpression,
>)
    ensures
        final(s).remaining().len() <= old(s).remaining().len(),
        r is Ok ==> final(s).remaining().len() < old(s).remaining().len(),
        at_kind(old(s).remaining(), TokenKind::OpenBrace) ==> (r matches Ok(x) ==> (
        x matches StatementOrExpression::Expression(Expression::Block(b)) && b.loc.start
            == current_token(old(s).remaining()).pos)),
        r matches Ok(x) ==> reads_block_or_statement(old(s).remaining(), final(s).remaining(), x),
        old(s).reliable() ==> final(s).reliable() && settles(
            bos_end(old(s).remaining()),
            r,
            final(s).remaining(),
        ),
    decreases old(s).remaining().len(), 30nat,
{
    if at(s, &TokenKind::OpenBrace) {
        let start_pos = s.get_pos();
        let statements = parse_block(s)?;
        Ok(
            StatementOrExpression::Expression(
                Expression::Block(ast::Block { loc: Loc { start: start_pos, end: s.get_pos() }, statements }),
            ),
        )
    } else {
        parse_statement(s)
    }
}

/// ```abnf
/// VarDef = ("let" / "var") Dest [":" Type] "=" Expr
/// ```
fn parse_var_def<S: ITokenStream>(s: &mut S) -> (r: EngineResult<ast::Definition>)
    ensures
        final(s).remaining().len() <= old(s).remaining().len(),
        r is Ok ==> final(s).remaining().len() < old(s).remaining().len(),
        r matches Ok(d) ==> {
            &&& d.is_mut == current_token(old(s).remaining()).kind is VarKeyword
            &&& d.attr@.len() == 0
            &&& d.loc.start == current_token(old(s).remaining()).pos
        },
        !(current_token(old(s).remaining()).kind is VarKeyword || current_token(
            old(s).remaining(),
        ).kind is LetKeyword) ==> r is Err,
        r matches Ok(d) ==> reads_var_def(old(s).remaining(), final(s).remaining(), d),
        old(s).reliable() ==> final(s).reliable() && settles(
            var_def_end(old(s).remaining()),
            r,
            final(s).remaining(),
        ),
        r matches Ok(d) ==> d.loc.end == current_token(final(s).remaining()).pos,
    decreases old(s).remaining().len(), 27nat,
{
    let ghost t0 = s.remaining();
    let start_pos = s.get_pos();

    let is_mut = match s.get_token_kind() {
        TokenKind::LetKeyword => false,
        TokenKind::VarKeyword => true,
        _ => {
            return Err(s.unexpected_token());
        },
    };
    s.next()?;

    let dest = parse_dest(s)?;
    let ghost q1 = s.remaining();

    let ty = if at(s, &TokenKind::Colon) {
        s.next()?;
        Some(parse_type(s)?)
    } else {
        None
    };
    let ghost q2 = s.remaining();

    s.expect_and_next(&TokenKind::Eq)?;

    let newline = [TokenKind::NewLine];
    proof {
        assert(newline@ =~= seq![TokenKind::NewLine]);
    }
    s.skip_while(&newline)?;
    proof {
        assert(s.remaining() == skip_newlines(q2.drop_first()));
    }

    let expr = parse_expr(s, false)?;
    proof {
        assert(boundary(q1));
        assert(boundary(q2));
    }

    Ok(
        ast::Definition {
            loc: Loc { start: start_pos, end: s.get_pos() },
            dest,
            var_type: ty,
            expr,
            is_mut,
            attr: Vec::new(),
        },
    )
}

/// ```abnf
/// FnDef = "@" IDENT Params [":" Type] Block
/// ```
fn parse_fn_def<S: ITokenStream>(s: &mut S) -> (r: EngineResult<ast::Definition>)
    ensures
        final(s).remaining().len() <= old(s).remaining().len(),
        r is Ok ==> final(s).remaining().len() < old(s).remaining().len(),
        r matches Ok(d) ==> {
            &&& !d.is_mut
            &&& d.var_type is None
            &&& d.attr@.len() == 0
            &&& d.dest is Identifier
            &&& d.expr is Fn
            &&& d.loc.start == current_token(old(s).remaining()).pos
        },
        !at_kind(old(s).remaining(), TokenKind::At) ==> r is Err,
        r matches Ok(d) ==> reads_fn_def(old(s).remaining(), final(s).remaining(), d),
        old(s).reliable() ==> final(s).reliable() && settles(
            fn_def_end(old(s).remaining()),
            r,
            final(s).remaining(),
        ),
        r matches Ok(d) ==> d.loc == (Loc { start: current_token(old(s).remaining()).pos, end: current_token(final(s).remaining()).pos })
            && (d.expr matches Expression::Fn(f) && f.loc == d.loc),
    decreases old(s).remaining().len(), 27nat,
{
    let ghost t0 = s.remaining();
    let start_pos = s.expect_and_next(&TokenKind::At)?.pos;

    let RawToken { raw: name, pos: name_start_pos, .. } = s.expect_identifier_and_next()?;
    proof {
        assert(t0.len() > 0);
        assert(t0.drop_first().len() > 0);
    }
    let dest = ast::Identifier {
        loc: Loc { start: name_start_pos, end: s.get_pos() },
        name: NamePath::from_string(name),
    };

    proof {
        assert(t0.drop_first().drop_first() =~= t0.skip(2));
    }
    let params = parse_params(s)?;
    let ghost m = s.remaining();

    let ty = if at(s, &TokenKind::Colon) {
        s.next()?;
        Some(parse_type(s)?)
    } else {
        None
    };
    let ghost m2 = s.remaining();

    let body = parse_block(s)?;
    proof {
        assert(boundary(m));
        assert(boundary(m2));
    }

    let end_pos = s.get_pos();

    Ok(
        ast::Definition {
            loc: Loc { start: start_pos, end: end_pos },
            dest: Expression::Identifier(dest),
            expr: Expression::Fn(
                ast::Fn {
                    loc: Loc { start: start_pos, end: end_pos },
                    args: params,
                    ret_type: ty,
                    children: body,
                },
            ),
            var_type: None,
            is_mut: false,
            attr: Vec::new(),
        },
    )
}

/// ```abnf
/// Out = "<:" Expr
/// ```
fn parse_out<S: ITokenStream>(s: &mut S) -> (r: EngineResult<ast::Call>)
    ensures
        final(s).remaining().len() <= old(s).remaining().len(),
        r is Ok ==> final(s).remaining().len() < old(s).remaining().len(),
        r matches Ok(c) ==> {
            &&& *c.target matches Expression::Identifier(id) && id.name@ == print_units()
            &&& c.args@.len() == 1
            &&& c.loc.start == current_token(old(s).remaining()).pos
            &&& final(s).remaining().len() < old(s).remaining().len()
            &&& reads_expr(old(s).remaining().drop_first(), final(s).remaining(), c.args@[0], false)
        },
        !at_kind(old(s).remaining(), TokenKind::Out) ==> r is Err,
        old(s).reliable() ==> final(s).reliable() && settles(
            if old(s).remaining().len() > 0 && at_kind(old(s).remaining(), TokenKind::Out) { expr_end(old(s).remaining().drop_first()) } else { Err(unexpected_at(old(s).remaining())) },
            r,
            final(s).remaining(),
        ),
        r matches Ok(c) ==> c.loc.end == current_token(final(s).remaining()).pos && (*c.target matches Expression::Identifier(
            id,
        ) && id.loc == (Loc { start: c.loc.start, end: c.loc.start })),
    decreases old(s).remaining().len(), 27nat,
{
    let start_pos = s.expect_and_next(&TokenKind::Out)?.pos;
    let expr = parse_expr(s, false)?;

    let units: [u16; 5] = [112, 114, 105, 110, 116];
    let print = Utf16Str::new(&units);
    assert(print@ =~= print_units());
    let mut args: Vec<Expression> = Vec::new();
    args.push(expr);
    Ok(
        ast::Call {
            loc: Loc { start: start_pos, end: s.get_pos() },
            target: Box::new(
                Expression::Identifier(
                    ast::Identifier {
                        loc: Loc { start: start_pos, end: start_pos },
                        name: NamePath::from(print),
                    },
                ),
            ),
            args,
        },
    )
}

/// ```abnf
/// Each = "each" "(" "let" Dest "," Expr ")" BlockOrStatement
///      / "each"     "let" Dest "," Expr     BlockOrStatement
/// ```
fn parse_each<S: ITokenStream>(s: &mut S) -> (r: EngineResult<ast::Each>)
    ensures
        final(s).remaining().len() <= old(s).remaining().len(),
        r is Ok ==> final(s).remaining().len() < old(s).remaining().len(),
        r matches Ok(e) ==> e.loc.start == current_token(old(s).remaining()).pos,
        !at_kind(old(s).remaining(), TokenKind::EachKeyword) ==> r is Err,
        r matches Ok(e) ==> reads_each(old(s).remaining(), final(s).remaining(), e),
        old(s).reliable() ==> final(s).reliable() && settles(
            each_end(old(s).remaining()),
            r,
            final(s).remaining(),
        ),
        r matches Ok(e) ==> e.loc.end == current_token(final(s).remaining()).pos,
    decreases old(s).remaining().len(), 27nat,
{
    let ghost t0 = s.remaining();
    let start_pos = s.expect_and_next(&TokenKind::EachKeyword)?.pos;

    let has_paren = at(s, &TokenKind::OpenParen);
    if has_paren {
        s.next()?;
        proof {
            assert(t0.len() > 0);
            assert(t0.drop_first().len() > 0);
            assert(t0.drop_first().drop_first() =~= t0.skip(2));
        }
    }
    let ghost t1 = s.remaining();

    s.expect_and_next(&TokenKind::LetKeyword)?;

    let dest = parse_dest(s)?;
    let ghost m = s.remaining();

    if at(s, &TokenKind::Comma) {
        s.next()?;
    } else {
        return Err(syntax_error("separator expected", s.get_pos()));
    }

    let items = parse_expr(s, false)?;
    let ghost m2 = s.remaining();

    if has_paren {
        s.expect_and_next(&TokenKind::CloseParen)?;
    }
    let ghost m3 = s.remaining();

    let body = parse_block_or_statement(s)?;
    proof {
        assert(boundary(m));
        assert(boundary(m2));
        assert(boundary(m3));
    }

    Ok(
        ast::Each {
            loc: Loc { start: start_pos, end: s.get_pos() },
            var: dest,
            items,
            for_statement: Box::new(body),
        },
    )
}

/// ```abnf
/// For = ForRange / ForTimes
/// ForRange = "for" "(" "let" IDENT ["=" Expr] "," Expr ")" BlockOrStatement
///          / "for"     "let" IDENT ["=" Expr] "," Expr     BlockOrStatement
/// ForTimes = "for" "(" Expr ")" BlockOrStatement
///          / "for"     Expr     BlockOrStatement
/// ```
fn parse_for<S: ITokenStream>(s: &mut S) -> (r: EngineResult<ast::For>)
    ensures
        final(s).remaining().len() <= old(s).remaining().len(),
        r is Ok ==> final(s).remaining().len() < old(s).remaining().len(),
        r matches Ok(f) ==> {
            &&& f.loc.start == current_token(old(s).remaining()).pos
            &&& (f.iter is Range <==> {
                let paren = token_at(old(s).remaining(), 1).kind is OpenParen;
                if paren {
                    token_at(old(s).remaining(), 2).kind is LetKeyword
                } else {
                    token_at(old(s).remaining(), 1).kind is LetKeyword
                }
            })
        },
        !at_kind(old(s).remaining(), TokenKind::ForKeyword) ==> r is Err,
        r matches Ok(f) ==> reads_for(old(s).remaining(), final(s).remaining(), f),
        old(s).reliable() ==> final(s).reliable() && settles(
            for_end(old(s).remaining()),
            r,
            final(s).remaining(),
        ),
        r matches Ok(f) ==> f.loc.end == current_token(final(s).remaining()).pos,
        r matches Ok(f) ==> (!at_kind(after_open(old(s).remaining()).skip(2), TokenKind::Eq) ==> (
        f.iter matches ast::ForIterator::Range { from, .. } ==> from == Expression::Num(
            ast::Num {
                loc: Loc { start: token_at(after_open(old(s).remaining()), 1).pos, end: token_at(after_open(old(s).remaining()), 1).pos },
                value: 0,
            },
        ))),
    decreases old(s).remaining().len(), 27nat,
{
    let ghost t0 = s.remaining();
    let start_pos = s.expect_and_next(&TokenKind::ForKeyword)?.pos;

    let has_paren = at(s, &TokenKind::OpenParen);
    assert(has_paren == (token_at(t0, 1).kind is OpenParen));
    if has_paren {
        s.next()?;
        proof {
            assert(t0.len() > 0);
            assert(t0.drop_first().len() > 0);
            assert(t0.drop_first().drop_first() =~= t0.skip(2));
        }
    }
    let ghost t1 = s.remaining();
    assert(current_token(s.remaining()).kind is LetKeyword == if has_paren {
        token_at(t0, 2).kind is LetKeyword
    } else {
        token_at(t0, 1).kind is LetKeyword
    });

    if at(s, &TokenKind::LetKeyword) {
        // range syntax
        s.next()?;

        let RawToken { raw: name, pos: ident_pos, .. } = s.expect_identifier_and_next()?;
        proof {
            assert(t1.len() > 0);
            assert(t1.drop_first().len() > 0);
            assert(t1.drop_first().drop_first() =~= t1.skip(2));
        }

        let from: Expression = if at(s, &TokenKind::Eq) {
            s.next()?;
            proof {
                assert(t1.skip(2).len() > 0);
                assert(t1.skip(2).drop_first() =~= t1.skip(3));
            }
            parse_expr(s, false)?
        } else {
            Expression::Num(ast::Num { loc: Loc { start: ident_pos, end: ident_pos }, value: 0 })
        };
        let ghost q1 = s.remaining();

        if at(s, &TokenKind::Comma) {
            s.next()?;
        } else {
            return Err(syntax_error("separator expected", s.get_pos()));
        }

        let to = parse_expr(s, false)?;
        let ghost m = s.remaining();

        if has_paren {
            s.expect_and_next(&TokenKind::CloseParen)?;
        }
        let ghost m2 = s.remaining();

        let body = parse_block_or_statement(s)?;
        proof {
            assert(boundary(q1));
            assert(boundary(m));
            assert(boundary(m2));
        }

        Ok(
            ast::For {
                loc: Loc { start: start_pos, end: s.get_pos() },
                iter: ast::ForIterator::Range { var: name, from, to },
                for_statement: Box::new(body),
            },
        )
    } else {
        // times syntax
        let times = parse_expr(s, false)?;
        let ghost m = s.remaining();

        if has_paren {
            s.expect_and_next(&TokenKind::CloseParen)?;
        }
        let ghost m2 = s.remaining();

        let body = parse_block_or_statement(s)?;
        proof {
            assert(boundary(m));
            assert(boundary(m2));
        }

        Ok(
            ast::For {
                loc: Loc { start: start_pos, end: s.get_pos() },
                iter: ast::ForIterator::Times { times },
                for_statement: Box::new(body),
            },
        )
    }
}

/// ```abnf
/// Return = "return" Expr
/// ```
fn parse_return<S: ITokenStream>(s: &mut S) -> (r: EngineResult<ast::Return>)
    ensures
        final(s).remaining().len() <= old(s).remaining().len(),
        r is Ok ==> final(s).remaining().len() < old(s).remaining().len(),
        r matches Ok(x) ==> x.loc.start == current_token(old(s).remaining()).pos,
        r matches Ok(x) ==> final(s).remaining().len() < old(s).remaining().len() && reads_expr(
            old(s).remaining().drop_first(),
            final(s).remaining(),
            x.expr,
            false,
        ),
        !at_kind(old(s).remaining(), TokenKind::ReturnKeyword) ==> r is Err,
        old(s).reliable() ==> final(s).reliable() && settles(
            if old(s).remaining().len() > 0 && at_kind(old(s).remaining(), TokenKind::ReturnKeyword) { expr_end(old(s).remaining().drop_first()) } else { Err(unexpected_at(old(s).remaining())) },
            r,
            final(s).remaining(),
        ),
        r matches Ok(x) ==> x.loc.end == current_token(final(s).remaining()).pos,
    decreases old(s).remaining().len(), 27nat,
{
    let start_pos = s.expect_and_next(&TokenKind::ReturnKeyword)?.pos;
    let expr = parse_expr(s, false)?;

    Ok(ast::Return { loc: Loc { start: start_pos, end: s.get_pos() }, expr })
}

/// ```abnf
/// StatementWithAttr = *Attr Statement
/// ```
#[verifier::rlimit(100)]
fn parse_statement_with_attr<S: ITokenStream>(s: &mut S) -> (r: EngineResult<ast::Definition>)
    requires
        at_kind(old(s).remaining(), TokenKind::OpenSharpBracket),
    ensures
        final(s).remaining().len() <= old(s).remaining().len(),
        r is Ok ==> final(s).remaining().len() < old(s).remaining().len(),
        r matches Ok(d) ==> reads_with_attr(old(s).remaining(), final(s).remaining(), d),
        old(s).reliable() ==> final(s).reliable() && settles(
            with_attr_end(old(s).remaining()),
            r,
            final(s).remaining(),
        ),
    decreases old(s).remaining().len(), 28nat,
{
    let ghost t0 = s.remaining();
    let mut attrs: Vec<ast::Attribute> = Vec::new();
    while at(s, &TokenKind::OpenSharpBracket)
        invariant
            s.remaining().len() < old(s).remaining().len() || (s.remaining() == old(s).remaining()
                && at_kind(s.remaining(), TokenKind::OpenSharpBracket)),
            t0 == old(s).remaining(),
            s.remaining().len() <= t0.len(),
            reads_attrs(t0, s.remaining(), attrs@),
            attrs@.len() == 0 ==> s.remaining() == t0,
            old(s).reliable() ==> s.reliable() && attrs_end(s.remaining()) == attrs_end(t0),
        decreases s.remaining().len(),
    {
        let ghost p = s.remaining();
        let ghost before = attrs@;
        let a = match parse_attr(s) {
            Ok(v) => v,
            Err(err) => {
                proof {
                    if old(s).reliable() {
                        assert(attrs_end(p) is Err);
                        assert(attrs_end(t0) is Err);
                        assert(with_attr_end(t0) is Err);
                    }
                }
                return Err(err);
            },
        };
        let ghost q = s.remaining();
        let ghost av = a;
        attrs.push(a);
        match s.expect_and_next(&TokenKind::NewLine) {
            Ok(_) => {},
            Err(err) => {
                proof {
                    if old(s).reliable() {
                        assert(attrs_end(p) is Err);
                        assert(attrs_end(t0) is Err);
                        assert(with_attr_end(t0) is Err);
                    }
                }
                return Err(err);
            },
        }
        proof {
            assert(boundary(p));
            assert(boundary(q));
            assert(attrs@.drop_last() =~= before);
            assert(attrs@.last() == av);
            assert(reads_attrs(t0, s.remaining(), attrs@));
            if old(s).reliable() {
                assert(attrs_end(p) == attrs_end(s.remaining()));
            }
        }
    }
    let ghost m = s.remaining();
    let ghost attrs_v = attrs@;
    proof {
        if old(s).reliable() {
            assert(attrs_end(m) == Extent::Ok(m));
            assert(m.len() < t0.len());
        }
    }

    let statement = match parse_statement(s) {
        Ok(v) => v,
        Err(err) => {
            proof {
                if old(s).reliable() {
                    assert(statement_end(m) is Err);
                    assert(with_attr_end(t0) == statement_end(m));
                }
            }
            return Err(err);
        },
    };
    let loc = statement.loc().start;

    if let StatementOrExpression::Statement(statement) = statement {
        if let Statement::Def(mut statement) = statement {
            let ghost d0 = statement;
            statement.attr.append(&mut attrs);
            proof {
                assert(boundary(m));
                assert(statement.attr@ =~= attrs_v);
                assert(reads_statement(m, s.remaining(), StatementOrExpression::Statement(Statement::Def(d0))));
                if m[0].kind is VarKeyword || m[0].kind is LetKeyword {
                    assert(reads_var_def(m, s.remaining(), d0));
                    assert(reads_var_def(m, s.remaining(), statement));
                } else {
                    assert(reads_fn_def(m, s.remaining(), d0));
                    assert(reads_fn_def(m, s.remaining(), statement));
                }
            }
            proof {
                if old(s).reliable() {
                    assert(statement_end(m) == Extent::Ok(s.remaining()));
                    assert(with_attr_end(t0) == Extent::Ok(s.remaining()));
                }
            }
            return Ok(statement);
        }
    }
    proof {
        if old(s).reliable() {
            assert(!(at_kind(m, TokenKind::VarKeyword) || at_kind(m, TokenKind::LetKeyword) || (at_kind(
                m,
                TokenKind::At,
            ) && token_at(m, 1).kind is Identifier)));
            assert(loc == statement_pos(m));
            assert(statement_end(m) is Ok);
            assert(with_attr_end(t0) == Extent::Err(("invalid attribute."@, statement_pos(m))));
        }
    }

    Err(syntax_error("invalid attribute.", loc))
}

/// ```abnf
/// Attr = "#[" IDENT [StaticExpr] "]"
/// ```
fn parse_attr<S: ITokenStream>(s: &mut S) -> (r: EngineResult<ast::Attribute>)
    ensures
        final(s).remaining().len() <= old(s).remaining().len(),
        r is Ok ==> final(s).remaining().len() < old(s).remaining().len(),
        r matches Ok(a) ==> a.loc.start == current_token(old(s).remaining()).pos,
        !at_kind(old(s).remaining(), TokenKind::OpenSharpBracket) ==> r is Err,
        r matches Ok(a) ==> reads_attr(old(s).remaining(), final(s).remaining(), a),
        old(s).reliable() ==> final(s).reliable() && settles(attr_end(old(s).remaining()), r, final(s).remaining()),
        r matches Ok(a) ==> a.loc.end == current_token(final(s).remaining()).pos,
    decreases old(s).remaining().len(), 27nat,
{
    let ghost t0 = s.remaining();
    let start_pos = s.expect_and_next(&TokenKind::OpenSharpBracket)?.pos;

    let name = s.expect_identifier_and_next()?.raw;
    proof {
        assert(t0.drop_first().drop_first() =~= t0.skip(2));
    }

    let value = if !at(s, &TokenKind::CloseBracket) {
        parse_expr(s, true)?
    } else {
        let close_pos = s.get_pos();
        Expression::Bool(ast::Bool { loc: Loc { start: close_pos, end: close_pos }, value: true })
    };
    let ghost m = s.remaining();

    s.expect_and_next(&TokenKind::CloseBracket)?;
    proof {
        assert(boundary(m));
    }

    Ok(ast::Attribute { loc: Loc { start: start_pos, end: s.get_pos() }, name, value })
}

/// ```abnf
/// Loop = "loop" Block
/// ```
fn parse_loop<S: ITokenStream>(s: &mut S) -> (r: EngineResult<ast::Loop>)
    ensures
        final(s).remaining().len() <= old(s).remaining().len(),
        r is Ok ==> final(s).remaining().len() < old(s).remaining().len(),
        r matches Ok(l) ==> l.loc.start == current_token(old(s).remaining()).pos,
        r matches Ok(l) ==> final(s).remaining().len() < old(s).remaining().len() && reads_block(
            old(s).remaining().drop_first(),
            final(s).remaining(),
            l.statements@,
        ),
        !at_kind(old(s).remaining(), TokenKind::LoopKeyword) ==> r is Err,
        old(s).reliable() ==> final(s).reliable() && settles(
            if old(s).remaining().len() > 0 && at_kind(old(s).remaining(), TokenKind::LoopKeyword) { block_end(old(s).remaining().drop_first()) } else { Err(unexpected_at(old(s).remaining())) },
            r,
            final(s).remaining(),
        ),
        r matches Ok(l) ==> l.loc.end == current_token(final(s).remaining()).pos,
    decreases old(s).remaining().len(), 27nat,
{
    let start_pos = s.expect_and_next(&TokenKind::LoopKeyword)?.pos;
    let statements = parse_block(s)?;

    Ok(ast::Loop { loc: Loc { start: start_pos, end: s.get_pos() }, statements })
}

/// `if !cond break` with the given locations: the exit test of a loop.
fn exit_test(cond: Expression, cond_loc: Loc, break_pos: crate::common::position::Position) -> (r:
    StatementOrExpression)
    ensures
        is_exit_test(r),
        r matches StatementOrExpression::Expression(Expression::If(i)) && *i.cond matches Expression::Not(c)
            && *c.expr == cond,
{
    StatementOrExpression::Expression(
        Expression::If(
            ast::If {
                loc: cond_loc,
                cond: Box::new(Expression::Not(ast::Not { loc: cond_loc, expr: Box::new(cond) })),
                then_statement: Box::new(
                    StatementOrExpression::Statement(
                        Statement::Break(ast::Break { loc: Loc { start: break_pos, end: break_pos } }),
                    ),
                ),
                elseif: Vec::new(),
                else_statement: None,
            },
        ),
    )
}

/// Whether a node is `if !cond break`, with no `elif` and no `else`.
pub open spec fn is_exit_test(x: StatementOrExpression) -> bool {
    x matches StatementOrExpression::Expression(Expression::If(i)) && {
        &&& *i.cond is Not
        &&& *i.then_statement matches StatementOrExpression::Statement(Statement::Break(_))
        &&& i.elseif@.len() == 0
        &&& i.else_statement is None
    }
}

/// ```abnf
/// DoWhile = "do" BlockOrStatement "while" Expr
/// ```
fn parse_do_while<S: ITokenStream>(s: &mut S) -> (r: EngineResult<ast::Loop>)
    ensures
        final(s).remaining().len() <= old(s).remaining().len(),
        r is Ok ==> final(s).remaining().len() < old(s).remaining().len(),
        r matches Ok(l) ==> {
            &&& l.loc.start == current_token(old(s).remaining()).pos
            &&& l.statements@.len() == 2
            &&& is_exit_test(l.statements@[1])
        },
        !at_kind(old(s).remaining(), TokenKind::DoKeyword) ==> r is Err,
        r matches Ok(l) ==> reads_do_while(old(s).remaining(), final(s).remaining(), l),
        old(s).reliable() ==> final(s).reliable() && settles(
            do_while_end(old(s).remaining()),
            r,
            final(s).remaining(),
        ),
        r matches Ok(l) ==> l.loc.end == current_token(final(s).remaining()).pos,
    decreases old(s).remaining().len(), 27nat,
{
    let do_start_pos = s.expect_and_next(&TokenKind::DoKeyword)?.pos;
    let body = parse_block_or_statement(s)?;
    let ghost m = s.remaining();
    let while_pos = s.expect_and_next(&TokenKind::WhileKeyword)?.pos;
    let cond = parse_expr(s, false)?;
    let ghost cv = cond;
    let end_pos = s.get_pos();

    let mut statements: Vec<StatementOrExpression> = Vec::new();
    statements.push(body);
    statements.push(exit_test(cond, Loc { start: while_pos, end: end_pos }, end_pos));
    proof {
        assert(boundary(m));
    }
    Ok(ast::Loop { loc: Loc { start: do_start_pos, end: end_pos }, statements })
}

/// ```abnf
/// While = "while" Expr BlockOrStatement
/// ```
fn parse_while<S: ITokenStream>(s: &mut S) -> (r: EngineResult<ast::Loop>)
    ensures
        final(s).remaining().len() <= old(s).remaining().len(),
        r is Ok ==> final(s).remaining().len() < old(s).remaining().len(),
        r matches Ok(l) ==> {
            &&& l.loc.start == current_token(old(s).remaining()).pos
            &&& l.statements@.len() == 2
            &&& is_exit_test(l.statements@[0])
        },
        !at_kind(old(s).remaining(), TokenKind::WhileKeyword) ==> r is Err,
        r matches Ok(l) ==> reads_while(old(s).remaining(), final(s).remaining(), l),
        old(s).reliable() ==> final(s).reliable() && settles(
            while_end(old(s).remaining()),
            r,
            final(s).remaining(),
        ),
        r matches Ok(l) ==> l.loc.end == current_token(final(s).remaining()).pos,
    decreases old(s).remaining().len(), 27nat,
{
    let start_pos = s.expect_and_next(&TokenKind::WhileKeyword)?.pos;
    let cond = parse_expr(s, false)?;
    let ghost m = s.remaining();
    let cond_end_pos = s.get_pos();
    let body = parse_block_or_statement(s)?;

    let mut statements: Vec<StatementOrExpression> = Vec::new();
    statements.push(exit_test(cond, Loc { start: start_pos, end: cond_end_pos }, cond_end_pos));
    statements.push(body);
    proof {
        assert(boundary(m));
    }
    Ok(ast::Loop { loc: Loc { start: start_pos, end: s.get_pos() }, statements })
}

/// The operator that the kind `kind` stands for in an assignment, if any.
pub open spec fn assign_operator(kind: TokenKind) -> Option<ast::AssignOperator> {
    match kind {
        TokenKind::Eq => Some(ast::AssignOperator::Assign),
        TokenKind::PlusEq => Some(ast::AssignOperator::AddAssign),
        TokenKind::MinusEq => Some(ast::AssignOperator::SubAssign),
        _ => None,
    }
}

/// ```abnf
/// Assign = Expr ("=" / "+=" / "-=") Expr
/// ```
fn try_parse_assign<S: ITokenStream>(s: &mut S, dest: Expression) -> (r: EngineResult<
    StatementOrExpression,
>)
    ensures
        final(s).remaining().len() <= old(s).remaining().len(),
        match assign_operator(current_token(old(s).remaining()).kind) {
            None => r == Ok::<StatementOrExpression, crate::common::error::AiScriptBasicError>(
                StatementOrExpression::Expression(dest),
            ) && final(s).remaining() == old(s).remaining(),
            Some(op) => r matches Ok(x) ==> x matches StatementOrExpression::Statement(
                Statement::Assign(a),
            ) && a.op == op && a.dest == dest && a.loc.start == current_token(old(s).remaining()).pos && final(s).remaining().len() < old(
                s,
            ).remaining().len() && reads_expr(
                old(s).remaining().drop_first(),
                final(s).remaining(),
                a.expr,
                false,
            ),
        },
        old(s).reliable() ==> final(s).reliable() && settles(
            if old(s).remaining().len() > 0 && assign_operator(old(s).remaining()[0].kind) is Some { expr_end(old(s).remaining().drop_first()) } else { Ok(old(s).remaining()) },
            r,
            final(s).remaining(),
        ),
    decreases old(s).remaining().len(), 27nat,
{
    let op = match s.get_token_kind() {
        TokenKind::Eq => ast::AssignOperator::Assign,
        TokenKind::PlusEq => ast::AssignOperator::AddAssign,
        TokenKind::MinusEq => ast::AssignOperator::SubAssign,
        _ => {
            return Ok(StatementOrExpression::Expression(dest));
        },
    };

    // Assign
    let start_pos = s.next()?.pos;
    let expr = parse_expr(s, false)?;
    Ok(
        StatementOrExpression::Statement(
            Statement::Assign(
                ast::Assign { loc: Loc { start: start_pos, end: s.get_pos() }, op, dest, expr },
            ),
        ),
    )
}

} // verus!
