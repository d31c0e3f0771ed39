use vstd::prelude::*;

use crate::ast::nodes::{self as ast, Loc, StatementOrExpression};
use crate::common::error::{syntax_error, EngineResult};
use crate::common::path::NamePath;
use crate::lexer::token::{RawToken, Token, TokenKind};
use crate::lexer::token_stream::{advance, at_kind, current_token, ITokenStream};

use super::expressions::parse_expr;
use super::grammar::{
    boundary, param_then_separator, reads_block, reads_dest, reads_param_list, reads_params,
    reads_statements, skip_newline, skip_newlines, terminated,
};
use super::statement::parse_statement;



use super::extent::{settles, after_separator, type_end, named_type_end, fn_type_end, type_params_end, type_after_colon, params_end, params_list, param_value_end, dest_end, block_end, statements_list, Extent};

verus! {

/// The kinds of the tokens.
pub open spec fn kinds_of(ts: Seq<Token>) -> Seq<TokenKind> {
    ts.map_values(|t: Token| t.kind)
}

/// Whether `after` is what is left of `before` once some of its first tokens are read.
pub open spec fn is_rest(before: Seq<Token>, after: Seq<Token>) -> bool {
    after.len() <= before.len() && after == before.skip(before.len() - after.len())
}

/// The tokens read to go from `before` to `after`.
pub open spec fn read_tokens(before: Seq<Token>, after: Seq<Token>) -> Seq<Token> {
    before.take(before.len() - after.len())
}

/// The kinds of the tokens that spell the written type `t`.
pub open spec fn type_spelling(t: ast::TypeSource) -> Seq<TokenKind>
    decreases t, 1nat,
{
    match t {
        ast::TypeSource::NamedTypeSource(n) => seq![TokenKind::Identifier(n.name)] + match n.inner {
            Some(i) => seq![TokenKind::Lt] + type_spelling(*i) + seq![TokenKind::Gt],
            None => Seq::empty(),
        },
        ast::TypeSource::FnTypeSource(f) => {
            proof {
                assert(decreases_to!(f.args => f.args@));
            }
            seq![TokenKind::At, TokenKind::OpenParen] + args_spelling(f.args@) + seq![
                TokenKind::CloseParen,
                TokenKind::Arrow,
            ] + type_spelling(*f.result)
        },
    }
}

/// The kinds of the tokens that spell the parameter types `args`, separated by commas.
pub open spec fn args_spelling(args: Seq<ast::TypeSource>) -> Seq<TokenKind>
    decreases args, 0nat,
{
    if args.len() == 0 {
        Seq::empty()
    } else if args.len() == 1 {
        type_spelling(args[0])
    } else {
        args_spelling(args.drop_last()) + seq![TokenKind::Comma] + type_spelling(args.last())
    }
}

/// Reading the first token reads that token.
pub proof fn lemma_read_one(ts: Seq<Token>)
    requires
        ts.len() > 0,
    ensures
        is_rest(ts, advance(ts)),
        kinds_of(read_tokens(ts, advance(ts))) == seq![ts[0].kind],
{
    assert(advance(ts) =~= ts.skip(1));
    assert(kinds_of(read_tokens(ts, advance(ts))) =~= seq![ts[0].kind]);
}

/// Reading from `a` to `b`, then from `b` to `c`, reads from `a` to `c` the tokens of both.
pub proof fn lemma_read_chain(a: Seq<Token>, b: Seq<Token>, c: Seq<Token>)
    requires
        is_rest(a, b),
        is_rest(b, c),
    ensures
        is_rest(a, c),
        kinds_of(read_tokens(a, c)) == kinds_of(read_tokens(a, b)) + kinds_of(read_tokens(b, c)),
{
    assert(c =~= a.skip(a.len() - c.len()));
    assert(kinds_of(read_tokens(a, c)) =~= kinds_of(read_tokens(a, b)) + kinds_of(read_tokens(b, c)));
}

/// Whether the cursor is on a token of the kind of `kind`.
pub fn at<S: ITokenStream>(s: &S, kind: &TokenKind) -> (r: bool)
    ensures
        r == at_kind(s.remaining(), *kind),
{
    s.get_token_kind().same_kind(kind)
}

/// Moves the cursor past one new line, if it is on one.
pub fn skip_one_newline<S: ITokenStream>(s: &mut S) -> (r: EngineResult<()>)
    ensures
        final(s).remaining().len() <= old(s).remaining().len(),
        r is Ok && !at_kind(old(s).remaining(), TokenKind::NewLine) ==> final(s).remaining()
            == old(s).remaining(),
        r is Ok ==> final(s).remaining() == super::grammar::skip_newline(old(s).remaining()),
        old(s).reliable() ==> r is Ok && final(s).reliable(),
{
    if at(s, &TokenKind::NewLine) {
        s.next()?;
    }
    Ok(())
}

/// ```abnf
/// Dest = IDENT / Expr
/// ```
pub fn parse_dest<S: ITokenStream>(s: &mut S) -> (r: EngineResult<ast::Expression>)
    ensures
        final(s).remaining().len() <= old(s).remaining().len(),
        r is Ok ==> final(s).remaining().len() < old(s).remaining().len(),
        current_token(old(s).remaining()).kind is Identifier ==> (r matches Ok(e) ==> e is Identifier),
        r matches Ok(e) ==> reads_dest(old(s).remaining(), final(s).remaining(), e),
        old(s).reliable() ==> final(s).reliable() && settles(
            dest_end(old(s).remaining()),
            r,
            final(s).remaining(),
        ),
    decreases old(s).remaining().len(), 26nat,
{
    if let Some(token) = s.optional_identifer()? {
        let RawToken { raw: name, pos: name_start_pos, .. } = token;
        Ok(
            ast::Expression::Identifier(
                ast::Identifier {
                    loc: Loc { start: name_start_pos, end: s.get_pos() },
                    name: NamePath::from_string(name),
                },
            ),
        )
    } else {
        parse_expr(s, false)
    }
}

/// ```abnf
/// Params = "(" [Dest [":" Type] *(SEP Dest [":" Type])] ")"
/// ```
#[verifier::rlimit(60)]
pub fn parse_params<S: ITokenStream>(s: &mut S) -> (r: EngineResult<Vec<ast::FnArg>>)
    ensures
        final(s).remaining().len() <= old(s).remaining().len(),
        r is Ok ==> final(s).remaining().len() < old(s).remaining().len(),
        !at_kind(old(s).remaining(), TokenKind::OpenParen) ==> r is Err,
        r matches Ok(args) ==> reads_params(old(s).remaining(), final(s).remaining(), args@),
        old(s).reliable() ==> final(s).reliable() && settles(
            params_end(old(s).remaining()),
            r,
            final(s).remaining(),
        ),
    decreases old(s).remaining().len(), 27nat,
{
    let ghost t0 = s.remaining();
    let mut items: Vec<ast::FnArg> = Vec::new();

    s.expect_and_next(&TokenKind::OpenParen)?;

    skip_one_newline(s)?;
    let ghost b = s.remaining();

    while !at(s, &TokenKind::CloseParen)
        invariant
            s.remaining().len() < old(s).remaining().len(),
            t0 == old(s).remaining(),
            b == skip_newline(t0.drop_first()),
            s.remaining().len() <= b.len(),
            reads_param_list(b, s.remaining(), items@),
            old(s).reliable() ==> s.reliable() && at_kind(t0, TokenKind::OpenParen) && params_list(
                s.remaining(),
            ) == params_list(b),
        decreases s.remaining().len(),
    {
        let ghost p = s.remaining();
        let ghost before = items@;
        let dest = match parse_dest(s) {
            Ok(v) => v,
            Err(err) => {
                proof {
                    if old(s).reliable() {
                        assert(params_list(p) is Err);
                        assert(params_end(t0) is Err);
                    }
                }
                return Err(err);
            },
        };
        let ghost q1 = s.remaining();

        let value = if at(s, &TokenKind::Question) {
            s.next()?;
            ast::FnArgValue::Optional
        } else if at(s, &TokenKind::Eq) {
            s.next()?;
            let d = match parse_expr(s, false) {
                Ok(v) => v,
                Err(err) => {
                    proof {
                        if old(s).reliable() {
                            assert(param_value_end(q1) is Err);
                            assert(params_list(p) is Err);
                            assert(params_end(t0) is Err);
                        }
                    }
                    return Err(err);
                },
            };
            ast::FnArgValue::Required { default: Some(d) }
        } else {
            ast::FnArgValue::Required { default: None }
        };
        let ghost q2 = s.remaining();
        let ty = if at(s, &TokenKind::Colon) {
            s.next()?;
            let t = match parse_type(s) {
                Ok(v) => v,
                Err(err) => {
                    proof {
                        if old(s).reliable() {
                            assert(type_after_colon(q2) is Err);
                            assert(params_list(p) is Err);
                            assert(params_end(t0) is Err);
                        }
                    }
                    return Err(err);
                },
            };
            Some(t)
        } else {
            None
        };
        let ghost q3 = s.remaining();

        items.push(ast::FnArg { dest, value, arg_type: ty });

        // separator
        if at(s, &TokenKind::NewLine) {
            s.next()?;
        } else if at(s, &TokenKind::Comma) {
            s.next()?;
            skip_one_newline(s)?;
        } else if at(s, &TokenKind::CloseParen) {
        } else {
            proof {
                if old(s).reliable() {
                    assert(param_value_end(q1) == Extent::Ok(q2));
                    assert(type_after_colon(q2) == Extent::Ok(q3));
                    assert(after_separator(q3, TokenKind::CloseParen) is Err);
                    assert(params_list(p) is Err);
                    assert(params_end(t0) is Err);
                }
            }
            return Err(syntax_error("separator expected", s.get_pos()));
        }
        proof {
            if old(s).reliable() {
                assert(param_value_end(q1) == Extent::Ok(q2));
                assert(type_after_colon(q2) == Extent::Ok(q3));
                assert(after_separator(q3, TokenKind::CloseParen) == Extent::Ok(s.remaining()));
                assert(params_list(p) == params_list(s.remaining()));
            }
            assert(boundary(p));
            assert(boundary(q1));
            assert(boundary(q2));
            assert(boundary(q3));
            assert(items@.drop_last() =~= before);
            assert(param_then_separator(p, s.remaining(), items@.last()));
            assert(reads_param_list(b, s.remaining(), items@));
        }
    }

    let ghost m = s.remaining();
    s.expect_and_next(&TokenKind::CloseParen)?;
    proof {
        assert(boundary(m));
    }

    Ok(items)
}

/// ```abnf
/// Block = "{" *Statement "}"
/// ```
pub fn parse_block<S: ITokenStream>(s: &mut S) -> (r: EngineResult<Vec<StatementOrExpression>>)
    ensures
        final(s).remaining().len() <= old(s).remaining().len(),
        r is Ok ==> final(s).remaining().len() < old(s).remaining().len(),
        !at_kind(old(s).remaining(), TokenKind::OpenBrace) ==> r is Err,
        r matches Ok(ss) ==> reads_block(old(s).remaining(), final(s).remaining(), ss@),
        old(s).reliable() ==> final(s).reliable() && settles(
            block_end(old(s).remaining()),
            r,
            final(s).remaining(),
        ),
    decreases old(s).remaining().len(), 27nat,
{
    let ghost t0 = s.remaining();
    s.expect_and_next(&TokenKind::OpenBrace)?;

    let newline = [TokenKind::NewLine];
    proof {
        assert(newline@ =~= seq![TokenKind::NewLine]);
    }
    s.skip_while(&newline)?;
    let ghost b = s.remaining();
    proof {
        assert(b == skip_newlines(t0.drop_first()));
    }

    let mut steps: Vec<StatementOrExpression> = Vec::new();
    while !at(s, &TokenKind::CloseBrace)
        invariant
            s.remaining().len() < old(s).remaining().len(),
            t0 == old(s).remaining(),
            b == skip_newlines(t0.drop_first()),
            b.len() < t0.len(),
            s.remaining().len() <= b.len(),
            reads_statements(b, s.remaining(), steps@, TokenKind::CloseBrace),
            old(s).reliable() ==> s.reliable() && at_kind(t0, TokenKind::OpenBrace)
                && statements_list(s.remaining()) == statements_list(b),
        decreases s.remaining().len(),
    {
        let ghost p = s.remaining();
        let ghost before = steps@;
        let st = match parse_statement(s) {
            Ok(v) => v,
            Err(err) => {
                proof {
                    if old(s).reliable() {
                        assert(statements_list(p) is Err);
                        assert(block_end(t0) is Err);
                    }
                }
                return Err(err);
            },
        };
        let ghost q = s.remaining();
        let ghost stv = st;
        steps.push(st);

        // terminator
        if at(s, &TokenKind::NewLine) || at(s, &TokenKind::SemiColon) {
            let terminators = [TokenKind::NewLine, TokenKind::SemiColon];
            proof {
                assert(terminators@ =~= seq![TokenKind::NewLine, TokenKind::SemiColon]);
            }
            s.skip_while(&terminators)?;
        } else if at(s, &TokenKind::CloseBrace) {
        } else {
            proof {
                if old(s).reliable() {
                    assert(statements_list(p) is Err);
                    assert(block_end(t0) is Err);
                }
            }
            return Err(
                syntax_error("Multiple statements cannot be placed on a single line.", s.get_pos()),
            );
        }
        proof {
            if old(s).reliable() {
                assert(statements_list(p) == statements_list(s.remaining()));
            }
            assert(boundary(p));
            assert(boundary(q));
            assert(steps@.drop_last() =~= before);
            assert(steps@.last() == stv);
            assert(terminated(q, s.remaining(), TokenKind::CloseBrace));
            assert(reads_statements(b, s.remaining(), steps@, TokenKind::CloseBrace));
        }
    }

    let ghost m = s.remaining();
    s.expect_and_next(&TokenKind::CloseBrace)?;
    proof {
        assert(boundary(m));
    }

    Ok(steps)
}

/// ```abnf
/// Type = FnType / NamedType
/// ```
pub fn parse_type<S: ITokenStream>(s: &mut S) -> (r: EngineResult<ast::TypeSource>)
    ensures
        final(s).remaining().len() <= old(s).remaining().len(),
        r is Ok ==> final(s).remaining().len() < old(s).remaining().len(),
        r matches Ok(t) ==> t.loc_spec().start == current_token(old(s).remaining()).pos,
        r matches Ok(t) ==> (t is FnTypeSource <==> current_token(old(s).remaining()).kind is At),
        r matches Ok(t) ==> is_rest(old(s).remaining(), final(s).remaining()) && kinds_of(
            read_tokens(old(s).remaining(), final(s).remaining()),
        ) == type_spelling(t),
        old(s).reliable() ==> final(s).reliable() && settles(type_end(old(s).remaining()), r, final(s).remaining()),
        r matches Ok(t) ==> t.loc_spec().end == current_token(final(s).remaining()).pos,
    decreases old(s).remaining().len(), 1nat,
{
    if at(s, &TokenKind::At) {
        parse_fn_type(s)
    } else {
        parse_named_type(s)
    }
}

/// ```abnf
/// FnType = "@" "(" ParamTypes ")" "=>" Type
/// ParamTypes = [Type *(SEP Type)]
/// ```
fn parse_fn_type<S: ITokenStream>(s: &mut S) -> (r: EngineResult<ast::TypeSource>)
    requires
        current_token(old(s).remaining()).kind is At,
    ensures
        final(s).remaining().len() <= old(s).remaining().len(),
        r is Ok ==> final(s).remaining().len() < old(s).remaining().len(),
        r matches Ok(t) ==> t is FnTypeSource && t.loc_spec().start == current_token(
            old(s).remaining(),
        ).pos,
        r matches Ok(t) ==> is_rest(old(s).remaining(), final(s).remaining()) && kinds_of(
            read_tokens(old(s).remaining(), final(s).remaining()),
        ) == type_spelling(t),
        old(s).reliable() ==> final(s).reliable() && settles(fn_type_end(old(s).remaining()), r, final(s).remaining()),
        r matches Ok(t) ==> t.loc_spec().end == current_token(final(s).remaining()).pos,
    decreases old(s).remaining().len(), 0nat,
{
    let ghost t0 = s.remaining();
    let start_pos = s.expect_and_next(&TokenKind::At)?.pos;
    let ghost t1 = s.remaining();
    s.expect_and_next(&TokenKind::OpenParen)?;
    let ghost t2 = s.remaining();
    proof {
        lemma_read_one(t0);
        lemma_read_one(t1);
        lemma_read_chain(t0, t1, t2);
        assert(current_token(t1).kind == TokenKind::OpenParen);
        assert(kinds_of(read_tokens(t0, t2)) =~= seq![TokenKind::At, TokenKind::OpenParen] + args_spelling(Seq::<ast::TypeSource>::empty()));
    }

    let mut params: Vec<ast::TypeSource> = Vec::new();
    while !at(s, &TokenKind::CloseParen)
        invariant
            s.remaining().len() < old(s).remaining().len(),
            t0 == old(s).remaining(),
            is_rest(t0, s.remaining()),
            kinds_of(read_tokens(t0, s.remaining())) == seq![TokenKind::At, TokenKind::OpenParen]
                + args_spelling(params@),
            old(s).reliable() ==> s.reliable() && t0.len() >= 2 && at_kind(t0, TokenKind::At)
                && at_kind(t0.drop_first(), TokenKind::OpenParen) && type_params_end(
                s.remaining(),
                params@.len() == 0,
            ) == type_params_end(t0.drop_first().drop_first(), true),
        decreases s.remaining().len(),
    {
        let ghost before = s.remaining();
        let ghost ps = params@;
        if params.len() > 0 {
            if at(s, &TokenKind::Comma) {
                s.next()?;
                proof {
                    lemma_read_one(before);
                    lemma_read_chain(t0, before, s.remaining());
                }
            } else {
                proof {
                    if old(s).reliable() {
                        assert(type_params_end(before, false) is Err);
                        assert(fn_type_end(t0) is Err);
                    }
                }
                return Err(syntax_error("separator expected", s.get_pos()));
            }
        }
        let ghost mid = s.remaining();
        let ty = match parse_type(s) {
            Ok(ty) => ty,
            Err(err) => {
                proof {
                    if old(s).reliable() {
                        assert(type_params_end(before, ps.len() == 0) is Err);
                        assert(fn_type_end(t0) is Err);
                    }
                }
                return Err(err);
            },
        };
        proof {
            if old(s).reliable() {
                assert(type_params_end(before, ps.len() == 0) == type_params_end(s.remaining(), false));
            }
        }
        let ghost tyv = ty;
        params.push(ty);
        proof {
            if ps.len() > 0 {
                lemma_read_chain(t0, mid, s.remaining());
                assert(params@.drop_last() =~= ps);
                assert(kinds_of(read_tokens(t0, s.remaining())) =~= seq![TokenKind::At, TokenKind::OpenParen]
                    + args_spelling(params@));
            } else {
                lemma_read_chain(t0, mid, s.remaining());
                assert(params@ =~= seq![tyv]);
                assert(args_spelling(ps) =~= Seq::<TokenKind>::empty());
                assert(kinds_of(read_tokens(t0, s.remaining())) =~= seq![TokenKind::At, TokenKind::OpenParen]
                    + args_spelling(params@));
            }
        }
    }

    let ghost t3 = s.remaining();
    proof {
        if old(s).reliable() {
            assert(read_tokens(t0, t3).len() == kinds_of(read_tokens(t0, t3)).len());
            assert(t3.len() + 2 <= t0.len());
            assert(type_params_end(t3, params@.len() == 0) == Extent::Ok(t3));
        }
    }
    s.expect_and_next(&TokenKind::CloseParen)?;
    let ghost t4 = s.remaining();
    match s.expect_and_next(&TokenKind::Arrow) {
        Ok(_) => {},
        Err(err) => {
            proof {
                if old(s).reliable() {
                    assert(t3.len() > 0);
                    assert(fn_type_end(t0) is Err);
                }
            }
            return Err(err);
        },
    }
    let ghost t5 = s.remaining();
    proof {
        if old(s).reliable() {
            assert(t3.len() >= 2);
            assert(t3.skip(2) =~= t5);
        }
    }

    let result_type = parse_type(s)?;
    proof {
        lemma_read_one(t3);
        lemma_read_one(t4);
        lemma_read_chain(t0, t3, t4);
        lemma_read_chain(t0, t4, t5);
        lemma_read_chain(t0, t5, s.remaining());
        assert(current_token(t3).kind == TokenKind::CloseParen);
        assert(current_token(t4).kind == TokenKind::Arrow);
    }

    let r = ast::TypeSource::FnTypeSource(
        ast::FnTypeSource {
            loc: Loc { start: start_pos, end: s.get_pos() },
            args: params,
            result: Box::new(result_type),
        },
    );
    proof {
        assert(kinds_of(read_tokens(t0, s.remaining())) =~= type_spelling(r));
    }
    Ok(r)
}

/// ```abnf
/// NamedType = IDENT ["<" Type ">"]
/// ```
fn parse_named_type<S: ITokenStream>(s: &mut S) -> (r: EngineResult<ast::TypeSource>)
    ensures
        final(s).remaining().len() <= old(s).remaining().len(),
        r is Ok ==> final(s).remaining().len() < old(s).remaining().len(),
        r matches Ok(t) ==> t matches ast::TypeSource::NamedTypeSource(n) && current_token(
            old(s).remaining(),
        ).kind == TokenKind::Identifier(n.name) && n.loc.start == current_token(
            old(s).remaining(),
        ).pos,
        !(current_token(old(s).remaining()).kind is Identifier) ==> r is Err,
        r matches Ok(t) ==> is_rest(old(s).remaining(), final(s).remaining()) && kinds_of(
            read_tokens(old(s).remaining(), final(s).remaining()),
        ) == type_spelling(t),
        old(s).reliable() ==> final(s).reliable() && settles(named_type_end(old(s).remaining()), r, final(s).remaining()),
        r matches Ok(t) ==> t.loc_spec().end == current_token(final(s).remaining()).pos,
    decreases old(s).remaining().len(), 0nat,
{
    let ghost t0 = s.remaining();
    let RawToken { raw: name, pos: start_pos, .. } = s.expect_identifier_and_next()?;
    let ghost t1 = s.remaining();
    proof {
        lemma_read_one(t0);
    }

    // inner type
    let inner = if at(s, &TokenKind::Lt) {
        s.next()?;
        let ghost t2 = s.remaining();
        let inner = parse_type(s)?;
        let ghost t3 = s.remaining();
        s.expect_and_next(&TokenKind::Gt)?;
        proof {
            lemma_read_one(t1);
            lemma_read_one(t3);
            lemma_read_chain(t0, t1, t2);
            lemma_read_chain(t0, t2, t3);
            lemma_read_chain(t0, t3, s.remaining());
            assert(current_token(t1).kind == TokenKind::Lt);
            assert(current_token(t3).kind == TokenKind::Gt);
            assert(kinds_of(read_tokens(t0, s.remaining())) =~= seq![TokenKind::Identifier(name)]
                + (seq![TokenKind::Lt] + type_spelling(inner) + seq![TokenKind::Gt]));
        }
        Some(Box::new(inner))
    } else {
        proof {
            assert(kinds_of(read_tokens(t0, s.remaining())) =~= seq![TokenKind::Identifier(name)]
                + Seq::<TokenKind>::empty());
        }
        None
    };

    Ok(
        ast::TypeSource::NamedTypeSource(
            ast::NamedTypeSource { loc: Loc { start: start_pos, end: s.get_pos() }, name, inner },
        ),
    )
}

} // verus!
