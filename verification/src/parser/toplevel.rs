use vstd::prelude::*;

use crate::ast::nodes::{self as ast, Loc, Node, StatementOrExpression};
use crate::common::error::{syntax_error, EngineResult};
use crate::lexer::token::TokenKind;
use crate::lexer::token_stream::{at_kind, current_token, ITokenStream};

use super::common::at;
use super::expressions::parse_expr;
use super::grammar::{
    boundary, lemma_newlines_stop, lemma_terminators_stop, ns_body_start, reads_member,
    reads_members, reads_meta, reads_namespace, reads_node, reads_nodes, skip_newlines,
    skip_terminators, terminated,
};
use super::statement::{parse_def_statement, parse_statement};




use super::extent::{settles, no_terminator, expect, def_end, namespace_end, members_list, meta_end, node_end, nodes_list, Extent};

verus! {

/// A statement or expression as a top-level node.
fn to_node(x: StatementOrExpression) -> (r: Node)
    ensures
        match x {
            StatementOrExpression::Statement(st) => r == Node::Statement(st),
            StatementOrExpression::Expression(e) => r == Node::Expr(e),
        },
{
    match x {
        StatementOrExpression::Statement(st) => Node::Statement(st),
        StatementOrExpression::Expression(e) => Node::Expr(e),
    }
}

/// ```abnf
/// TopLevel = *(Namespace / Meta / Statement)
/// ```
pub fn parse_top_level<S: ITokenStream>(s: &mut S) -> (r: EngineResult<Vec<Node>>)
    ensures
        final(s).remaining().len() <= old(s).remaining().len(),
        r is Ok ==> current_token(final(s).remaining()).kind is EOF,
        r matches Ok(nodes) ==> reads_nodes(
            skip_newlines(old(s).remaining()),
            final(s).remaining(),
            nodes@,
        ),
        old(s).reliable() ==> final(s).reliable() && settles(
            nodes_list(skip_newlines(old(s).remaining())),
            r,
            final(s).remaining(),
        ),
{
    let ghost t0 = s.remaining();
    let mut nodes: Vec<Node> = Vec::new();

    let newline = [TokenKind::NewLine];
    proof {
        assert(newline@ =~= seq![TokenKind::NewLine]);
    }
    s.skip_while(&newline)?;
    let ghost b = s.remaining();

    while !at(s, &TokenKind::EOF)
        invariant
            s.remaining().len() <= old(s).remaining().len(),
            t0 == old(s).remaining(),
            b == skip_newlines(t0),
            s.remaining().len() <= b.len(),
            reads_nodes(b, s.remaining(), nodes@),
            old(s).reliable() ==> s.reliable() && nodes_list(s.remaining()) == nodes_list(b),
        decreases s.remaining().len(),
    {
        let ghost p = s.remaining();
        let ghost before = nodes@;
        if at(s, &TokenKind::Colon2) {
            let ns = match parse_namespace(s) {
                Ok(v) => v,
                Err(err) => {
                    proof {
                        if old(s).reliable() {
                            assert(node_end(p) is Err);
                            assert(nodes_list(p) is Err);
                            assert(nodes_list(b) is Err);
                        }
                    }
                    return Err(err);
                },
            };
            nodes.push(Node::Ns(ns));
        } else if at(s, &TokenKind::Sharp3) {
            let meta = match parse_meta(s) {
                Ok(v) => v,
                Err(err) => {
                    proof {
                        if old(s).reliable() {
                            assert(node_end(p) is Err);
                            assert(nodes_list(p) is Err);
                            assert(nodes_list(b) is Err);
                        }
                    }
                    return Err(err);
                },
            };
            nodes.push(Node::Meta(meta));
        } else {
            let st = match parse_statement(s) {
                Ok(v) => v,
                Err(err) => {
                    proof {
                        if old(s).reliable() {
                            assert(node_end(p) is Err);
                            assert(nodes_list(p) is Err);
                            assert(nodes_list(b) is Err);
                        }
                    }
                    return Err(err);
                },
            };
            nodes.push(to_node(st));
        }
        let ghost q = s.remaining();
        proof {
            if old(s).reliable() {
                assert(node_end(p) == Extent::Ok(q));
            }
        }

        // terminator
        if at(s, &TokenKind::NewLine) || at(s, &TokenKind::SemiColon) {
            let terminators = [TokenKind::NewLine, TokenKind::SemiColon];
            proof {
                assert(terminators@ =~= seq![TokenKind::NewLine, TokenKind::SemiColon]);
            }
            s.skip_while(&terminators)?;
        } else if at(s, &TokenKind::EOF) {
        } else {
            proof {
                if old(s).reliable() {
                    assert(nodes_list(p) is Err);
                }
            }
            return Err(
                syntax_error("Multiple statements cannot be placed on a single line.", s.get_pos()),
            );
        }
        proof {
            if old(s).reliable() {
                assert(nodes_list(p) == nodes_list(s.remaining()));
            }
            assert(boundary(p));
            assert(boundary(q));
            assert(nodes@.drop_last() =~= before);
            assert(reads_node(p, q, nodes@.last()));
            assert(terminated(q, s.remaining(), TokenKind::EOF));
            assert(reads_nodes(b, s.remaining(), nodes@));
        }
    }

    Ok(nodes)
}

/// ```abnf
/// Namespace = "::" IDENT "{" *(VarDef / FnDef / Namespace) "}"
/// ```
#[verifier::rlimit(100)]
pub fn parse_namespace<S: ITokenStream>(s: &mut S) -> (r: EngineResult<ast::Namespace>)
    ensures
        final(s).remaining().len() <= old(s).remaining().len(),
        r is Ok ==> final(s).remaining().len() < old(s).remaining().len(),
        r matches Ok(ns) ==> {
            &&& ns.loc.start == current_token(old(s).remaining()).pos
            &&& old(s).remaining().len() >= 2
            &&& old(s).remaining()[1].kind matches TokenKind::Identifier(n) && n@ == ns.name@
        },
        !at_kind(old(s).remaining(), TokenKind::Colon2) ==> r is Err,
        r matches Ok(ns) ==> reads_namespace(old(s).remaining(), final(s).remaining(), ns),
        old(s).reliable() ==> final(s).reliable() && settles(
            namespace_end(old(s).remaining()),
            r,
            final(s).remaining(),
        ),
        r matches Ok(ns) ==> ns.loc.end == current_token(final(s).remaining()).pos,
    decreases old(s).remaining().len(),
{
    let ghost t0 = s.remaining();
    let start_pos = s.get_pos();

    s.expect_and_next(&TokenKind::Colon2)?;

    let name = match s.get_token_kind() {
        TokenKind::Identifier(name) => name.copy(),
        _ => {
            return Err(s.unexpected_token());
        },
    };
    s.next()?;

    let mut members: Vec<ast::NamespaceMember> = Vec::new();
    s.expect_and_next(&TokenKind::OpenBrace)?;
    proof {
        assert(t0.len() >= 3);
        assert(t0.drop_first().drop_first() =~= t0.skip(2));
        assert(t0.skip(2).drop_first() =~= t0.skip(3));
    }

    let newline = [TokenKind::NewLine];
    proof {
        assert(newline@ =~= seq![TokenKind::NewLine]);
    }
    s.skip_while(&newline)?;
    let ghost b0 = s.remaining();
    let ghost bs = ns_body_start(t0.skip(3));
    proof {
        lemma_newlines_stop(t0.skip(3));
        lemma_terminators_stop(b0);
        if old(s).reliable() {
            assert(namespace_end(t0) == match members_list(b0) {
                Ok(m) => expect(m, TokenKind::CloseBrace),
                Err(f) => Err(f),
            });
        }
    }

    while !at(s, &TokenKind::CloseBrace)
        invariant
            s.remaining().len() < old(s).remaining().len(),
            t0 == old(s).remaining(),
            t0.len() >= 3,
            b0 == skip_newlines(t0.skip(3)),
            bs == ns_body_start(t0.skip(3)),
            bs.len() <= b0.len(),
            b0.len() < t0.len(),
            !at_kind(b0, TokenKind::NewLine),
            !at_kind(bs, TokenKind::NewLine),
            !at_kind(bs, TokenKind::SemiColon),
            (members@.len() == 0 && s.remaining() == b0) || (s.remaining().len() <= bs.len()
                && reads_members(bs, s.remaining(), members@) && !at_kind(
                s.remaining(),
                TokenKind::NewLine,
            ) && !at_kind(s.remaining(), TokenKind::SemiColon)),
            old(s).reliable() ==> s.reliable() && members_list(s.remaining()) == members_list(b0)
                && t0[1].kind is Identifier && at_kind(t0.skip(2), TokenKind::OpenBrace),
            old(s).reliable() ==> namespace_end(t0) == match members_list(b0) {
                Ok(m) => expect(m, TokenKind::CloseBrace),
                Err(f) => Err(f),
            },
        decreases s.remaining().len(),
    {
        let ghost p = s.remaining();
        let ghost members_before = members@;
        let ghost before = s.remaining().len();
        let mut consumed = false;
        if at(s, &TokenKind::VarKeyword) || at(s, &TokenKind::LetKeyword) || at(s, &TokenKind::At) {
            let d = match parse_def_statement(s) {
                Ok(v) => v,
                Err(err) => {
                    proof {
                        if old(s).reliable() {
                            assert(members_list(p) is Err);
                            assert(members_list(b0) is Err);
                        }
                    }
                    return Err(err);
                },
            };
            proof {
                if old(s).reliable() {
                    assert(def_end(p) == Extent::Ok(s.remaining()));
                }
            }
            members.push(ast::NamespaceMember::Def(d));
            consumed = true;
        } else if at(s, &TokenKind::Colon2) {
            let ns = match parse_namespace(s) {
                Ok(v) => v,
                Err(err) => {
                    proof {
                        if old(s).reliable() {
                            assert(members_list(p) is Err);
                            assert(members_list(b0) is Err);
                        }
                    }
                    return Err(err);
                },
            };
            members.push(ast::NamespaceMember::Ns(ns));
            consumed = true;
        }
        assert(consumed ==> s.remaining().len() < before);
        let ghost q = s.remaining();

        // terminator
        if at(s, &TokenKind::NewLine) || at(s, &TokenKind::SemiColon) {
            let terminators = [TokenKind::NewLine, TokenKind::SemiColon];
            proof {
                assert(terminators@ =~= seq![TokenKind::NewLine, TokenKind::SemiColon]);
            }
            s.skip_while(&terminators)?;
            proof {
                lemma_terminators_stop(q);
            }
        } else if at(s, &TokenKind::CloseBrace) {
        } else {
            proof {
                if old(s).reliable() {
                    assert(members_list(p) == Extent::Err(no_terminator(q)));
                }
            }
            return Err(
                syntax_error("Multiple statements cannot be placed on a single line.", s.get_pos()),
            );
        }
        proof {
            if old(s).reliable() {
                assert(members_list(p) == members_list(s.remaining()));
            }
            if consumed {
                assert(reads_members(bs, s.remaining(), members@)) by {
                assert(p == b0 && members_before.len() == 0 ==> bs == b0);
                assert(reads_members(bs, p, members_before));
                assert(boundary(p));
                assert(boundary(q));
                assert(members@.drop_last() =~= members_before);
                assert(reads_member(p, q, members@.last()));
                assert(terminated(q, s.remaining(), TokenKind::CloseBrace));
                }
            } else {
                assert(members@ == members_before);
                assert(p == b0 && members_before.len() == 0);
                assert(s.remaining() == bs);
            }
        }
    }
    let ghost m = s.remaining();
    s.expect_and_next(&TokenKind::CloseBrace)?;
    proof {
        if old(s).reliable() {
            assert(members_list(m) == Extent::Ok(m));
            assert(namespace_end(t0) == Extent::Ok(s.remaining()));
        }
        assert(members@.len() == 0 && m == b0 ==> !at_kind(b0, TokenKind::SemiColon) && bs == b0);
        assert(reads_members(bs, m, members@));
        assert(boundary(m));
    }

    Ok(ast::Namespace { loc: Loc { start: start_pos, end: s.get_pos() }, name, members })
}

/// ```abnf
/// Meta = "###" [IDENT] StaticExpr
/// ```
pub fn parse_meta<S: ITokenStream>(s: &mut S) -> (r: EngineResult<ast::Meta>)
    ensures
        final(s).remaining().len() <= old(s).remaining().len(),
        r is Ok ==> final(s).remaining().len() < old(s).remaining().len(),
        r matches Ok(m) ==> {
            &&& m.loc.start == current_token(old(s).remaining()).pos
            &&& m.name is Some <==> (old(s).remaining().len() >= 2
                && old(s).remaining()[1].kind is Identifier)
        },
        !at_kind(old(s).remaining(), TokenKind::Sharp3) ==> r is Err,
        r matches Ok(m) ==> reads_meta(old(s).remaining(), final(s).remaining(), m),
        old(s).reliable() ==> final(s).reliable() && settles(
            meta_end(old(s).remaining()),
            r,
            final(s).remaining(),
        ),
        r matches Ok(m) ==> m.loc.start == current_token(old(s).remaining()).pos && m.loc.end == current_token(final(s).remaining()).pos,
{
    let start_pos = s.get_pos();

    s.expect_and_next(&TokenKind::Sharp3)?;

    let name = match s.get_token_kind() {
        TokenKind::Identifier(name) => {
            let name = name.copy();
            s.next()?;
            Some(name)
        },
        _ => None,
    };

    let value = parse_expr(s, true)?;

    Ok(ast::Meta { loc: Loc { start: start_pos, end: value.loc().end }, name, value })
}

} // verus!
