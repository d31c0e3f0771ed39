use vstd::prelude::*;

use crate::ast::nodes::{self as ast, Expression, Loc, Node, Statement, StatementOrExpression};
use crate::common::position::Position;
use crate::common::string::Utf16String;
use crate::lexer::token::{Token, TokenKind};
use crate::lexer::token_stream::{
    at_kind, current_token, lemma_skip_spec_len, lemma_skip_spec_stops, skip_spec, token_at,
};

use super::common::{is_rest, kinds_of, read_tokens, type_spelling};
use super::expressions::level_operator;
use super::statement::{assign_operator, print_units};

verus! {

// The grammar of the language as relations between the tokens before a construct, the
// tokens left after it, and the syntax tree read. Each relation holds exactly when reading
// the construct from the first tokens leaves the second and gives the tree; where a part
// of a construct ends is a place `m` in the tokens, named through `boundary(m)`.

/// A place in the tokens where one part of a construct ends and the next begins.
pub open spec fn boundary(t: Seq<Token>) -> bool {
    true
}

/// The tokens left once one new line, if the cursor is on one, is read.
pub open spec fn skip_newline(t: Seq<Token>) -> Seq<Token> {
    if at_kind(t, TokenKind::NewLine) && t.len() > 0 {
        t.drop_first()
    } else {
        t
    }
}

/// The tokens left once all new lines under the cursor are read.
pub open spec fn skip_newlines(t: Seq<Token>) -> Seq<Token> {
    skip_spec(t, seq![TokenKind::NewLine])
}

/// The tokens left once all new lines and semicolons under the cursor are read.
pub open spec fn skip_terminators(t: Seq<Token>) -> Seq<Token> {
    skip_spec(t, seq![TokenKind::NewLine, TokenKind::SemiColon])
}

/// Skipping new lines stops on a token that is no new line, and never lengthens the tokens.
pub proof fn lemma_newlines_stop(t: Seq<Token>)
    ensures
        !at_kind(skip_newlines(t), TokenKind::NewLine),
        skip_newlines(t).len() <= t.len(),
{
    let k = seq![TokenKind::NewLine];
    assert(k[0].tag_spec() == TokenKind::NewLine.tag_spec());
    lemma_skip_spec_stops(t, k);
    lemma_skip_spec_len(t, k);
}

/// Skipping terminators stops on a token that is neither a new line nor a semicolon, and
/// never lengthens the tokens.
pub proof fn lemma_terminators_stop(t: Seq<Token>)
    ensures
        !at_kind(skip_terminators(t), TokenKind::NewLine),
        !at_kind(skip_terminators(t), TokenKind::SemiColon),
        skip_terminators(t).len() <= t.len(),
{
    let k = seq![TokenKind::NewLine, TokenKind::SemiColon];
    assert(k[0].tag_spec() == TokenKind::NewLine.tag_spec());
    assert(k[1].tag_spec() == TokenKind::SemiColon.tag_spec());
    lemma_skip_spec_stops(t, k);
    lemma_skip_spec_len(t, k);
}

/// Whether a token of the kind of `k` is under the cursor of `t` and `u` is what is left
/// once it is read.
pub open spec fn eat(t: Seq<Token>, u: Seq<Token>, k: TokenKind) -> bool {
    t.len() > 0 && at_kind(t, k) && u == t.drop_first()
}

/// The expression `e` with its start moved to `start`.
pub open spec fn rebase_spec(e: Expression, start: Position) -> Expression {
    match e {
        Expression::If(n) => Expression::If(ast::If { loc: Loc { start, end: n.loc.end }, ..n }),
        Expression::Fn(n) => Expression::Fn(ast::Fn { loc: Loc { start, end: n.loc.end }, ..n }),
        Expression::Match(n) => Expression::Match(ast::Match { loc: Loc { start, end: n.loc.end }, ..n }),
        Expression::Block(n) => Expression::Block(ast::Block { loc: Loc { start, end: n.loc.end }, ..n }),
        Expression::Exists(n) => Expression::Exists(ast::Exists { loc: Loc { start, end: n.loc.end }, ..n }),
        Expression::Tmpl(n) => Expression::Tmpl(ast::Tmpl { loc: Loc { start, end: n.loc.end }, ..n }),
        Expression::Str(n) => Expression::Str(ast::Str { loc: Loc { start, end: n.loc.end }, ..n }),
        Expression::Num(n) => Expression::Num(ast::Num { loc: Loc { start, end: n.loc.end }, ..n }),
        Expression::Bool(n) => Expression::Bool(ast::Bool { loc: Loc { start, end: n.loc.end }, ..n }),
        Expression::Null(n) => Expression::Null(ast::Null { loc: Loc { start, end: n.loc.end }, ..n }),
        Expression::Obj(n) => Expression::Obj(ast::Obj { loc: Loc { start, end: n.loc.end }, ..n }),
        Expression::Arr(n) => Expression::Arr(ast::Arr { loc: Loc { start, end: n.loc.end }, ..n }),
        Expression::Not(n) => Expression::Not(ast::Not { loc: Loc { start, end: n.loc.end }, ..n }),
        Expression::Identifier(n) => Expression::Identifier(
            ast::Identifier { loc: Loc { start, end: n.loc.end }, ..n },
        ),
        Expression::Call(n) => Expression::Call(ast::Call { loc: Loc { start, end: n.loc.end }, ..n }),
        Expression::Index(n) => Expression::Index(ast::Index { loc: Loc { start, end: n.loc.end }, ..n }),
        Expression::Prop(n) => Expression::Prop(ast::Prop { loc: Loc { start, end: n.loc.end }, ..n }),
        Expression::Binary(n) => Expression::Binary(ast::Binary { loc: Loc { start, end: n.loc.end }, ..n }),
    }
}

/// Moving the start of an expression and moving it back gives the expression.
pub proof fn lemma_rebase_back(e: Expression, start: Position)
    ensures
        rebase_spec(rebase_spec(e, start), e.loc_spec().start) == e,
{
}

/// Whether no call, index or property is under the cursor, so that what was read before
/// it cannot be read further as a postfix expression.
pub open spec fn postfix_ends(u: Seq<Token>) -> bool {
    &&& !at_kind(u, TokenKind::OpenParen)
    &&& !at_kind(u, TokenKind::OpenBracket)
    &&& !at_kind(u, TokenKind::Dot)
}

/// Whether no binary operator of level `level` or above is under the cursor, and no call,
/// index or property: what was read before it cannot be read further as an expression of
/// that level.
pub open spec fn expr_ends(u: Seq<Token>, level: int) -> bool {
    &&& forall|l: u8| level <= l < 7 ==> #[trigger] level_operator(l, current_token(u).kind) is None
    &&& postfix_ends(u)
}

/// Whether a token of kind `kind` is a literal: a number, a string, `true`, `false` or `null`.
pub open spec fn is_literal_kind(kind: TokenKind) -> bool {
    kind is NumberLiteral || kind is StringLiteral || kind is TrueKeyword || kind is FalseKeyword
        || kind is NullKeyword
}

/// Reading a written type.
pub open spec fn reads_type(t: Seq<Token>, u: Seq<Token>, ty: ast::TypeSource) -> bool {
    is_rest(t, u) && kinds_of(read_tokens(t, u)) == type_spelling(ty)
}

/// Reading a literal: a number, a string, `true`, `false` or `null`.
pub open spec fn reads_literal(t: Seq<Token>, u: Seq<Token>, e: Expression) -> bool {
    t.len() > 0 && u == t.drop_first() && match t[0].kind {
        TokenKind::NumberLiteral(_, bits) => e matches Expression::Num(n) && n.value == bits,
        TokenKind::StringLiteral(v) => e matches Expression::Str(n) && n.value == v,
        TokenKind::TrueKeyword => e matches Expression::Bool(n) && n.value,
        TokenKind::FalseKeyword => e matches Expression::Bool(n) && !n.value,
        TokenKind::NullKeyword => e is Null,
        _ => false,
    }
}

/// Reading an expression; with `is_static`, only literals, arrays and objects of them.
pub open spec fn reads_expr(t: Seq<Token>, u: Seq<Token>, e: Expression, is_static: bool) -> bool
    decreases t.len() - u.len(), 50nat,
{
    u.len() <= t.len() && if is_static {
        reads_static(t, u, e)
    } else {
        reads_binary(t, u, e, 0)
    }
}

/// Reading the binary operators of level `level` and above, each level to the left.
pub open spec fn reads_binary(t: Seq<Token>, u: Seq<Token>, e: Expression, level: int) -> bool
    decreases t.len() - u.len(), (40 + 7 - level) as nat,
{
    &&& u.len() <= t.len()
    &&& 0 <= level <= 7
    &&& if level == 7 {
        reads_prefix(t, u, e)
    } else {
        ||| reads_binary(t, u, e, level + 1)
        ||| e matches Expression::Binary(b) && exists|m: Seq<Token>|
            #[trigger] boundary(m) && u.len() < m.len() && m.len() <= t.len()
                && level_operator(level as u8, m[0].kind) == Some(b.op) && reads_binary(
                t,
                m,
                *b.left,
                level,
            ) && reads_binary(m.drop_first(), u, *b.right, level + 1)
    }
}

/// Reading negations and what they negate.
pub open spec fn reads_prefix(t: Seq<Token>, u: Seq<Token>, e: Expression) -> bool
    decreases t.len() - u.len(), 30nat,
{
    u.len() <= t.len() && if t.len() > 0 && at_kind(t, TokenKind::Not) {
        u.len() < t.len() && (e matches Expression::Not(n) && reads_prefix(t.drop_first(), u, *n.expr))
    } else {
        reads_postfix(t, u, e)
    }
}

/// Reading an atom and the calls, indexes and properties after it.
pub open spec fn reads_postfix(t: Seq<Token>, u: Seq<Token>, e: Expression) -> bool
    decreases t.len() - u.len(), 29nat,
{
    &&& u.len() <= t.len()
    &&& {
        ||| reads_atom(t, u, e)
        ||| e matches Expression::Call(c) && exists|m: Seq<Token>|
            #[trigger] boundary(m) && u.len() < m.len() && m.len() <= t.len() && reads_postfix(
                t,
                m,
                *c.target,
            ) && reads_items(m, u, c.args@, TokenKind::OpenParen, TokenKind::CloseParen)
        ||| e matches Expression::Index(x) && exists|m: Seq<Token>|
            #[trigger] boundary(m) && u.len() + 2 < m.len() && m.len() <= t.len() && eat(
                m,
                m.drop_first(),
                TokenKind::OpenBracket,
            ) && reads_postfix(t, m, *x.target) && exists|m2: Seq<Token>|
                #[trigger] boundary(m2) && eat(m2, u, TokenKind::CloseBracket) && m2.len() < m.len()
                    && reads_expr(m.drop_first(), m2, *x.index, false)
        ||| e matches Expression::Prop(p) && exists|m: Seq<Token>|
            #[trigger] boundary(m) && u.len() + 2 == m.len() && m.len() <= t.len() && eat(
                m,
                m.drop_first(),
                TokenKind::Dot,
            ) && m[1].kind == TokenKind::Identifier(p.name) && u == m.skip(2) && reads_postfix(
                t,
                m,
                *p.target,
            )
    }
}

/// Reading an atom: a name, a parenthesized expression, an array, an object, an `if`, a
/// function, an `eval` block, an `exists`, or a literal.
pub open spec fn reads_atom(t: Seq<Token>, u: Seq<Token>, e: Expression) -> bool
    decreases t.len() - u.len(), 28nat,
{
    u.len() <= t.len() && t.len() > 0 && match t[0].kind {
        TokenKind::Identifier(name) => u == t.drop_first() && (e matches Expression::Identifier(id)
            && id.name@ == name@),
        TokenKind::OpenParen => exists|m: Seq<Token>|
            #[trigger] boundary(m) && eat(m, u, TokenKind::CloseParen) && m.len() < t.len() && reads_expr(
                t.drop_first(),
                m,
                rebase_spec(e, current_token(t.drop_first()).pos),
                false,
            ),
        TokenKind::OpenBracket => e matches Expression::Arr(a) && reads_items(
            t,
            u,
            a.value@,
            TokenKind::OpenBracket,
            TokenKind::CloseBracket,
        ),
        TokenKind::OpenBrace => e matches Expression::Obj(o) && reads_entries(t, u, o.value@, false),
        TokenKind::IfKeyword => reads_if(t, u, e),
        TokenKind::At => e matches Expression::Fn(f) && exists|m: Seq<Token>|
            #[trigger] boundary(m) && u.len() <= m.len() && m.len() < t.len() && reads_params(
                t.drop_first(),
                m,
                f.args@,
            ) && exists|m2: Seq<Token>|
                #[trigger] boundary(m2) && u.len() <= m2.len() && m2.len() <= m.len() && (if at_kind(
                    m,
                    TokenKind::Colon,
                ) {
                    m.len() > 0 && (f.ret_type matches Some(ty) && reads_type(m.drop_first(), m2, ty))
                } else {
                    f.ret_type is None && m2 == m
                }) && reads_block(m2, u, f.children@),
        TokenKind::EvalKeyword => e matches Expression::Block(b) && u.len() < t.len() && reads_block(
            t.drop_first(),
            u,
            b.statements@,
        ),
        TokenKind::ExistsKeyword => e matches Expression::Exists(x) && t.len() >= 2 && u == t.skip(2)
            && (t[1].kind matches TokenKind::Identifier(name) && name@ == x.identifier.name@),
        _ => reads_literal(t, u, e),
    }
}

/// What is left once the separator after an item of a list is read: a comma and at most
/// one new line, or a new line; none only before `close`.
pub open spec fn separated(q: Seq<Token>, m: Seq<Token>, close: TokenKind) -> bool {
    if at_kind(q, TokenKind::Comma) {
        q.len() > 0 && m == skip_newline(q.drop_first())
    } else if at_kind(q, TokenKind::NewLine) {
        q.len() > 0 && m == q.drop_first()
    } else {
        at_kind(q, close) && m == q
    }
}

/// Reading `open`, at most one new line, the expressions `items` each with its separator,
/// and `close`.
pub open spec fn reads_items(
    t: Seq<Token>,
    u: Seq<Token>,
    items: Seq<Expression>,
    open: TokenKind,
    close: TokenKind,
) -> bool
    decreases t.len() - u.len(), 27nat,
{
    eat(t, t.drop_first(), open) && exists|m: Seq<Token>|
        #[trigger] boundary(m) && eat(m, u, close) && m.len() <= skip_newline(t.drop_first()).len() && reads_list(
            skip_newline(t.drop_first()),
            m,
            items,
            close,
            false,
        )
}

/// Reading the expressions `items` of a list, each followed by its separator.
pub open spec fn reads_list(
    b: Seq<Token>,
    m: Seq<Token>,
    items: Seq<Expression>,
    close: TokenKind,
    is_static: bool,
) -> bool
    decreases b.len() - m.len(), 60nat,
{
    m.len() <= b.len() && if items.len() == 0 {
        m == b
    } else {
        exists|p: Seq<Token>|
            #[trigger] boundary(p) && m.len() < p.len() && p.len() <= b.len() && reads_list(
                b,
                p,
                items.drop_last(),
                close,
                is_static,
            ) && item_then_separator(p, m, items.last(), close, is_static)
    }
}

/// Reading one expression of a list and its separator.
pub open spec fn item_then_separator(
    p: Seq<Token>,
    m: Seq<Token>,
    e: Expression,
    close: TokenKind,
    is_static: bool,
) -> bool
    decreases p.len() - m.len(), 55nat,
{
    exists|q: Seq<Token>|
        #[trigger] boundary(q) && m.len() <= q.len() && q.len() < p.len() && reads_expr(p, q, e, is_static)
            && separated(q, m, close)
}

/// Reading `{`, at most one new line, the entries `key: value` each with its separator,
/// and `}`.
pub open spec fn reads_entries(
    t: Seq<Token>,
    u: Seq<Token>,
    es: Seq<(Utf16String, Expression)>,
    is_static: bool,
) -> bool
    decreases t.len() - u.len(), 26nat,
{
    eat(t, t.drop_first(), TokenKind::OpenBrace) && exists|m: Seq<Token>|
        #[trigger] boundary(m) && eat(m, u, TokenKind::CloseBrace) && m.len() <= skip_newline(t.drop_first()).len()
            && reads_entry_list(
            skip_newline(t.drop_first()),
            m,
            es,
            is_static,
        )
}

/// Reading the entries `es` of an object, each followed by its separator.
pub open spec fn reads_entry_list(
    b: Seq<Token>,
    m: Seq<Token>,
    es: Seq<(Utf16String, Expression)>,
    is_static: bool,
) -> bool
    decreases b.len() - m.len(), 60nat,
{
    m.len() <= b.len() && if es.len() == 0 {
        m == b
    } else {
        exists|p: Seq<Token>|
            #[trigger] boundary(p) && m.len() < p.len() && p.len() <= b.len() && reads_entry_list(
                b,
                p,
                es.drop_last(),
                is_static,
            ) && entry_then_separator(p, m, es.last(), is_static)
    }
}

/// Reading one entry `key: value` and its separator; the key is a name or a string.
pub open spec fn entry_then_separator(
    p: Seq<Token>,
    m: Seq<Token>,
    entry: (Utf16String, Expression),
    is_static: bool,
) -> bool
    decreases p.len() - m.len(), 55nat,
{
    p.len() >= 2 && (p[0].kind == TokenKind::Identifier(entry.0) || p[0].kind
        == TokenKind::StringLiteral(entry.0)) && at_kind(p.skip(1), TokenKind::Colon)
        && exists|q: Seq<Token>|
        #[trigger] boundary(q) && m.len() <= q.len() && q.len() < p.len() - 1 && reads_expr(
            p.skip(2),
            q,
            entry.1,
            is_static,
        ) && separated(q, m, TokenKind::CloseBrace)
}

/// Reading a static expression: a literal, or an array or an object of static expressions.
pub open spec fn reads_static(t: Seq<Token>, u: Seq<Token>, e: Expression) -> bool
    decreases t.len() - u.len(), 28nat,
{
    u.len() <= t.len() && if at_kind(t, TokenKind::OpenBracket) {
        e matches Expression::Arr(a) && eat(t, t.drop_first(), TokenKind::OpenBracket)
            && exists|m: Seq<Token>|
            #[trigger] boundary(m) && eat(m, u, TokenKind::CloseBracket) && m.len() <= skip_newline(
                t.drop_first(),
            ).len() && reads_list(
                skip_newline(t.drop_first()),
                m,
                a.value@,
                TokenKind::CloseBracket,
                true,
            )
    } else if at_kind(t, TokenKind::OpenBrace) {
        e matches Expression::Obj(o) && reads_entries(t, u, o.value@, true)
    } else {
        reads_literal(t, u, e)
    }
}

/// Reading an `if`: its condition and body, its `elif`s and its `else`.
pub open spec fn reads_if(t: Seq<Token>, u: Seq<Token>, e: Expression) -> bool
    decreases t.len() - u.len(), 27nat,
{
    e matches Expression::If(n) && eat(t, t.drop_first(), TokenKind::IfKeyword) && exists|m1: Seq<Token>|
        #[trigger] boundary(m1) && u.len() <= m1.len() && m1.len() < t.len() && reads_expr(
            t.drop_first(),
            m1,
            *n.cond,
            false,
        ) && exists|m2: Seq<Token>|
            #[trigger] boundary(m2) && u.len() <= m2.len() && m2.len() <= m1.len() && reads_block_or_statement(
                m1,
                m2,
                *n.then_statement,
            ) && exists|m3: Seq<Token>|
                #[trigger] boundary(m3) && u.len() <= m3.len() && m3.len() <= m2.len() && reads_elifs(
                    m2,
                    m3,
                    n.elseif@,
                ) && if at_kind(m3, TokenKind::ElseKeyword) {
                    u.len() < m3.len() && (n.else_statement matches Some(b) && reads_block_or_statement(
                        m3.drop_first(),
                        u,
                        *b,
                    ))
                } else {
                    n.else_statement is None && u == m3
                }
}

/// Reading the `elif`s `elifs`.
pub open spec fn reads_elifs(b: Seq<Token>, m: Seq<Token>, elifs: Seq<ast::Elseif>) -> bool
    decreases b.len() - m.len(), 60nat,
{
    m.len() <= b.len() && if elifs.len() == 0 {
        m == b
    } else {
        exists|p: Seq<Token>|
            #[trigger] boundary(p) && m.len() < p.len() && p.len() <= b.len() && reads_elifs(
                b,
                p,
                elifs.drop_last(),
            ) && eat(p, p.drop_first(), TokenKind::ElifKeyword) && exists|q: Seq<Token>|
                #[trigger] boundary(q) && m.len() <= q.len() && q.len() < p.len() && reads_expr(
                    p.drop_first(),
                    q,
                    elifs.last().cond,
                    false,
                ) && reads_block_or_statement(q, m, elifs.last().then_statement)
    }
}

/// Reading the parameters of a function: `(`, at most one new line, each parameter with
/// its separator, and `)`.
pub open spec fn reads_params(t: Seq<Token>, u: Seq<Token>, args: Seq<ast::FnArg>) -> bool
    decreases t.len() - u.len(), 26nat,
{
    eat(t, t.drop_first(), TokenKind::OpenParen) && exists|m: Seq<Token>|
        #[trigger] boundary(m) && eat(m, u, TokenKind::CloseParen) && m.len() <= skip_newline(t.drop_first()).len()
            && reads_param_list(
            skip_newline(t.drop_first()),
            m,
            args,
        )
}

/// Reading the parameters `args`, each followed by its separator.
pub open spec fn reads_param_list(b: Seq<Token>, m: Seq<Token>, args: Seq<ast::FnArg>) -> bool
    decreases b.len() - m.len(), 60nat,
{
    m.len() <= b.len() && if args.len() == 0 {
        m == b
    } else {
        exists|p: Seq<Token>|
            #[trigger] boundary(p) && m.len() < p.len() && p.len() <= b.len() && reads_param_list(
                b,
                p,
                args.drop_last(),
            ) && param_then_separator(p, m, args.last())
    }
}

/// Reading one parameter: its name or pattern, `?` or a default after `=`, a type after
/// `:`, and its separator: a new line, or a comma and at most one new line; none only
/// before `)`.
pub open spec fn param_then_separator(p: Seq<Token>, m: Seq<Token>, a: ast::FnArg) -> bool
    decreases p.len() - m.len(), 55nat,
{
    exists|q1: Seq<Token>|
        #[trigger] boundary(q1) && m.len() <= q1.len() && q1.len() < p.len() && reads_dest(p, q1, a.dest)
            && exists|q2: Seq<Token>|
            #[trigger] boundary(q2) && m.len() <= q2.len() && q2.len() <= q1.len() && (if at_kind(
                q1,
                TokenKind::Question,
            ) {
                a.value is Optional && eat(q1, q2, TokenKind::Question)
            } else if at_kind(q1, TokenKind::Eq) {
                q2.len() < q1.len() && (a.value matches ast::FnArgValue::Required { default: Some(d) }
                    && reads_expr(q1.drop_first(), q2, d, false))
            } else {
                a.value matches ast::FnArgValue::Required { default: None } && q2 == q1
            }) && exists|q3: Seq<Token>|
                #[trigger] boundary(q3) && m.len() <= q3.len() && q3.len() <= q2.len() && (if at_kind(
                    q2,
                    TokenKind::Colon,
                ) {
                    q2.len() > 0 && (a.arg_type matches Some(ty) && reads_type(q2.drop_first(), q3, ty))
                } else {
                    a.arg_type is None && q3 == q2
                }) && if at_kind(q3, TokenKind::NewLine) {
                    q3.len() > 0 && m == q3.drop_first()
                } else if at_kind(q3, TokenKind::Comma) {
                    q3.len() > 0 && m == skip_newline(q3.drop_first())
                } else {
                    at_kind(q3, TokenKind::CloseParen) && m == q3
                }
}

/// Reading the left-hand side of a definition: a name, or an expression.
pub open spec fn reads_dest(t: Seq<Token>, u: Seq<Token>, e: Expression) -> bool
    decreases t.len() - u.len(), 52nat,
{
    u.len() <= t.len() && if t.len() > 0 && t[0].kind is Identifier {
        u == t.drop_first() && (e matches Expression::Identifier(id) && t[0].kind->Identifier_0@
            == id.name@)
    } else {
        reads_expr(t, u, e, false)
    }
}

/// What is left once the terminator after a statement is read: new lines and semicolons;
/// none only before `close`.
pub open spec fn terminated(q: Seq<Token>, m: Seq<Token>, close: TokenKind) -> bool {
    if at_kind(q, TokenKind::NewLine) || at_kind(q, TokenKind::SemiColon) {
        m == skip_terminators(q)
    } else {
        at_kind(q, close) && m == q
    }
}

/// Reading a block: `{`, new lines, the statements each with its terminator, and `}`.
pub open spec fn reads_block(t: Seq<Token>, u: Seq<Token>, ss: Seq<StatementOrExpression>) -> bool
    decreases t.len() - u.len(), 26nat,
{
    eat(t, t.drop_first(), TokenKind::OpenBrace) && exists|m: Seq<Token>|
        #[trigger] boundary(m) && eat(m, u, TokenKind::CloseBrace) && m.len() <= skip_newlines(t.drop_first()).len()
            && skip_newlines(t.drop_first()).len() < t.len() && reads_statements(
            skip_newlines(t.drop_first()),
            m,
            ss,
            TokenKind::CloseBrace,
        )
}

/// Reading the statements `ss`, each followed by its terminator.
pub open spec fn reads_statements(
    b: Seq<Token>,
    m: Seq<Token>,
    ss: Seq<StatementOrExpression>,
    close: TokenKind,
) -> bool
    decreases b.len() - m.len(), 60nat,
{
    m.len() <= b.len() && if ss.len() == 0 {
        m == b
    } else {
        exists|p: Seq<Token>|
            #[trigger] boundary(p) && m.len() < p.len() && p.len() <= b.len() && reads_statements(
                b,
                p,
                ss.drop_last(),
                close,
            ) && exists|q: Seq<Token>|
                #[trigger] boundary(q) && m.len() <= q.len() && q.len() < p.len() && reads_statement(
                    p,
                    q,
                    ss.last(),
                ) && terminated(q, m, close)
    }
}

/// Reading a block, or a statement.
pub open spec fn reads_block_or_statement(t: Seq<Token>, u: Seq<Token>, x: StatementOrExpression) -> bool
    decreases t.len() - u.len(), 56nat,
{
    u.len() <= t.len() && if at_kind(t, TokenKind::OpenBrace) {
        x matches StatementOrExpression::Expression(Expression::Block(b)) && reads_block(
            t,
            u,
            b.statements@,
        )
    } else {
        reads_statement(t, u, x)
    }
}

/// Reading a statement, or an expression with what is assigned to it.
pub open spec fn reads_statement(t: Seq<Token>, u: Seq<Token>, x: StatementOrExpression) -> bool
    decreases t.len() - u.len(), 54nat,
{
    u.len() <= t.len() && t.len() > 0 && {
        let k = t[0].kind;
        if k is VarKeyword || k is LetKeyword {
            x matches StatementOrExpression::Statement(Statement::Def(d)) && d.attr@.len() == 0
                && reads_var_def(t, u, d)
        } else if k is At && token_at(t, 1).kind is Identifier {
            x matches StatementOrExpression::Statement(Statement::Def(d)) && d.attr@.len() == 0
                && reads_fn_def(t, u, d)
        } else if k is Out {
            x matches StatementOrExpression::Expression(Expression::Call(c)) && c.args@.len() == 1
                && u.len() < t.len() && reads_expr(t.drop_first(), u, c.args@[0], false)
                && (*c.target matches Expression::Identifier(id) && id.name@ == print_units())
        } else if k is ReturnKeyword {
            x matches StatementOrExpression::Statement(Statement::Return(r)) && u.len() < t.len() && reads_expr(
                t.drop_first(),
                u,
                r.expr,
                false,
            )
        } else if k is OpenSharpBracket {
            x matches StatementOrExpression::Statement(Statement::Def(d)) && reads_with_attr(t, u, d)
        } else if k is EachKeyword {
            x matches StatementOrExpression::Statement(Statement::Each(e)) && reads_each(t, u, e)
        } else if k is ForKeyword {
            x matches StatementOrExpression::Statement(Statement::For(f)) && reads_for(t, u, f)
        } else if k is LoopKeyword {
            x matches StatementOrExpression::Statement(Statement::Loop(l)) && u.len() < t.len() && reads_block(
                t.drop_first(),
                u,
                l.statements@,
            )
        } else if k is DoKeyword {
            x matches StatementOrExpression::Statement(Statement::Loop(l)) && reads_do_while(t, u, l)
        } else if k is WhileKeyword {
            x matches StatementOrExpression::Statement(Statement::Loop(l)) && reads_while(t, u, l)
        } else if k is BreakKeyword {
            x matches StatementOrExpression::Statement(Statement::Break(_)) && u == t.drop_first()
        } else if k is ContinueKeyword {
            x matches StatementOrExpression::Statement(Statement::Continue(_)) && u == t.drop_first()
        } else {
            match x {
                StatementOrExpression::Statement(Statement::Assign(a)) => exists|q: Seq<Token>|
                    #[trigger] boundary(q) && u.len() < q.len() && q.len() <= t.len() && q.len() > 0
                        && assign_operator(q[0].kind) == Some(a.op) && reads_expr(t, q, a.dest, false)
                        && reads_expr(q.drop_first(), u, a.expr, false),
                StatementOrExpression::Expression(e) => reads_expr(t, u, e, false) && assign_operator(
                    current_token(u).kind,
                ) is None,
                _ => false,
            }
        }
    }
}

/// Reading `var` or `let`, the left-hand side, a type after `:`, `=`, new lines and the
/// value.
pub open spec fn reads_var_def(t: Seq<Token>, u: Seq<Token>, d: ast::Definition) -> bool
    decreases t.len() - u.len(), 53nat,
{
    t.len() > 0 && d.is_mut == (t[0].kind is VarKeyword) && exists|q1: Seq<Token>|
        #[trigger] boundary(q1) && u.len() <= q1.len() && q1.len() < t.len() && reads_dest(
            t.drop_first(),
            q1,
            d.dest,
        ) && exists|q2: Seq<Token>|
            #[trigger] boundary(q2) && u.len() < q2.len() && q2.len() <= q1.len() && (if at_kind(
                q1,
                TokenKind::Colon,
            ) {
                q1.len() > 0 && (d.var_type matches Some(ty) && reads_type(q1.drop_first(), q2, ty))
            } else {
                d.var_type is None && q2 == q1
            }) && eat(q2, q2.drop_first(), TokenKind::Eq) && u.len() <= skip_newlines(
                q2.drop_first(),
            ).len() && skip_newlines(q2.drop_first()).len() < q2.len() && reads_expr(
                skip_newlines(q2.drop_first()),
                u,
                d.expr,
                false,
            )
}

/// Reading `@`, the name, the parameters, a return type after `:`, and the body.
pub open spec fn reads_fn_def(t: Seq<Token>, u: Seq<Token>, d: ast::Definition) -> bool
    decreases t.len() - u.len(), 53nat,
{
    &&& t.len() >= 2
    &&& at_kind(t, TokenKind::At)
    &&& t[1].kind matches TokenKind::Identifier(name) && d.dest matches Expression::Identifier(id)
        && id.name@ == name@
    &&& !d.is_mut
    &&& d.var_type is None
    &&& d.expr matches Expression::Fn(f) && exists|m: Seq<Token>|
        #[trigger] boundary(m) && u.len() <= m.len() && m.len() < t.len() - 1 && reads_params(
            t.skip(2),
            m,
            f.args@,
        ) && exists|m2: Seq<Token>|
            #[trigger] boundary(m2) && u.len() <= m2.len() && m2.len() <= m.len() && (if at_kind(
                m,
                TokenKind::Colon,
            ) {
                m.len() > 0 && (f.ret_type matches Some(ty) && reads_type(m.drop_first(), m2, ty))
            } else {
                f.ret_type is None && m2 == m
            }) && reads_block(m2, u, f.children@)
}

/// Reading the attributes before a definition, each with its new line, and the definition.
pub open spec fn reads_with_attr(t: Seq<Token>, u: Seq<Token>, d: ast::Definition) -> bool
    decreases t.len() - u.len(), 53nat,
{
    exists|m: Seq<Token>|
        #[trigger] boundary(m) && u.len() < m.len() && m.len() < t.len() && reads_attrs(t, m, d.attr@)
            && m.len() > 0 && !at_kind(m, TokenKind::OpenSharpBracket) && if m[0].kind is VarKeyword
            || m[0].kind is LetKeyword {
            reads_var_def(m, u, d)
        } else {
            m[0].kind is At && token_at(m, 1).kind is Identifier && reads_fn_def(m, u, d)
        }
}

/// Reading the attributes `attrs`, each followed by a new line.
pub open spec fn reads_attrs(b: Seq<Token>, m: Seq<Token>, attrs: Seq<ast::Attribute>) -> bool
    decreases b.len() - m.len(), 60nat,
{
    m.len() <= b.len() && if attrs.len() == 0 {
        m == b
    } else {
        exists|p: Seq<Token>|
            #[trigger] boundary(p) && m.len() < p.len() && p.len() <= b.len() && reads_attrs(
                b,
                p,
                attrs.drop_last(),
            ) && exists|q: Seq<Token>|
                #[trigger] boundary(q) && m.len() < q.len() && q.len() < p.len() && reads_attr(
                    p,
                    q,
                    attrs.last(),
                ) && eat(q, m, TokenKind::NewLine)
    }
}

/// Reading an attribute: `#[`, its name, a static value (true if there is none), and `]`.
pub open spec fn reads_attr(t: Seq<Token>, u: Seq<Token>, a: ast::Attribute) -> bool
    decreases t.len() - u.len(), 53nat,
{
    t.len() >= 2 && at_kind(t, TokenKind::OpenSharpBracket) && t[1].kind == TokenKind::Identifier(a.name)
        && exists|m: Seq<Token>|
        #[trigger] boundary(m) && eat(m, u, TokenKind::CloseBracket) && m.len() <= t.len() - 2 && if at_kind(
            t.skip(2),
            TokenKind::CloseBracket,
        ) {
            m == t.skip(2) && (a.value matches Expression::Bool(b) && b.value)
        } else {
            reads_expr(t.skip(2), m, a.value, true)
        }
}

/// Reading `each`, an optional `(`, `let`, the variable, `,`, the items, the `)` where
/// there was a `(`, and the body.
pub open spec fn reads_each(t: Seq<Token>, u: Seq<Token>, e: ast::Each) -> bool
    decreases t.len() - u.len(), 53nat,
{
    t.len() > 0 && at_kind(t, TokenKind::EachKeyword) && {
        let paren = at_kind(t.drop_first(), TokenKind::OpenParen);
        let t1 = if paren {
            t.skip(2)
        } else {
            t.drop_first()
        };
        &&& t.len() >= 2
        &&& eat(t1, t1.drop_first(), TokenKind::LetKeyword)
        &&& exists|m: Seq<Token>|
            #[trigger] boundary(m) && u.len() < m.len() && m.len() < t1.len() && reads_dest(
                t1.drop_first(),
                m,
                e.var,
            ) && eat(m, m.drop_first(), TokenKind::Comma) && exists|m2: Seq<Token>|
                #[trigger] boundary(m2) && u.len() <= m2.len() && m2.len() < m.len() && reads_expr(
                    m.drop_first(),
                    m2,
                    e.items,
                    false,
                ) && exists|m3: Seq<Token>|
                    #[trigger] boundary(m3) && u.len() <= m3.len() && m3.len() <= m2.len() && (if paren {
                        eat(m2, m3, TokenKind::CloseParen)
                    } else {
                        m3 == m2
                    }) && reads_block_or_statement(m3, u, *e.for_statement)
    }
}

/// Reading `for`, an optional `(`, either `let`, the name, a start after `=` (zero where
/// there is none), `,` and the end, or the number of times, the `)` where there was a `(`,
/// and the body.
pub open spec fn reads_for(t: Seq<Token>, u: Seq<Token>, f: ast::For) -> bool
    decreases t.len() - u.len(), 53nat,
{
    t.len() >= 2 && at_kind(t, TokenKind::ForKeyword) && {
        let paren = at_kind(t.drop_first(), TokenKind::OpenParen);
        let t1 = if paren {
            t.skip(2)
        } else {
            t.drop_first()
        };
        exists|m: Seq<Token>|
            #[trigger] boundary(m) && u.len() <= m.len() && m.len() < t.len() && (if at_kind(
                t1,
                TokenKind::LetKeyword,
            ) {
                &&& f.iter matches ast::ForIterator::Range { var, from, to }
                &&& t1.len() >= 2
                &&& t1[1].kind == TokenKind::Identifier(var)
                &&& exists|q1: Seq<Token>|
                    #[trigger] boundary(q1) && m.len() < q1.len() && q1.len() <= t1.len() - 2 && (if at_kind(
                        t1.skip(2),
                        TokenKind::Eq,
                    ) {
                        t1.len() >= 3 && q1.len() <= t1.len() - 3 && reads_expr(t1.skip(3), q1, from, false)
                    } else {
                        q1 == t1.skip(2) && (from matches Expression::Num(n) && n.value == 0)
                    }) && eat(q1, q1.drop_first(), TokenKind::Comma) && reads_expr(
                        q1.drop_first(),
                        m,
                        to,
                        false,
                    )
            } else {
                f.iter matches ast::ForIterator::Times { times } && m.len() < t1.len() && reads_expr(
                    t1,
                    m,
                    times,
                    false,
                )
            }) && exists|m2: Seq<Token>|
                #[trigger] boundary(m2) && u.len() <= m2.len() && m2.len() <= m.len() && (if paren {
                    eat(m, m2, TokenKind::CloseParen)
                } else {
                    m2 == m
                }) && reads_block_or_statement(m2, u, *f.for_statement)
    }
}

/// Reading `do`, the body, `while` and the condition: a loop of the body, then the test
/// that leaves it when the condition is false.
pub open spec fn reads_do_while(t: Seq<Token>, u: Seq<Token>, l: ast::Loop) -> bool
    decreases t.len() - u.len(), 53nat,
{
    &&& eat(t, t.drop_first(), TokenKind::DoKeyword)
    &&& l.statements@.len() == 2
    &&& l.statements@[1] matches StatementOrExpression::Expression(Expression::If(i)) && *i.cond matches Expression::Not(c)
        && *i.then_statement matches StatementOrExpression::Statement(Statement::Break(_))
        && i.elseif@.len() == 0 && i.else_statement is None
        && exists|m: Seq<Token>|
        #[trigger] boundary(m) && u.len() < m.len() && m.len() < t.len() && reads_block_or_statement(
            t.drop_first(),
            m,
            l.statements@[0],
        ) && eat(m, m.drop_first(), TokenKind::WhileKeyword) && reads_expr(
            m.drop_first(),
            u,
            *c.expr,
            false,
        )
}

/// Reading `while`, the condition and the body: a loop of the test that leaves it when the
/// condition is false, then the body.
pub open spec fn reads_while(t: Seq<Token>, u: Seq<Token>, l: ast::Loop) -> bool
    decreases t.len() - u.len(), 53nat,
{
    &&& eat(t, t.drop_first(), TokenKind::WhileKeyword)
    &&& l.statements@.len() == 2
    &&& l.statements@[0] matches StatementOrExpression::Expression(Expression::If(i)) && *i.cond matches Expression::Not(c)
        && *i.then_statement matches StatementOrExpression::Statement(Statement::Break(_))
        && i.elseif@.len() == 0 && i.else_statement is None
        && exists|m: Seq<Token>|
        #[trigger] boundary(m) && u.len() <= m.len() && m.len() < t.len() && reads_expr(
            t.drop_first(),
            m,
            *c.expr,
            false,
        ) && reads_block_or_statement(m, u, l.statements@[1])
}

/// Where the members of a namespace begin: after the new lines that follow `{`, and after
/// the semicolons and new lines that may stand before the first member.
pub open spec fn ns_body_start(t: Seq<Token>) -> Seq<Token> {
    let b = skip_newlines(t);
    if at_kind(b, TokenKind::SemiColon) {
        skip_terminators(b)
    } else {
        b
    }
}

/// Reading a namespace: `::`, its name, `{`, its members each with its terminator, and `}`.
pub open spec fn reads_namespace(t: Seq<Token>, u: Seq<Token>, ns: ast::Namespace) -> bool
    decreases t.len() - u.len(), 1nat,
{
    &&& t.len() >= 3
    &&& at_kind(t, TokenKind::Colon2)
    &&& t[1].kind matches TokenKind::Identifier(n) && n@ == ns.name@
    &&& eat(t.skip(2), t.skip(3), TokenKind::OpenBrace)
    &&& exists|m: Seq<Token>|
        #[trigger] boundary(m) && eat(m, u, TokenKind::CloseBrace) && m.len() <= ns_body_start(
            t.skip(3),
        ).len() && ns_body_start(t.skip(3)).len() < t.len() && reads_members(
            ns_body_start(t.skip(3)),
            m,
            ns.members@,
        )
}

/// Reading the members `ms` of a namespace, each followed by its terminator.
pub open spec fn reads_members(b: Seq<Token>, m: Seq<Token>, ms: Seq<ast::NamespaceMember>) -> bool
    decreases b.len() - m.len(), 3nat,
{
    m.len() <= b.len() && if ms.len() == 0 {
        m == b
    } else {
        exists|p: Seq<Token>|
            #[trigger] boundary(p) && m.len() < p.len() && p.len() <= b.len() && reads_members(
                b,
                p,
                ms.drop_last(),
            ) && exists|q: Seq<Token>|
                #[trigger] boundary(q) && m.len() <= q.len() && q.len() < p.len() && reads_member(
                    p,
                    q,
                    ms.last(),
                ) && terminated(q, m, TokenKind::CloseBrace)
    }
}

/// Reading one member of a namespace: a `var`, `let` or function definition, or a namespace.
pub open spec fn reads_member(p: Seq<Token>, q: Seq<Token>, member: ast::NamespaceMember) -> bool
    decreases p.len() - q.len(), 2nat,
{
    q.len() <= p.len() && match member {
        ast::NamespaceMember::Def(d) => d.attr@.len() == 0 && if at_kind(p, TokenKind::VarKeyword)
            || at_kind(p, TokenKind::LetKeyword) {
            reads_var_def(p, q, d)
        } else {
            at_kind(p, TokenKind::At) && reads_fn_def(p, q, d)
        },
        ast::NamespaceMember::Ns(n) => at_kind(p, TokenKind::Colon2) && reads_namespace(p, q, n),
    }
}

/// Reading a meta block: `###`, an optional name, and a static value.
pub open spec fn reads_meta(t: Seq<Token>, u: Seq<Token>, meta: ast::Meta) -> bool {
    eat(t, t.drop_first(), TokenKind::Sharp3) && {
        let t1 = t.drop_first();
        if t1.len() > 0 && t1[0].kind is Identifier {
            &&& t1[0].kind matches TokenKind::Identifier(n) && meta.name matches Some(x) && x@ == n@
            &&& reads_expr(t1.drop_first(), u, meta.value, true)
        } else {
            meta.name is None && reads_expr(t1, u, meta.value, true)
        }
    }
}

/// Reading one top-level node: a namespace, a meta block, or a statement.
pub open spec fn reads_node(p: Seq<Token>, q: Seq<Token>, node: Node) -> bool {
    if at_kind(p, TokenKind::Colon2) {
        node matches Node::Ns(n) && reads_namespace(p, q, n)
    } else if at_kind(p, TokenKind::Sharp3) {
        node matches Node::Meta(x) && reads_meta(p, q, x)
    } else {
        match node {
            Node::Statement(st) => reads_statement(p, q, StatementOrExpression::Statement(st)),
            Node::Expr(e) => reads_statement(p, q, StatementOrExpression::Expression(e)),
            _ => false,
        }
    }
}

/// Reading the top-level nodes `nodes`, each followed by its terminator.
pub open spec fn reads_nodes(b: Seq<Token>, m: Seq<Token>, nodes: Seq<Node>) -> bool
    decreases b.len() - m.len(),
{
    m.len() <= b.len() && if nodes.len() == 0 {
        m == b
    } else {
        exists|p: Seq<Token>|
            #[trigger] boundary(p) && m.len() < p.len() && p.len() <= b.len() && reads_nodes(
                b,
                p,
                nodes.drop_last(),
            ) && exists|q: Seq<Token>|
                #[trigger] boundary(q) && m.len() <= q.len() && q.len() < p.len() && reads_node(
                    p,
                    q,
                    nodes.last(),
                ) && terminated(q, m, TokenKind::EOF)
    }
}

} // verus!
