use vstd::prelude::*;

use super::nodes::{Elseif, Expression, Namespace, NamespaceMember, Node, Statement, StatementOrExpression};
use crate::common::string::Utf16String;

verus! {

/// The size of an expression: its nodes, with an assignment's left-hand side counted twice.
pub open spec fn expr_size(e: Expression) -> nat
    decreases e,
{
    match e {
        Expression::If(n) => 1 + expr_size(*n.cond) + soe_size(*n.then_statement) + elseifs_size(
            n.elseif@,
        ) + match n.else_statement {
            Some(b) => soe_size(*b),
            None => 0,
        },
        Expression::Block(n) => 1 + soes_size(n.statements@),
        Expression::Obj(n) => 1 + entries_size(n.value@),
        Expression::Arr(n) => 1 + exprs_size(n.value@),
        Expression::Not(n) => 1 + expr_size(*n.expr),
        Expression::Call(n) => 1 + expr_size(*n.target) + exprs_size(n.args@),
        Expression::Index(n) => 1 + expr_size(*n.target) + expr_size(*n.index),
        Expression::Prop(n) => 1 + expr_size(*n.target),
        Expression::Binary(n) => 1 + expr_size(*n.left) + expr_size(*n.right),
        _ => 1,
    }
}

/// The sizes of the expressions, added.
pub open spec fn exprs_size(s: Seq<Expression>) -> nat
    decreases s,
{
    if s.len() == 0 {
        0
    } else {
        exprs_size(s.subrange(0, s.len() - 1)) + expr_size(s[s.len() - 1])
    }
}

/// The sizes of the values of the entries, added.
pub open spec fn entries_size(s: Seq<(Utf16String, Expression)>) -> nat
    decreases s,
{
    if s.len() == 0 {
        0
    } else {
        entries_size(s.subrange(0, s.len() - 1)) + expr_size(s[s.len() - 1].1)
    }
}

/// The sizes of the statements and expressions, added.
pub open spec fn soes_size(s: Seq<StatementOrExpression>) -> nat
    decreases s,
{
    if s.len() == 0 {
        0
    } else {
        soes_size(s.subrange(0, s.len() - 1)) + soe_size(s[s.len() - 1])
    }
}

/// The sizes of the `elif` branches, added.
pub open spec fn elseifs_size(s: Seq<Elseif>) -> nat
    decreases s,
{
    if s.len() == 0 {
        0
    } else {
        elseifs_size(s.subrange(0, s.len() - 1)) + expr_size(s[s.len() - 1].cond) + soe_size(
            s[s.len() - 1].then_statement,
        )
    }
}

/// The size of a statement or an expression.
pub open spec fn soe_size(s: StatementOrExpression) -> nat
    decreases s,
{
    match s {
        StatementOrExpression::Statement(st) => 1 + stmt_size(st),
        StatementOrExpression::Expression(e) => 1 + expr_size(e),
    }
}

/// The size of a statement.
pub open spec fn stmt_size(s: Statement) -> nat
    decreases s,
{
    match s {
        Statement::Def(d) => 1 + expr_size(d.dest) + expr_size(d.expr),
        Statement::Assign(a) => 1 + 2 * expr_size(a.dest) + expr_size(a.expr),
        _ => 1,
    }
}

/// The size of a namespace: its nodes, counting for a definition only its value, and the
/// members twice, since collecting a namespace visits them twice.
pub open spec fn ns_size(n: Namespace) -> nat
    decreases n,
{
    1 + 2 * members_size(n.members@)
}

/// The sizes of the members, added.
pub open spec fn members_size(s: Seq<NamespaceMember>) -> nat
    decreases s,
{
    if s.len() == 0 {
        0
    } else {
        members_size(s.subrange(0, s.len() - 1)) + member_size(s[s.len() - 1])
    }
}

/// The size of a member of a namespace.
pub open spec fn member_size(m: NamespaceMember) -> nat
    decreases m,
{
    match m {
        NamespaceMember::Def(d) => 1 + expr_size(d.expr),
        NamespaceMember::Ns(n) => 1 + ns_size(n),
    }
}

/// The size of a top-level node.
pub open spec fn node_size(n: Node) -> nat {
    match n {
        Node::Ns(ns) => ns_size(ns),
        Node::Statement(s) => stmt_size(s),
        Node::Expr(e) => expr_size(e),
        _ => 1,
    }
}

/// The sizes of the nodes, added.
pub open spec fn nodes_size(s: Seq<Node>) -> nat
    decreases s.len(),
{
    if s.len() == 0 {
        0
    } else {
        nodes_size(s.drop_last()) + node_size(s.last())
    }
}

/// The sum over the first `i + 1` items is that over the first `i` plus the `i`-th.
pub proof fn lemma_exprs_size_step(s: Seq<Expression>, i: int)
    requires
        0 <= i < s.len(),
    ensures
        exprs_size(s.subrange(0, i + 1)) == exprs_size(s.subrange(0, i)) + expr_size(s[i]),
{
    let t = s.subrange(0, i + 1);
    assert(t.subrange(0, t.len() - 1) =~= s.subrange(0, i));
}

/// The sum over a prefix is at most the sum over all.
pub proof fn lemma_exprs_size_prefix(s: Seq<Expression>, i: int)
    requires
        0 <= i <= s.len(),
    ensures
        exprs_size(s.subrange(0, i)) <= exprs_size(s),
    decreases s.len() - i,
{
    if i < s.len() {
        lemma_exprs_size_step(s, i);
        lemma_exprs_size_prefix(s, i + 1);
    } else {
        assert(s.subrange(0, i) =~= s);
    }
}

/// The sum over the first `i + 1` items is that over the first `i` plus the `i`-th.
pub proof fn lemma_entries_size_step(s: Seq<(Utf16String, Expression)>, i: int)
    requires
        0 <= i < s.len(),
    ensures
        entries_size(s.subrange(0, i + 1)) == entries_size(s.subrange(0, i)) + expr_size(s[i].1),
{
    let t = s.subrange(0, i + 1);
    assert(t.subrange(0, t.len() - 1) =~= s.subrange(0, i));
}

/// The sum over a prefix is at most the sum over all.
pub proof fn lemma_entries_size_prefix(s: Seq<(Utf16String, Expression)>, i: int)
    requires
        0 <= i <= s.len(),
    ensures
        entries_size(s.subrange(0, i)) <= entries_size(s),
    decreases s.len() - i,
{
    if i < s.len() {
        lemma_entries_size_step(s, i);
        lemma_entries_size_prefix(s, i + 1);
    } else {
        assert(s.subrange(0, i) =~= s);
    }
}

/// The sum over the first `i + 1` items is that over the first `i` plus the `i`-th.
pub proof fn lemma_soes_size_step(s: Seq<StatementOrExpression>, i: int)
    requires
        0 <= i < s.len(),
    ensures
        soes_size(s.subrange(0, i + 1)) == soes_size(s.subrange(0, i)) + soe_size(s[i]),
{
    let t = s.subrange(0, i + 1);
    assert(t.subrange(0, t.len() - 1) =~= s.subrange(0, i));
}

/// The sum over a prefix is at most the sum over all.
pub proof fn lemma_soes_size_prefix(s: Seq<StatementOrExpression>, i: int)
    requires
        0 <= i <= s.len(),
    ensures
        soes_size(s.subrange(0, i)) <= soes_size(s),
    decreases s.len() - i,
{
    if i < s.len() {
        lemma_soes_size_step(s, i);
        lemma_soes_size_prefix(s, i + 1);
    } else {
        assert(s.subrange(0, i) =~= s);
    }
}

/// The sum over the first `i + 1` items is that over the first `i` plus the `i`-th.
pub proof fn lemma_elseifs_size_step(s: Seq<Elseif>, i: int)
    requires
        0 <= i < s.len(),
    ensures
        elseifs_size(s.subrange(0, i + 1)) == elseifs_size(s.subrange(0, i)) + expr_size(s[i].cond) + soe_size(s[i].then_statement),
{
    let t = s.subrange(0, i + 1);
    assert(t.subrange(0, t.len() - 1) =~= s.subrange(0, i));
}

/// The sum over a prefix is at most the sum over all.
pub proof fn lemma_elseifs_size_prefix(s: Seq<Elseif>, i: int)
    requires
        0 <= i <= s.len(),
    ensures
        elseifs_size(s.subrange(0, i)) <= elseifs_size(s),
    decreases s.len() - i,
{
    if i < s.len() {
        lemma_elseifs_size_step(s, i);
        lemma_elseifs_size_prefix(s, i + 1);
    } else {
        assert(s.subrange(0, i) =~= s);
    }
}

/// The sum over the first `i + 1` items is that over the first `i` plus the `i`-th.
pub proof fn lemma_members_size_step(s: Seq<NamespaceMember>, i: int)
    requires
        0 <= i < s.len(),
    ensures
        members_size(s.subrange(0, i + 1)) == members_size(s.subrange(0, i)) + member_size(s[i]),
{
    let t = s.subrange(0, i + 1);
    assert(t.subrange(0, t.len() - 1) =~= s.subrange(0, i));
}

/// The sum over a prefix is at most the sum over all.
pub proof fn lemma_members_size_prefix(s: Seq<NamespaceMember>, i: int)
    requires
        0 <= i <= s.len(),
    ensures
        members_size(s.subrange(0, i)) <= members_size(s),
    decreases s.len() - i,
{
    if i < s.len() {
        lemma_members_size_step(s, i);
        lemma_members_size_prefix(s, i + 1);
    } else {
        assert(s.subrange(0, i) =~= s);
    }
}

/// The sum over the first `i + 1` nodes is that over the first `i` plus the `i`-th.
pub proof fn lemma_nodes_size_step(s: Seq<Node>, i: int)
    requires
        0 <= i < s.len(),
    ensures
        nodes_size(s.take(i + 1)) == nodes_size(s.take(i)) + node_size(s[i]),
{
    assert(s.take(i + 1).drop_last() =~= s.take(i));
}

/// The sum over the first nodes is at most the sum over all.
pub proof fn lemma_nodes_size_prefix(s: Seq<Node>, i: int)
    requires
        0 <= i <= s.len(),
    ensures
        nodes_size(s.take(i)) <= nodes_size(s),
    decreases s.len() - i,
{
    if i < s.len() {
        lemma_nodes_size_step(s, i);
        lemma_nodes_size_prefix(s, i + 1);
    } else {
        assert(s.take(i) =~= s);
    }
}

} // verus!
