use vstd::prelude::*;

use super::translate::{
    defs_ok_from, dest_ok, expr_ok, name_ok, node_ok, ns_ok, soe_ok, stmt_ok, target_ok,
};
use crate::ast::measure::{
    elseifs_size, entries_size, expr_size, exprs_size, lemma_elseifs_size_step,
    lemma_entries_size_step, lemma_exprs_size_prefix, lemma_exprs_size_step,
    lemma_members_size_prefix, lemma_members_size_step, lemma_nodes_size_step,
    lemma_soes_size_prefix, lemma_soes_size_step, lemma_entries_size_prefix,
    lemma_elseifs_size_prefix, member_size, members_size, node_size, nodes_size, ns_size,
    soe_size, soes_size, stmt_size,
};
use crate::ast::nodes::{
    BinaryArithmeticOperator, BinaryOperator, Elseif, Expression, Namespace, NamespaceMember,
    Node, Statement, StatementOrExpression,
};
use crate::common::string::Utf16String;
use crate::common::path::NamePath;

verus! {

/// The largest size of a program that the translator takes: the registers it may use
/// then fit in a `usize`.
pub const SIZE_CAP: usize = usize::MAX / 16;

/// `n`, or the cap where `n` is above it.
pub open spec fn capped(n: int) -> nat {
    if n < SIZE_CAP {
        n as nat
    } else {
        SIZE_CAP as nat
    }
}

/// The capped sum of two capped numbers.
fn cap_add(a: usize, b: usize) -> (r: usize)
    requires
        a <= SIZE_CAP,
        b <= SIZE_CAP,
    ensures
        r == capped(a + b),
        forall|x: nat, y: nat| a == capped(x as int) && b == capped(y as int) ==> r == #[trigger] capped((x + y) as int),
{
    let s = a + b;
    if s < SIZE_CAP {
        s
    } else {
        SIZE_CAP
    }
}

/// Whether a name can be looked up (see [`name_ok`]).
fn name_supported(p: &NamePath) -> (r: bool)
    ensures
        r == name_ok(*p),
{
    p.as_utf16_str().len() < usize::MAX
}

/// Whether the translator handles the expression (see [`expr_ok`]).
pub fn expr_supported(e: &Expression) -> (r: bool)
    ensures
        r == expr_ok(*e),
    decreases expr_size(*e), 1nat,
{
    match e {
        Expression::If(n) => {
            if !expr_supported(&n.cond) || !soe_supported(&n.then_statement) {
                return false;
            }
            let len = n.elseif.len();
            let mut i: usize = 0;
            while i < len
                invariant
                    *e == Expression::If(*n),
                    i <= len,
                    len == n.elseif@.len(),
                    forall|k: int| 0 <= k < i ==> expr_ok((#[trigger] n.elseif@[k]).cond) && soe_ok(n.elseif@[k].then_statement),
                    elseifs_size(n.elseif@) < expr_size(*e),
                decreases len - i,
            {
                proof {
                    lemma_elseifs_size_step(n.elseif@, i as int);
                    lemma_elseifs_size_prefix(n.elseif@, i + 1);
                }
                if !expr_supported(&n.elseif[i].cond) || !soe_supported(&n.elseif[i].then_statement) {
                    assert(!(expr_ok(n.elseif@[i as int].cond) && soe_ok(n.elseif@[i as int].then_statement)));
                    return false;
                }
                i = i + 1;
            }
            match &n.else_statement {
                Some(b) => soe_supported(b),
                None => true,
            }
        },
        Expression::Fn(_) => false,
        Expression::Match(_) => false,
        Expression::Tmpl(_) => false,
        Expression::Block(n) => {
            let len = n.statements.len();
            let mut i: usize = 0;
            while i < len
                invariant
                    *e == Expression::Block(*n),
                    i <= len,
                    len == n.statements@.len(),
                    forall|k: int| 0 <= k < i ==> soe_ok(#[trigger] n.statements@[k]),
                    soes_size(n.statements@) < expr_size(*e),
                decreases len - i,
            {
                proof {
                    lemma_soes_size_step(n.statements@, i as int);
                    lemma_soes_size_prefix(n.statements@, i + 1);
                }
                if !soe_supported(&n.statements[i]) {
                    assert(!soe_ok(n.statements@[i as int]));
                    return false;
                }
                i = i + 1;
            }
            true
        },
        Expression::Exists(n) => name_supported(&n.identifier.name),
        Expression::Obj(n) => {
            let len = n.value.len();
            let mut i: usize = 0;
            while i < len
                invariant
                    *e == Expression::Obj(*n),
                    i <= len,
                    len == n.value@.len(),
                    forall|k: int| 0 <= k < i ==> expr_ok((#[trigger] n.value@[k]).1),
                    entries_size(n.value@) < expr_size(*e),
                decreases len - i,
            {
                proof {
                    lemma_entries_size_step(n.value@, i as int);
                    lemma_entries_size_prefix(n.value@, i + 1);
                }
                if !expr_supported(&n.value[i].1) {
                    assert(!expr_ok(n.value@[i as int].1));
                    return false;
                }
                i = i + 1;
            }
            true
        },
        Expression::Arr(n) => exprs_supported(&n.value),
        Expression::Not(n) => expr_supported(&n.expr),
        Expression::Identifier(n) => name_supported(&n.name),
        Expression::Call(n) => expr_supported(&n.target) && exprs_supported(&n.args),
        Expression::Index(n) => expr_supported(&n.target) && expr_supported(&n.index),
        Expression::Prop(n) => expr_supported(&n.target),
        Expression::Binary(n) => {
            let op = match n.op {
                BinaryOperator::Arithmetic(a) => match a {
                    BinaryArithmeticOperator::Add => true,
                    BinaryArithmeticOperator::Sub => true,
                    _ => false,
                },
                BinaryOperator::Logical(_) => true,
            };
            op && expr_supported(&n.left) && expr_supported(&n.right)
        },
        _ => true,
    }
}

/// Whether the translator handles every expression.
fn exprs_supported(es: &Vec<Expression>) -> (r: bool)
    ensures
        r == forall|k: int| 0 <= k < es@.len() ==> expr_ok(#[trigger] es@[k]),
    decreases exprs_size(es@), 2nat,
{
    let len = es.len();
    let mut i: usize = 0;
    while i < len
        invariant
            i <= len,
            len == es@.len(),
            forall|k: int| 0 <= k < i ==> expr_ok(#[trigger] es@[k]),
        decreases len - i,
    {
        proof {
            lemma_exprs_size_step(es@, i as int);
            lemma_exprs_size_prefix(es@, i + 1);
        }
        if !expr_supported(&es[i]) {
            return false;
        }
        i = i + 1;
    }
    true
}

/// Whether the translator handles the statement or expression.
fn soe_supported(s: &StatementOrExpression) -> (r: bool)
    ensures
        r == soe_ok(*s),
    decreases soe_size(*s), 1nat,
{
    match s {
        StatementOrExpression::Statement(st) => stmt_supported(st),
        StatementOrExpression::Expression(e) => expr_supported(e),
    }
}

/// Whether the translator handles the statement.
fn stmt_supported(s: &Statement) -> (r: bool)
    ensures
        r == stmt_ok(*s),
    decreases stmt_size(*s), 1nat,
{
    match s {
        Statement::Def(d) => expr_supported(&d.expr) && dest_supported(&d.dest),
        Statement::Assign(a) => expr_supported(&a.expr) && target_supported(&a.dest),
        _ => false,
    }
}

/// Whether the translator handles the left-hand side of a definition.
fn dest_supported(e: &Expression) -> (r: bool)
    ensures
        r == dest_ok(*e),
    decreases expr_size(*e), 1nat,
{
    match e {
        Expression::Identifier(n) => name_supported(&n.name),
        Expression::Arr(n) => {
            let len = n.value.len();
            let mut i: usize = 0;
            while i < len
                invariant
                    *e == Expression::Arr(*n),
                    i <= len,
                    len == n.value@.len(),
                    forall|k: int| 0 <= k < i ==> dest_ok(#[trigger] n.value@[k]),
                    exprs_size(n.value@) < expr_size(*e),
                decreases len - i,
            {
                proof {
                    lemma_exprs_size_step(n.value@, i as int);
                    lemma_exprs_size_prefix(n.value@, i + 1);
                }
                if !dest_supported(&n.value[i]) {
                    assert(!dest_ok(n.value@[i as int]));
                    return false;
                }
                i = i + 1;
            }
            true
        },
        Expression::Obj(n) => {
            let len = n.value.len();
            let mut i: usize = 0;
            while i < len
                invariant
                    *e == Expression::Obj(*n),
                    i <= len,
                    len == n.value@.len(),
                    forall|k: int| 0 <= k < i ==> dest_ok((#[trigger] n.value@[k]).1),
                    entries_size(n.value@) < expr_size(*e),
                decreases len - i,
            {
                proof {
                    lemma_entries_size_step(n.value@, i as int);
                    lemma_entries_size_prefix(n.value@, i + 1);
                }
                if !dest_supported(&n.value[i].1) {
                    assert(!dest_ok(n.value@[i as int].1));
                    return false;
                }
                i = i + 1;
            }
            true
        },
        _ => true,
    }
}

/// Whether the translator handles the left-hand side of an assignment.
fn target_supported(e: &Expression) -> (r: bool)
    ensures
        r == target_ok(*e),
    decreases expr_size(*e), 1nat,
{
    match e {
        Expression::Identifier(n) => name_supported(&n.name),
        Expression::Index(n) => expr_supported(&n.target) && expr_supported(&n.index),
        Expression::Prop(n) => expr_supported(&n.target),
        Expression::Arr(n) => {
            let len = n.value.len();
            let mut i: usize = 0;
            while i < len
                invariant
                    *e == Expression::Arr(*n),
                    i <= len,
                    len == n.value@.len(),
                    forall|k: int| 0 <= k < i ==> target_ok(#[trigger] n.value@[k]),
                    exprs_size(n.value@) < expr_size(*e),
                decreases len - i,
            {
                proof {
                    lemma_exprs_size_step(n.value@, i as int);
                    lemma_exprs_size_prefix(n.value@, i + 1);
                }
                if !target_supported(&n.value[i]) {
                    assert(!target_ok(n.value@[i as int]));
                    return false;
                }
                i = i + 1;
            }
            true
        },
        Expression::Obj(n) => {
            let len = n.value.len();
            let mut i: usize = 0;
            while i < len
                invariant
                    *e == Expression::Obj(*n),
                    i <= len,
                    len == n.value@.len(),
                    forall|k: int| 0 <= k < i ==> target_ok((#[trigger] n.value@[k]).1),
                    entries_size(n.value@) < expr_size(*e),
                decreases len - i,
            {
                proof {
                    lemma_entries_size_step(n.value@, i as int);
                    lemma_entries_size_prefix(n.value@, i + 1);
                }
                if !target_supported(&n.value[i].1) {
                    assert(!target_ok(n.value@[i as int].1));
                    return false;
                }
                i = i + 1;
            }
            true
        },
        _ => true,
    }
}

/// Whether the translator handles the namespace (see [`ns_ok`]).
fn ns_supported(ns: &Namespace) -> (r: bool)
    ensures
        r == ns_ok(*ns),
    decreases ns_size(*ns),
{
    let len = ns.members.len();
    let mut i: usize = 0;
    while i < len
        invariant
            i <= len,
            len == ns.members@.len(),
            forall|k: int|
                0 <= k < i ==> match #[trigger] ns.members@[k] {
                    NamespaceMember::Ns(inner) => ns_ok(inner),
                    NamespaceMember::Def(_) => true,
                },
            ns_size(*ns) == 1 + 2 * members_size(ns.members@),
        decreases len - i,
    {
        proof {
            lemma_members_size_step(ns.members@, i as int);
            lemma_members_size_prefix(ns.members@, i + 1);
        }
        match &ns.members[i] {
            NamespaceMember::Ns(inner) => {
                if !ns_supported(inner) {
                    return false;
                }
            },
            NamespaceMember::Def(_) => {},
        }
        i = i + 1;
    }
    defs_supported(ns)
}

/// Whether the definitions of the namespace, up to the first refused one, are handled.
fn defs_supported(ns: &Namespace) -> (r: bool)
    ensures
        r == defs_ok_from(ns.members@, 0),
{
    let len = ns.members.len();
    let mut i: usize = 0;
    while i < len
        invariant
            i <= len,
            len == ns.members@.len(),
            defs_ok_from(ns.members@, 0) == defs_ok_from(ns.members@, i as int),
        decreases len - i,
    {
        match &ns.members[i] {
            NamespaceMember::Def(d) => {
                match &d.dest {
                    Expression::Identifier(id) => {
                        if d.is_mut {
                            return true;
                        }
                        if !expr_supported(&d.expr) || !name_supported(&id.name) {
                            return false;
                        }
                    },
                    _ => {
                        return true;
                    },
                }
            },
            NamespaceMember::Ns(_) => {},
        }
        i = i + 1;
    }
    true
}

/// Whether the translator handles the top-level node.
fn node_supported(n: &Node) -> (r: bool)
    ensures
        r == node_ok(*n),
{
    match n {
        Node::Ns(ns) => ns_supported(ns),
        Node::Meta(_) => true,
        Node::Statement(s) => stmt_supported(s),
        Node::Expr(e) => expr_supported(e),
        _ => false,
    }
}

/// The size of the expression, capped (see [`expr_size`]).
fn expr_measure(e: &Expression) -> (r: usize)
    ensures
        r == capped(expr_size(*e) as int),
    decreases expr_size(*e), 1nat,
{
    match e {
        Expression::If(n) => {
            let c = expr_measure(&n.cond);
            let t = soe_measure(&n.then_statement);
            let ei = elseifs_measure(&n.elseif);
            let el = match &n.else_statement {
                Some(b) => soe_measure(b),
                None => 0,
            };
            let a = cap_add(1, c);
            let a = cap_add(a, t);
            let a = cap_add(a, ei);
            cap_add(a, el)
        },
        Expression::Block(n) => cap_add(1, soes_measure(&n.statements)),
        Expression::Obj(n) => cap_add(1, entries_measure(&n.value)),
        Expression::Arr(n) => cap_add(1, exprs_measure(&n.value)),
        Expression::Not(n) => cap_add(1, expr_measure(&n.expr)),
        Expression::Call(n) => {
            let a = cap_add(1, expr_measure(&n.target));
            cap_add(a, exprs_measure(&n.args))
        },
        Expression::Index(n) => {
            let a = cap_add(1, expr_measure(&n.target));
            cap_add(a, expr_measure(&n.index))
        },
        Expression::Prop(n) => cap_add(1, expr_measure(&n.target)),
        Expression::Binary(n) => {
            let a = cap_add(1, expr_measure(&n.left));
            cap_add(a, expr_measure(&n.right))
        },
        _ => 1,
    }
}

/// The sizes of the expressions, added and capped.
fn exprs_measure(es: &Vec<Expression>) -> (r: usize)
    ensures
        r == capped(exprs_size(es@) as int),
    decreases exprs_size(es@), 2nat,
{
    let len = es.len();
    let mut acc: usize = 0;
    let mut i: usize = 0;
    assert(es@.subrange(0, 0) =~= Seq::<Expression>::empty());
    while i < len
        invariant
            i <= len,
            len == es@.len(),
            acc == capped(exprs_size(es@.subrange(0, i as int)) as int),
        decreases len - i,
    {
        proof {
            lemma_exprs_size_step(es@, i as int);
            lemma_exprs_size_prefix(es@, i + 1);
        }
        let m = expr_measure(&es[i]);
        acc = cap_add(acc, m);
        assert(acc == capped((exprs_size(es@.subrange(0, i as int)) + expr_size(es@[i as int])) as int));
        i = i + 1;
    }
    assert(es@.subrange(0, len as int) =~= es@);
    acc
}

/// The sizes of the values of the entries, added and capped.
fn entries_measure(es: &Vec<(Utf16String, Expression)>) -> (r: usize)
    ensures
        r == capped(entries_size(es@) as int),
    decreases entries_size(es@), 2nat,
{
    let len = es.len();
    let mut acc: usize = 0;
    let mut i: usize = 0;
    assert(es@.subrange(0, 0) =~= Seq::<(Utf16String, Expression)>::empty());
    while i < len
        invariant
            i <= len,
            len == es@.len(),
            acc == capped(entries_size(es@.subrange(0, i as int)) as int),
        decreases len - i,
    {
        proof {
            lemma_entries_size_step(es@, i as int);
            lemma_entries_size_prefix(es@, i + 1);
        }
        let m = expr_measure(&es[i].1);
        acc = cap_add(acc, m);
        assert(acc == capped((entries_size(es@.subrange(0, i as int)) + expr_size(es@[i as int].1)) as int));
        i = i + 1;
    }
    assert(es@.subrange(0, len as int) =~= es@);
    acc
}

/// The sizes of the statements and expressions, added and capped.
fn soes_measure(es: &Vec<StatementOrExpression>) -> (r: usize)
    ensures
        r == capped(soes_size(es@) as int),
    decreases soes_size(es@), 2nat,
{
    let len = es.len();
    let mut acc: usize = 0;
    let mut i: usize = 0;
    assert(es@.subrange(0, 0) =~= Seq::<StatementOrExpression>::empty());
    while i < len
        invariant
            i <= len,
            len == es@.len(),
            acc == capped(soes_size(es@.subrange(0, i as int)) as int),
        decreases len - i,
    {
        proof {
            lemma_soes_size_step(es@, i as int);
            lemma_soes_size_prefix(es@, i + 1);
        }
        let m = soe_measure(&es[i]);
        acc = cap_add(acc, m);
        assert(acc == capped((soes_size(es@.subrange(0, i as int)) + soe_size(es@[i as int])) as int));
        i = i + 1;
    }
    assert(es@.subrange(0, len as int) =~= es@);
    acc
}

/// The sizes of the `elif` branches, added and capped.
fn elseifs_measure(es: &Vec<Elseif>) -> (r: usize)
    ensures
        r == capped(elseifs_size(es@) as int),
    decreases elseifs_size(es@), 2nat,
{
    let len = es.len();
    let mut acc: usize = 0;
    let mut i: usize = 0;
    assert(es@.subrange(0, 0) =~= Seq::<Elseif>::empty());
    while i < len
        invariant
            i <= len,
            len == es@.len(),
            acc == capped(elseifs_size(es@.subrange(0, i as int)) as int),
        decreases len - i,
    {
        proof {
            lemma_elseifs_size_step(es@, i as int);
            lemma_elseifs_size_prefix(es@, i + 1);
        }
        let c = expr_measure(&es[i].cond);
        let t = soe_measure(&es[i].then_statement);
        let m = cap_add(c, t);
        acc = cap_add(acc, m);
        assert(acc == capped((elseifs_size(es@.subrange(0, i as int)) + (expr_size(es@[i as int].cond) + soe_size(es@[i as int].then_statement))) as int));
        i = i + 1;
    }
    assert(es@.subrange(0, len as int) =~= es@);
    acc
}

/// The size of the statement or expression, capped.
fn soe_measure(s: &StatementOrExpression) -> (r: usize)
    ensures
        r == capped(soe_size(*s) as int),
    decreases soe_size(*s), 1nat,
{
    match s {
        StatementOrExpression::Statement(st) => cap_add(1, stmt_measure(st)),
        StatementOrExpression::Expression(e) => cap_add(1, expr_measure(e)),
    }
}

/// The size of the statement, capped.
fn stmt_measure(s: &Statement) -> (r: usize)
    ensures
        r == capped(stmt_size(*s) as int),
    decreases stmt_size(*s), 1nat,
{
    match s {
        Statement::Def(d) => {
            let a = cap_add(1, expr_measure(&d.dest));
            cap_add(a, expr_measure(&d.expr))
        },
        Statement::Assign(a) => {
            let dest = expr_measure(&a.dest);
            let twice = cap_add(dest, dest);
            assert(twice == capped((expr_size(a.dest) + expr_size(a.dest)) as int));
            let b = cap_add(1, twice);
            cap_add(b, expr_measure(&a.expr))
        },
        _ => 1,
    }
}

/// The size of the namespace, capped.
fn ns_measure(ns: &Namespace) -> (r: usize)
    ensures
        r == capped(ns_size(*ns) as int),
    decreases ns_size(*ns),
{
    let len = ns.members.len();
    let mut acc: usize = 0;
    let mut i: usize = 0;
    assert(ns.members@.subrange(0, 0) =~= Seq::<NamespaceMember>::empty());
    while i < len
        invariant
            i <= len,
            len == ns.members@.len(),
            acc == capped(members_size(ns.members@.subrange(0, i as int)) as int),
            ns_size(*ns) == 1 + 2 * members_size(ns.members@),
        decreases len - i,
    {
        proof {
            lemma_members_size_step(ns.members@, i as int);
            lemma_members_size_prefix(ns.members@, i + 1);
        }
        let m = match &ns.members[i] {
            NamespaceMember::Def(d) => cap_add(1, expr_measure(&d.expr)),
            NamespaceMember::Ns(inner) => cap_add(1, ns_measure(inner)),
        };
        assert(m == capped(member_size(ns.members@[i as int]) as int));
        acc = cap_add(acc, m);
        assert(acc == capped((members_size(ns.members@.subrange(0, i as int)) + member_size(ns.members@[i as int])) as int));
        i = i + 1;
    }
    assert(ns.members@.subrange(0, len as int) =~= ns.members@);
    let twice = cap_add(acc, acc);
    assert(twice == capped((members_size(ns.members@) + members_size(ns.members@)) as int));
    cap_add(1, twice)
}

/// The size of the top-level node, capped.
fn node_measure(n: &Node) -> (r: usize)
    ensures
        r == capped(node_size(*n) as int),
{
    match n {
        Node::Ns(ns) => ns_measure(ns),
        Node::Statement(s) => stmt_measure(s),
        Node::Expr(e) => expr_measure(e),
        _ => 1,
    }
}

/// Whether the translator takes the program: it handles every node, and the program is
/// below [`SIZE_CAP`], so its registers fit.
pub fn supported(ast: &[Node]) -> (r: bool)
    ensures
        r == ((forall|i: int| 0 <= i < ast@.len() ==> node_ok(#[trigger] ast@[i])) && nodes_size(ast@) < SIZE_CAP),
        r ==> 5 + 8 * nodes_size(ast@) <= usize::MAX,
{
    let len = ast.len();
    let mut acc: usize = 0;
    let mut i: usize = 0;
    assert(ast@.take(0) =~= Seq::<Node>::empty());
    while i < len
        invariant
            i <= len,
            len == ast@.len(),
            acc == capped(nodes_size(ast@.take(i as int)) as int),
            forall|k: int| 0 <= k < i ==> node_ok(#[trigger] ast@[k]),
        decreases len - i,
    {
        proof {
            lemma_nodes_size_step(ast@, i as int);
        }
        if !node_supported(&ast[i]) {
            return false;
        }
        let m = node_measure(&ast[i]);
        acc = cap_add(acc, m);
        assert(acc == capped((nodes_size(ast@.take(i as int)) + node_size(ast@[i as int])) as int));
        i = i + 1;
    }
    assert(ast@.take(len as int) =~= ast@);
    acc < SIZE_CAP
}

} // verus!
