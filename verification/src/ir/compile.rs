use vstd::prelude::*;

use super::ir::{DataIndex, Instruction, Register};
use super::scopes::{
    add_spec, immutable_variable, lookup_spec, no_such_variable, scope_name_spec, ScopesView,
    Variable,
};
use crate::ast::nodes::{
    AssignOperator, BinaryArithmeticOperator, BinaryLogicalOperator, BinaryOperator, Elseif,
    Expression, Namespace, NamespaceMember, Node, Statement, StatementOrExpression,
};
use crate::common::string::utf16_decode_lossy;
use crate::common::error::AiScriptBasicErrorKind;
use crate::common::position::Position;
use crate::common::string::Utf16String;

verus! {

/// An instruction as the contracts see it: the branches of an `If` and the error of a
/// panic by their views, every other instruction as it is.
pub ghost enum CodeView {
    Op(Instruction),
    If(Register, Seq<CodeView>, Seq<CodeView>),
    Panic(AiScriptBasicErrorKind, Seq<char>, Option<Position>),
}

/// The view of an instruction.
pub open spec fn instr_view(i: Instruction) -> CodeView
    decreases i, 1nat,
{
    match i {
        Instruction::If(r, a, b) => {
            proof {
                assert(decreases_to!(a => a@));
                assert(decreases_to!(b => b@));
            }
            CodeView::If(r, code_view(a@), code_view(b@))
        },
        Instruction::Panic(e) => CodeView::Panic(e.kind, e.message@, e.pos),
        _ => CodeView::Op(i),
    }
}

/// The view of a sequence of instructions.
pub open spec fn code_view(s: Seq<Instruction>) -> Seq<CodeView>
    decreases s, 0nat,
{
    if s.len() == 0 {
        Seq::empty()
    } else {
        code_view(s.drop_last()).push(instr_view(s.last()))
    }
}

/// What the translator has written, as far as the code of one expression or statement
/// changes it: the scopes, the data table, the number of registers in use and the
/// current sequence of instructions.
pub ghost struct CodeState {
    pub scopes: ScopesView,
    pub data: Seq<Seq<u16>>,
    pub regs: nat,
    pub block: Seq<CodeView>,
}

/// The state with `x` written at the end of the current sequence.
pub open spec fn put(c: CodeState, x: CodeView) -> CodeState {
    CodeState { block: c.block.push(x), ..c }
}

/// The state with the instruction `i` written.
pub open spec fn op(c: CodeState, i: Instruction) -> CodeState {
    put(c, CodeView::Op(i))
}

/// The state with a panic written: an error of `kind` with `message` and no position.
pub open spec fn write_panic(c: CodeState, kind: AiScriptBasicErrorKind, message: Seq<char>) -> CodeState {
    put(c, CodeView::Panic(kind, message, None))
}

/// The state with one more register in use; the new register is `c.regs`.
pub open spec fn fresh(c: CodeState) -> CodeState {
    CodeState { regs: c.regs + 1, ..c }
}

/// The state once the string `s` is in the data table: added at the end if it is not there.
pub open spec fn intern(c: CodeState, s: Seq<u16>) -> CodeState {
    if c.data.contains(s) {
        c
    } else {
        CodeState { data: c.data.push(s), ..c }
    }
}

/// The index of the string `s` in the data table.
pub open spec fn data_index(data: Seq<Seq<u16>>, s: Seq<u16>) -> int {
    choose|i: int| 0 <= i < data.len() && data[i] == s
}

/// The state once a new, empty sequence of instructions begins.
pub open spec fn new_seq(c: CodeState) -> CodeState {
    CodeState { block: Seq::empty(), ..c }
}

/// The state once the sequence `outer` comes back as the current one.
pub open spec fn resume(c: CodeState, outer: Seq<CodeView>) -> CodeState {
    CodeState { block: outer, ..c }
}

/// The state once a block begins: a new, empty sequence and a new scope.
pub open spec fn open_block(c: CodeState) -> CodeState {
    CodeState {
        scopes: ScopesView { blocks: c.scopes.blocks.push(Seq::empty()), ..c.scopes },
        block: Seq::empty(),
        ..c
    }
}

/// The state once a block ends: its scope goes, and the sequence `outer` comes back.
pub open spec fn close_block(c: CodeState, outer: Seq<CodeView>) -> CodeState {
    CodeState {
        scopes: ScopesView { blocks: c.scopes.blocks.drop_last(), ..c.scopes },
        block: outer,
        ..c
    }
}

/// The state once `k` blocks have begun, each inside the one before.
pub open spec fn open_blocks(c: CodeState, k: nat) -> CodeState
    decreases k,
{
    if k == 0 {
        c
    } else {
        open_block(open_blocks(c, (k - 1) as nat))
    }
}

/// The code of an expression whose value goes to `register`, written from `c`. Each new
/// register is the next one; a string goes to the data table where it is not there yet.
pub open spec fn compile_expr(c: CodeState, register: Register, e: Expression) -> CodeState
    decreases e, 0nat,
{
    let r = c.regs as usize;
    match e {
        Expression::Num(n) => op(c, Instruction::Num(register, n.value)),
        Expression::Bool(n) => op(c, Instruction::Bool(register, n.value)),
        Expression::Null(_) => op(c, Instruction::Null(register)),
        Expression::Exists(n) => op(
            c,
            Instruction::Bool(register, lookup_spec(c.scopes, n.identifier.name@) is Some),
        ),
        Expression::Str(n) => {
            let u = intern(c, n.value@);
            op(u, Instruction::Data(register, data_index(u.data, n.value@) as usize))
        },
        Expression::Identifier(n) => match lookup_spec(c.scopes, n.name@) {
            Some(var) => op(c, Instruction::Move(register, var.register)),
            None => write_panic(
                c,
                AiScriptBasicErrorKind::Runtime,
                no_such_variable(n.name@, scope_name_spec(c.scopes)),
            ),
        },
        Expression::Not(n) => {
            let m = compile_expr(fresh(c), r, *n.expr);
            op(m, Instruction::Not(register, r))
        },
        Expression::Arr(n) => {
            proof {
                assert(decreases_to!(n.value => n.value@));
            }
            compile_arr(c, register, n.value@)
        },
        Expression::Obj(n) => {
            proof {
                assert(decreases_to!(n.value => n.value@));
            }
            let c1 = op(c, Instruction::Obj(register, n.value@.len() as usize));
            if n.value@.len() == 0 {
                c1
            } else {
                compile_entries(fresh(c1), r, register, n.value@)
            }
        },
        Expression::Call(n) => {
            proof {
                assert(decreases_to!(n.args => n.args@));
            }
            let m = compile_expr(fresh(c), r, *n.target);
            let a = m.regs as usize;
            let m2 = compile_arr(fresh(m), a, n.args@);
            op(m2, Instruction::Call(register, r, a))
        },
        Expression::Index(n) => {
            let m = compile_expr(fresh(c), r, *n.target);
            let i = m.regs as usize;
            let m2 = compile_expr(fresh(m), i, *n.index);
            op(m2, Instruction::Load(register, r, i))
        },
        Expression::Prop(n) => {
            let m = compile_expr(fresh(c), r, *n.target);
            let u = intern(m, n.name@);
            op(u, Instruction::LoadProp(register, r, data_index(u.data, n.name@) as usize))
        },
        Expression::Binary(n) => match n.op {
            BinaryOperator::Arithmetic(a) => {
                let m = compile_expr(fresh(fresh(c)), r, *n.left);
                let m2 = compile_expr(m, (c.regs + 1) as usize, *n.right);
                op(
                    m2,
                    if a == BinaryArithmeticOperator::Add {
                        Instruction::Add(register, r, (c.regs + 1) as usize)
                    } else {
                        Instruction::Sub(register, r, (c.regs + 1) as usize)
                    },
                )
            },
            BinaryOperator::Logical(l) => {
                let m = compile_expr(c, register, *n.left);
                let m2 = compile_expr(new_seq(m), register, *n.right);
                let back = resume(m2, m.block);
                if l == BinaryLogicalOperator::And {
                    put(back, CodeView::If(register, m2.block, Seq::empty()))
                } else {
                    put(back, CodeView::If(register, Seq::empty(), m2.block))
                }
            },
        },
        Expression::Block(n) => {
            proof {
                assert(decreases_to!(n.statements => n.statements@));
            }
            compile_soes(c, register, n.statements@)
        },
        Expression::If(n) => {
            proof {
                assert(decreases_to!(n.elseif => n.elseif@));
            }
            let m = compile_expr(c, register, *n.cond);
            let m2 = compile_soe(open_block(m), register, *n.then_statement);
            let e1 = close_block(m2, m.block);
            let k = n.elseif@.len();
            let sk = open_blocks(e1, k);
            match n.else_statement {
                Some(b) => {
                    let m3 = compile_soe(open_block(sk), register, *b);
                    compile_elifs(close_block(m3, sk.block), register, n.elseif@, m3.block, m2.block, m.block)
                },
                None => compile_elifs(
                    sk,
                    register,
                    n.elseif@,
                    seq![CodeView::Op(Instruction::Null(register))],
                    m2.block,
                    m.block,
                ),
            }
        },
        _ => c,
    }
}

/// The code of an array of the values of `es` in `register`: the array, then each value
/// evaluated in one new register and stored in its place.
pub open spec fn compile_arr(c: CodeState, register: Register, es: Seq<Expression>) -> CodeState
    decreases es, 1nat,
{
    let c1 = op(c, Instruction::Arr(register, es.len() as usize));
    if es.len() == 0 {
        c1
    } else {
        compile_elems(fresh(c1), c.regs as usize, register, es)
    }
}

/// The code of the elements `es` of an array literal, each evaluated into `value` and
/// stored in its place into the array in `register`.
pub open spec fn compile_elems(c: CodeState, value: Register, register: Register, es: Seq<Expression>) -> CodeState
    decreases es, 0nat,
{
    if es.len() == 0 {
        c
    } else {
        let m = compile_elems(c, value, register, es.drop_last());
        let m2 = compile_expr(m, value, es.last());
        op(m2, Instruction::StoreIndex(value, register, (es.len() - 1) as usize))
    }
}

/// The code of the entries `es` of an object literal, each value evaluated into `value`
/// and stored under its key into the object in `register`.
pub open spec fn compile_entries(
    c: CodeState,
    value: Register,
    register: Register,
    es: Seq<(Utf16String, Expression)>,
) -> CodeState
    decreases es, 0nat,
{
    if es.len() == 0 {
        c
    } else {
        let m = compile_entries(c, value, register, es.drop_last());
        let m2 = compile_expr(m, value, es.last().1);
        let u = intern(m2, es.last().0@);
        op(u, Instruction::StoreProp(value, register, data_index(u.data, es.last().0@) as usize))
    }
}

/// The code of the statements `ss` of a block, each with `register` for its value.
pub open spec fn compile_soes(c: CodeState, register: Register, ss: Seq<StatementOrExpression>) -> CodeState
    decreases ss, 0nat,
{
    if ss.len() == 0 {
        c
    } else {
        compile_soe(compile_soes(c, register, ss.drop_last()), register, ss.last())
    }
}

/// The code of the `elif`s `elifs` of an `if`, from the last down to the first, each in
/// the block that the one before it opened: each tests its condition and runs its body
/// or `otherwise`, the code of the ones after it and of the `else`. Last comes, in the
/// sequence `base` where the `if` began, the `If` that runs `then` or the code of all
/// the `elif`s.
pub open spec fn compile_elifs(
    c: CodeState,
    register: Register,
    elifs: Seq<Elseif>,
    otherwise: Seq<CodeView>,
    then: Seq<CodeView>,
    base: Seq<CodeView>,
) -> CodeState
    decreases elifs, 0nat,
{
    if elifs.len() == 0 {
        put(c, CodeView::If(register, then, otherwise))
    } else {
        let m = compile_expr(c, register, elifs.last().cond);
        let m2 = compile_soe(open_block(m), register, elifs.last().then_statement);
        let m3 = put(close_block(m2, m.block), CodeView::If(register, m2.block, otherwise));
        let outer = if elifs.len() == 1 {
            base
        } else {
            Seq::empty()
        };
        compile_elifs(close_block(m3, outer), register, elifs.drop_last(), m3.block, then, base)
    }
}

/// The code of a statement or an expression, with `register` for its value.
pub open spec fn compile_soe(c: CodeState, register: Register, s: StatementOrExpression) -> CodeState
    decreases s, 0nat,
{
    match s {
        StatementOrExpression::Statement(st) => compile_stmt(c, register, st),
        StatementOrExpression::Expression(e) => compile_expr(c, register, e),
    }
}

/// The code of a statement, after which `register` holds null: a definition binds its
/// left-hand side; an assignment, with `+=` and `-=` through the value it reads first,
/// stores into what its left-hand side refers to.
pub open spec fn compile_stmt(c: CodeState, register: Register, s: Statement) -> CodeState
    decreases s, 0nat,
{
    let r = c.regs as usize;
    match s {
        Statement::Def(d) => {
            let m = compile_expr(fresh(c), r, d.expr);
            op(compile_define(m, d.dest, r, d.is_mut), Instruction::Null(register))
        },
        Statement::Assign(a) => {
            let m = compile_expr(fresh(c), r, a.expr);
            let (m2, target) = compile_ref(m, a.dest);
            match target {
                Some(x) => {
                    let done = match a.op {
                        AssignOperator::Assign => compile_assign(m2, x, r),
                        _ => {
                            let left = m2.regs as usize;
                            let m3 = compile_deref(fresh(m2), left, x);
                            let result = m3.regs as usize;
                            let i = if a.op == AssignOperator::AddAssign {
                                Instruction::Add(result, left, r)
                            } else {
                                Instruction::Sub(result, left, r)
                            };
                            compile_assign(op(fresh(m3), i), x, result)
                        },
                    };
                    op(done, Instruction::Null(register))
                },
                None => op(m2, Instruction::Null(register)),
            }
        },
        _ => op(c, Instruction::Null(register)),
    }
}

/// The code that binds the left-hand side `dest` of a definition to the value in
/// `register`: a name, or the parts of an array or an object.
pub open spec fn compile_define(c: CodeState, dest: Expression, register: Register, is_mutable: bool) -> CodeState
    decreases dest, 1nat,
{
    match dest {
        Expression::Identifier(n) => CodeState {
            scopes: add_spec(c.scopes, n.name@, Variable { is_mutable, register }),
            ..c
        },
        Expression::Arr(n) => {
            proof {
                assert(decreases_to!(n.value => n.value@));
            }
            define_items(c, register, is_mutable, n.value@)
        },
        Expression::Obj(n) => {
            proof {
                assert(decreases_to!(n.value => n.value@));
            }
            define_entries(c, register, is_mutable, n.value@)
        },
        _ => write_panic(
            c,
            AiScriptBasicErrorKind::Runtime,
            "The left-hand side of an definition expression must be a variable."@,
        ),
    }
}

/// The code that binds the items `es` of an array pattern, each to the element of its
/// place in the array in `register`, read into a new register.
pub open spec fn define_items(c: CodeState, register: Register, is_mutable: bool, es: Seq<Expression>) -> CodeState
    decreases es, 0nat,
{
    if es.len() == 0 {
        c
    } else {
        let m = define_items(c, register, is_mutable, es.drop_last());
        let d = m.regs as usize;
        let m1 = op(fresh(m), Instruction::LoadIndex(d, register, (es.len() - 1) as usize));
        compile_define(m1, es.last(), d, is_mutable)
    }
}

/// The code that binds the entries `es` of an object pattern, each to the property of its
/// key of the object in `register`, read into a new register.
pub open spec fn define_entries(
    c: CodeState,
    register: Register,
    is_mutable: bool,
    es: Seq<(Utf16String, Expression)>,
) -> CodeState
    decreases es, 0nat,
{
    if es.len() == 0 {
        c
    } else {
        let m = define_entries(c, register, is_mutable, es.drop_last());
        let u = intern(m, es.last().0@);
        let d = u.regs as usize;
        let m1 = op(fresh(u), Instruction::LoadProp(d, register, data_index(u.data, es.last().0@) as usize));
        compile_define(m1, es.last().1, d, is_mutable)
    }
}

/// What the left-hand side of an assignment refers to, as the contracts see it.
pub ghost enum RefView {
    Variable(Register),
    Index(Register, Register),
    Prop(Register, DataIndex),
    Arr(Seq<RefView>),
    Obj(Seq<(DataIndex, RefView)>),
}

/// Whether an entry of `es` has the key `key`.
pub open spec fn has_ref_key(es: Seq<(DataIndex, RefView)>, key: DataIndex) -> bool {
    exists|l: int| 0 <= l < es.len() && (#[trigger] es[l]).0 == key
}

/// The place of the first entry of `es` with the key `key`.
pub open spec fn first_ref_key(es: Seq<(DataIndex, RefView)>, key: DataIndex) -> int {
    choose|l: int|
        0 <= l < es.len() && (#[trigger] es[l]).0 == key && forall|k: int| 0 <= k < l ==> (#[trigger] es[k]).0 != key
}

/// The entries with `key` bound to `x`: in place of the first entry with that key, else last.
pub open spec fn put_ref(es: Seq<(DataIndex, RefView)>, key: DataIndex, x: RefView) -> Seq<(DataIndex, RefView)> {
    if has_ref_key(es, key) {
        es.update(first_ref_key(es, key), (key, x))
    } else {
        es.push((key, x))
    }
}

/// The code that evaluates what the left-hand side `dest` of an assignment refers to, and
/// the reference; where it cannot be assigned, a panic and no reference.
pub open spec fn compile_ref(c: CodeState, dest: Expression) -> (CodeState, Option<RefView>)
    decreases dest, 1nat,
{
    let r = c.regs as usize;
    match dest {
        Expression::Identifier(n) => match lookup_spec(c.scopes, n.name@) {
            Some(var) => if var.is_mutable {
                (c, Some(RefView::Variable(var.register)))
            } else {
                (write_panic(c, AiScriptBasicErrorKind::Runtime, immutable_variable(n.name@)), None)
            },
            None => (
                write_panic(
                    c,
                    AiScriptBasicErrorKind::Runtime,
                    no_such_variable(n.name@, scope_name_spec(c.scopes)),
                ),
                None,
            ),
        },
        Expression::Index(n) => {
            let m = compile_expr(fresh(c), r, *n.target);
            let i = m.regs as usize;
            (compile_expr(fresh(m), i, *n.index), Some(RefView::Index(r, i)))
        },
        Expression::Prop(n) => {
            let m = compile_expr(fresh(c), r, *n.target);
            let u = intern(m, n.name@);
            (u, Some(RefView::Prop(r, data_index(u.data, n.name@) as usize)))
        },
        Expression::Arr(n) => {
            proof {
                assert(decreases_to!(n.value => n.value@));
            }
            let (m, items) = ref_items(c, n.value@);
            (
                m,
                match items {
                    Some(s) => Some(RefView::Arr(s)),
                    None => None,
                },
            )
        },
        Expression::Obj(n) => {
            proof {
                assert(decreases_to!(n.value => n.value@));
            }
            let (m, entries) = ref_entries(c, n.value@);
            (
                m,
                match entries {
                    Some(s) => Some(RefView::Obj(s)),
                    None => None,
                },
            )
        },
        _ => (
            write_panic(
                c,
                AiScriptBasicErrorKind::Runtime,
                "The left-hand side of an assignment expression must be a variable or a property/index access."@,
            ),
            None,
        ),
    }
}

/// The code and the references of the items `es` of an array pattern on the left of an
/// assignment, in order, up to the first that cannot be assigned.
pub open spec fn ref_items(c: CodeState, es: Seq<Expression>) -> (CodeState, Option<Seq<RefView>>)
    decreases es, 0nat,
{
    if es.len() == 0 {
        (c, Some(Seq::empty()))
    } else {
        let (m, prev) = ref_items(c, es.drop_last());
        match prev {
            Some(items) => {
                let (m2, x) = compile_ref(m, es.last());
                match x {
                    Some(item) => (m2, Some(items.push(item))),
                    None => (m2, None),
                }
            },
            None => (m, None),
        }
    }
}

/// The code and the references of the entries `es` of an object pattern on the left of an
/// assignment, by key, up to the first that cannot be assigned.
pub open spec fn ref_entries(c: CodeState, es: Seq<(Utf16String, Expression)>) -> (CodeState, Option<Seq<(DataIndex, RefView)>>)
    decreases es, 0nat,
{
    if es.len() == 0 {
        (c, Some(Seq::empty()))
    } else {
        let (m, prev) = ref_entries(c, es.drop_last());
        match prev {
            Some(entries) => {
                let u = intern(m, es.last().0@);
                let key = data_index(u.data, es.last().0@) as usize;
                let (m2, x) = compile_ref(u, es.last().1);
                match x {
                    Some(item) => (m2, Some(put_ref(entries, key, item))),
                    None => (m2, None),
                }
            },
            None => (m, None),
        }
    }
}

/// The code that reads what `x` refers to into `dest`.
pub open spec fn compile_deref(c: CodeState, dest: Register, x: RefView) -> CodeState
    decreases x, 1nat,
{
    match x {
        RefView::Variable(r) => op(c, Instruction::Move(dest, r)),
        RefView::Index(t, i) => op(c, Instruction::Load(dest, t, i)),
        RefView::Prop(t, k) => op(c, Instruction::LoadProp(dest, t, k)),
        RefView::Arr(items) => {
            let c1 = op(c, Instruction::Arr(dest, items.len() as usize));
            deref_items(fresh(c1), c.regs as usize, dest, items)
        },
        RefView::Obj(entries) => {
            let c1 = op(c, Instruction::Obj(dest, entries.len() as usize));
            deref_entries(fresh(c1), c.regs as usize, dest, entries)
        },
    }
}

/// The code that reads each of `items` into `temp` and stores it in its place into the
/// array in `dest`.
pub open spec fn deref_items(c: CodeState, temp: Register, dest: Register, items: Seq<RefView>) -> CodeState
    decreases items, 0nat,
{
    if items.len() == 0 {
        c
    } else {
        let m = deref_items(c, temp, dest, items.drop_last());
        op(compile_deref(m, temp, items.last()), Instruction::StoreIndex(temp, dest, (items.len() - 1) as usize))
    }
}

/// The code that reads each of the entries into `temp` and stores it under its key into
/// the object in `dest`.
pub open spec fn deref_entries(c: CodeState, temp: Register, dest: Register, entries: Seq<(DataIndex, RefView)>) -> CodeState
    decreases entries, 0nat,
{
    if entries.len() == 0 {
        c
    } else {
        let m = deref_entries(c, temp, dest, entries.drop_last());
        op(compile_deref(m, temp, entries.last().1), Instruction::StoreProp(temp, dest, entries.last().0))
    }
}

/// The code that stores the value of `src` where `x` refers to.
pub open spec fn compile_assign(c: CodeState, x: RefView, src: Register) -> CodeState
    decreases x, 1nat,
{
    match x {
        RefView::Variable(r) => op(c, Instruction::Move(r, src)),
        RefView::Index(t, i) => op(c, Instruction::Store(src, t, i)),
        RefView::Prop(t, k) => op(c, Instruction::StoreProp(src, t, k)),
        RefView::Arr(items) => assign_items(fresh(c), c.regs as usize, src, items),
        RefView::Obj(entries) => assign_entries(fresh(c), c.regs as usize, src, entries),
    }
}

/// The code that reads each element of the array in `src` into `temp` and stores it where
/// the item of its place refers to.
pub open spec fn assign_items(c: CodeState, temp: Register, src: Register, items: Seq<RefView>) -> CodeState
    decreases items, 0nat,
{
    if items.len() == 0 {
        c
    } else {
        let m = assign_items(c, temp, src, items.drop_last());
        let m1 = op(m, Instruction::LoadIndex(temp, src, (items.len() - 1) as usize));
        compile_assign(m1, items.last(), temp)
    }
}

/// The code that reads each property of the object in `src` that the entries name into
/// `temp` and stores it where the entry refers to.
pub open spec fn assign_entries(c: CodeState, temp: Register, src: Register, entries: Seq<(DataIndex, RefView)>) -> CodeState
    decreases entries, 0nat,
{
    if entries.len() == 0 {
        c
    } else {
        let m = assign_entries(c, temp, src, entries.drop_last());
        let m1 = op(m, Instruction::LoadProp(temp, src, entries.last().0));
        compile_assign(m1, entries.last().1, temp)
    }
}

/// The code of a namespace: in the scope of its name, the namespaces in it, then its
/// definitions.
pub open spec fn compile_ns(c: CodeState, ns: Namespace) -> CodeState
    decreases ns, 1nat,
{
    proof {
        assert(decreases_to!(ns.members => ns.members@));
    }
    let inside = CodeState {
        scopes: ScopesView { namespaces: c.scopes.namespaces.push(ns.name@), ..c.scopes },
        ..c
    };
    let m = ns_defs(ns_inner(inside, ns.members@), ns.members@).0;
    CodeState { scopes: ScopesView { namespaces: m.scopes.namespaces.drop_last(), ..m.scopes }, ..m }
}

/// The code of the namespaces among the members `ms`, in order.
pub open spec fn ns_inner(c: CodeState, ms: Seq<NamespaceMember>) -> CodeState
    decreases ms, 0nat,
{
    if ms.len() == 0 {
        c
    } else {
        let m = ns_inner(c, ms.drop_last());
        match ms.last() {
            NamespaceMember::Ns(inner) => compile_ns(m, inner),
            NamespaceMember::Def(_) => m,
        }
    }
}

/// The message for a `var` in a namespace.
pub open spec fn ns_var_message(name: Seq<u16>) -> Seq<char> {
    "No \"var\" in namespace declaration: "@ + utf16_decode_lossy(name)
}

/// The code of the definitions among the members `ms`, in order, and whether one was
/// refused: a `var` or a destructuring, for which a panic at its place is written and the
/// later ones are not.
pub open spec fn ns_defs(c: CodeState, ms: Seq<NamespaceMember>) -> (CodeState, bool)
    decreases ms.len(),
{
    if ms.len() == 0 {
        (c, false)
    } else {
        let (m, stopped) = ns_defs(c, ms.drop_last());
        if stopped {
            (m, true)
        } else {
            match ms.last() {
                NamespaceMember::Def(d) => match d.dest {
                    Expression::Identifier(id) => if d.is_mut {
                        (
                            put(
                                m,
                                CodeView::Panic(
                                    AiScriptBasicErrorKind::Namespace,
                                    ns_var_message(id.name@),
                                    Some(d.loc.start),
                                ),
                            ),
                            true,
                        )
                    } else {
                        let r = m.regs as usize;
                        let m2 = compile_expr(fresh(m), r, d.expr);
                        (
                            CodeState {
                                scopes: add_spec(m2.scopes, id.name@, Variable { is_mutable: false, register: r }),
                                ..m2
                            },
                            false,
                        )
                    },
                    _ => (
                        put(
                            m,
                            CodeView::Panic(
                                AiScriptBasicErrorKind::Namespace,
                                "Destructuring assignment is invalid in namespace declarations."@,
                                Some(d.loc.start),
                            ),
                        ),
                        true,
                    ),
                },
                NamespaceMember::Ns(_) => (m, false),
            }
        }
    }
}

/// The state of a translator with nothing written.
pub open spec fn initial_code() -> CodeState {
    CodeState {
        scopes: ScopesView { root: Seq::empty(), namespaces: Seq::empty(), blocks: Seq::empty() },
        data: Seq::empty(),
        regs: 0,
        block: Seq::empty(),
    }
}

/// The code of the namespaces among the nodes of a program, in order.
pub open spec fn collect_nodes(c: CodeState, nodes: Seq<Node>) -> CodeState
    decreases nodes.len(),
{
    if nodes.len() == 0 {
        c
    } else {
        let m = collect_nodes(c, nodes.drop_last());
        match nodes.last() {
            Node::Ns(ns) => compile_ns(m, ns),
            _ => m,
        }
    }
}

/// The code of a top-level node, with `register` for its value: a statement or an
/// expression; null for the others.
pub open spec fn compile_node(c: CodeState, register: Register, node: Node) -> CodeState {
    match node {
        Node::Statement(s) => compile_stmt(c, register, s),
        Node::Expr(e) => compile_expr(c, register, e),
        _ => op(c, Instruction::Null(register)),
    }
}

/// The code of the nodes of a program, in order, each with `register` for its value.
pub open spec fn eval_nodes(c: CodeState, register: Register, nodes: Seq<Node>) -> CodeState
    decreases nodes.len(),
{
    if nodes.len() == 0 {
        c
    } else {
        compile_node(eval_nodes(c, register, nodes.drop_last()), register, nodes.last())
    }
}

/// The code of a program: the namespaces first, then the nodes in order with the value of
/// each in one new register. An empty program writes nothing.
pub open spec fn compile_program(c: CodeState, nodes: Seq<Node>) -> CodeState {
    if nodes.len() == 0 {
        c
    } else {
        let m = collect_nodes(c, nodes);
        eval_nodes(fresh(m), m.regs as usize, nodes)
    }
}

/// Once a namespace definition is refused, the later ones write nothing.
pub proof fn lemma_ns_defs_stopped(c: CodeState, ms: Seq<NamespaceMember>, j: int)
    requires
        0 <= j <= ms.len(),
        ns_defs(c, ms.take(j)).1,
    ensures
        ns_defs(c, ms) == ns_defs(c, ms.take(j)),
    decreases ms.len(),
{
    if ms.len() > j {
        assert(ms.drop_last().take(j) =~= ms.take(j));
        lemma_ns_defs_stopped(c, ms.drop_last(), j);
    } else {
        assert(ms.take(j) =~= ms);
    }
}

/// The view of a sequence with one more instruction is the view with one more item.
pub proof fn lemma_code_view_push(s: Seq<Instruction>, i: Instruction)
    ensures
        code_view(s.push(i)) == code_view(s).push(instr_view(i)),
{
    assert(s.push(i).drop_last() =~= s);
}

/// The view of no instructions is empty.
pub proof fn lemma_code_view_empty()
    ensures
        code_view(Seq::<Instruction>::empty()) == Seq::<CodeView>::empty(),
{
}

/// In a data table where no string occurs twice, the index of a string is its place.
pub proof fn lemma_data_index(data: Seq<Seq<u16>>, s: Seq<u16>, i: int)
    requires
        forall|a: int, b: int| 0 <= a < data.len() && 0 <= b < data.len() && a != b ==> #[trigger] data[a] != #[trigger] data[b],
        0 <= i < data.len(),
        data[i] == s,
    ensures
        data_index(data, s) == i,
{
    let j = data_index(data, s);
    assert(0 <= j < data.len() && data[j] == s);
}

/// Beginning one more block.
pub proof fn lemma_open_blocks_step(c: CodeState, k: nat)
    ensures
        open_blocks(c, k + 1) == open_block(open_blocks(c, k)),
{
}

/// Once an item of an array pattern cannot be assigned, the later items write nothing.
pub proof fn lemma_ref_items_none(c: CodeState, es: Seq<Expression>, j: int)
    requires
        0 <= j <= es.len(),
        ref_items(c, es.take(j)).1 is None,
    ensures
        ref_items(c, es) == ref_items(c, es.take(j)),
    decreases es.len(),
{
    if es.len() > j {
        assert(es.drop_last().take(j) =~= es.take(j));
        lemma_ref_items_none(c, es.drop_last(), j);
    } else {
        assert(es.take(j) =~= es);
    }
}

/// Once an entry of an object pattern cannot be assigned, the later entries write nothing.
pub proof fn lemma_ref_entries_none(c: CodeState, es: Seq<(Utf16String, Expression)>, j: int)
    requires
        0 <= j <= es.len(),
        ref_entries(c, es.take(j)).1 is None,
    ensures
        ref_entries(c, es) == ref_entries(c, es.take(j)),
    decreases es.len(),
{
    if es.len() > j {
        assert(es.drop_last().take(j) =~= es.take(j));
        lemma_ref_entries_none(c, es.drop_last(), j);
    } else {
        assert(es.take(j) =~= es);
    }
}

} // verus!
