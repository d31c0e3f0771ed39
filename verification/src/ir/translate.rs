use vstd::prelude::*;

use super::ir::{
    code_wf, data_str, instr_wf, ir_wf, lemma_code_wf_mono, lemma_code_wf_push, DataIndex,
    DataItem, Instruction, Ir, Register, UserFn,
};
use super::compile::{
    close_block, code_view, compile_expr, compile_soe, compile_stmt, data_index, fresh, intern,
    lemma_code_view_empty, lemma_code_view_push, lemma_data_index, lemma_open_blocks_step,
    new_seq, open_block, open_blocks, put, resume, CodeState, CodeView, instr_view, RefView,
    compile_ref, compile_deref, compile_assign, compile_define, compile_arr, compile_elems,
    compile_entries, compile_soes, compile_elifs, ref_items, ref_entries, deref_items,
    deref_entries, assign_items, assign_entries, define_items, define_entries, put_ref,
    has_ref_key, first_ref_key, op, lemma_ref_items_none, lemma_ref_entries_none, compile_ns,
    ns_inner, ns_defs, lemma_ns_defs_stopped, collect_nodes, eval_nodes, compile_node,
    compile_program, initial_code,
};
use super::scopes::{
    add_spec, first_block, lemma_table_insert, lookup_spec, no_such_variable, no_such_variable_message,
    scope_name_spec, scopes_wf, table_has, table_insert, Scopes, ScopesView, Table,
    Variable,
};
use crate::ast::measure::{
    elseifs_size, entries_size, expr_size, exprs_size, lemma_elseifs_size_prefix,
    lemma_elseifs_size_step, lemma_entries_size_prefix, lemma_entries_size_step,
    lemma_exprs_size_prefix, lemma_exprs_size_step, lemma_members_size_prefix,
    lemma_members_size_step, lemma_nodes_size_prefix, lemma_nodes_size_step,
    lemma_soes_size_prefix, lemma_soes_size_step, members_size, node_size,
    nodes_size, ns_size, soe_size, soes_size, stmt_size,
};
use crate::ast::nodes::{
    AssignOperator, BinaryArithmeticOperator, BinaryLogicalOperator, BinaryOperator, Expression,
    Namespace, NamespaceMember, Node, Statement, StatementOrExpression,
};
use crate::common::error::{AiScriptBasicError, AiScriptBasicErrorKind};
use crate::common::path::NamePath;
use crate::common::string::{Utf16Str, Utf16String};

verus! {

/// A value that a library gives a program.
pub enum LibraryValue {
    Null,
    Bool(bool),
    /// A number, given by its IEEE-754 bits.
    Num(u64),
    Str(Utf16String),
    /// A native function, given by the handle that the host maps to its implementation.
    Fn(usize),
}

/// The values of a library, each under its name.
pub type Library = Vec<(Utf16String, LibraryValue)>;

/// The handles of the native functions of a library, in order.
pub open spec fn lib_natives(lib: Seq<(Utf16String, LibraryValue)>) -> Seq<usize>
    decreases lib.len(),
{
    if lib.len() == 0 {
        Seq::empty()
    } else {
        match lib.last().1 {
            LibraryValue::Fn(f) => lib_natives(lib.drop_last()).push(f),
            _ => lib_natives(lib.drop_last()),
        }
    }
}

/// A value of a library, as the contracts see it: a string by its code units.
pub ghost enum LibraryValueView {
    Null,
    Bool(bool),
    Num(u64),
    Str(Seq<u16>),
    Fn(usize),
}

/// The view of a value of a library.
pub open spec fn library_value_view(v: LibraryValue) -> LibraryValueView {
    match v {
        LibraryValue::Null => LibraryValueView::Null,
        LibraryValue::Bool(b) => LibraryValueView::Bool(b),
        LibraryValue::Num(n) => LibraryValueView::Num(n),
        LibraryValue::Str(s) => LibraryValueView::Str(s@),
        LibraryValue::Fn(f) => LibraryValueView::Fn(f),
    }
}

/// The view of a library: each name by its code units with the view of its value.
pub open spec fn library_view(lib: Seq<(Utf16String, LibraryValue)>) -> Seq<(Seq<u16>, LibraryValueView)> {
    lib.map_values(|e: (Utf16String, LibraryValue)| (e.0@, library_value_view(e.1)))
}

/// The number of native functions among the values of a library.
pub open spec fn natives_count(lib: Seq<(Seq<u16>, LibraryValueView)>) -> nat
    decreases lib.len(),
{
    if lib.len() == 0 {
        0
    } else {
        natives_count(lib.drop_last()) + if lib.last().1 is Fn {
            1nat
        } else {
            0nat
        }
    }
}

/// The code that gives a program the values of a library, whose native functions are
/// numbered from `natives` on: each value goes to a new register, bound at the root to its
/// name as an immutable variable.
pub open spec fn link_code(c: CodeState, natives: nat, lib: Seq<(Seq<u16>, LibraryValueView)>) -> CodeState
    decreases lib.len(),
{
    if lib.len() == 0 {
        c
    } else {
        let m = link_code(c, natives, lib.drop_last());
        let r = m.regs as usize;
        let m1 = fresh(m);
        let m2 = match lib.last().1 {
            LibraryValueView::Null => op(m1, Instruction::Null(r)),
            LibraryValueView::Bool(b) => op(m1, Instruction::Bool(r, b)),
            LibraryValueView::Num(n) => op(m1, Instruction::Num(r, n)),
            LibraryValueView::Str(t) => {
                let u = intern(m1, t);
                op(u, Instruction::Data(r, data_index(u.data, t) as usize))
            },
            LibraryValueView::Fn(_) => op(
                m1,
                Instruction::NativeFn(r, (natives + natives_count(lib.drop_last())) as usize),
            ),
        };
        CodeState {
            scopes: ScopesView {
                root: table_insert(m2.scopes.root, lib.last().0, Variable { is_mutable: false, register: r }),
                ..m2.scopes
            },
            ..m2
        }
    }
}

/// The handles of the native functions of a library are as many as its native functions.
pub proof fn lemma_natives_count(lib: Seq<(Utf16String, LibraryValue)>)
    ensures
        lib_natives(lib).len() == natives_count(library_view(lib)),
    decreases lib.len(),
{
    if lib.len() > 0 {
        lemma_natives_count(lib.drop_last());
        assert(library_view(lib).drop_last() =~= library_view(lib.drop_last()));
    }
}

/// The state of a translator, as the contracts see it.
pub ghost struct TranslatorView {
    pub scopes: ScopesView,
    /// The strings of the data table.
    pub data: Seq<Seq<u16>>,
    /// The native functions' handles.
    pub natives: Seq<usize>,
    /// The number of registers in use.
    pub regs: nat,
    /// The code being written.
    pub block: Seq<Instruction>,
    /// The code of the enclosing procedures, innermost last.
    pub procedures: Seq<Seq<Instruction>>,
}

/// Whether no string occurs twice in the data table.
pub open spec fn data_unique(data: Seq<Seq<u16>>) -> bool {
    forall|i: int, j: int| 0 <= i < data.len() && 0 <= j < data.len() && i != j ==> #[trigger] data[i] != #[trigger] data[j]
}

/// Whether every variable of the table is held by a register below `regs`.
pub open spec fn table_regs_below(t: Table, regs: nat) -> bool {
    forall|i: int| 0 <= i < t.len() ==> (#[trigger] t[i]).1.register < regs
}

/// Whether every variable of the scopes is held by a register below `regs`.
pub open spec fn vars_below(s: ScopesView, regs: nat) -> bool {
    &&& table_regs_below(s.root, regs)
    &&& forall|i: int| 0 <= i < s.blocks.len() ==> table_regs_below(#[trigger] s.blocks[i], regs)
}

/// Whether a state of the translator is well formed: its code refers only to registers,
/// data items and native functions that exist, and its tables are consistent.
pub open spec fn translator_wf(v: TranslatorView) -> bool {
    &&& scopes_wf(v.scopes)
    &&& vars_below(v.scopes, v.regs)
    &&& data_unique(v.data)
    &&& code_wf(v.block, v.regs, v.data.len(), v.natives.len())
    &&& forall|i: int|
        0 <= i < v.procedures.len() ==> code_wf(
            #[trigger] v.procedures[i],
            v.regs,
            v.data.len(),
            v.natives.len(),
        )
}

/// Whether `a` is a prefix of `b`.
pub open spec fn is_prefix<T>(a: Seq<T>, b: Seq<T>) -> bool {
    a.len() <= b.len() && forall|i: int| 0 <= i < a.len() ==> #[trigger] b[i] == a[i]
}

/// Whether the translator went from `a` to `b` by writing more code to the current block:
/// registers, data and code only grow, and the enclosing procedures, namespaces and the
/// number of blocks stay.
pub open spec fn grows(a: TranslatorView, b: TranslatorView) -> bool {
    &&& a.regs <= b.regs
    &&& is_prefix(a.data, b.data)
    &&& b.natives == a.natives
    &&& is_prefix(a.block, b.block)
    &&& b.procedures == a.procedures
    &&& b.scopes.namespaces == a.scopes.namespaces
    &&& b.scopes.blocks.len() == a.scopes.blocks.len()
}

/// The part of the translator's state that the code of an expression or a statement
/// changes, with the code by its view.
pub open spec fn code_state(v: TranslatorView) -> CodeState {
    CodeState { scopes: v.scopes, data: v.data, regs: v.regs, block: code_view(v.block) }
}

/// Well-formed code stays well formed for larger tables.
pub proof fn lemma_code_wf_grow(code: Seq<Instruction>, a: TranslatorView, b: TranslatorView)
    requires
        code_wf(code, a.regs, a.data.len(), a.natives.len()),
        a.regs <= b.regs,
        a.data.len() <= b.data.len(),
        a.natives.len() <= b.natives.len(),
    ensures
        code_wf(code, b.regs, b.data.len(), b.natives.len()),
{
    lemma_code_wf_mono(code, a.regs, a.data.len(), a.natives.len(), b.regs, b.data.len(), b.natives.len());
}

/// The translator from syntax trees to the register-machine code.
pub struct Translator {
    scopes: Scopes,
    data: Vec<DataItem>,
    native_functions: Vec<usize>,
    register_length: usize,
    block: Vec<Instruction>,
    procedures: Vec<Vec<Instruction>>,
}

impl View for Translator {
    type V = TranslatorView;

    closed spec fn view(&self) -> TranslatorView {
        TranslatorView {
            scopes: self.scopes@,
            data: self.data@.map_values(|d: DataItem| data_str(d)),
            natives: self.native_functions@,
            regs: self.register_length as nat,
            block: self.block@,
            procedures: self.procedures@.map_values(|p: Vec<Instruction>| p@),
        }
    }
}

impl Translator {
    /// Whether the translator is well formed.
    pub open spec fn wf(&self) -> bool {
        translator_wf(self@)
    }

    /// A translator with nothing written.
    pub fn new() -> (r: Translator)
        ensures
            r.wf(),
            r@.regs == 0,
            r@.data.len() == 0,
            r@.natives.len() == 0,
            r@.block.len() == 0,
            r@.procedures.len() == 0,
            r@.scopes.root.len() == 0,
            r@.scopes.namespaces.len() == 0,
            r@.scopes.blocks.len() == 0,
            code_state(r@) == initial_code(),
    {
        let r = Translator {
            scopes: Scopes::new(),
            data: Vec::new(),
            native_functions: Vec::new(),
            register_length: 0,
            block: Vec::new(),
            procedures: Vec::new(),
        };
        assert(r@.data =~= Seq::<Seq<u16>>::empty());
        assert(r@.procedures =~= Seq::<Seq<Instruction>>::empty());
        proof {
            lemma_code_view_empty();
            assert(r@.block =~= Seq::<Instruction>::empty());
            assert(r@.scopes.root =~= Seq::<(Seq<u16>, Variable)>::empty());
            assert(r@.scopes.namespaces =~= Seq::<Seq<u16>>::empty());
            assert(r@.scopes.blocks =~= Seq::<Table>::empty());
        }
        r
    }

    /// Takes a new register.
    fn use_register(&mut self) -> (r: Register)
        requires
            old(self).wf(),
            old(self)@.regs < usize::MAX,
        ensures
            final(self).wf(),
            r == old(self)@.regs,
            final(self)@ == (TranslatorView { regs: old(self)@.regs + 1, ..old(self)@ }),
            code_state(final(self)@) == fresh(code_state(old(self)@)),
    {
        let ghost v = self@;
        let index = self.register_length;
        self.register_length = self.register_length + 1;
        proof {
            let w = self@;
            lemma_code_wf_grow(v.block, v, w);
            assert forall|i: int| 0 <= i < w.procedures.len() implies code_wf(
                #[trigger] w.procedures[i],
                w.regs,
                w.data.len(),
                w.natives.len(),
            ) by {
                lemma_code_wf_grow(v.procedures[i], v, w);
            }
            assert(vars_below(w.scopes, w.regs)) by {
                assert forall|i: int| 0 <= i < w.scopes.blocks.len() implies table_regs_below(
                    #[trigger] w.scopes.blocks[i],
                    w.regs,
                ) by {
                    assert(table_regs_below(v.scopes.blocks[i], v.regs));
                }
            }
        }
        index
    }

    /// Appends an instruction to the current block.
    fn append_instruction(&mut self, instruction: Instruction)
        requires
            old(self).wf(),
            instr_wf(instruction, old(self)@.regs, old(self)@.data.len(), old(self)@.natives.len()),
        ensures
            final(self).wf(),
            final(self)@ == (TranslatorView { block: old(self)@.block.push(instruction), ..old(self)@ }),
            code_state(final(self)@) == put(code_state(old(self)@), instr_view(instruction)),
    {
        let ghost v = self@;
        proof {
            lemma_code_wf_push(v.block, instruction, v.regs, v.data.len(), v.natives.len());
            lemma_code_view_push(v.block, instruction);
        }
        self.block.push(instruction);
    }

    /// Starts a new sequence of instructions; the current one waits on the stack.
    fn begin_procedure(&mut self)
        requires
            old(self).wf(),
        ensures
            final(self).wf(),
            final(self)@ == (TranslatorView {
                block: Seq::empty(),
                procedures: old(self)@.procedures.push(old(self)@.block),
                ..old(self)@
            }),
            code_state(final(self)@) == new_seq(code_state(old(self)@)),
    {
        let ghost v = self@;
        proof {
            lemma_code_view_empty();
        }
        let mut block: Vec<Instruction> = Vec::new();
        std::mem::swap(&mut block, &mut self.block);
        self.procedures.push(block);
        proof {
            assert(self@.procedures =~= v.procedures.push(v.block));
            assert(self@.block =~= Seq::<Instruction>::empty());
        }
    }

    /// Ends the current sequence of instructions and gives it; the enclosing one comes back.
    fn end_procedure(&mut self) -> (r: Vec<Instruction>)
        requires
            old(self).wf(),
            old(self)@.procedures.len() > 0,
        ensures
            final(self).wf(),
            r@ == old(self)@.block,
            final(self)@ == (TranslatorView {
                block: old(self)@.procedures.last(),
                procedures: old(self)@.procedures.drop_last(),
                ..old(self)@
            }),
            code_wf(r@, old(self)@.regs, old(self)@.data.len(), old(self)@.natives.len()),
            code_state(final(self)@) == resume(code_state(old(self)@), code_view(old(self)@.procedures.last())),
    {
        let ghost v = self@;
        let mut block = self.procedures.pop().unwrap();
        std::mem::swap(&mut block, &mut self.block);
        proof {
            assert(self@.procedures =~= v.procedures.drop_last());
            assert(code_wf(v.procedures[v.procedures.len() - 1], v.regs, v.data.len(), v.natives.len()));
        }
        block
    }

    /// Enters a block: a new sequence of instructions and a new scope.
    fn begin_block(&mut self)
        requires
            old(self).wf(),
        ensures
            final(self).wf(),
            final(self)@ == (TranslatorView {
                block: Seq::empty(),
                procedures: old(self)@.procedures.push(old(self)@.block),
                scopes: ScopesView { blocks: old(self)@.scopes.blocks.push(Seq::empty()), ..old(self)@.scopes },
                ..old(self)@
            }),
            code_state(final(self)@) == open_block(code_state(old(self)@)),
    {
        proof {
            lemma_code_view_empty();
        }
        self.begin_procedure();
        let ghost v = self@;
        self.scopes.push_block_scope();
        proof {
            let w = self@;
            assert forall|i: int| 0 <= i < w.scopes.blocks.len() implies table_regs_below(
                #[trigger] w.scopes.blocks[i],
                w.regs,
            ) by {
                if i < v.scopes.blocks.len() {
                    assert(w.scopes.blocks[i] == v.scopes.blocks[i]);
                }
            }
        }
    }

    /// Leaves a block: its scope ends, and its instructions are given.
    fn end_block(&mut self) -> (r: Vec<Instruction>)
        requires
            old(self).wf(),
            old(self)@.procedures.len() > 0,
            old(self)@.scopes.blocks.len() > 0,
        ensures
            final(self).wf(),
            r@ == old(self)@.block,
            final(self)@ == (TranslatorView {
                block: old(self)@.procedures.last(),
                procedures: old(self)@.procedures.drop_last(),
                scopes: ScopesView { blocks: old(self)@.scopes.blocks.drop_last(), ..old(self)@.scopes },
                ..old(self)@
            }),
            code_wf(r@, old(self)@.regs, old(self)@.data.len(), old(self)@.natives.len()),
            code_state(final(self)@) == close_block(code_state(old(self)@), code_view(old(self)@.procedures.last())),
    {
        let ghost v = self@;
        self.scopes.drop_local_scope();
        proof {
            let w = self@;
            assert forall|i: int| 0 <= i < w.scopes.blocks.len() implies table_regs_below(
                #[trigger] w.scopes.blocks[i],
                w.regs,
            ) by {
                assert(w.scopes.blocks[i] == v.scopes.blocks[i]);
            }
        }
        self.end_procedure()
    }

    /// Registers a native function and gives its index.
    fn add_native_function(&mut self, f: usize) -> (r: usize)
        requires
            old(self).wf(),
        ensures
            final(self).wf(),
            r == old(self)@.natives.len(),
            final(self)@ == (TranslatorView { natives: old(self)@.natives.push(f), ..old(self)@ }),
    {
        let ghost v = self@;
        let index = self.native_functions.len();
        self.native_functions.push(f);
        proof {
            let w = self@;
            lemma_code_wf_grow(v.block, v, w);
            assert forall|i: int| 0 <= i < w.procedures.len() implies code_wf(
                #[trigger] w.procedures[i],
                w.regs,
                w.data.len(),
                w.natives.len(),
            ) by {
                lemma_code_wf_grow(v.procedures[i], v, w);
            }
        }
        index
    }

    /// The index of the string `s` in the data table, where it is added if it is not there.
    fn str_literal(&mut self, s: &Utf16Str) -> (r: DataIndex)
        requires
            old(self).wf(),
        ensures
            final(self).wf(),
            old(self)@.data.contains(s@) ==> final(self)@ == old(self)@,
            !old(self)@.data.contains(s@) ==> final(self)@ == (TranslatorView {
                data: old(self)@.data.push(s@),
                ..old(self)@
            }),
            r < final(self)@.data.len(),
            final(self)@.data[r as int] == s@,
            code_state(final(self)@) == intern(code_state(old(self)@), s@),
            r == data_index(final(self)@.data, s@),
    {
        let ghost v = self@;
        let mut i: usize = 0;
        while i < self.data.len()
            invariant
                i <= v.data.len(),
                v == self@,
                translator_wf(v),
                forall|k: int| 0 <= k < i ==> v.data[k] != s@,
            decreases v.data.len() - i,
        {
            let found = match &self.data[i] {
                DataItem::Str(item) => item.as_utf16_str().eq_str(s),
            };
            if found {
                proof {
                    assert(v.data[i as int] == s@);
                    lemma_data_index(v.data, s@, i as int);
                }
                return i;
            }
            i = i + 1;
        }
        let index = self.data.len();
        self.data.push(DataItem::Str(s.to_owned()));
        proof {
            let w = self@;
            assert(w.data =~= v.data.push(s@));
            assert(!v.data.contains(s@));
            assert(data_unique(w.data));
            lemma_data_index(w.data, s@, index as int);
            lemma_code_wf_grow(v.block, v, w);
            assert forall|k: int| 0 <= k < w.procedures.len() implies code_wf(
                #[trigger] w.procedures[k],
                w.regs,
                w.data.len(),
                w.natives.len(),
            ) by {
                lemma_code_wf_grow(v.procedures[k], v, w);
            }
        }
        index
    }

    /// The program: the code written so far as its one function, which runs first.
    pub fn build(self) -> (r: Ir)
        requires
            self.wf(),
            self@.procedures.len() == 0,
        ensures
            r.data@.map_values(|d: DataItem| data_str(d)) == self@.data,
            r.native_functions@ == self@.natives,
            r.user_functions@.len() == 1,
            r.user_functions@[0].register_length == self@.regs,
            r.user_functions@[0].instructions@ == self@.block,
            r.entry_point == 0,
            ir_wf(r),
            data_unique(r.data@.map_values(|d: DataItem| data_str(d))),
    {
        let ghost v = self@;
        let entry = UserFn { register_length: self.register_length, instructions: self.block };
        let mut user_functions: Vec<UserFn> = Vec::new();
        user_functions.push(entry);
        let r = Ir { data: self.data, native_functions: self.native_functions, user_functions, entry_point: 0 };
        proof {
            assert(r.data@.len() == v.data.len());
        }
        r
    }
}


/// Whether a name can be looked up: its length leaves room to count its segments.
pub open spec fn name_ok(p: NamePath) -> bool {
    p@.len() < usize::MAX
}

/// Whether the translator handles the operator: of the arithmetic ones, `+` and `-`.
pub open spec fn op_ok(op: BinaryOperator) -> bool {
    match op {
        BinaryOperator::Arithmetic(a) => a == BinaryArithmeticOperator::Add || a
            == BinaryArithmeticOperator::Sub,
        BinaryOperator::Logical(_) => true,
    }
}

/// Whether the translator handles the expression: no function, `match` or template, and
/// only the operators of [`op_ok`].
pub open spec fn expr_ok(e: Expression) -> bool
    decreases e,
{
    match e {
        Expression::If(n) => expr_ok(*n.cond) && soe_ok(*n.then_statement) && (forall|i: int|
            0 <= i < n.elseif@.len() ==> expr_ok((#[trigger] n.elseif@[i]).cond) && soe_ok(
                n.elseif@[i].then_statement,
            )) && match n.else_statement {
            Some(b) => soe_ok(*b),
            None => true,
        },
        Expression::Fn(_) => false,
        Expression::Match(_) => false,
        Expression::Tmpl(_) => false,
        Expression::Block(n) => forall|i: int|
            0 <= i < n.statements@.len() ==> soe_ok(#[trigger] n.statements@[i]),
        Expression::Exists(n) => name_ok(n.identifier.name),
        Expression::Obj(n) => forall|i: int| 0 <= i < n.value@.len() ==> expr_ok((#[trigger] n.value@[i]).1),
        Expression::Arr(n) => forall|i: int| 0 <= i < n.value@.len() ==> expr_ok(#[trigger] n.value@[i]),
        Expression::Not(n) => expr_ok(*n.expr),
        Expression::Identifier(n) => name_ok(n.name),
        Expression::Call(n) => expr_ok(*n.target) && forall|i: int|
            0 <= i < n.args@.len() ==> expr_ok(#[trigger] n.args@[i]),
        Expression::Index(n) => expr_ok(*n.target) && expr_ok(*n.index),
        Expression::Prop(n) => expr_ok(*n.target),
        Expression::Binary(n) => op_ok(n.op) && expr_ok(*n.left) && expr_ok(*n.right),
        _ => true,
    }
}

/// Whether the translator handles the statement or expression.
pub open spec fn soe_ok(s: StatementOrExpression) -> bool
    decreases s,
{
    match s {
        StatementOrExpression::Statement(st) => stmt_ok(st),
        StatementOrExpression::Expression(e) => expr_ok(e),
    }
}

/// Whether the translator handles the statement: a definition or an assignment.
pub open spec fn stmt_ok(s: Statement) -> bool
    decreases s,
{
    match s {
        Statement::Def(d) => expr_ok(d.expr) && dest_ok(d.dest),
        Statement::Assign(a) => expr_ok(a.expr) && target_ok(a.dest),
        _ => false,
    }
}

/// Whether the translator handles the left-hand side of a definition.
pub open spec fn dest_ok(e: Expression) -> bool
    decreases e,
{
    match e {
        Expression::Identifier(n) => name_ok(n.name),
        Expression::Arr(n) => forall|i: int| 0 <= i < n.value@.len() ==> dest_ok(#[trigger] n.value@[i]),
        Expression::Obj(n) => forall|i: int| 0 <= i < n.value@.len() ==> dest_ok((#[trigger] n.value@[i]).1),
        _ => true,
    }
}

/// Whether the translator handles the left-hand side of an assignment.
pub open spec fn target_ok(e: Expression) -> bool
    decreases e,
{
    match e {
        Expression::Identifier(n) => name_ok(n.name),
        Expression::Index(n) => expr_ok(*n.target) && expr_ok(*n.index),
        Expression::Prop(n) => expr_ok(*n.target),
        Expression::Arr(n) => forall|i: int| 0 <= i < n.value@.len() ==> target_ok(#[trigger] n.value@[i]),
        Expression::Obj(n) => forall|i: int| 0 <= i < n.value@.len() ==> target_ok((#[trigger] n.value@[i]).1),
        _ => true,
    }
}

/// Whether the definitions of a namespace's members, from the `i`-th on, are handled: up to
/// the first that the translator refuses (a destructuring or a `var`), which ends the
/// namespace.
pub open spec fn defs_ok_from(ms: Seq<NamespaceMember>, i: int) -> bool
    decreases ms.len() - i,
{
    if i < 0 || i >= ms.len() {
        true
    } else {
        match ms[i] {
            NamespaceMember::Def(d) => match d.dest {
                Expression::Identifier(id) => if d.is_mut {
                    true
                } else {
                    expr_ok(d.expr) && name_ok(id.name) && defs_ok_from(ms, i + 1)
                },
                _ => true,
            },
            NamespaceMember::Ns(_) => defs_ok_from(ms, i + 1),
        }
    }
}

/// Whether the translator handles the namespace.
pub open spec fn ns_ok(n: Namespace) -> bool
    decreases n,
{
    &&& forall|i: int|
        0 <= i < n.members@.len() ==> match #[trigger] n.members@[i] {
            NamespaceMember::Ns(inner) => ns_ok(inner),
            NamespaceMember::Def(_) => true,
        }
    &&& defs_ok_from(n.members@, 0)
}

/// Whether the translator handles the top-level node.
pub open spec fn node_ok(n: Node) -> bool {
    match n {
        Node::Ns(ns) => ns_ok(ns),
        Node::Meta(_) => true,
        Node::Statement(s) => stmt_ok(s),
        Node::Expr(e) => expr_ok(e),
        _ => false,
    }
}

/// Where an assignment writes: a variable, an element, a property, or the parts of a
/// destructuring.
pub enum Reference {
    Variable { register: Register },
    Index { target: Register, index: Register },
    Prop { target: Register, name: DataIndex },
    Arr { items: Vec<Reference> },
    /// The entries by property name; a later entry for a name replaces the earlier one
    /// in its place.
    Obj { entries: Vec<(DataIndex, Reference)> },
}

/// The view of a reference.
pub open spec fn ref_view(r: Reference) -> RefView
    decreases r, 1nat,
{
    match r {
        Reference::Variable { register } => RefView::Variable(register),
        Reference::Index { target, index } => RefView::Index(target, index),
        Reference::Prop { target, name } => RefView::Prop(target, name),
        Reference::Arr { items } => {
            proof {
                assert(decreases_to!(items => items@));
            }
            RefView::Arr(ref_views(items@))
        },
        Reference::Obj { entries } => {
            proof {
                assert(decreases_to!(entries => entries@));
            }
            RefView::Obj(ref_entry_views(entries@))
        },
    }
}

/// The views of the references.
pub open spec fn ref_views(s: Seq<Reference>) -> Seq<RefView>
    decreases s, 0nat,
{
    if s.len() == 0 {
        Seq::empty()
    } else {
        ref_views(s.drop_last()).push(ref_view(s.last()))
    }
}

/// The entries with each reference by its view.
pub open spec fn ref_entry_views(s: Seq<(DataIndex, Reference)>) -> Seq<(DataIndex, RefView)>
    decreases s, 0nat,
{
    if s.len() == 0 {
        Seq::empty()
    } else {
        ref_entry_views(s.drop_last()).push((s.last().0, ref_view(s.last().1)))
    }
}

/// The views of the references, one for each in the same place.
pub proof fn lemma_ref_views(s: Seq<Reference>)
    ensures
        ref_views(s).len() == s.len(),
        forall|k: int| 0 <= k < s.len() ==> #[trigger] ref_views(s)[k] == ref_view(s[k]),
    decreases s.len(),
{
    if s.len() > 0 {
        lemma_ref_views(s.drop_last());
        assert forall|k: int| 0 <= k < s.len() implies #[trigger] ref_views(s)[k] == ref_view(s[k]) by {
            if k < s.len() - 1 {
                assert(ref_views(s.drop_last())[k] == ref_view(s.drop_last()[k]));
            }
        }
    }
}

/// The entries' views, one for each entry in the same place, with its key.
pub proof fn lemma_ref_entry_views(s: Seq<(DataIndex, Reference)>)
    ensures
        ref_entry_views(s).len() == s.len(),
        forall|k: int| 0 <= k < s.len() ==> #[trigger] ref_entry_views(s)[k] == (s[k].0, ref_view(s[k].1)),
    decreases s.len(),
{
    if s.len() > 0 {
        lemma_ref_entry_views(s.drop_last());
        assert forall|k: int| 0 <= k < s.len() implies #[trigger] ref_entry_views(s)[k] == (s[k].0, ref_view(s[k].1)) by {
            if k < s.len() - 1 {
                assert(ref_entry_views(s.drop_last())[k] == (s.drop_last()[k].0, ref_view(s.drop_last()[k].1)));
            }
        }
    }
}

/// The views of the references with one more last.
pub proof fn lemma_ref_views_push(s: Seq<Reference>, r: Reference)
    ensures
        ref_views(s.push(r)) == ref_views(s).push(ref_view(r)),
{
    assert(s.push(r).drop_last() =~= s);
}

/// Whether the registers and data items of the reference exist.
pub open spec fn ref_wf(r: Reference, regs: nat, data: nat) -> bool
    decreases r,
{
    match r {
        Reference::Variable { register } => register < regs,
        Reference::Index { target, index } => target < regs && index < regs,
        Reference::Prop { target, name } => target < regs && name < data,
        Reference::Arr { items } => forall|i: int| 0 <= i < items@.len() ==> ref_wf(#[trigger] items@[i], regs, data),
        Reference::Obj { entries } => forall|i: int|
            0 <= i < entries@.len() ==> (#[trigger] entries@[i]).0 < data && ref_wf(entries@[i].1, regs, data),
    }
}

/// The number of nodes of the reference.
pub open spec fn ref_size(r: Reference) -> nat
    decreases r,
{
    match r {
        Reference::Arr { items } => 1 + refs_size(items@),
        Reference::Obj { entries } => 1 + ref_entries_size(entries@),
        _ => 1,
    }
}

/// The sizes of the references, added.
pub open spec fn refs_size(s: Seq<Reference>) -> nat
    decreases s,
{
    if s.len() == 0 {
        0
    } else {
        refs_size(s.subrange(0, s.len() - 1)) + ref_size(s[s.len() - 1])
    }
}

/// The sizes of the references of the entries, added.
pub open spec fn ref_entries_size(s: Seq<(DataIndex, Reference)>) -> nat
    decreases s,
{
    if s.len() == 0 {
        0
    } else {
        ref_entries_size(s.subrange(0, s.len() - 1)) + ref_size(s[s.len() - 1].1)
    }
}

/// A reference stays well formed for larger tables.
pub proof fn lemma_ref_wf_grow(r: Reference, regs: nat, data: nat, regs2: nat, data2: nat)
    requires
        ref_wf(r, regs, data),
        regs <= regs2,
        data <= data2,
    ensures
        ref_wf(r, regs2, data2),
    decreases r,
{
    match r {
        Reference::Arr { items } => {
            assert forall|i: int| 0 <= i < items@.len() implies ref_wf(#[trigger] items@[i], regs2, data2) by {
                lemma_ref_wf_grow(items@[i], regs, data, regs2, data2);
            }
        },
        Reference::Obj { entries } => {
            assert forall|i: int| 0 <= i < entries@.len() implies (#[trigger] entries@[i]).0 < data2 && ref_wf(entries@[i].1, regs2, data2) by {
                lemma_ref_wf_grow(entries@[i].1, regs, data, regs2, data2);
            }
        },
        _ => {},
    }
}

/// The sum over the first `i + 1` references is that over the first `i` plus the `i`-th.
pub proof fn lemma_refs_size_step(s: Seq<Reference>, i: int)
    requires
        0 <= i < s.len(),
    ensures
        refs_size(s.subrange(0, i + 1)) == refs_size(s.subrange(0, i)) + ref_size(s[i]),
{
    let t = s.subrange(0, i + 1);
    assert(t.subrange(0, t.len() - 1) =~= s.subrange(0, i));
}

/// The sum over the first `i + 1` entries is that over the first `i` plus the `i`-th.
pub proof fn lemma_ref_entries_size_step(s: Seq<(DataIndex, Reference)>, i: int)
    requires
        0 <= i < s.len(),
    ensures
        ref_entries_size(s.subrange(0, i + 1)) == ref_entries_size(s.subrange(0, i)) + ref_size(s[i].1),
{
    let t = s.subrange(0, i + 1);
    assert(t.subrange(0, t.len() - 1) =~= s.subrange(0, i));
}

/// The sum over a prefix of the entries is at most the sum over all.
pub proof fn lemma_ref_entries_size_prefix(s: Seq<(DataIndex, Reference)>, i: int)
    requires
        0 <= i <= s.len(),
    ensures
        ref_entries_size(s.subrange(0, i)) <= ref_entries_size(s),
    decreases s.len() - i,
{
    if i < s.len() {
        lemma_ref_entries_size_step(s, i);
        lemma_ref_entries_size_prefix(s, i + 1);
    } else {
        assert(s.subrange(0, i) =~= s);
    }
}

/// The sum over a prefix of the references is at most the sum over all.
pub proof fn lemma_refs_size_prefix(s: Seq<Reference>, i: int)
    requires
        0 <= i <= s.len(),
    ensures
        refs_size(s.subrange(0, i)) <= refs_size(s),
    decreases s.len() - i,
{
    if i < s.len() {
        lemma_refs_size_step(s, i);
        lemma_refs_size_prefix(s, i + 1);
    } else {
        assert(s.subrange(0, i) =~= s);
    }
}

/// Replacing an entry's reference changes the sum by the difference of the sizes.
pub proof fn lemma_ref_entries_size_update(s: Seq<(DataIndex, Reference)>, k: int, e: (DataIndex, Reference))
    requires
        0 <= k < s.len(),
    ensures
        ref_entries_size(s.update(k, e)) + ref_size(s[k].1) == ref_entries_size(s) + ref_size(e.1),
    decreases s.len(),
{
    let t = s.update(k, e);
    if k == s.len() - 1 {
        assert(t.subrange(0, t.len() - 1) =~= s.subrange(0, s.len() - 1));
    } else {
        let s0 = s.subrange(0, s.len() - 1);
        assert(t.subrange(0, t.len() - 1) =~= s0.update(k, e));
        lemma_ref_entries_size_update(s0, k, e);
    }
}

/// A variable found in the blocks is held by a register below the bound of the blocks.
pub proof fn lemma_first_block_below(blocks: Seq<Table>, name: Seq<u16>, i: int, regs: nat)
    requires
        forall|k: int| 0 <= k < blocks.len() ==> table_regs_below(#[trigger] blocks[k], regs),
    ensures
        first_block(blocks, name, i) matches Some(v) ==> v.register < regs,
    decreases blocks.len() - i,
{
    if 0 <= i < blocks.len() {
        assert(table_regs_below(blocks[i], regs));
        if !table_has(blocks[i], name) {
            lemma_first_block_below(blocks, name, i + 1, regs);
        }
    }
}

/// A variable found by a lookup is held by a register below the bound of the scopes.
pub proof fn lemma_lookup_below(s: ScopesView, regs: nat, name: Seq<u16>)
    requires
        vars_below(s, regs),
    ensures
        lookup_spec(s, name) matches Some(v) ==> v.register < regs,
{
    lemma_first_block_below(s.blocks, name, 0, regs);
}

/// Inserting a variable below the bound keeps a table's variables below it.
pub proof fn lemma_table_insert_below(t: Table, name: Seq<u16>, v: Variable, regs: nat)
    requires
        table_regs_below(t, regs),
        v.register < regs,
    ensures
        table_regs_below(table_insert(t, name, v), regs),
{
}

/// A definition keeps the scopes' variables below the bound.
pub proof fn lemma_add_below(s: ScopesView, name: Seq<u16>, v: Variable, regs: nat)
    requires
        vars_below(s, regs),
        v.register < regs,
    ensures
        vars_below(add_spec(s, name, v), regs),
        add_spec(s, name, v).namespaces == s.namespaces,
        add_spec(s, name, v).blocks.len() == s.blocks.len(),
{
    let s2 = add_spec(s, name, v);
    if s.blocks.len() > 0 {
        assert(table_regs_below(s.blocks[s.blocks.len() - 1], regs));
        lemma_table_insert_below(s.blocks.last(), name, v, regs);
        assert forall|i: int| 0 <= i < s2.blocks.len() implies table_regs_below(#[trigger] s2.blocks[i], regs) by {
            if i != s.blocks.len() - 1 {
                assert(s2.blocks[i] == s.blocks[i]);
            }
        }
    }
}

impl LibraryValue {
    /// A copy of the value.
    pub fn copy(&self) -> (r: LibraryValue)
        ensures
            r == *self || (self matches LibraryValue::Str(s) && r matches LibraryValue::Str(t) && t@ == s@),
    {
        match self {
            LibraryValue::Null => LibraryValue::Null,
            LibraryValue::Bool(b) => LibraryValue::Bool(*b),
            LibraryValue::Num(n) => LibraryValue::Num(*n),
            LibraryValue::Str(s) => LibraryValue::Str(s.copy()),
            LibraryValue::Fn(f) => LibraryValue::Fn(*f),
        }
    }
}

impl Translator {
    /// Writes the code of an expression, whose value goes to `register`.
    fn eval_expr(&mut self, register: Register, node: &Expression)
        requires
            old(self).wf(),
            register < old(self)@.regs,
            expr_ok(*node),
            old(self)@.regs + 4 * expr_size(*node) <= usize::MAX,
        ensures
            final(self).wf(),
            grows(old(self)@, final(self)@),
            final(self)@.regs <= old(self)@.regs + 4 * expr_size(*node),
            code_state(final(self)@) == compile_expr(code_state(old(self)@), register, *node),
        decreases expr_size(*node), 2nat,
    {
        let ghost v = self@;
        match node {
            Expression::If(_) => self.eval_if(register, node),
            Expression::Block(_) => self.eval_block(register, node),
            Expression::Obj(_) => self.eval_obj(register, node),
            Expression::Binary(_) => self.eval_binary(register, node),
            Expression::Exists(n) => {
                let b = self.scopes.is_defined(&n.identifier.name);
                self.append_instruction(Instruction::Bool(register, b));
            },
            Expression::Str(n) => {
                let index = self.str_literal(n.value.as_utf16_str());
                self.append_instruction(Instruction::Data(register, index));
            },
            Expression::Num(n) => {
                self.append_instruction(Instruction::Num(register, n.value));
            },
            Expression::Bool(n) => {
                self.append_instruction(Instruction::Bool(register, n.value));
            },
            Expression::Null(_) => {
                self.append_instruction(Instruction::Null(register));
            },
            Expression::Arr(n) => {
                self.eval_arr(register, &n.value);
            },
            Expression::Not(n) => {
                let src = self.use_register();
                self.eval_expr(src, &n.expr);
                self.append_instruction(Instruction::Not(register, src));
            },
            Expression::Identifier(n) => {
                self.eval_identifier(register, &n.name);
            },
            Expression::Call(n) => {
                let target = self.use_register();
                self.eval_expr(target, &n.target);
                let args = self.use_register();
                self.eval_arr(args, &n.args);
                self.append_instruction(Instruction::Call(register, target, args));
            },
            Expression::Index(n) => {
                let target = self.use_register();
                self.eval_expr(target, &n.target);
                let index = self.use_register();
                self.eval_expr(index, &n.index);
                self.append_instruction(Instruction::Load(register, target, index));
            },
            Expression::Prop(n) => {
                let target = self.use_register();
                self.eval_expr(target, &n.target);
                let name = self.str_literal(n.name.as_utf16_str());
                self.append_instruction(Instruction::LoadProp(register, target, name));
            },
            _ => {},
        }
    }

    /// Writes the code that reads a variable into `register`, or a panic where no scope
    /// has it.
    fn eval_identifier(&mut self, register: Register, name: &NamePath)
        requires
            old(self).wf(),
            register < old(self)@.regs,
            name_ok(*name),
        ensures
            final(self).wf(),
            match lookup_spec(old(self)@.scopes, name@) {
                Some(var) => code_state(final(self)@) == op(code_state(old(self)@), Instruction::Move(register, var.register)),
                None => code_state(final(self)@) == crate::ir::compile::write_panic(
                    code_state(old(self)@),
                    AiScriptBasicErrorKind::Runtime,
                    no_such_variable(name@, scope_name_spec(old(self)@.scopes)),
                ),
            },
            grows(old(self)@, final(self)@),
    {
        let ghost v = self@;
        proof {
            lemma_lookup_below(v.scopes, v.regs, name@);
        }
        match self.scopes.get(name) {
            Some(var) => {
                self.append_instruction(Instruction::Move(register, var.register));
            },
            None => {
                let scope = self.scopes.current_scope_name();
                let message = no_such_variable_message(name, &scope);
                self.append_instruction(
                    Instruction::Panic(AiScriptBasicError::new(AiScriptBasicErrorKind::Runtime, message, None)),
                );
            },
        }
    }

    /// Writes the code of an array of the values of `exprs` into `register`.
    fn eval_arr(&mut self, register: Register, exprs: &Vec<Expression>)
        requires
            old(self).wf(),
            register < old(self)@.regs,
            forall|i: int| 0 <= i < exprs@.len() ==> expr_ok(#[trigger] exprs@[i]),
            old(self)@.regs + 1 + 4 * exprs_size(exprs@) <= usize::MAX,
        ensures
            final(self).wf(),
            grows(old(self)@, final(self)@),
            final(self)@.regs <= old(self)@.regs + 1 + 4 * exprs_size(exprs@),
            code_state(final(self)@) == compile_arr(code_state(old(self)@), register, exprs@),
        decreases exprs_size(exprs@), 3nat,
    {
        let ghost v0 = self@;
        let len = exprs.len();
        self.append_instruction(Instruction::Arr(register, len));
        if len > 0 {
            let value_register = self.use_register();
            let ghost a = code_state(self@);
            let mut i: usize = 0;
            while i < len
                invariant
                    self.wf(),
                    len == exprs@.len(),
                    i <= len,
                    grows(v0, self@),
                    a == fresh(op(code_state(v0), Instruction::Arr(register, len))),
                    value_register == v0.regs,
                    code_state(self@) == compile_elems(a, value_register, register, exprs@.take(i as int)),
                    register < self@.regs,
                    value_register < self@.regs,
                    self@.regs <= v0.regs + 1 + 4 * exprs_size(exprs@.subrange(0, i as int)),
                    forall|k: int| 0 <= k < exprs@.len() ==> expr_ok(#[trigger] exprs@[k]),
                    v0.regs + 1 + 4 * exprs_size(exprs@) <= usize::MAX,
                decreases len - i,
            {
                proof {
                    lemma_exprs_size_step(exprs@, i as int);
                    lemma_exprs_size_prefix(exprs@, i + 1);
                }
                self.eval_expr(value_register, &exprs[i]);
                self.append_instruction(Instruction::StoreIndex(value_register, register, i));
                proof {
                    assert(exprs@.take(i + 1).drop_last() =~= exprs@.take(i as int));
                    assert(exprs@.take(i + 1).last() == exprs@[i as int]);
                }
                i = i + 1;
            }
            proof {
                assert(exprs@.subrange(0, len as int) =~= exprs@);
                assert(exprs@.take(len as int) =~= exprs@);
            }
        }
    }

    /// Writes the code of an object literal into `register`.
    fn eval_obj(&mut self, register: Register, node: &Expression)
        requires
            old(self).wf(),
            register < old(self)@.regs,
            node is Obj,
            expr_ok(*node),
            old(self)@.regs + 4 * expr_size(*node) <= usize::MAX,
        ensures
            final(self).wf(),
            grows(old(self)@, final(self)@),
            final(self)@.regs <= old(self)@.regs + 4 * expr_size(*node),
            code_state(final(self)@) == compile_expr(code_state(old(self)@), register, *node),
        decreases expr_size(*node), 1nat,
    {
        let ghost v0 = self@;
        match node {
            Expression::Obj(n) => {
                let len = n.value.len();
                self.append_instruction(Instruction::Obj(register, len));
                if len > 0 {
                    let value_register = self.use_register();
                    let ghost a = code_state(self@);
                    let mut i: usize = 0;
                    while i < len
                        invariant
                            self.wf(),
                            len == n.value@.len(),
                            i <= len,
                            grows(v0, self@),
                            a == fresh(op(code_state(v0), Instruction::Obj(register, len))),
                            value_register == v0.regs,
                            code_state(self@) == compile_entries(a, value_register, register, n.value@.take(i as int)),
                            register < self@.regs,
                            value_register < self@.regs,
                            self@.regs <= v0.regs + 1 + 4 * entries_size(n.value@.subrange(0, i as int)),
                            forall|k: int| 0 <= k < n.value@.len() ==> expr_ok((#[trigger] n.value@[k]).1),
                            v0.regs + 1 + 4 * entries_size(n.value@) <= usize::MAX,
                            expr_size(*node) == 1 + entries_size(n.value@),
                        decreases len - i,
                    {
                        proof {
                            lemma_entries_size_step(n.value@, i as int);
                            lemma_entries_size_prefix(n.value@, i + 1);
                        }
                        let entry = &n.value[i];
                        self.eval_expr(value_register, &entry.1);
                        let key = self.str_literal(entry.0.as_utf16_str());
                        self.append_instruction(Instruction::StoreProp(value_register, register, key));
                        proof {
                            assert(n.value@.take(i + 1).drop_last() =~= n.value@.take(i as int));
                            assert(n.value@.take(i + 1).last() == n.value@[i as int]);
                        }
                        i = i + 1;
                    }
                    proof {
                        assert(n.value@.subrange(0, len as int) =~= n.value@);
                        assert(n.value@.take(len as int) =~= n.value@);
                    }
                }
            },
            _ => {},
        }
    }

    /// Writes the code of a binary operation into `register`.
    fn eval_binary(&mut self, register: Register, node: &Expression)
        requires
            old(self).wf(),
            register < old(self)@.regs,
            node is Binary,
            expr_ok(*node),
            old(self)@.regs + 4 * expr_size(*node) <= usize::MAX,
        ensures
            final(self).wf(),
            grows(old(self)@, final(self)@),
            final(self)@.regs <= old(self)@.regs + 4 * expr_size(*node),
            code_state(final(self)@) == compile_expr(code_state(old(self)@), register, *node),
        decreases expr_size(*node), 1nat,
    {
        match node {
            Expression::Binary(n) => {
                match n.op {
                    BinaryOperator::Arithmetic(op) => {
                        let left = self.use_register();
                        let right = self.use_register();
                        self.eval_expr(left, &n.left);
                        self.eval_expr(right, &n.right);
                        let instruction = match op {
                            BinaryArithmeticOperator::Add => Instruction::Add(register, left, right),
                            _ => Instruction::Sub(register, left, right),
                        };
                        self.append_instruction(instruction);
                    },
                    BinaryOperator::Logical(op) => {
                        self.eval_expr(register, &n.left);
                        let ghost v1 = self@;
                        self.begin_procedure();
                        self.eval_expr(register, &n.right);
                        let right = self.end_procedure();
                        proof {
                            assert(self@.procedures =~= v1.procedures);
                            lemma_code_view_empty();
                        }
                        let empty: Vec<Instruction> = Vec::new();
                        match op {
                            BinaryLogicalOperator::And => {
                                self.append_instruction(Instruction::If(register, right, empty));
                            },
                            BinaryLogicalOperator::Or => {
                                self.append_instruction(Instruction::If(register, empty, right));
                            },
                        }
                    },
                }
            },
            _ => {},
        }
    }

    /// Writes the code of the statements of a block expression, in the current scope.
    fn eval_block(&mut self, register: Register, node: &Expression)
        requires
            old(self).wf(),
            register < old(self)@.regs,
            node is Block,
            expr_ok(*node),
            old(self)@.regs + 4 * expr_size(*node) <= usize::MAX,
        ensures
            final(self).wf(),
            grows(old(self)@, final(self)@),
            final(self)@.regs <= old(self)@.regs + 4 * expr_size(*node),
            code_state(final(self)@) == compile_expr(code_state(old(self)@), register, *node),
        decreases expr_size(*node), 1nat,
    {
        let ghost v0 = self@;
        match node {
            Expression::Block(n) => {
                let len = n.statements.len();
                let mut i: usize = 0;
                while i < len
                    invariant
                        self.wf(),
                        len == n.statements@.len(),
                        i <= len,
                        grows(v0, self@),
                        code_state(self@) == compile_soes(code_state(v0), register, n.statements@.take(i as int)),
                        register < self@.regs,
                        self@.regs <= v0.regs + 4 * soes_size(n.statements@.subrange(0, i as int)),
                        forall|k: int| 0 <= k < n.statements@.len() ==> soe_ok(#[trigger] n.statements@[k]),
                        v0.regs + 4 * soes_size(n.statements@) <= usize::MAX,
                        expr_size(*node) == 1 + soes_size(n.statements@),
                    decreases len - i,
                {
                    proof {
                        lemma_soes_size_step(n.statements@, i as int);
                        lemma_soes_size_prefix(n.statements@, i + 1);
                    }
                    self.eval_soe(register, &n.statements[i]);
                    proof {
                        assert(n.statements@.take(i + 1).drop_last() =~= n.statements@.take(i as int));
                        assert(n.statements@.take(i + 1).last() == n.statements@[i as int]);
                    }
                    i = i + 1;
                }
                proof {
                    assert(n.statements@.subrange(0, len as int) =~= n.statements@);
                    assert(n.statements@.take(len as int) =~= n.statements@);
                }
            },
            _ => {},
        }
    }

    /// Writes the code of a statement or an expression.
    fn eval_soe(&mut self, register: Register, node: &StatementOrExpression)
        requires
            old(self).wf(),
            register < old(self)@.regs,
            soe_ok(*node),
            old(self)@.regs + 4 * soe_size(*node) <= usize::MAX,
        ensures
            final(self).wf(),
            grows(old(self)@, final(self)@),
            final(self)@.regs <= old(self)@.regs + 4 * soe_size(*node),
            code_state(final(self)@) == compile_soe(code_state(old(self)@), register, *node),
        decreases soe_size(*node), 2nat,
    {
        match node {
            StatementOrExpression::Statement(s) => self.eval_statement(register, s),
            StatementOrExpression::Expression(e) => self.eval_expr(register, e),
        }
    }
}

/// Inserting keeps every name that a table has.
pub proof fn lemma_table_insert_keeps(t: Table, name: Seq<u16>, v: Variable, other: Seq<u16>)
    requires
        table_has(t, other),
    ensures
        table_has(table_insert(t, name, v), other),
{
    let m = choose|m: int| 0 <= m < t.len() && (#[trigger] t[m]).0 == other;
    let t2 = table_insert(t, name, v);
    if table_has(t, name) {
        let j = choose|j: int| 0 <= j < t.len() && (#[trigger] t[j]).0 == name;
        assert(t2[m].0 == other);
    } else {
        assert(t2[m] == t[m]);
    }
}

/// Binds `key` to `r` in the entries: in place of the first entry with that key, else last.
fn ref_entries_put(entries: &mut Vec<(DataIndex, Reference)>, key: DataIndex, r: Reference)
    ensures
        (exists|k: int|
            0 <= k < old(entries)@.len() && (#[trigger] old(entries)@[k]).0 == key && final(entries)@
                == old(entries)@.update(k, (key, r))) || final(entries)@ == old(entries)@.push((key, r)),
        ref_entry_views(final(entries)@) == put_ref(ref_entry_views(old(entries)@), key, ref_view(r)),
{
    let ghost before = entries@;
    let ghost views = ref_entry_views(before);
    proof {
        lemma_ref_entry_views(before);
    }
    let mut i: usize = 0;
    while i < entries.len()
        invariant
            i <= entries@.len(),
            entries@ == before,
            before == old(entries)@,
            views == ref_entry_views(before),
            views.len() == before.len(),
            forall|k: int| 0 <= k < before.len() ==> #[trigger] views[k] == (before[k].0, ref_view(before[k].1)),
            forall|k: int| 0 <= k < i ==> (#[trigger] before[k]).0 != key,
        decreases entries@.len() - i,
    {
        if entries[i].0 == key {
            let ghost rv = ref_view(r);
            entries.set(i, (key, r));
            proof {
                assert(entries@ == before.update(i as int, (key, r)));
                assert(before[i as int].0 == key);
                assert(views[i as int] == (before[i as int].0, ref_view(before[i as int].1)));
                assert(views[i as int].0 == key);
                assert(has_ref_key(views, key));
                let l = first_ref_key(views, key);
                assert(forall|k: int| 0 <= k < i ==> (#[trigger] views[k]).0 != key) by {
                    assert forall|k: int| 0 <= k < i implies (#[trigger] views[k]).0 != key by {
                        assert(views[k] == (before[k].0, ref_view(before[k].1)));
                    }
                }
                assert(0 <= l < views.len() && views[l].0 == key && forall|k: int| 0 <= k < l ==> (#[trigger] views[k]).0 != key);
                assert(l == i);
                lemma_ref_entry_views(entries@);
                assert(ref_entry_views(entries@) =~= views.update(i as int, (key, rv)));
            }
            return;
        }
        i = i + 1;
    }
    let ghost rv = ref_view(r);
    entries.push((key, r));
    proof {
        assert(!has_ref_key(views, key)) by {
            if has_ref_key(views, key) {
                let l = choose|l: int| 0 <= l < views.len() && (#[trigger] views[l]).0 == key;
                assert(views[l] == (before[l].0, ref_view(before[l].1)));
            }
        }
        assert(entries@.drop_last() =~= before);
    }
}

impl Translator {
    /// Writes the code of an `if` expression: the condition, then one `If` whose branches
    /// run the `then` code or the `elif`s and the `else`, each in a scope of its own.
    fn eval_if(&mut self, register: Register, node: &Expression)
        requires
            old(self).wf(),
            register < old(self)@.regs,
            node is If,
            expr_ok(*node),
            old(self)@.regs + 4 * expr_size(*node) <= usize::MAX,
        ensures
            final(self).wf(),
            grows(old(self)@, final(self)@),
            final(self)@.regs <= old(self)@.regs + 4 * expr_size(*node),
            code_state(final(self)@) == compile_expr(code_state(old(self)@), register, *node),
        decreases expr_size(*node), 1nat,
    {
        let ghost v0 = self@;
        match node {
            Expression::If(n) => {
                self.eval_expr(register, &n.cond);
                let ghost m = self@;
                self.begin_block();
                self.eval_soe(register, &n.then_statement);
                let then_code = self.end_block();
                let k = n.elseif.len();
                let ghost v1 = self@;
                proof {
                    assert(v1.procedures =~= v0.procedures);
                    assert(v1.block == m.block);
                    lemma_code_view_empty();
                }
                let ghost p0 = v1.procedures.len();
                let mut j: usize = 0;
                while j < k
                    invariant
                        self.wf(),
                        k == n.elseif@.len(),
                        j <= k,
                        code_state(self@) == open_blocks(code_state(v1), j as nat),
                        self@.regs == v1.regs,
                        self@.data == v1.data,
                        self@.natives == v1.natives,
                        self@.scopes.namespaces == v1.scopes.namespaces,
                        self@.scopes.blocks.len() == v1.scopes.blocks.len() + j,
                        self@.procedures.len() == p0 + j,
                        forall|t: int| 0 <= t < p0 ==> self@.procedures[t] == v1.procedures[t],
                        j > 0 ==> self@.procedures[p0 as int] == v1.block,
                        forall|t: int| p0 < t < p0 + j ==> self@.procedures[t] == Seq::<Instruction>::empty(),
                        j == 0 ==> self@.block == v1.block,
                        j > 0 ==> self@.block == Seq::<Instruction>::empty(),
                    decreases k - j,
                {
                    let ghost before = self@;
                    self.begin_block();
                    proof {
                        assert(forall|t: int| 0 <= t < p0 ==> self@.procedures[t] == before.procedures[t]);
                        lemma_open_blocks_step(code_state(v1), j as nat);
                    }
                    j = j + 1;
                }
                let ghost v2 = self@;
                let mut else_code: Vec<Instruction> = match &n.else_statement {
                    Some(e) => {
                        self.begin_block();
                        self.eval_soe(register, e);
                        self.end_block()
                    },
                    None => {
                        let mut c: Vec<Instruction> = Vec::new();
                        c.push(Instruction::Null(register));
                        proof {
                            assert(c@.drop_last() =~= Seq::<Instruction>::empty());
                            assert(code_wf(Seq::<Instruction>::empty(), self@.regs, self@.data.len(), self@.natives.len()));
                            assert(instr_wf(Instruction::Null(register), self@.regs, self@.data.len(), self@.natives.len()));
                            lemma_code_wf_push(Seq::<Instruction>::empty(), Instruction::Null(register), self@.regs, self@.data.len(), self@.natives.len());
                            assert(c@ =~= Seq::<Instruction>::empty().push(Instruction::Null(register)));
                            lemma_code_view_push(Seq::<Instruction>::empty(), Instruction::Null(register));
                            assert(seq![CodeView::Op(Instruction::Null(register))] =~= Seq::<CodeView>::empty().push(CodeView::Op(Instruction::Null(register))));
                        }
                        c
                    },
                };
                let ghost v3 = self@;
                let ghost else0 = else_code@;
                proof {
                    lemma_code_wf_grow(then_code@, v1, v3);
                    assert(n.elseif@.subrange(0, k as int) =~= n.elseif@);
                    assert(n.elseif@.take(k as int) =~= n.elseif@);
                    assert(code_wf(else_code@, self@.regs, self@.data.len(), self@.natives.len()));
                }
                let mut j: usize = k;
                while j > 0
                    invariant
                        self.wf(),
                        k == n.elseif@.len(),
                        j <= k,
                        register < self@.regs,
                        v3.regs <= self@.regs,
                        self@.regs <= v3.regs + 4 * (elseifs_size(n.elseif@) - elseifs_size(n.elseif@.subrange(0, j as int))),
                        is_prefix(v0.data, self@.data),
                        self@.natives == v0.natives,
                        self@.scopes.namespaces == v0.scopes.namespaces,
                        self@.scopes.blocks.len() == v1.scopes.blocks.len() + j,
                        self@.procedures.len() == p0 + j,
                        forall|t: int| 0 <= t < p0 ==> self@.procedures[t] == v1.procedures[t],
                        j > 0 ==> self@.procedures[p0 as int] == v1.block,
                        forall|t: int| p0 < t < p0 + j ==> self@.procedures[t] == Seq::<Instruction>::empty(),
                        j == 0 ==> self@.block == v1.block,
                        code_wf(else_code@, self@.regs, self@.data.len(), self@.natives.len()),
                        code_wf(then_code@, self@.regs, self@.data.len(), self@.natives.len()),
                        forall|t: int| 0 <= t < n.elseif@.len() ==> expr_ok((#[trigger] n.elseif@[t]).cond) && soe_ok(n.elseif@[t].then_statement),
                        v3.regs + 4 * elseifs_size(n.elseif@) <= usize::MAX,
                        elseifs_size(n.elseif@) < expr_size(*node),
                        compile_elifs(
                            code_state(self@),
                            register,
                            n.elseif@.take(j as int),
                            code_view(else_code@),
                            code_view(then_code@),
                            code_view(v1.block),
                        ) == compile_elifs(
                            code_state(v3),
                            register,
                            n.elseif@,
                            code_view(else0),
                            code_view(then_code@),
                            code_view(v1.block),
                        ),
                    decreases j,
                {
                    j = j - 1;
                    proof {
                        lemma_elseifs_size_step(n.elseif@, j as int);
                        lemma_elseifs_size_prefix(n.elseif@, j + 1);
                        assert(n.elseif@.take(j + 1).drop_last() =~= n.elseif@.take(j as int));
                        assert(n.elseif@.take(j + 1).last() == n.elseif@[j as int]);
                    }
                    let ghost w0 = self@;
                    let elif = &n.elseif[j];
                    self.eval_expr(register, &elif.cond);
                    self.begin_block();
                    self.eval_soe(register, &elif.then_statement);
                    let elif_code = self.end_block();
                    let ghost w1 = self@;
                    proof {
                        lemma_code_wf_grow(else_code@, w0, w1);
                        lemma_code_wf_grow(then_code@, w0, w1);
                    }
                    self.append_instruction(Instruction::If(register, elif_code, else_code));
                    else_code = self.end_block();
                    proof {
                        assert(forall|t: int| 0 <= t < p0 ==> self@.procedures[t] == v1.procedures[t]);
                        lemma_code_view_empty();
                    }
                }
                proof {
                    assert(n.elseif@.subrange(0, 0) =~= Seq::<crate::ast::nodes::Elseif>::empty());
                    assert(n.elseif@.take(0) =~= Seq::<crate::ast::nodes::Elseif>::empty());
                    assert(self@.procedures =~= v1.procedures);
                }
                self.append_instruction(Instruction::If(register, then_code, else_code));
            },
            _ => {},
        }
    }

    /// Writes the code of a statement; `register` then holds null.
    fn eval_statement(&mut self, register: Register, node: &Statement)
        requires
            old(self).wf(),
            register < old(self)@.regs,
            stmt_ok(*node),
            old(self)@.regs + 4 * stmt_size(*node) <= usize::MAX,
        ensures
            final(self).wf(),
            grows(old(self)@, final(self)@),
            final(self)@.regs <= old(self)@.regs + 4 * stmt_size(*node),
            final(self)@.block.last() == Instruction::Null(register),
            code_state(final(self)@) == compile_stmt(code_state(old(self)@), register, *node),
            (*node matches Statement::Def(d) && d.dest is Identifier) ==> exists|s: ScopesView|
                #[trigger] add_spec(s, node->Def_0.dest->Identifier_0.name@, Variable {
                    is_mutable: node->Def_0.is_mut,
                    register: old(self)@.regs as usize,
                }) == final(self)@.scopes && s.blocks.len() == old(self)@.scopes.blocks.len(),
        decreases stmt_size(*node), 2nat,
    {
        match node {
            Statement::Def(d) => {
                let r = self.use_register();
                self.eval_expr(r, &d.expr);
                let ghost s = self@.scopes;
                self.define(&d.dest, r, d.is_mut);
                proof {
                    if d.dest is Identifier {
                        assert(add_spec(s, d.dest->Identifier_0.name@, Variable { is_mutable: d.is_mut, register: r }) == self@.scopes);
                    }
                }
            },
            Statement::Assign(a) => {
                let right = self.use_register();
                self.eval_expr(right, &a.expr);
                match a.op {
                    AssignOperator::Assign => {
                        match self.get_reference(&a.dest) {
                            Some(dest) => self.assign(&dest, right),
                            None => {},
                        }
                    },
                    AssignOperator::AddAssign => {
                        match self.get_reference(&a.dest) {
                            Some(dest) => {
                                let ghost w0 = self@;
                                let left = self.use_register();
                                proof {
                                    lemma_ref_wf_grow(dest, w0.regs, w0.data.len(), self@.regs, self@.data.len());
                                }
                                self.dereference(left, &dest);
                                let result = self.use_register();
                                self.append_instruction(Instruction::Add(result, left, right));
                                proof {
                                    lemma_ref_wf_grow(dest, w0.regs, w0.data.len(), self@.regs, self@.data.len());
                                }
                                self.assign(&dest, result);
                            },
                            None => {},
                        }
                    },
                    AssignOperator::SubAssign => {
                        match self.get_reference(&a.dest) {
                            Some(dest) => {
                                let ghost w0 = self@;
                                let left = self.use_register();
                                proof {
                                    lemma_ref_wf_grow(dest, w0.regs, w0.data.len(), self@.regs, self@.data.len());
                                }
                                self.dereference(left, &dest);
                                let result = self.use_register();
                                self.append_instruction(Instruction::Sub(result, left, right));
                                proof {
                                    lemma_ref_wf_grow(dest, w0.regs, w0.data.len(), self@.regs, self@.data.len());
                                }
                                self.assign(&dest, result);
                            },
                            None => {},
                        }
                    },
                }
            },
            _ => {},
        }
        self.append_instruction(Instruction::Null(register));
    }

    /// Binds the name of a definition to the register that holds its value.
    fn define_identifier(&mut self, name: &NamePath, register: Register, is_mutable: bool)
        requires
            old(self).wf(),
            register < old(self)@.regs,
            name_ok(*name),
        ensures
            final(self).wf(),
            final(self)@ == (TranslatorView {
                scopes: add_spec(old(self)@.scopes, name@, Variable { is_mutable, register }),
                ..old(self)@
            }),
    {
        proof {
            lemma_add_below(self@.scopes, name@, Variable { is_mutable, register }, self@.regs);
        }
        self.scopes.add(name, Variable { is_mutable, register });
    }

    /// Writes the code that binds the left-hand side of a definition to the value in
    /// `register`: a name, or the parts of an array or an object.
    fn define(&mut self, dest: &Expression, register: Register, is_mutable: bool)
        requires
            old(self).wf(),
            register < old(self)@.regs,
            dest_ok(*dest),
            old(self)@.regs + 2 * expr_size(*dest) <= usize::MAX,
        ensures
            final(self).wf(),
            grows(old(self)@, final(self)@),
            final(self)@.regs + 1 <= old(self)@.regs + 2 * expr_size(*dest),
            *dest matches Expression::Identifier(n) ==> final(self)@ == (TranslatorView {
                scopes: add_spec(old(self)@.scopes, n.name@, Variable { is_mutable, register }),
                ..old(self)@
            }),
            code_state(final(self)@) == compile_define(code_state(old(self)@), *dest, register, is_mutable),
        decreases expr_size(*dest), 2nat,
    {
        match dest {
            Expression::Identifier(n) => self.define_identifier(&n.name, register, is_mutable),
            Expression::Arr(_) => self.define_arr(dest, register, is_mutable),
            Expression::Obj(_) => self.define_obj(dest, register, is_mutable),
            _ => {
                let message = "The left-hand side of an definition expression must be a variable.".to_owned();
                self.append_instruction(
                    Instruction::Panic(AiScriptBasicError::new(AiScriptBasicErrorKind::Runtime, message, None)),
                );
            },
        }
    }

    /// Binds each item of an array pattern to the element of its place.
    fn define_arr(&mut self, dest: &Expression, register: Register, is_mutable: bool)
        requires
            old(self).wf(),
            register < old(self)@.regs,
            dest is Arr,
            dest_ok(*dest),
            old(self)@.regs + 2 * expr_size(*dest) <= usize::MAX,
        ensures
            final(self).wf(),
            grows(old(self)@, final(self)@),
            final(self)@.regs + 1 <= old(self)@.regs + 2 * expr_size(*dest),
            code_state(final(self)@) == compile_define(code_state(old(self)@), *dest, register, is_mutable),
        decreases expr_size(*dest), 1nat,
    {
        let ghost v0 = self@;
        match dest {
            Expression::Arr(n) => {
                let len = n.value.len();
                let mut i: usize = 0;
                while i < len
                    invariant
                        self.wf(),
                        len == n.value@.len(),
                        i <= len,
                        grows(v0, self@),
                        code_state(self@) == define_items(code_state(v0), register, is_mutable, n.value@.take(i as int)),
                        register < self@.regs,
                        self@.regs <= v0.regs + 2 * exprs_size(n.value@.subrange(0, i as int)),
                        forall|k: int| 0 <= k < n.value@.len() ==> dest_ok(#[trigger] n.value@[k]),
                        v0.regs + 2 * exprs_size(n.value@) + 2 <= usize::MAX,
                        expr_size(*dest) == 1 + exprs_size(n.value@),
                    decreases len - i,
                {
                    proof {
                        lemma_exprs_size_step(n.value@, i as int);
                        lemma_exprs_size_prefix(n.value@, i + 1);
                    }
                    let dest_register = self.use_register();
                    self.append_instruction(Instruction::LoadIndex(dest_register, register, i));
                    self.define(&n.value[i], dest_register, is_mutable);
                    proof {
                        assert(n.value@.take(i + 1).drop_last() =~= n.value@.take(i as int));
                        assert(n.value@.take(i + 1).last() == n.value@[i as int]);
                    }
                    i = i + 1;
                }
                proof {
                    assert(n.value@.subrange(0, len as int) =~= n.value@);
                    assert(n.value@.take(len as int) =~= n.value@);
                }
            },
            _ => {},
        }
    }

    /// Binds each item of an object pattern to the property of its key.
    fn define_obj(&mut self, dest: &Expression, register: Register, is_mutable: bool)
        requires
            old(self).wf(),
            register < old(self)@.regs,
            dest is Obj,
            dest_ok(*dest),
            old(self)@.regs + 2 * expr_size(*dest) <= usize::MAX,
        ensures
            final(self).wf(),
            grows(old(self)@, final(self)@),
            final(self)@.regs + 1 <= old(self)@.regs + 2 * expr_size(*dest),
            code_state(final(self)@) == compile_define(code_state(old(self)@), *dest, register, is_mutable),
        decreases expr_size(*dest), 1nat,
    {
        let ghost v0 = self@;
        match dest {
            Expression::Obj(n) => {
                let len = n.value.len();
                let mut i: usize = 0;
                while i < len
                    invariant
                        self.wf(),
                        len == n.value@.len(),
                        i <= len,
                        grows(v0, self@),
                        code_state(self@) == define_entries(code_state(v0), register, is_mutable, n.value@.take(i as int)),
                        register < self@.regs,
                        self@.regs <= v0.regs + 2 * entries_size(n.value@.subrange(0, i as int)),
                        forall|k: int| 0 <= k < n.value@.len() ==> dest_ok((#[trigger] n.value@[k]).1),
                        v0.regs + 2 * entries_size(n.value@) + 2 <= usize::MAX,
                        expr_size(*dest) == 1 + entries_size(n.value@),
                    decreases len - i,
                {
                    proof {
                        lemma_entries_size_step(n.value@, i as int);
                        lemma_entries_size_prefix(n.value@, i + 1);
                    }
                    let entry = &n.value[i];
                    let key = self.str_literal(entry.0.as_utf16_str());
                    let dest_register = self.use_register();
                    self.append_instruction(Instruction::LoadProp(dest_register, register, key));
                    self.define(&entry.1, dest_register, is_mutable);
                    proof {
                        assert(n.value@.take(i + 1).drop_last() =~= n.value@.take(i as int));
                        assert(n.value@.take(i + 1).last() == n.value@[i as int]);
                    }
                    i = i + 1;
                }
                proof {
                    assert(n.value@.subrange(0, len as int) =~= n.value@);
                    assert(n.value@.take(len as int) =~= n.value@);
                }
            },
            _ => {},
        }
    }

    /// Writes the code that evaluates what the left-hand side of an assignment refers to,
    /// and gives the reference; where the left-hand side cannot be assigned, writes a panic
    /// and gives nothing.
    fn get_reference(&mut self, dest: &Expression) -> (r: Option<Reference>)
        requires
            old(self).wf(),
            target_ok(*dest),
            old(self)@.regs + 4 * expr_size(*dest) <= usize::MAX,
        ensures
            final(self).wf(),
            grows(old(self)@, final(self)@),
            final(self)@.regs <= old(self)@.regs + 4 * expr_size(*dest),
            r matches Some(x) ==> ref_wf(x, final(self)@.regs, final(self)@.data.len()) && ref_size(x)
                <= expr_size(*dest),
            code_state(final(self)@) == compile_ref(code_state(old(self)@), *dest).0,
            (match r {
                Some(x) => Some(ref_view(x)),
                None => None::<RefView>,
            }) == compile_ref(code_state(old(self)@), *dest).1,
        decreases expr_size(*dest), 2nat,
    {
        let ghost v0 = self@;
        match dest {
            Expression::Identifier(n) => {
                proof {
                    lemma_lookup_below(v0.scopes, v0.regs, n.name@);
                }
                match self.scopes.assign(&n.name) {
                    Ok(register) => Some(Reference::Variable { register }),
                    Err(err) => {
                        self.append_instruction(Instruction::Panic(err));
                        None
                    },
                }
            },
            Expression::Index(n) => {
                let target = self.use_register();
                self.eval_expr(target, &n.target);
                let index = self.use_register();
                self.eval_expr(index, &n.index);
                Some(Reference::Index { target, index })
            },
            Expression::Prop(n) => {
                let target = self.use_register();
                self.eval_expr(target, &n.target);
                let name = self.str_literal(n.name.as_utf16_str());
                Some(Reference::Prop { target, name })
            },
            Expression::Arr(n) => {
                let len = n.value.len();
                let mut items: Vec<Reference> = Vec::new();
                let mut i: usize = 0;
                while i < len
                    invariant
                        self.wf(),
                        len == n.value@.len(),
                        i <= len,
                        items@.len() == i,
                        *dest == Expression::Arr(*n),
                        ref_items(code_state(v0), n.value@.take(i as int)) == (code_state(self@), Some(ref_views(items@))),
                        v0 == old(self)@,
                        grows(v0, self@),
                        self@.regs <= v0.regs + 4 * exprs_size(n.value@.subrange(0, i as int)),
                        forall|k: int| 0 <= k < items@.len() ==> ref_wf(#[trigger] items@[k], self@.regs, self@.data.len()),
                        refs_size(items@) <= exprs_size(n.value@.subrange(0, i as int)),
                        forall|k: int| 0 <= k < n.value@.len() ==> target_ok(#[trigger] n.value@[k]),
                        v0.regs + 4 * exprs_size(n.value@) <= usize::MAX,
                        expr_size(*dest) == 1 + exprs_size(n.value@),
                    decreases len - i,
                {
                    proof {
                        lemma_exprs_size_step(n.value@, i as int);
                        lemma_exprs_size_prefix(n.value@, i + 1);
                    }
                    let ghost w0 = self@;
                    proof {
                        assert(n.value@.take(i + 1).drop_last() =~= n.value@.take(i as int));
                        assert(n.value@.take(i + 1).last() == n.value@[i as int]);
                    }
                    match self.get_reference(&n.value[i]) {
                        Some(item) => {
                            let ghost old_items = items@;
                            let ghost item_v = ref_view(item);
                            items.push(item);
                            proof {
                                lemma_ref_views_push(old_items, item);
                                assert forall|k: int| 0 <= k < items@.len() implies ref_wf(#[trigger] items@[k], self@.regs, self@.data.len()) by {
                                    if k < old_items.len() {
                                        assert(items@[k] == old_items[k]);
                                        lemma_ref_wf_grow(old_items[k], w0.regs, w0.data.len(), self@.regs, self@.data.len());
                                    }
                                }
                                lemma_refs_size_step(items@, i as int);
                                assert(items@.subrange(0, i as int) =~= old_items);
                                assert(items@.subrange(0, i + 1) =~= items@);
                            }
                        },
                        None => {
                            proof {
                                lemma_exprs_size_prefix(n.value@, i + 1);
                                assert(compile_ref(code_state(w0), n.value@[i as int]).1 is None);
                                assert(ref_items(code_state(v0), n.value@.take(i + 1)) == (code_state(self@), None::<Seq<RefView>>));
                                lemma_ref_items_none(code_state(v0), n.value@, i + 1);
                                assert(ref_items(code_state(v0), n.value@) == (code_state(self@), None::<Seq<RefView>>));
                            }
                            return None;
                        },
                    }
                    i = i + 1;
                }
                proof {
                    assert(n.value@.subrange(0, len as int) =~= n.value@);
                    assert(n.value@.take(len as int) =~= n.value@);
                }
                Some(Reference::Arr { items })
            },
            Expression::Obj(n) => {
                let len = n.value.len();
                let mut entries: Vec<(DataIndex, Reference)> = Vec::new();
                let mut i: usize = 0;
                while i < len
                    invariant
                        self.wf(),
                        len == n.value@.len(),
                        i <= len,
                        *dest == Expression::Obj(*n),
                        ref_entries(code_state(v0), n.value@.take(i as int)) == (code_state(self@), Some(ref_entry_views(entries@))),
                        v0 == old(self)@,
                        grows(v0, self@),
                        self@.regs <= v0.regs + 4 * entries_size(n.value@.subrange(0, i as int)),
                        forall|k: int|
                            0 <= k < entries@.len() ==> (#[trigger] entries@[k]).0 < self@.data.len() && ref_wf(
                                entries@[k].1,
                                self@.regs,
                                self@.data.len(),
                            ),
                        ref_entries_size(entries@) <= entries_size(n.value@.subrange(0, i as int)),
                        forall|k: int| 0 <= k < n.value@.len() ==> target_ok((#[trigger] n.value@[k]).1),
                        v0.regs + 4 * entries_size(n.value@) <= usize::MAX,
                        expr_size(*dest) == 1 + entries_size(n.value@),
                    decreases len - i,
                {
                    proof {
                        lemma_entries_size_step(n.value@, i as int);
                        lemma_entries_size_prefix(n.value@, i + 1);
                    }
                    let ghost w0 = self@;
                    proof {
                        assert(n.value@.take(i + 1).drop_last() =~= n.value@.take(i as int));
                        assert(n.value@.take(i + 1).last() == n.value@[i as int]);
                    }
                    let entry = &n.value[i];
                    let key = self.str_literal(entry.0.as_utf16_str());
                    match self.get_reference(&entry.1) {
                        Some(item) => {
                            let ghost old_entries = entries@;
                            let ghost item_v = item;
                            ref_entries_put(&mut entries, key, item);
                            proof {
                                assert forall|k: int|
                                    0 <= k < entries@.len() implies (#[trigger] entries@[k]).0 < self@.data.len() && ref_wf(
                                        entries@[k].1,
                                        self@.regs,
                                        self@.data.len(),
                                    ) by {
                                    if k < old_entries.len() && entries@[k] == old_entries[k] {
                                        lemma_ref_wf_grow(old_entries[k].1, w0.regs, w0.data.len(), self@.regs, self@.data.len());
                                    }
                                }
                                if entries@ == old_entries.push((key, item_v)) {
                                    lemma_ref_entries_size_step(entries@, old_entries.len() as int);
                                    assert(entries@.subrange(0, old_entries.len() as int) =~= old_entries);
                                    assert(entries@.subrange(0, entries@.len() as int) =~= entries@);
                                } else {
                                    let c = choose|c: int|
                                        0 <= c < old_entries.len() && (#[trigger] old_entries[c]).0 == key && entries@
                                            == old_entries.update(c, (key, item_v));
                                    lemma_ref_entries_size_update(old_entries, c, (key, item_v));
                                }
                            }
                        },
                        None => {
                            proof {
                                lemma_ref_entries_none(code_state(v0), n.value@, i + 1);
                            }
                            return None;
                        },
                    }
                    i = i + 1;
                }
                proof {
                    assert(n.value@.subrange(0, len as int) =~= n.value@);
                    assert(n.value@.take(len as int) =~= n.value@);
                }
                Some(Reference::Obj { entries })
            },
            _ => {
                let message = "The left-hand side of an assignment expression must be a variable or a property/index access.".to_owned();
                self.append_instruction(
                    Instruction::Panic(AiScriptBasicError::new(AiScriptBasicErrorKind::Runtime, message, None)),
                );
                None
            },
        }
    }

    /// Writes the code that reads what `reference` refers to into `dest`.
    fn dereference(&mut self, dest: Register, reference: &Reference)
        requires
            old(self).wf(),
            dest < old(self)@.regs,
            ref_wf(*reference, old(self)@.regs, old(self)@.data.len()),
            old(self)@.regs + ref_size(*reference) <= usize::MAX,
        ensures
            final(self).wf(),
            grows(old(self)@, final(self)@),
            final(self)@.regs <= old(self)@.regs + ref_size(*reference),
            code_state(final(self)@) == compile_deref(code_state(old(self)@), dest, ref_view(*reference)),
        decreases ref_size(*reference),
    {
        let ghost v0 = self@;
        match reference {
            Reference::Variable { register } => {
                self.append_instruction(Instruction::Move(dest, *register));
            },
            Reference::Index { target, index } => {
                self.append_instruction(Instruction::Load(dest, *target, *index));
            },
            Reference::Prop { target, name } => {
                self.append_instruction(Instruction::LoadProp(dest, *target, *name));
            },
            Reference::Arr { items } => {
                let len = items.len();
                proof {
                    lemma_ref_views(items@);
                }
                self.append_instruction(Instruction::Arr(dest, len));
                let temp = self.use_register();
                let ghost a = code_state(self@);
                let ghost views = ref_views(items@);
                let mut i: usize = 0;
                while i < len
                    invariant
                        self.wf(),
                        len == items@.len(),
                        i <= len,
                        grows(v0, self@),
                        views == ref_views(items@),
                        views.len() == items@.len(),
                        forall|k: int| 0 <= k < items@.len() ==> #[trigger] views[k] == ref_view(items@[k]),
                        temp == v0.regs,
                        a == fresh(op(code_state(v0), Instruction::Arr(dest, len))),
                        code_state(self@) == deref_items(a, temp, dest, views.take(i as int)),
                        dest < self@.regs,
                        temp < self@.regs,
                        self@.regs <= v0.regs + 1 + refs_size(items@.subrange(0, i as int)),
                        forall|k: int| 0 <= k < items@.len() ==> ref_wf(#[trigger] items@[k], v0.regs, v0.data.len()),
                        v0.regs + 1 + refs_size(items@) <= usize::MAX,
                        ref_size(*reference) == 1 + refs_size(items@),
                    decreases len - i,
                {
                    proof {
                        lemma_refs_size_step(items@, i as int);
                        lemma_refs_size_prefix(items@, i + 1);
                        lemma_ref_wf_grow(items@[i as int], v0.regs, v0.data.len(), self@.regs, self@.data.len());
                    }
                    self.dereference(temp, &items[i]);
                    self.append_instruction(Instruction::StoreIndex(temp, dest, i));
                    proof {
                        assert(views.take(i + 1).drop_last() =~= views.take(i as int));
                        assert(views.take(i + 1).last() == ref_view(items@[i as int]));
                    }
                    i = i + 1;
                }
                proof {
                    assert(items@.subrange(0, len as int) =~= items@);
                    assert(views.take(len as int) =~= views);
                }
            },
            Reference::Obj { entries } => {
                let len = entries.len();
                proof {
                    lemma_ref_entry_views(entries@);
                }
                self.append_instruction(Instruction::Obj(dest, len));
                let temp = self.use_register();
                let ghost a = code_state(self@);
                let ghost views = ref_entry_views(entries@);
                let mut i: usize = 0;
                while i < len
                    invariant
                        self.wf(),
                        len == entries@.len(),
                        i <= len,
                        grows(v0, self@),
                        views == ref_entry_views(entries@),
                        views.len() == entries@.len(),
                        forall|k: int| 0 <= k < entries@.len() ==> #[trigger] views[k] == (entries@[k].0, ref_view(entries@[k].1)),
                        temp == v0.regs,
                        a == fresh(op(code_state(v0), Instruction::Obj(dest, len))),
                        code_state(self@) == deref_entries(a, temp, dest, views.take(i as int)),
                        dest < self@.regs,
                        temp < self@.regs,
                        self@.regs <= v0.regs + 1 + ref_entries_size(entries@.subrange(0, i as int)),
                        forall|k: int|
                            0 <= k < entries@.len() ==> (#[trigger] entries@[k]).0 < v0.data.len() && ref_wf(
                                entries@[k].1,
                                v0.regs,
                                v0.data.len(),
                            ),
                        v0.regs + 1 + ref_entries_size(entries@) <= usize::MAX,
                        ref_size(*reference) == 1 + ref_entries_size(entries@),
                    decreases len - i,
                {
                    proof {
                        lemma_ref_entries_size_step(entries@, i as int);
                        lemma_ref_entries_size_prefix(entries@, i + 1);
                        lemma_ref_wf_grow(entries@[i as int].1, v0.regs, v0.data.len(), self@.regs, self@.data.len());
                    }
                    let entry = &entries[i];
                    self.dereference(temp, &entry.1);
                    self.append_instruction(Instruction::StoreProp(temp, dest, entry.0));
                    proof {
                        assert(views.take(i + 1).drop_last() =~= views.take(i as int));
                        assert(views.take(i + 1).last() == (entries@[i as int].0, ref_view(entries@[i as int].1)));
                    }
                    i = i + 1;
                }
                proof {
                    assert(entries@.subrange(0, len as int) =~= entries@);
                    assert(views.take(len as int) =~= views);
                }
            },
        }
    }

    /// Writes the code that stores the value of `src` where `reference` refers to.
    fn assign(&mut self, reference: &Reference, src: Register)
        requires
            old(self).wf(),
            src < old(self)@.regs,
            ref_wf(*reference, old(self)@.regs, old(self)@.data.len()),
            old(self)@.regs + ref_size(*reference) <= usize::MAX,
        ensures
            final(self).wf(),
            grows(old(self)@, final(self)@),
            final(self)@.regs <= old(self)@.regs + ref_size(*reference),
            code_state(final(self)@) == compile_assign(code_state(old(self)@), ref_view(*reference), src),
        decreases ref_size(*reference),
    {
        let ghost v0 = self@;
        match reference {
            Reference::Variable { register } => {
                self.append_instruction(Instruction::Move(*register, src));
            },
            Reference::Index { target, index } => {
                self.append_instruction(Instruction::Store(src, *target, *index));
            },
            Reference::Prop { target, name } => {
                self.append_instruction(Instruction::StoreProp(src, *target, *name));
            },
            Reference::Arr { items } => {
                let len = items.len();
                proof {
                    lemma_ref_views(items@);
                }
                let temp = self.use_register();
                let ghost a = code_state(self@);
                let ghost views = ref_views(items@);
                let mut i: usize = 0;
                while i < len
                    invariant
                        self.wf(),
                        len == items@.len(),
                        i <= len,
                        grows(v0, self@),
                        views == ref_views(items@),
                        views.len() == items@.len(),
                        forall|k: int| 0 <= k < items@.len() ==> #[trigger] views[k] == ref_view(items@[k]),
                        temp == v0.regs,
                        a == fresh(code_state(v0)),
                        code_state(self@) == assign_items(a, temp, src, views.take(i as int)),
                        src < self@.regs,
                        temp < self@.regs,
                        self@.regs <= v0.regs + 1 + refs_size(items@.subrange(0, i as int)),
                        forall|k: int| 0 <= k < items@.len() ==> ref_wf(#[trigger] items@[k], v0.regs, v0.data.len()),
                        v0.regs + 1 + refs_size(items@) <= usize::MAX,
                        ref_size(*reference) == 1 + refs_size(items@),
                    decreases len - i,
                {
                    proof {
                        lemma_refs_size_step(items@, i as int);
                        lemma_refs_size_prefix(items@, i + 1);
                        lemma_ref_wf_grow(items@[i as int], v0.regs, v0.data.len(), self@.regs, self@.data.len());
                    }
                    self.append_instruction(Instruction::LoadIndex(temp, src, i));
                    self.assign(&items[i], temp);
                    proof {
                        assert(views.take(i + 1).drop_last() =~= views.take(i as int));
                        assert(views.take(i + 1).last() == ref_view(items@[i as int]));
                    }
                    i = i + 1;
                }
                proof {
                    assert(items@.subrange(0, len as int) =~= items@);
                    assert(views.take(len as int) =~= views);
                }
            },
            Reference::Obj { entries } => {
                let len = entries.len();
                proof {
                    lemma_ref_entry_views(entries@);
                }
                let temp = self.use_register();
                let ghost a = code_state(self@);
                let ghost views = ref_entry_views(entries@);
                let mut i: usize = 0;
                while i < len
                    invariant
                        self.wf(),
                        len == entries@.len(),
                        i <= len,
                        grows(v0, self@),
                        views == ref_entry_views(entries@),
                        views.len() == entries@.len(),
                        forall|k: int| 0 <= k < entries@.len() ==> #[trigger] views[k] == (entries@[k].0, ref_view(entries@[k].1)),
                        temp == v0.regs,
                        a == fresh(code_state(v0)),
                        code_state(self@) == assign_entries(a, temp, src, views.take(i as int)),
                        src < self@.regs,
                        temp < self@.regs,
                        self@.regs <= v0.regs + 1 + ref_entries_size(entries@.subrange(0, i as int)),
                        forall|k: int|
                            0 <= k < entries@.len() ==> (#[trigger] entries@[k]).0 < v0.data.len() && ref_wf(
                                entries@[k].1,
                                v0.regs,
                                v0.data.len(),
                            ),
                        v0.regs + 1 + ref_entries_size(entries@) <= usize::MAX,
                        ref_size(*reference) == 1 + ref_entries_size(entries@),
                    decreases len - i,
                {
                    proof {
                        lemma_ref_entries_size_step(entries@, i as int);
                        lemma_ref_entries_size_prefix(entries@, i + 1);
                        lemma_ref_wf_grow(entries@[i as int].1, v0.regs, v0.data.len(), self@.regs, self@.data.len());
                    }
                    let entry = &entries[i];
                    self.append_instruction(Instruction::LoadProp(temp, src, entry.0));
                    self.assign(&entry.1, temp);
                    proof {
                        assert(views.take(i + 1).drop_last() =~= views.take(i as int));
                        assert(views.take(i + 1).last() == (entries@[i as int].0, ref_view(entries@[i as int].1)));
                    }
                    i = i + 1;
                }
                proof {
                    assert(entries@.subrange(0, len as int) =~= entries@);
                    assert(views.take(len as int) =~= views);
                }
            },
        }
    }
}

impl Translator {
    /// Enters the namespace `name`.
    fn enter_namespace(&mut self, name: &Utf16Str)
        requires
            old(self).wf(),
        ensures
            final(self).wf(),
            final(self)@ == (TranslatorView {
                scopes: ScopesView { namespaces: old(self)@.scopes.namespaces.push(name@), ..old(self)@.scopes },
                ..old(self)@
            }),
    {
        self.scopes.push_namespace_scope(name);
    }

    /// Leaves the innermost namespace, where no block is open.
    fn leave_namespace(&mut self)
        requires
            old(self).wf(),
            old(self)@.scopes.blocks.len() == 0,
            old(self)@.scopes.namespaces.len() > 0,
        ensures
            final(self).wf(),
            final(self)@ == (TranslatorView {
                scopes: ScopesView { namespaces: old(self)@.scopes.namespaces.drop_last(), ..old(self)@.scopes },
                ..old(self)@
            }),
    {
        self.scopes.drop_local_scope();
    }

    /// Writes the code of the definitions of a namespace and, first, of the namespaces in it.
    fn collect_ns(&mut self, ns: &Namespace)
        requires
            old(self).wf(),
            ns_ok(*ns),
            old(self)@.scopes.blocks.len() == 0,
            old(self)@.regs + 4 * ns_size(*ns) <= usize::MAX,
        ensures
            final(self).wf(),
            grows(old(self)@, final(self)@),
            final(self)@.regs <= old(self)@.regs + 4 * ns_size(*ns),
            code_state(final(self)@) == compile_ns(code_state(old(self)@), *ns),
        decreases ns_size(*ns), 2nat,
    {
        let ghost v0 = self@;
        self.enter_namespace(ns.name.as_utf16_str());
        self.collect_ns_member(ns);
        self.leave_namespace();
        proof {
            assert(self@.scopes.namespaces =~= v0.scopes.namespaces);
        }
    }

    /// Writes the code of the members of a namespace: the namespaces in it, then its
    /// definitions in order, up to the first one it refuses, for which it writes a panic.
    fn collect_ns_member(&mut self, ns: &Namespace)
        requires
            old(self).wf(),
            ns_ok(*ns),
            old(self)@.scopes.blocks.len() == 0,
            old(self)@.scopes.namespaces.len() > 0,
            old(self)@.regs + 8 * members_size(ns.members@) <= usize::MAX,
        ensures
            final(self).wf(),
            grows(old(self)@, final(self)@),
            final(self)@.regs <= old(self)@.regs + 8 * members_size(ns.members@),
            code_state(final(self)@) == ns_defs(ns_inner(code_state(old(self)@), ns.members@), ns.members@).0,
        decreases ns_size(*ns), 1nat,
    {
        let ghost v0 = self@;
        let len = ns.members.len();
        let mut i: usize = 0;
        while i < len
            invariant
                self.wf(),
                len == ns.members@.len(),
                i <= len,
                grows(v0, self@),
                v0.scopes.blocks.len() == 0,
                code_state(self@) == ns_inner(code_state(v0), ns.members@.take(i as int)),
                self@.regs <= v0.regs + 4 * members_size(ns.members@.subrange(0, i as int)),
                forall|k: int|
                    0 <= k < ns.members@.len() ==> match #[trigger] ns.members@[k] {
                        NamespaceMember::Ns(inner) => ns_ok(inner),
                        NamespaceMember::Def(_) => true,
                    },
                v0.regs + 8 * members_size(ns.members@) <= usize::MAX,
                ns_size(*ns) == 1 + 2 * members_size(ns.members@),
            decreases len - i,
        {
            proof {
                lemma_members_size_step(ns.members@, i as int);
                lemma_members_size_prefix(ns.members@, i + 1);
            }
            proof {
                assert(ns.members@.take(i + 1).drop_last() =~= ns.members@.take(i as int));
                assert(ns.members@.take(i + 1).last() == ns.members@[i as int]);
            }
            match &ns.members[i] {
                NamespaceMember::Ns(inner) => {
                    self.collect_ns(inner);
                },
                NamespaceMember::Def(_) => {},
            }
            i = i + 1;
        }
        let ghost v1 = self@;
        proof {
            assert(ns.members@.subrange(0, len as int) =~= ns.members@);
            assert(ns.members@.take(len as int) =~= ns.members@);
        }
        let mut i: usize = 0;
        while i < len
            invariant
                self.wf(),
                len == ns.members@.len(),
                i <= len,
                v0 == old(self)@,
                grows(v0, self@),
                code_state(v1) == ns_inner(code_state(v0), ns.members@),
                ns_defs(code_state(v1), ns.members@.take(i as int)) == (code_state(self@), false),
                self@.regs <= v1.regs + 4 * members_size(ns.members@.subrange(0, i as int)),
                v1.regs <= v0.regs + 4 * members_size(ns.members@),
                defs_ok_from(ns.members@, i as int),
                v0.regs + 8 * members_size(ns.members@) <= usize::MAX,
            decreases len - i,
        {
            proof {
                lemma_members_size_step(ns.members@, i as int);
                lemma_members_size_prefix(ns.members@, i + 1);
                assert(ns.members@.take(i + 1).drop_last() =~= ns.members@.take(i as int));
                assert(ns.members@.take(i + 1).last() == ns.members@[i as int]);
            }
            match &ns.members[i] {
                NamespaceMember::Def(node) => {
                    match &node.dest {
                        Expression::Identifier(dest) => {
                            if node.is_mut {
                                let mut message = "No \"var\" in namespace declaration: ".to_owned();
                                let name = dest.name.to_display_string();
                                message.append(name.as_str());
                                self.append_instruction(
                                    Instruction::Panic(
                                        AiScriptBasicError::new(
                                            AiScriptBasicErrorKind::Namespace,
                                            message,
                                            Some(node.loc.start),
                                        ),
                                    ),
                                );
                                proof {
                                    lemma_ns_defs_stopped(code_state(v1), ns.members@, i + 1);
                                }
                                return;
                            }
                            let register = self.use_register();
                            self.eval_expr(register, &node.expr);
                            self.define_identifier(&dest.name, register, node.is_mut);
                        },
                        _ => {
                            let message = "Destructuring assignment is invalid in namespace declarations.".to_owned();
                            self.append_instruction(
                                Instruction::Panic(
                                    AiScriptBasicError::new(
                                        AiScriptBasicErrorKind::Namespace,
                                        message,
                                        Some(node.loc.start),
                                    ),
                                ),
                            );
                            proof {
                                lemma_ns_defs_stopped(code_state(v1), ns.members@, i + 1);
                            }
                            return;
                        },
                    }
                },
                NamespaceMember::Ns(_) => {},
            }
            i = i + 1;
        }
        proof {
            assert(ns.members@.take(len as int) =~= ns.members@);
        }
    }

    /// Writes the code of a top-level node; `register` then holds its value.
    fn eval(&mut self, register: Register, node: &Node)
        requires
            old(self).wf(),
            register < old(self)@.regs,
            node_ok(*node),
            old(self)@.regs + 4 * node_size(*node) <= usize::MAX,
        ensures
            final(self).wf(),
            grows(old(self)@, final(self)@),
            final(self)@.regs <= old(self)@.regs + 4 * node_size(*node),
            code_state(final(self)@) == compile_node(code_state(old(self)@), register, *node),
    {
        match node {
            Node::Statement(s) => self.eval_statement(register, s),
            Node::Expr(e) => self.eval_expr(register, e),
            _ => self.append_instruction(Instruction::Null(register)),
        }
    }

    /// Writes the code of a program: the definitions of its namespaces first, then each
    /// node in order, with the value of the last one in the first new register. An empty
    /// program writes nothing.
    pub fn translate(&mut self, ast: &[Node])
        requires
            old(self).wf(),
            old(self)@.procedures.len() == 0,
            old(self)@.scopes.blocks.len() == 0,
            forall|i: int| 0 <= i < ast@.len() ==> node_ok(#[trigger] ast@[i]),
            old(self)@.regs + 1 + 8 * nodes_size(ast@) <= usize::MAX,
        ensures
            final(self).wf(),
            grows(old(self)@, final(self)@),
            final(self)@.procedures.len() == 0,
            final(self)@.scopes.blocks.len() == 0,
            ast@.len() == 0 ==> final(self)@ == old(self)@,
            ast@.len() > 0 ==> final(self)@.regs > old(self)@.regs,
            code_state(final(self)@) == compile_program(code_state(old(self)@), ast@),
    {
        if ast.len() == 0 {
            return;
        }
        let ghost v0 = self@;
        let len = ast.len();
        let mut i: usize = 0;
        while i < len
            invariant
                self.wf(),
                len == ast@.len(),
                i <= len,
                grows(v0, self@),
                v0.scopes.blocks.len() == 0,
                code_state(self@) == collect_nodes(code_state(v0), ast@.take(i as int)),
                self@.regs <= v0.regs + 4 * nodes_size(ast@.take(i as int)),
                forall|k: int| 0 <= k < ast@.len() ==> node_ok(#[trigger] ast@[k]),
                v0.regs + 1 + 8 * nodes_size(ast@) <= usize::MAX,
            decreases len - i,
        {
            proof {
                lemma_nodes_size_step(ast@, i as int);
                lemma_nodes_size_prefix(ast@, i + 1);
                assert(node_ok(ast@[i as int]));
                assert(ast@.take(i + 1).drop_last() =~= ast@.take(i as int));
                assert(ast@.take(i + 1).last() == ast@[i as int]);
            }
            match &ast[i] {
                Node::Ns(ns) => self.collect_ns(ns),
                _ => {},
            }
            i = i + 1;
        }
        proof {
            assert(ast@.take(len as int) =~= ast@);
        }
        let ghost v_mid = self@;
        let register = self.use_register();
        let ghost v1 = self@;
        let mut i: usize = 0;
        while i < len
            invariant
                self.wf(),
                len == ast@.len(),
                i <= len,
                grows(v0, self@),
                register < v1.regs,
                register == v_mid.regs,
                code_state(v_mid) == collect_nodes(code_state(v0), ast@),
                code_state(v1) == fresh(code_state(v_mid)),
                code_state(self@) == eval_nodes(code_state(v1), register, ast@.take(i as int)),
                v1.regs <= self@.regs,
                self@.regs <= v1.regs + 4 * nodes_size(ast@.take(i as int)),
                v1.regs <= v0.regs + 1 + 4 * nodes_size(ast@),
                forall|k: int| 0 <= k < ast@.len() ==> node_ok(#[trigger] ast@[k]),
                v0.regs + 1 + 8 * nodes_size(ast@) <= usize::MAX,
            decreases len - i,
        {
            proof {
                lemma_nodes_size_step(ast@, i as int);
                lemma_nodes_size_prefix(ast@, i + 1);
                assert(node_ok(ast@[i as int]));
                assert(ast@.take(i + 1).drop_last() =~= ast@.take(i as int));
                assert(ast@.take(i + 1).last() == ast@[i as int]);
            }
            self.eval(register, &ast[i]);
            i = i + 1;
        }
        proof {
            assert(ast@.take(len as int) =~= ast@);
        }
    }

    /// Binds `name` at the root to the immutable variable in `register`.
    fn define_root(&mut self, name: NamePath, register: Register)
        requires
            old(self).wf(),
            register < old(self)@.regs,
        ensures
            final(self).wf(),
            final(self)@ == (TranslatorView {
                scopes: ScopesView {
                    root: table_insert(old(self)@.scopes.root, name@, Variable { is_mutable: false, register }),
                    ..old(self)@.scopes
                },
                ..old(self)@
            }),
    {
        proof {
            lemma_table_insert_below(self@.scopes.root, name@, Variable { is_mutable: false, register }, self@.regs);
        }
        self.scopes.add_root(name, Variable { is_mutable: false, register });
    }

    /// Gives the program the values of a library: each goes to a register of its own,
    /// bound at the root to its name as an immutable variable.
    pub fn link_library(&mut self, library: Library)
        requires
            old(self).wf(),
            old(self)@.regs + library@.len() <= usize::MAX,
        ensures
            final(self).wf(),
            final(self)@.regs == old(self)@.regs + library@.len(),
            is_prefix(old(self)@.data, final(self)@.data),
            final(self)@.natives == old(self)@.natives + lib_natives(library@),
            is_prefix(old(self)@.block, final(self)@.block),
            final(self)@.block.len() == old(self)@.block.len() + library@.len(),
            final(self)@.procedures == old(self)@.procedures,
            final(self)@.scopes.namespaces == old(self)@.scopes.namespaces,
            final(self)@.scopes.blocks == old(self)@.scopes.blocks,
            forall|i: int| 0 <= i < library@.len() ==> table_has(final(self)@.scopes.root, (#[trigger] library@[i]).0@),
            code_state(final(self)@) == link_code(code_state(old(self)@), old(self)@.natives.len(), library_view(library@)),
    {
        let ghost v0 = self@;
        let ghost lv = library_view(library@);
        let len = library.len();
        let mut i: usize = 0;
        while i < len
            invariant
                self.wf(),
                len == library@.len(),
                i <= len,
                lv == library_view(library@),
                code_state(self@) == link_code(code_state(v0), v0.natives.len(), lv.take(i as int)),
                self@.regs == v0.regs + i,
                is_prefix(v0.data, self@.data),
                self@.natives == v0.natives + lib_natives(library@.take(i as int)),
                is_prefix(v0.block, self@.block),
                self@.block.len() == v0.block.len() + i,
                self@.procedures == v0.procedures,
                self@.scopes.namespaces == v0.scopes.namespaces,
                self@.scopes.blocks == v0.scopes.blocks,
                forall|k: int| 0 <= k < i ==> table_has(self@.scopes.root, (#[trigger] library@[k]).0@),
                v0.regs + len <= usize::MAX,
            decreases len - i,
        {
            let entry = &library[i];
            proof {
                assert(library@.take(i + 1).drop_last() =~= library@.take(i as int));
                assert(lv.take(i + 1).drop_last() =~= lv.take(i as int));
                assert(lv.take(i + 1).last() == (entry.0@, library_value_view(entry.1)));
                lemma_natives_count(library@.take(i as int));
                assert(library_view(library@.take(i as int)) =~= lv.take(i as int));
            }
            let register = self.use_register();
            match &entry.1 {
                LibraryValue::Null => self.append_instruction(Instruction::Null(register)),
                LibraryValue::Bool(b) => self.append_instruction(Instruction::Bool(register, *b)),
                LibraryValue::Num(n) => self.append_instruction(Instruction::Num(register, *n)),
                LibraryValue::Str(text) => {
                    let index = self.str_literal(text.as_utf16_str());
                    self.append_instruction(Instruction::Data(register, index));
                },
                LibraryValue::Fn(f) => {
                    let index = self.add_native_function(*f);
                    self.append_instruction(Instruction::NativeFn(register, index));
                },
            }
            let ghost before = self@;
            let name = NamePath::from_string(entry.0.copy());
            self.define_root(name, register);
            proof {
                assert forall|k: int| 0 <= k < i + 1 implies table_has(self@.scopes.root, (#[trigger] library@[k]).0@) by {
                    if k < i {
                        lemma_table_insert_keeps(before.scopes.root, name@, Variable { is_mutable: false, register }, library@[k].0@);
                    } else {
                        lemma_table_insert(before.scopes.root, name@, Variable { is_mutable: false, register });
                    }
                }
            }
            i = i + 1;
        }
        proof {
            assert(library@.take(len as int) =~= library@);
            assert(lv.take(len as int) =~= lv);
        }
    }
}

/// Translates a program into the register-machine code: one function, which runs first.
pub fn translate(ast: &[Node]) -> (r: Ir)
    requires
        forall|i: int| 0 <= i < ast@.len() ==> node_ok(#[trigger] ast@[i]),
        1 + 8 * nodes_size(ast@) <= usize::MAX,
    ensures
        ir_wf(r),
        r.entry_point == 0,
        r.user_functions@.len() == 1,
        r.native_functions@.len() == 0,
        data_unique(r.data@.map_values(|d: DataItem| data_str(d))),
        code_view(r.user_functions@[0].instructions@) == compile_program(initial_code(), ast@).block,
        r.data@.map_values(|d: DataItem| data_str(d)) == compile_program(initial_code(), ast@).data,
        r.user_functions@[0].register_length == compile_program(initial_code(), ast@).regs,
{
    if ast.len() == 0 {
        let r = Ir::default();
        proof {
            assert(code_wf(r.user_functions@[0].instructions@, 0, 0, 0));
            assert(r.data@.map_values(|d: DataItem| data_str(d)) =~= Seq::<Seq<u16>>::empty());
            assert(r.user_functions@[0].instructions@ =~= Seq::<Instruction>::empty());
            lemma_code_view_empty();
        }
        return r;
    }
    let mut translator = Translator::new();
    proof {
        lemma_code_view_empty();
        assert(translator@.block =~= Seq::<Instruction>::empty());
        assert(translator@.data =~= Seq::<Seq<u16>>::empty());
        assert(translator@.scopes.root =~= Seq::<(Seq<u16>, Variable)>::empty());
        assert(translator@.scopes.namespaces =~= Seq::<Seq<u16>>::empty());
        assert(translator@.scopes.blocks =~= Seq::<Table>::empty());
        assert(code_state(translator@) == initial_code());
    }
    translator.translate(ast);
    translator.build()
}
} // verus!
