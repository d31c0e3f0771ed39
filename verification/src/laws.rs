use vstd::prelude::*;

use crate::common::error::EngineResult;
use crate::common::path::{append_spec, count_unit, segment_count_spec};
use crate::common::string::{join_spec, COLON_UNIT};
use crate::ir::scopes::{
    add_spec, first_block, lemma_table_insert, lookup_spec, scopes_wf, table_get, table_has,
    table_unique, ScopesView, Table, Variable,
};
use crate::ast::nodes::{BinaryLogicalOperator, BinaryOperator, Definition, Expression, Identifier, Statement};
use crate::ir::compile::{code_view, compile_expr, compile_stmt, fresh, instr_view, new_seq, op, CodeState, CodeView};
use crate::lexer::token::TokenKind;
use crate::types::types::TSimple;
use crate::ir::ir::{Instruction, Register};
use crate::vm::object::{has_key, keys_unique};
use crate::vm::values::{CellView, Value};
use crate::common::string::utf16_decode_lossy;
use crate::parser::expressions::level_operator;
use crate::vm::vm::{is_nan_bits, is_zero_bits, value_eq_spec, 
    advance, arr_of, cell_ok, fetch, insert_entry, lemma_fetch_measure, lemma_frame_size_step,
    lemma_insert_unique, lemma_lookup_unique, lemma_stack_size_push, lookup, measure, moved, obj_of,
    step_spec, str_of, value_ok, view_ok, written_register, frame_ok, VmState, VmView,
};
use crate::ir::ir::lemma_code_wf_index;

verus! {

/// The name of a simple type names that type.
pub proof fn law_simple_type_name_round_trip(t: TSimple)
    ensures
        TSimple::for_name_spec(t.name_spec()) == Some(t),
{
}

/// No two words spell the same keyword.
pub proof fn law_keyword_spelling_unique(a: Seq<u16>, b: Seq<u16>)
    requires
        TokenKind::keyword_spec(a) is Some,
        TokenKind::keyword_spec(a) == TokenKind::keyword_spec(b),
    ensures
        a == b,
{
}

/// Joining no strings gives the empty string; joining one gives that string; joining two
/// puts the separator between them.
pub proof fn law_join_small(a: Seq<u16>, b: Seq<u16>, sep: Seq<u16>)
    ensures
        join_spec(Seq::empty(), sep) == Seq::<u16>::empty(),
        join_spec(seq![a], sep) == a,
        join_spec(seq![a, b], sep) == a + sep + b,
{
    assert(seq![a, b].drop_last() =~= seq![a]);
}

/// Appending a segment to the path of some segments gives the path of those segments and
/// the new one, where the path so far is not empty.
pub proof fn law_append_is_join(parts: Seq<Seq<u16>>, name: Seq<u16>)
    requires
        join_spec(parts, seq![COLON_UNIT]).len() > 0,
    ensures
        append_spec(join_spec(parts, seq![COLON_UNIT]), name) == join_spec(parts.push(name), seq![COLON_UNIT]),
{
    let sep = seq![COLON_UNIT];
    assert(parts.len() > 0);
    assert(parts.push(name).drop_last() =~= parts);
    assert(join_spec(parts, sep).push(COLON_UNIT) =~= join_spec(parts, sep) + sep);
}

/// Counting a unit in a concatenation adds the counts of the parts.
pub proof fn lemma_count_unit_concat(a: Seq<u16>, b: Seq<u16>, u: u16)
    ensures
        count_unit(a + b, u) == count_unit(a, u) + count_unit(b, u),
    decreases b.len(),
{
    if b.len() == 0 {
        assert(a + b =~= a);
    } else {
        assert((a + b).drop_last() =~= a + b.drop_last());
        lemma_count_unit_concat(a, b.drop_last(), u);
    }
}

/// Appending a one-segment name to a path adds one segment.
pub proof fn law_append_adds_segment(path: Seq<u16>, name: Seq<u16>)
    requires
        path.len() > 0,
        name.len() > 0,
        count_unit(name, COLON_UNIT) == 0,
    ensures
        segment_count_spec(append_spec(path, name)) == segment_count_spec(path) + 1,
{
    lemma_count_unit_concat(path.push(COLON_UNIT), name, COLON_UNIT);
    assert(path.push(COLON_UNIT).drop_last() =~= path);
}

/// Joining one or more segments with no ':' in them puts one ':' fewer than there are
/// segments.
pub proof fn lemma_join_counts_separators(parts: Seq<Seq<u16>>)
    requires
        parts.len() > 0,
        forall|i: int| 0 <= i < parts.len() ==> count_unit(#[trigger] parts[i], COLON_UNIT) == 0,
    ensures
        count_unit(join_spec(parts, seq![COLON_UNIT]), COLON_UNIT) == parts.len() - 1,
    decreases parts.len(),
{
    if parts.len() > 1 {
        let sep = seq![COLON_UNIT];
        let init = parts.drop_last();
        assert forall|i: int| 0 <= i < init.len() implies count_unit(
            #[trigger] init[i],
            COLON_UNIT,
        ) == 0 by {
            assert(init[i] == parts[i]);
        }
        lemma_join_counts_separators(init);
        lemma_count_unit_concat(join_spec(init, sep) + sep, parts.last(), COLON_UNIT);
        lemma_count_unit_concat(join_spec(init, sep), sep, COLON_UNIT);
        assert(sep.drop_last() =~= Seq::<u16>::empty());
        assert(sep.last() == COLON_UNIT);
        assert(count_unit(Seq::<u16>::empty(), COLON_UNIT) == 0);
        assert(count_unit(sep, COLON_UNIT) == 1);
        assert(count_unit(parts.last(), COLON_UNIT) == 0);
    } else {
        assert(count_unit(parts[0], COLON_UNIT) == 0);
    }
}

/// A path made from segments with no ':' in them has as many segments as it was made
/// from, unless it was made from a single empty segment (which gives the empty path).
pub proof fn law_segment_count_of_segments(parts: Seq<Seq<u16>>)
    requires
        forall|i: int| 0 <= i < parts.len() ==> count_unit(#[trigger] parts[i], COLON_UNIT) == 0,
        parts.len() == 1 ==> parts[0].len() > 0,
    ensures
        segment_count_spec(join_spec(parts, seq![COLON_UNIT])) == parts.len(),
{
    if parts.len() > 0 {
        lemma_join_counts_separators(parts);
        if parts.len() > 1 {
            let sep = seq![COLON_UNIT];
            assert(join_spec(parts, sep).len() > 0);
        }
    }
}

/// Where none of the blocks before the `k`-th has the name and the `k`-th has it, the
/// lookup in the blocks from `i` on finds it there.
pub proof fn lemma_first_block_at(blocks: Seq<Table>, name: Seq<u16>, i: int, k: int)
    requires
        0 <= i <= k < blocks.len(),
        forall|j: int| i <= j < k ==> !table_has(#[trigger] blocks[j], name),
        table_has(blocks[k], name),
    ensures
        first_block(blocks, name, i) == table_get(blocks[k], name),
    decreases k - i,
{
    if i < k {
        lemma_first_block_at(blocks, name, i + 1, k);
    }
}

/// Where no block has the name, the lookup in the blocks finds nothing.
pub proof fn lemma_first_block_none(blocks: Seq<Table>, name: Seq<u16>, i: int)
    requires
        0 <= i,
        forall|j: int| i <= j < blocks.len() ==> !table_has(#[trigger] blocks[j], name),
    ensures
        first_block(blocks, name, i) is None,
    decreases blocks.len() - i,
{
    if i < blocks.len() {
        lemma_first_block_none(blocks, name, i + 1);
    }
}

/// A name just defined refers to what it was defined as, unless a block outside the
/// innermost one already has that name (the lookup goes through the blocks outermost
/// first).
pub proof fn law_define_then_lookup(v: ScopesView, name: Seq<u16>, var: Variable)
    requires
        scopes_wf(v),
        forall|j: int| 0 <= j < v.blocks.len() - 1 ==> !table_has(#[trigger] v.blocks[j], name),
    ensures
        lookup_spec(add_spec(v, name, var), name) == Some(var),
{
    let w = add_spec(v, name, var);
    if v.blocks.len() > 0 {
        let k = v.blocks.len() - 1;
        assert(table_unique(v.blocks[k]));
        lemma_table_insert(v.blocks[k], name, var);
        assert forall|j: int| 0 <= j < k implies !table_has(#[trigger] w.blocks[j], name) by {
            assert(w.blocks[j] == v.blocks[j]);
        }
        assert(table_has(w.blocks[k], name));
        lemma_first_block_at(w.blocks, name, 0, k);
    } else if v.namespaces.len() == 0 {
        lemma_table_insert(v.root, name, var);
        lemma_first_block_none(w.blocks, name, 0);
    } else {
        lemma_table_insert(v.root, crate::ir::scopes::resolve_spec(v.namespaces, name), var);
        lemma_first_block_none(w.blocks, name, 0);
    }
}

/// Leaving a block just entered gives back the scopes as they were.
pub proof fn law_block_scope_round_trip(v: ScopesView)
    ensures
        (ScopesView { blocks: (ScopesView { blocks: v.blocks.push(Seq::empty()), ..v }).blocks.drop_last(), ..v }) == v,
{
    assert(v.blocks.push(Seq::empty()).drop_last() =~= v.blocks);
}

/// A step is determined by the state: two steps from one state reach the same state.
pub proof fn law_step_deterministic(
    v: VmView,
    w1: VmView,
    w2: VmView,
    natives: Seq<usize>,
    r1: crate::common::error::EngineResult<VmState>,
    r2: crate::common::error::EngineResult<VmState>,
)
    requires
        step_spec(v, w1, natives, r1),
        step_spec(v, w2, natives, r2),
    ensures
        w1 == w2,
{
}

/// A step that fails changes neither the registers nor the heap, leaves nothing pending,
/// and leaves the machine on the instruction that failed: the next step runs it again.
pub proof fn law_step_error_changes_nothing(
    v: VmView,
    w: VmView,
    natives: Seq<usize>,
    r: EngineResult<VmState>,
)
    requires
        step_spec(v, w, natives, r),
        r is Err,
    ensures
        w.regs == v.regs,
        w.heap == v.heap,
        w.pending is None,
        fetch(w.frame, w.stack) == fetch(v.frame, v.stack),
{
    let (f, st) = fetch(v.frame, v.stack);
    if f.1 < f.0.len() {
        match f.0[f.1 as int] {
            Instruction::If(..) => {},
            Instruction::Not(..) => {},
            Instruction::Load(..) => {},
            Instruction::Store(..) => {},
            Instruction::LoadIndex(..) => {},
            Instruction::StoreIndex(..) => {},
            Instruction::LoadProp(..) => {},
            Instruction::StoreProp(..) => {},
            Instruction::Call(..) => {},
            _ => {},
        }
    }
}

/// A step that continues changes no register but the one its instruction writes to (none
/// for `Nop`, `If` and the stores). For a machine, `Vm::lemma_wf_view_ok` gives the
/// well-formed view this asks for.
pub proof fn law_step_writes_one_register(
    v: VmView,
    w: VmView,
    natives: Seq<usize>,
    r: EngineResult<VmState>,
    data: nat,
    nn: nat,
)
    requires
        view_ok(v, data, nn),
        step_spec(v, w, natives, r),
        r matches Ok(VmState::Continue),
    ensures
        w.regs.len() == v.regs.len(),
        forall|j: int|
            0 <= j < v.regs.len() && written_register(
                fetch(v.frame, v.stack).0.0[fetch(v.frame, v.stack).0.1 as int],
            ) != Some(j as Register) ==> #[trigger] w.regs[j] == v.regs[j],
{
    let (f, st) = fetch(v.frame, v.stack);
    if f.1 < f.0.len() {
        if v.frame.1 >= v.frame.0.len() && v.stack.len() > 0 {
            assert(frame_ok(v.stack[v.stack.len() - 1], v.regs.len(), data, nn));
        }
        lemma_code_wf_index(f.0, v.regs.len(), data, nn, f.1 as int);
        match f.0[f.1 as int] {
            Instruction::If(..) => {},
            Instruction::Not(..) => {},
            Instruction::LoadIndex(..) => {},
            Instruction::StoreIndex(..) => {},
            Instruction::LoadProp(..) => {},
            Instruction::StoreProp(..) => {},
            _ => {},
        }
    }
}

/// A step that continues lowers the work left: the machine cannot run for ever.
pub proof fn law_continue_lowers_measure(v: VmView, w: VmView, natives: Seq<usize>, data: nat, nn: nat)
    requires
        view_ok(v, data, nn),
        step_spec(v, w, natives, Ok(VmState::Continue)),
    ensures
        measure(w) < measure(v),
{
    lemma_fetch_measure(v);
    let (f, st) = fetch(v.frame, v.stack);
    if f.1 < f.0.len() {
        lemma_frame_size_step(f);
        lemma_stack_size_push(st, advance(f));
        match f.0[f.1 as int] {
            crate::ir::ir::Instruction::If(_, a, b) => {
                assert(a@.skip(0) =~= a@);
                assert(b@.skip(0) =~= b@);
            },
            _ => {},
        }
    }
}

/// Writing a property and reading it back gives the value written; the other properties
/// keep their values, and no key occurs twice.
pub proof fn law_property_read_after_write(
    entries: Seq<(Seq<u16>, Value)>,
    key: Seq<u16>,
    other: Seq<u16>,
    value: Value,
)
    requires
        keys_unique(entries),
    ensures
        lookup(insert_entry(entries, key, value), key) == value,
        other != key ==> lookup(insert_entry(entries, key, value), other) == lookup(entries, other),
        keys_unique(insert_entry(entries, key, value)),
        has_key(entries, key) ==> insert_entry(entries, key, value).len() == entries.len(),
        !has_key(entries, key) ==> insert_entry(entries, key, value).len() == entries.len() + 1,
{
    let e2 = insert_entry(entries, key, value);
    lemma_insert_unique(entries, key, value);
    if has_key(entries, key) {
        let j = choose|j: int| 0 <= j < entries.len() && #[trigger] entries[j].0 == key;
        lemma_lookup_unique(entries, key, j);
        lemma_lookup_unique(e2, key, j);
        if has_key(entries, other) && other != key {
            let k = choose|k: int| 0 <= k < entries.len() && #[trigger] entries[k].0 == other;
            lemma_lookup_unique(entries, other, k);
            assert(e2[k] == entries[k]);
            lemma_lookup_unique(e2, other, k);
        } else if other != key {
            assert forall|k: int| 0 <= k < e2.len() implies (#[trigger] e2[k]).0 != other by {
                if k != j {
                    assert(e2[k] == entries[k]);
                }
            }
        }
    } else {
        lemma_lookup_unique(e2, key, entries.len() as int);
        if has_key(entries, other) && other != key {
            let k = choose|k: int| 0 <= k < entries.len() && #[trigger] entries[k].0 == other;
            lemma_lookup_unique(entries, other, k);
            assert(e2[k] == entries[k]);
            lemma_lookup_unique(e2, other, k);
        } else if other != key {
            assert forall|k: int| 0 <= k < e2.len() implies (#[trigger] e2[k]).0 != other by {
                if k < entries.len() {
                    assert(e2[k] == entries[k]);
                }
            }
        }
    }
}

/// On the machine, a `StoreProp` followed by a `LoadProp` of the same object and name
/// reads back the value that was stored.
pub proof fn law_machine_property_read_after_write(
    v1: VmView,
    v2: VmView,
    v3: VmView,
    natives: Seq<usize>,
    data: nat,
    nn: nat,
    s: Register,
    t: Register,
    d: usize,
    x: Register,
)
    requires
        view_ok(v1, data, nn),
        v1.pending is None,
        v1.frame.1 + 1 < v1.frame.0.len(),
        v1.frame.0[v1.frame.1 as int] == Instruction::StoreProp(s, t, d),
        v1.frame.0[v1.frame.1 + 1int] == Instruction::LoadProp(x, t, d),
        v1.regs[t as int] is Obj,
        step_spec(v1, v2, natives, Ok(VmState::Continue)),
        step_spec(v2, v3, natives, Ok(VmState::Continue)),
    ensures
        v3.regs[x as int] == v1.regs[s as int],
{
    let h = v1.regs[t as int]->Obj_0;
    let val = v1.regs[s as int];
    crate::ir::ir::lemma_code_wf_index(v1.frame.0, v1.regs.len(), data, nn, v1.frame.1 as int);
    crate::ir::ir::lemma_code_wf_index(v1.frame.0, v1.regs.len(), data, nn, v1.frame.1 + 1int);
    assert(fetch(v1.frame, v1.stack) == (v1.frame, v1.stack));
    assert(value_ok(v1.regs[t as int], v1.heap));
    assert(d < data);
    assert(v1.heap[d as int] is Str);
    assert(cell_ok(v1.heap[h as int], v1.heap, nn));
    let entries = obj_of(v1.heap, h as int);
    let key = str_of(v1.heap, d as int);
    let entries2 = insert_entry(entries, key, val);
    law_property_read_after_write(entries, key, key, val);
    let heap2 = v1.heap.update(h as int, CellView::Obj(entries2));
    assert(v2 == moved(v1, advance(v1.frame), v1.stack, v1.regs, heap2));
    assert(fetch(v2.frame, v2.stack) == (v2.frame, v2.stack));
    assert(v2.frame.0[v2.frame.1 as int] == Instruction::LoadProp(x, t, d));
    assert(v2.regs[t as int] == Value::Obj(h));
    assert(obj_of(heap2, h as int) == entries2);
    assert(h != d);
    assert(str_of(heap2, d as int) == key);
    assert(v3.regs == v2.regs.update(x as int, val));
}

/// On the machine, a `StoreIndex` followed by a `LoadIndex` of the same array and index
/// reads back the value that was stored.
pub proof fn law_machine_element_read_after_write(
    v1: VmView,
    v2: VmView,
    v3: VmView,
    natives: Seq<usize>,
    data: nat,
    nn: nat,
    s: Register,
    t: Register,
    k: usize,
    x: Register,
)
    requires
        view_ok(v1, data, nn),
        v1.pending is None,
        v1.frame.1 + 1 < v1.frame.0.len(),
        v1.frame.0[v1.frame.1 as int] == Instruction::StoreIndex(s, t, k),
        v1.frame.0[v1.frame.1 + 1int] == Instruction::LoadIndex(x, t, k),
        v1.regs[t as int] is Arr,
        step_spec(v1, v2, natives, Ok(VmState::Continue)),
        step_spec(v2, v3, natives, Ok(VmState::Continue)),
    ensures
        v3.regs[x as int] == v1.regs[s as int],
{
    let h = v1.regs[t as int]->Arr_0;
    let val = v1.regs[s as int];
    crate::ir::ir::lemma_code_wf_index(v1.frame.0, v1.regs.len(), data, nn, v1.frame.1 as int);
    crate::ir::ir::lemma_code_wf_index(v1.frame.0, v1.regs.len(), data, nn, v1.frame.1 + 1int);
    assert(fetch(v1.frame, v1.stack) == (v1.frame, v1.stack));
    assert(value_ok(v1.regs[t as int], v1.heap));
    let arr = arr_of(v1.heap, h as int);
    assert(k < arr.len());
    let heap2 = v1.heap.update(h as int, CellView::Arr(arr.update(k as int, val)));
    assert(v2 == moved(v1, advance(v1.frame), v1.stack, v1.regs, heap2));
    assert(fetch(v2.frame, v2.stack) == (v2.frame, v2.stack));
    assert(v2.frame.0[v2.frame.1 as int] == Instruction::LoadIndex(x, t, k));
    assert(v2.regs[t as int] == Value::Arr(h));
    assert(arr_of(heap2, h as int) == arr.update(k as int, val));
    assert(v3.regs == v2.regs.update(x as int, val));
}

/// In the translated code, a read of a name just defined copies the register that the
/// definition gave its value, unless a block outside the innermost one already has that
/// name.
pub proof fn law_read_after_definition(
    c: CodeState,
    register: Register,
    d: Definition,
    read: Register,
    reader: Identifier,
)
    requires
        d.dest matches Expression::Identifier(n) && n.name@ == reader.name@,
        scopes_wf(compile_expr(fresh(c), c.regs as usize, d.expr).scopes),
        forall|j: int|
            0 <= j < compile_expr(fresh(c), c.regs as usize, d.expr).scopes.blocks.len() - 1 ==> !table_has(
                #[trigger] compile_expr(fresh(c), c.regs as usize, d.expr).scopes.blocks[j],
                reader.name@,
            ),
    ensures
        compile_expr(compile_stmt(c, register, Statement::Def(d)), read, Expression::Identifier(reader)) == op(
            compile_stmt(c, register, Statement::Def(d)),
            Instruction::Move(read, c.regs as usize),
        ),
{
    let m = compile_expr(fresh(c), c.regs as usize, d.expr);
    law_define_then_lookup(m.scopes, reader.name@, Variable { is_mutable: d.is_mut, register: c.regs as usize });
}

/// Viewing instructions keeps their number.
pub proof fn lemma_code_view_len(s: Seq<Instruction>)
    ensures
        code_view(s).len() == s.len(),
    decreases s.len(),
{
    if s.len() > 0 {
        lemma_code_view_len(s.drop_last());
    }
}

/// `a || b` and `a && b` short-circuit. Their code ends in a test of the result register,
/// which holds the value of `a`. The right side `b` runs exactly when it can change the
/// result: for `||` when `a` gave false, for `&&` when `a` gave true. Otherwise the machine
/// enters no code of `b` and the register keeps the value of `a` (true for `||`, false for
/// `&&`). The step changes no register and no heap cell.
pub proof fn law_logical_short_circuit(
    c: CodeState,
    register: Register,
    e: Expression,
    i: Instruction,
    v: VmView,
    w: VmView,
    natives: Seq<usize>,
    res: EngineResult<VmState>,
    left_value: bool,
)
    requires
        e matches Expression::Binary(n) && n.op is Logical,
        instr_view(i) == compile_expr(c, register, e).block.last(),
        fetch(v.frame, v.stack).0.1 < fetch(v.frame, v.stack).0.0.len(),
        fetch(v.frame, v.stack).0.0[fetch(v.frame, v.stack).0.1 as int] == i,
        v.regs[register as int] == Value::Bool(left_value),
        step_spec(v, w, natives, res),
    ensures
        res matches Ok(VmState::Continue),
        w.regs == v.regs,
        w.heap == v.heap,
        ({
            let n = e->Binary_0;
            let runs_right = if n.op == BinaryOperator::Logical(BinaryLogicalOperator::Or) {
                !left_value
            } else {
                left_value
            };
            &&& runs_right ==> w.frame.1 == 0 && code_view(w.frame.0) == compile_expr(
                new_seq(compile_expr(c, register, *n.left)),
                register,
                *n.right,
            ).block
            &&& !runs_right ==> w.frame.0.len() == 0
        }),
{
    let n = e->Binary_0;
    let m = compile_expr(c, register, *n.left);
    let m2 = compile_expr(new_seq(m), register, *n.right);
    match i {
        Instruction::If(r, a, b) => {
            lemma_code_view_len(a@);
            lemma_code_view_len(b@);
        },
        _ => {
            assert(false);
        },
    }
}

/// Value equality behaves as an equality on the values it compares. Every value equals
/// itself, except an uninitialized value, a `return` wrapper and a NaN number. It is
/// symmetric and transitive. Null, a boolean, an object, an array, a function, an error,
/// `break` and `continue` equal only themselves. Numbers are equal when they have the same
/// bits and are not NaN, or when both are zero (+0 and -0); strings when their texts are.
pub proof fn law_value_eq_equivalence(a: Value, b: Value, x: Value, heap: Seq<CellView>)
    ensures
        !(a is Uninitialized) && !(a is Return) && !(a matches Value::Num(bits) && is_nan_bits(bits))
            ==> value_eq_spec(a, a, heap),
        value_eq_spec(a, b, heap) == value_eq_spec(b, a, heap),
        value_eq_spec(a, b, heap) && value_eq_spec(b, x, heap) ==> value_eq_spec(a, x, heap),
        value_eq_spec(a, b, heap) && !(a is Num) && !(a is Str) ==> a == b,
        match (a, b) {
            (Value::Num(p), Value::Num(q)) => value_eq_spec(a, b, heap) == (!is_nan_bits(p)
                && !is_nan_bits(q) && (p == q || (is_zero_bits(p) && is_zero_bits(q)))),
            (Value::Str(p), Value::Str(q)) => value_eq_spec(a, b, heap) == (str_of(heap, p as int)
                == str_of(heap, q as int)),
            _ => true,
        },
{
}

/// The simple types are named as the machine names the types of its values. The name of
/// the type of a null, a boolean, a number or a string is the name of the simple type of
/// that value, and reading that name gives that simple type. The names are the text of
/// the machine's type names, one code unit per character.
pub proof fn law_simple_type_names_match_values(v: Value)
    requires
        v is Null || v is Bool || v is Num || v is Str,
    ensures
        ({
            let t = match v {
                Value::Null => TSimple::Null,
                Value::Bool(_) => TSimple::Bool,
                Value::Num(_) => TSimple::Num,
                _ => TSimple::Str,
            };
            &&& TSimple::for_name_spec(v.type_units()) == Some(t)
            &&& t.name_spec() == v.type_units()
        }),
        utf16_decode_lossy(v.type_units()) == v.type_text(),
{
    reveal_strlit("null");
    reveal_strlit("bool");
    reveal_strlit("num");
    reveal_strlit("str");
    let u = v.type_units();
    reveal_with_fuel(utf16_decode_lossy, 5);
    assert(utf16_decode_lossy(u) =~= v.type_text());
}

/// The parser reads each operator token as the operator written that way, at that
/// operator's precedence. When a token stands for an operator at some level, the
/// operator's symbol is the token's text (so `<` is read as less-than and `>` as
/// greater-than), and the level is the operator's precedence.
pub proof fn law_operator_matches_token(level: u8, kind: TokenKind)
    ensures
        level_operator(level, kind) matches Some(o) ==> o.symbol() == kind.operator_text()
            && level == o.precedence(),
{
}

/// Reading a type name gives a simple type only for that type's own name, and the names
/// of the simple types are "null", "bool", "num", "str", "any" and "void".
pub proof fn law_simple_type_names(name: Seq<u16>, t: TSimple)
    ensures
        TSimple::for_name_spec(name) == Some(t) ==> t.name_spec() == name,
        utf16_decode_lossy(t.name_spec()) == match t {
            TSimple::Null => "null"@,
            TSimple::Bool => "bool"@,
            TSimple::Num => "num"@,
            TSimple::Str => "str"@,
            TSimple::Any => "any"@,
            TSimple::Void => "void"@,
        },
{
    reveal_strlit("null");
    reveal_strlit("bool");
    reveal_strlit("num");
    reveal_strlit("str");
    reveal_strlit("any");
    reveal_strlit("void");
    reveal_with_fuel(utf16_decode_lossy, 5);
    assert(utf16_decode_lossy(t.name_spec()) =~= match t {
        TSimple::Null => "null"@,
        TSimple::Bool => "bool"@,
        TSimple::Num => "num"@,
        TSimple::Str => "str"@,
        TSimple::Any => "any"@,
        TSimple::Void => "void"@,
    });
}

} // verus!
