use vstd::prelude::*;

use super::object::{has_key, keys_unique, obj_entries, obj_map_get, obj_map_insert, obj_map_new};
use super::values::{CellView, FnIndex, HeapCell, VFn, VObj, Value};
use crate::common::error::{AiScriptBasicError, AiScriptBasicErrorKind, EngineResult};
use crate::common::string::{decimal, decimal_text, Utf16String};
use crate::ir::ir::{code_wf, data_str, instr_wf, DataItem, Instruction, Ir, Register, UserFn, ir_wf, lemma_code_wf_index};

verus! {

/// A place in a sequence of instructions.
pub type Frame = (Seq<Instruction>, nat);

/// The arithmetic that the machine asks its host to perform.
#[derive(Clone, Copy, Debug, PartialEq, Eq, Structural)]
pub enum ArithOp {
    Add,
    Sub,
}

/// What a step of the machine ended with.
#[derive(Debug)]
pub enum VmState {
    /// Nothing is left to run.
    Exit,
    /// An instruction ran; more may follow.
    Continue,
    /// The machine needs the sum or difference of two numbers, given by their IEEE-754 bits;
    /// give it with [`Vm::resume_number`].
    AwaitArith { op: ArithOp, left: u64, right: u64 },
    /// The machine needs the index that a number (IEEE-754 bits) stands for; give it with
    /// [`Vm::resume_index`].
    AwaitIndex { number: u64 },
    /// The machine needs the result of a native function; give it with [`Vm::resume_call`].
    AwaitCall { function: usize, args: Vec<Value>, capture: Vec<Value> },
}

/// The work that the machine waits for.
#[derive(Clone, Copy, Debug, PartialEq, Eq, Structural)]
pub enum Pending {
    Arith { dest: Register },
    Load { dest: Register, arr: usize },
    Store { src: Register, arr: usize },
    Call { dest: Register },
}

/// The state of the machine, as the contracts see it.
pub ghost struct VmView {
    /// Where the machine is: the instructions it runs and the place of the next one.
    pub frame: Frame,
    /// The places to go back to, innermost last.
    pub stack: Seq<Frame>,
    pub regs: Seq<Value>,
    pub heap: Seq<CellView>,
    pub pending: Option<Pending>,
}

/// The text of a type error.
pub open spec fn expect_message(expected: Seq<char>, got: Value) -> Seq<char> {
    "Expect "@ + expected + ", but got "@ + got.type_text() + "."@
}

/// The text of an index error.
pub open spec fn index_message(index_text: Seq<char>, max: nat) -> Seq<char> {
    "Index out of range. index: "@ + index_text + " max: "@ + decimal(max)
}

/// Whether `r` is the runtime error with the given message.
pub open spec fn is_runtime_error(r: EngineResult<VmState>, message: Seq<char>) -> bool {
    r matches Err(e) && e.kind == AiScriptBasicErrorKind::Runtime && e.message@ == message
        && e.pos is None
}

/// The frame and stack once the machine has moved past a finished frame.
pub open spec fn fetch(frame: Frame, stack: Seq<Frame>) -> (Frame, Seq<Frame>) {
    if frame.1 < frame.0.len() {
        (frame, stack)
    } else if stack.len() > 0 {
        (stack.last(), stack.drop_last())
    } else {
        (frame, stack)
    }
}

/// The frame moved on by one instruction.
pub open spec fn advance(frame: Frame) -> Frame {
    (frame.0, frame.1 + 1)
}

/// The value of the entry with key `key`, or null.
pub open spec fn lookup(entries: Seq<(Seq<u16>, Value)>, key: Seq<u16>) -> Value {
    if has_key(entries, key) {
        entries[choose|i: int| 0 <= i < entries.len() && #[trigger] entries[i].0 == key].1
    } else {
        Value::Null
    }
}

/// The entries with `key` set to `value`: in place if the key is present, else last.
pub open spec fn insert_entry(entries: Seq<(Seq<u16>, Value)>, key: Seq<u16>, value: Value) -> Seq<
    (Seq<u16>, Value),
> {
    if has_key(entries, key) {
        entries.update(
            choose|i: int| 0 <= i < entries.len() && #[trigger] entries[i].0 == key,
            (key, value),
        )
    } else {
        entries.push((key, value))
    }
}

/// The string of heap cell `h`, or nothing if it is not a string.
pub open spec fn str_of(heap: Seq<CellView>, h: int) -> Seq<u16> {
    match heap[h] {
        CellView::Str(s) => s,
        _ => Seq::empty(),
    }
}

/// The elements of heap cell `h`, or nothing if it is not an array.
pub open spec fn arr_of(heap: Seq<CellView>, h: int) -> Seq<Value> {
    match heap[h] {
        CellView::Arr(v) => v,
        _ => Seq::empty(),
    }
}

/// The entries of heap cell `h`, or nothing if it is not an object.
pub open spec fn obj_of(heap: Seq<CellView>, h: int) -> Seq<(Seq<u16>, Value)> {
    match heap[h] {
        CellView::Obj(e) => e,
        _ => Seq::empty(),
    }
}

/// Whether running `i` from `v` would reach an unfinished path of the machine
/// (an array access on a non-array through a register index, a call of a user function)
/// or name the type of an uninitialized register in an error message, or report the
/// last index of an empty array.
pub open spec fn instr_panics(i: Instruction, v: VmView) -> bool {
    let regs = v.regs;
    match i {
        Instruction::If(c, _, _) => regs[c as int] is Uninitialized,
        Instruction::Add(_, l, r) => regs[l as int] is Uninitialized || (regs[l as int] is Num
            && regs[r as int] is Uninitialized),
        Instruction::Sub(_, l, r) => regs[l as int] is Uninitialized || (regs[l as int] is Num
            && regs[r as int] is Uninitialized),
        Instruction::Not(_, s) => regs[s as int] is Uninitialized,
        Instruction::Load(_, t, x) => !(regs[t as int] is Arr) || regs[x as int] is Uninitialized,
        Instruction::Store(_, t, x) => !(regs[t as int] is Arr) || regs[x as int] is Uninitialized,
        Instruction::LoadIndex(_, t, k) => regs[t as int] is Uninitialized || (regs[t as int] matches Value::Arr(h) && k >= arr_of(v.heap, h as int).len() && arr_of(v.heap, h as int).len() == 0),
        Instruction::StoreIndex(_, t, k) => regs[t as int] is Uninitialized || (regs[t as int] matches Value::Arr(h) && k >= arr_of(v.heap, h as int).len() && arr_of(v.heap, h as int).len() == 0),
        Instruction::LoadProp(_, t, _) => regs[t as int] is Uninitialized,
        Instruction::StoreProp(_, t, _) => regs[t as int] is Uninitialized,
        Instruction::Call(_, f, a) => regs[f as int] is Uninitialized || (regs[f as int] is Fn
            && regs[a as int] is Uninitialized),
        _ => false,
    }
}

/// Whether the next step from `v` would panic (see [`instr_panics`]).
pub open spec fn step_panics(v: VmView) -> bool {
    let (f, st) = fetch(v.frame, v.stack);
    f.1 < f.0.len() && instr_panics(f.0[f.1 as int], v)
}

/// The view with frame, stack, registers and heap replaced and nothing pending.
pub open spec fn moved(v: VmView, frame: Frame, stack: Seq<Frame>, regs: Seq<Value>, heap: Seq<CellView>) -> VmView {
    VmView { frame, stack, regs, heap, pending: None }
}

/// The register an instruction writes its result to, if it writes one (the stores write
/// into an array or an object, not a register).
pub open spec fn written_register(i: Instruction) -> Option<Register> {
    match i {
        Instruction::Null(x) | Instruction::Num(x, _) | Instruction::Bool(x, _)
        | Instruction::Data(x, _) | Instruction::Arr(x, _) | Instruction::Obj(x, _)
        | Instruction::NativeFn(x, _) | Instruction::Move(x, _) | Instruction::Add(x, _, _)
        | Instruction::Sub(x, _, _) | Instruction::Not(x, _) | Instruction::Load(x, _, _)
        | Instruction::LoadIndex(x, _, _) | Instruction::LoadProp(x, _, _)
        | Instruction::Call(x, _, _) => Some(x),
        _ => None,
    }
}

/// What one step does: from `v` the machine goes to `w` with result `r`.
pub open spec fn step_spec(v: VmView, w: VmView, natives: Seq<usize>, r: EngineResult<VmState>) -> bool {
    let (f, st) = fetch(v.frame, v.stack);
    let regs = v.regs;
    let heap = v.heap;
    if f.1 >= f.0.len() {
        r matches Ok(VmState::Exit) && w == moved(v, f, st, regs, heap)
    } else {
        let next = advance(f);
        let stay = moved(v, f, st, regs, heap);
        match f.0[f.1 as int] {
            Instruction::Nop => r matches Ok(VmState::Continue) && w == moved(v, next, st, regs, heap),
            Instruction::Panic(e) => r matches Err(e2) && e2.kind == e.kind && e2.message@ == e.message@
                && e2.pos == e.pos && w == stay,
            Instruction::If(c, a, b) => match regs[c as int] {
                Value::Bool(t) => r matches Ok(VmState::Continue) && w == moved(
                    v,
                    (if t { a@ } else { b@ }, 0),
                    st.push(next),
                    regs,
                    heap,
                ),
                other => is_runtime_error(r, expect_message("bool"@, other)) && w == stay,
            },
            Instruction::Null(x) => r matches Ok(VmState::Continue) && w == moved(v, next, st, regs.update(x as int, Value::Null), heap),
            Instruction::Num(x, n) => r matches Ok(VmState::Continue) && w == moved(v, next, st, regs.update(x as int, Value::Num(n)), heap),
            Instruction::Bool(x, b) => r matches Ok(VmState::Continue) && w == moved(v, next, st, regs.update(x as int, Value::Bool(b)), heap),
            Instruction::Data(x, d) => r matches Ok(VmState::Continue) && w == moved(v, next, st, regs.update(x as int, Value::Str(d)), heap),
            Instruction::Arr(x, n) => r matches Ok(VmState::Continue) && w == moved(
                v,
                next,
                st,
                regs.update(x as int, Value::Arr(heap.len() as usize)),
                heap.push(CellView::Arr(Seq::new(n as nat, |k: int| Value::Uninitialized))),
            ),
            Instruction::Obj(x, n) => r matches Ok(VmState::Continue) && w == moved(
                v,
                next,
                st,
                regs.update(x as int, Value::Obj(heap.len() as usize)),
                heap.push(CellView::Obj(Seq::empty())),
            ),
            Instruction::NativeFn(x, n) => r matches Ok(VmState::Continue) && w == moved(
                v,
                next,
                st,
                regs.update(x as int, Value::Fn(heap.len() as usize)),
                heap.push(CellView::Fn(FnIndex::Native(n), Seq::empty())),
            ),
            Instruction::Move(x, y) => r matches Ok(VmState::Continue) && w == moved(v, next, st, regs.update(x as int, regs[y as int]), heap),
            Instruction::Add(x, y, z) => arith_spec(v, w, r, f, st, ArithOp::Add, x, y, z),
            Instruction::Sub(x, y, z) => arith_spec(v, w, r, f, st, ArithOp::Sub, x, y, z),
            Instruction::Not(x, y) => match regs[y as int] {
                Value::Bool(t) => r matches Ok(VmState::Continue) && w == moved(v, next, st, regs.update(x as int, Value::Bool(!t)), heap),
                other => is_runtime_error(r, expect_message("bool"@, other)) && w == stay,
            },
            Instruction::Load(x, t, i) => match regs[i as int] {
                Value::Num(bits) => r matches Ok(VmState::AwaitIndex { number }) && number == bits
                    && w == VmView { pending: Some(Pending::Load { dest: x, arr: regs[t as int]->Arr_0 }), ..stay },
                other => is_runtime_error(r, expect_message("number"@, other)) && w == stay,
            },
            Instruction::Store(s, t, i) => match regs[i as int] {
                Value::Num(bits) => r matches Ok(VmState::AwaitIndex { number }) && number == bits
                    && w == VmView { pending: Some(Pending::Store { src: s, arr: regs[t as int]->Arr_0 }), ..stay },
                other => is_runtime_error(r, expect_message("number"@, other)) && w == stay,
            },
            Instruction::LoadIndex(x, t, k) => match regs[t as int] {
                Value::Arr(h) => {
                    let arr = arr_of(heap, h as int);
                    if k < arr.len() {
                        r matches Ok(VmState::Continue) && w == moved(v, next, st, regs.update(x as int, arr[k as int]), heap)
                    } else {
                        is_runtime_error(r, index_message(decimal(k as nat), (arr.len() - 1) as nat)) && w == stay
                    }
                },
                other => is_runtime_error(r, expect_message("array"@, other)) && w == stay,
            },
            Instruction::StoreIndex(s, t, k) => match regs[t as int] {
                Value::Arr(h) => {
                    let arr = arr_of(heap, h as int);
                    if k < arr.len() {
                        r matches Ok(VmState::Continue) && w == moved(v, next, st, regs, heap.update(h as int, CellView::Arr(arr.update(k as int, regs[s as int]))))
                    } else {
                        is_runtime_error(r, index_message(decimal(k as nat), (arr.len() - 1) as nat)) && w == stay
                    }
                },
                other => is_runtime_error(r, expect_message("array"@, other)) && w == stay,
            },
            Instruction::LoadProp(x, t, d) => match regs[t as int] {
                Value::Obj(h) => r matches Ok(VmState::Continue) && w == moved(v, next, st, regs.update(x as int, lookup(obj_of(heap, h as int), str_of(heap, d as int))), heap),
                other => is_runtime_error(r, expect_message("object"@, other)) && w == stay,
            },
            Instruction::StoreProp(s, t, d) => match regs[t as int] {
                Value::Obj(h) => r matches Ok(VmState::Continue) && w == moved(v, next, st, regs, heap.update(h as int, CellView::Obj(insert_entry(obj_of(heap, h as int), str_of(heap, d as int), regs[s as int])))),
                other => is_runtime_error(r, expect_message("object"@, other)) && w == stay,
            },
            Instruction::Call(x, fr, a) => match regs[fr as int] {
                Value::Fn(h) => match regs[a as int] {
                    Value::Arr(ha) => match heap[h as int] {
                        CellView::Fn(FnIndex::Native(n), capture) => r matches Ok(VmState::AwaitCall { function, args, capture: cap })
                            && function == natives[n as int] && args@ == arr_of(heap, ha as int) && cap@ == capture
                            && w == VmView { pending: Some(Pending::Call { dest: x }), ..stay },
                        _ => false,
                    },
                    other => is_runtime_error(r, expect_message("array"@, other)) && w == stay,
                },
                other => is_runtime_error(r, expect_message("function"@, other)) && w == stay,
            },
        }
    }
}

/// What a step does on an addition or a subtraction.
pub open spec fn arith_spec(v: VmView, w: VmView, r: EngineResult<VmState>, f: Frame, st: Seq<Frame>, op: ArithOp, x: Register, y: Register, z: Register) -> bool {
    let stay = moved(v, f, st, v.regs, v.heap);
    match v.regs[y as int] {
        Value::Num(left) => match v.regs[z as int] {
            Value::Num(right) => r matches Ok(VmState::AwaitArith { op: o, left: l, right: rr })
                && o == op && l == left && rr == right
                && w == VmView { pending: Some(Pending::Arith { dest: x }), ..stay },
            other => is_runtime_error(r, expect_message("number"@, other)) && w == stay,
        },
        other => is_runtime_error(r, expect_message("number"@, other)) && w == stay,
    }
}


/// The size of an instruction: one, plus the sizes of the code of an `If`.
pub open spec fn instr_size(i: Instruction) -> nat
    decreases i,
{
    match i {
        Instruction::If(_, a, b) => 1 + code_size(a@) + code_size(b@),
        _ => 1,
    }
}

/// The total size of the instructions of `code`.
pub open spec fn code_size(code: Seq<Instruction>) -> nat
    decreases code,
{
    if code.len() == 0 {
        0
    } else {
        instr_size(code[0]) + code_size(code.skip(1))
    }
}

/// The size of what is left to run in a frame.
pub open spec fn frame_size(f: Frame) -> nat {
    code_size(f.0.skip(f.1 as int))
}

/// The size of what is left to run in the frames of a stack.
pub open spec fn stack_size(st: Seq<Frame>) -> nat
    decreases st.len(),
{
    if st.len() == 0 {
        0
    } else {
        stack_size(st.drop_last()) + frame_size(st.last())
    }
}

/// The work left to the machine: it falls at every step that continues.
pub open spec fn measure(v: VmView) -> nat {
    frame_size(v.frame) + stack_size(v.stack)
}

/// Whether a value's handle, if any, names a heap cell of the right kind.
pub open spec fn value_ok(v: Value, heap: Seq<CellView>) -> bool
    decreases v,
{
    match v {
        Value::Str(h) => h < heap.len() && heap[h as int] is Str,
        Value::Obj(h) => h < heap.len() && heap[h as int] is Obj,
        Value::Arr(h) => h < heap.len() && heap[h as int] is Arr,
        Value::Fn(h) => h < heap.len() && heap[h as int] is Fn,
        Value::Error(h) => h < heap.len() && heap[h as int] is Error,
        Value::Return(b) => value_ok(*b, heap),
        _ => true,
    }
}

/// Whether every value of `vs` is well formed.
pub open spec fn values_ok(vs: Seq<Value>, heap: Seq<CellView>) -> bool {
    forall|i: int| 0 <= i < vs.len() ==> value_ok(#[trigger] vs[i], heap)
}

/// Whether every value of the entries is well formed.
pub open spec fn entries_ok(es: Seq<(Seq<u16>, Value)>, heap: Seq<CellView>) -> bool {
    forall|i: int| 0 <= i < es.len() ==> value_ok((#[trigger] es[i]).1, heap)
}

/// Whether the contents of a heap cell are well formed.
pub open spec fn cell_ok(c: CellView, heap: Seq<CellView>, natives: nat) -> bool {
    match c {
        CellView::Str(_) => true,
        CellView::Arr(vs) => values_ok(vs, heap),
        CellView::Obj(es) => entries_ok(es, heap) && keys_unique(es),
        CellView::Fn(FnIndex::Native(n), cap) => n < natives && values_ok(cap, heap),
        CellView::Fn(FnIndex::User(_), _) => false,
        CellView::Error(_, info) => match info {
            Some(i) => value_ok(i, heap),
            None => true,
        },
    }
}

/// Whether two cells are of the same kind.
pub open spec fn same_kind(a: CellView, b: CellView) -> bool {
    (a is Str <==> b is Str) && (a is Arr <==> b is Arr) && (a is Obj <==> b is Obj) && (a is Fn
        <==> b is Fn) && (a is Error <==> b is Error)
}

/// Whether `h2` keeps every cell of `h1` at its place with its kind.
pub open spec fn kinds_kept(h1: Seq<CellView>, h2: Seq<CellView>) -> bool {
    h1.len() <= h2.len() && forall|i: int| 0 <= i < h1.len() ==> same_kind(#[trigger] h1[i], h2[i])
}

/// A well-formed value stays well formed when the heap keeps its kinds.
pub proof fn lemma_value_ok_kept(v: Value, h1: Seq<CellView>, h2: Seq<CellView>)
    requires
        value_ok(v, h1),
        kinds_kept(h1, h2),
    ensures
        value_ok(v, h2),
    decreases v,
{
    match v {
        Value::Return(b) => lemma_value_ok_kept(*b, h1, h2),
        Value::Str(h) => assert(same_kind(h1[h as int], h2[h as int])),
        Value::Obj(h) => assert(same_kind(h1[h as int], h2[h as int])),
        Value::Arr(h) => assert(same_kind(h1[h as int], h2[h as int])),
        Value::Fn(h) => assert(same_kind(h1[h as int], h2[h as int])),
        Value::Error(h) => assert(same_kind(h1[h as int], h2[h as int])),
        _ => {},
    }
}

/// A well-formed cell stays well formed when the heap keeps its kinds.
pub proof fn lemma_cell_ok_kept(c: CellView, h1: Seq<CellView>, h2: Seq<CellView>, natives: nat)
    requires
        cell_ok(c, h1, natives),
        kinds_kept(h1, h2),
    ensures
        cell_ok(c, h2, natives),
{
    match c {
        CellView::Arr(vs) => {
            assert forall|i: int| 0 <= i < vs.len() implies value_ok(#[trigger] vs[i], h2) by {
                lemma_value_ok_kept(vs[i], h1, h2);
            }
        },
        CellView::Obj(es) => {
            assert forall|i: int| 0 <= i < es.len() implies value_ok((#[trigger] es[i]).1, h2) by {
                lemma_value_ok_kept(es[i].1, h1, h2);
            }
        },
        CellView::Fn(_, cap) => {
            assert forall|i: int| 0 <= i < cap.len() implies value_ok(#[trigger] cap[i], h2) by {
                lemma_value_ok_kept(cap[i], h1, h2);
            }
        },
        CellView::Error(_, info) => {
            if let Some(i) = info {
                lemma_value_ok_kept(i, h1, h2);
            }
        },
        CellView::Str(_) => {},
    }
}

/// Whether the heap is well formed: data strings first, and every cell well formed.
pub open spec fn heap_ok(heap: Seq<CellView>, data_len: nat, natives: nat) -> bool {
    &&& data_len <= heap.len()
    &&& forall|i: int| 0 <= i < data_len ==> (#[trigger] heap[i]) is Str
    &&& forall|i: int| 0 <= i < heap.len() ==> cell_ok(#[trigger] heap[i], heap, natives)
}

/// Whether a frame runs well-formed code and its place is within it.
pub open spec fn frame_ok(f: Frame, regs: nat, data: nat, natives: nat) -> bool {
    f.1 <= f.0.len() && code_wf(f.0, regs, data, natives)
}

/// Whether what the machine waits for fits its state.
pub open spec fn pending_ok(p: Option<Pending>, v: VmView) -> bool {
    match p {
        None => true,
        Some(Pending::Arith { dest }) => dest < v.regs.len() && v.frame.1 < v.frame.0.len(),
        Some(Pending::Call { dest }) => dest < v.regs.len() && v.frame.1 < v.frame.0.len(),
        Some(Pending::Load { dest, arr }) => dest < v.regs.len() && arr < v.heap.len()
            && v.heap[arr as int] is Arr && v.frame.1 < v.frame.0.len(),
        Some(Pending::Store { src, arr }) => src < v.regs.len() && arr < v.heap.len()
            && v.heap[arr as int] is Arr && v.frame.1 < v.frame.0.len(),
    }
}

/// Whether a state of the machine is well formed.
pub open spec fn view_ok(v: VmView, data_len: nat, natives: nat) -> bool {
    &&& frame_ok(v.frame, v.regs.len(), data_len, natives)
    &&& forall|i: int| 0 <= i < v.stack.len() ==> frame_ok(#[trigger] v.stack[i], v.regs.len(), data_len, natives)
    &&& heap_ok(v.heap, data_len, natives)
    &&& values_ok(v.regs, v.heap)
    &&& pending_ok(v.pending, v)
}

/// Whether running from `v` for up to `fuel` steps never reaches a step that panics.
pub open spec fn runs_safely(v: VmView, natives: Seq<usize>, fuel: nat) -> bool
    decreases fuel,
{
    fuel == 0 || (!step_panics(v) && forall|w: VmView, r: EngineResult<VmState>|
        #[trigger] step_spec(v, w, natives, r) && r is Ok && r->Ok_0 is Continue ==> runs_safely(
            w,
            natives,
            (fuel - 1) as nat,
        ))
}

/// A place in the code being run.
#[derive(Clone, Copy)]
struct ProgramCounter<'ir> {
    instructions: &'ir [Instruction],
    index: usize,
}

/// The virtual machine: registers, a heap, and a stack of places in the code.
pub struct Vm<'ir> {
    native_functions: &'ir [usize],
    user_functions: &'ir [UserFn],
    data_len: usize,
    heap: Vec<HeapCell>,
    pc: ProgramCounter<'ir>,
    pc_stack: Vec<ProgramCounter<'ir>>,
    registers: Vec<Value>,
    pending: Option<Pending>,
}

impl<'ir> View for Vm<'ir> {
    type V = VmView;

    closed spec fn view(&self) -> VmView {
        VmView {
            frame: (self.pc.instructions@, self.pc.index as nat),
            stack: self.pc_stack@.map_values(|p: ProgramCounter<'ir>| (p.instructions@, p.index as nat)),
            regs: self.registers@,
            heap: self.heap@.map_values(|c: HeapCell| c@),
            pending: self.pending,
        }
    }
}

/// The error for a value of the wrong type.
pub(crate) fn type_error(expected: &str, got: &Value) -> (r: AiScriptBasicError)
    requires
        !(*got is Uninitialized),
    ensures
        r.kind == AiScriptBasicErrorKind::Runtime,
        r.message@ == expect_message(expected@, *got),
        r.pos is None,
{
    let mut message = "Expect ".to_owned();
    message.append(expected);
    message.append(", but got ");
    message.append(got.type_text_of());
    message.append(".");
    AiScriptBasicError::new(AiScriptBasicErrorKind::Runtime, message, None)
}

/// The text of an index error.
fn index_error_text(index_text: &str, max: usize) -> (r: String)
    ensures
        r@ == index_message(index_text@, max as nat),
{
    let mut message = "Index out of range. index: ".to_owned();
    message.append(index_text);
    message.append(" max: ");
    let digits = decimal_text(max);
    message.append(digits.as_str());
    message
}

/// The error for an index out of range.
fn index_error(index_text: &str, len: usize) -> (r: AiScriptBasicError)
    requires
        len > 0,
    ensures
        r.kind == AiScriptBasicErrorKind::Runtime,
        r.message@ == index_message(index_text@, (len - 1) as nat),
        r.pos is None,
{
    AiScriptBasicError::new(AiScriptBasicErrorKind::Runtime, index_error_text(index_text, len - 1), None)
}


/// The heap of a machine just made for a program: the data strings.
pub open spec fn initial_heap(data: Seq<DataItem>) -> Seq<CellView> {
    Seq::new(data.len(), |i: int| CellView::Str(data_str(data[i])))
}

/// A copy of the given values.
fn copy_values(vs: &Vec<Value>) -> (r: Vec<Value>)
    ensures
        r@ == vs@,
{
    let mut r: Vec<Value> = Vec::new();
    let mut i: usize = 0;
    while i < vs.len()
        invariant
            i <= vs@.len(),
            r@ == vs@.take(i as int),
        decreases vs@.len() - i,
    {
        r.push(vs[i].copy());
        i = i + 1;
        assert(r@ =~= vs@.take(i as int));
    }
    assert(vs@.take(vs@.len() as int) =~= vs@);
    r
}

impl<'ir> Vm<'ir> {
    /// Whether the machine is well formed.
    pub closed spec fn wf(&self) -> bool {
        view_ok(self@, self.data_len as nat, self.native_functions@.len())
    }

    /// A well-formed machine has a well-formed view, for the program's data and natives.
    pub proof fn lemma_wf_view_ok(&self)
        requires
            self.wf(),
        ensures
            view_ok(self@, self.data_len(), self.natives().len()),
    {
    }

    /// The native function handles of the program.
    pub closed spec fn natives(&self) -> Seq<usize> {
        self.native_functions@
    }

    /// The number of data items of the program.
    pub closed spec fn data_len(&self) -> nat {
        self.data_len as nat
    }

    /// Whether two machines run the same program.
    pub closed spec fn same_program(&self, other: &Vm<'ir>) -> bool {
        &&& self.native_functions@ == other.native_functions@
        &&& self.user_functions@ == other.user_functions@
        &&& self.data_len == other.data_len
    }

    /// A machine that will run the entry point of `ir`, its registers uninitialized and its
    /// heap holding the data strings.
    pub fn new(ir: &'ir Ir) -> (r: Vm<'ir>)
        requires
            ir_wf(*ir),
        ensures
            r.wf(),
            r.natives() == ir.native_functions@,
            r.data_len() == ir.data@.len(),
            r@ == (VmView {
                frame: (ir.user_functions@[ir.entry_point as int].instructions@, 0),
                stack: Seq::empty(),
                regs: Seq::new(
                    ir.user_functions@[ir.entry_point as int].register_length as nat,
                    |i: int| Value::Uninitialized,
                ),
                heap: initial_heap(ir.data@),
                pending: None,
            }),
    {
        let entry_point = &ir.user_functions[ir.entry_point];
        let register_length = entry_point.register_length;
        let mut heap: Vec<HeapCell> = Vec::new();
        let mut i: usize = 0;
        while i < ir.data.len()
            invariant
                i <= ir.data@.len(),
                heap@.map_values(|c: HeapCell| c@) =~= initial_heap(ir.data@).take(i as int),
            decreases ir.data@.len() - i,
        {
            let ghost before = heap@.map_values(|c: HeapCell| c@);
            let item = &ir.data[i];
            match item {
                DataItem::Str(s) => {
                    let cell = HeapCell::Str(s.copy());
                    assert(cell@ == CellView::Str(data_str(*item)));
                    heap.push(cell);
                    assert(heap@.map_values(|c: HeapCell| c@) =~= before.push(cell@));
                },
            }
            i = i + 1;
            assert(heap@.map_values(|c: HeapCell| c@) =~= initial_heap(ir.data@).take(i as int));
        }
        let mut registers: Vec<Value> = Vec::new();
        let mut j: usize = 0;
        while j < register_length
            invariant
                j <= register_length,
                registers@ =~= Seq::new(j as nat, |k: int| Value::Uninitialized),
            decreases register_length - j,
        {
            registers.push(Value::Uninitialized);
            j = j + 1;
            assert(registers@ =~= Seq::new(j as nat, |k: int| Value::Uninitialized));
        }
        let vm = Vm {
            native_functions: ir.native_functions.as_slice(),
            user_functions: ir.user_functions.as_slice(),
            data_len: ir.data.len(),
            heap,
            pc: ProgramCounter { instructions: entry_point.instructions.as_slice(), index: 0 },
            pc_stack: Vec::new(),
            registers,
            pending: None,
        };
        proof {
            let v = vm@;
            assert(v.heap =~= initial_heap(ir.data@));
            assert(v.stack =~= Seq::<Frame>::empty());
            assert(code_wf(v.frame.0, v.regs.len(), ir.data@.len(), ir.native_functions@.len()));
        }
        vm
    }

    /// The registers.
    pub fn registers(&self) -> (r: &[Value])
        ensures
            r@ == self@.regs,
    {
        self.registers.as_slice()
    }

    /// The heap cell with handle `h`.
    pub fn cell(&self, h: usize) -> (r: &HeapCell)
        requires
            h < self@.heap.len(),
        ensures
            r@ == self@.heap[h as int],
    {
        &self.heap[h]
    }

    /// Puts a string in the heap, for a value that the host hands back.
    pub fn alloc_str(&mut self, s: Utf16String) -> (r: Value)
        requires
            old(self).wf(),
        ensures
            final(self).wf(),
            final(self).same_program(old(self)),
            r == Value::Str(old(self)@.heap.len() as usize),
            final(self)@ == (VmView { heap: old(self)@.heap.push(CellView::Str(s@)), ..old(self)@ }),
    {
        let h = self.allocate(HeapCell::Str(s));
        Value::Str(h)
    }

    /// Adds a cell to the heap and gives its handle.
    fn allocate(&mut self, cell: HeapCell) -> (r: usize)
        requires
            old(self).wf(),
            cell_ok(cell@, old(self)@.heap.push(cell@), old(self).natives().len()),
        ensures
            final(self).wf(),
            final(self).same_program(old(self)),
            r == old(self)@.heap.len(),
            final(self)@ == (VmView { heap: old(self)@.heap.push(cell@), ..old(self)@ }),
    {
        let ghost v = self@;
        let ghost nn = self.native_functions@.len();
        let h = self.heap.len();
        self.heap.push(cell);
        proof {
            let heap2 = v.heap.push(cell@);
            assert(self@.heap =~= heap2);
            assert(kinds_kept(v.heap, heap2));
            assert forall|i: int| 0 <= i < heap2.len() implies cell_ok(#[trigger] heap2[i], heap2, nn) by {
                if i < v.heap.len() {
                    lemma_cell_ok_kept(v.heap[i], v.heap, heap2, nn);
                }
            }
            assert forall|i: int| 0 <= i < v.regs.len() implies value_ok(#[trigger] v.regs[i], heap2) by {
                lemma_value_ok_kept(v.regs[i], v.heap, heap2);
            }
            assert(self@ == (VmView { heap: heap2, ..v }));
        }
        h
    }

    /// Writes register `x`.
    fn set_register(&mut self, x: Register, value: Value)
        requires
            old(self).wf(),
            x < old(self)@.regs.len(),
            value_ok(value, old(self)@.heap),
        ensures
            final(self).wf(),
            final(self).same_program(old(self)),
            final(self)@ == (VmView { regs: old(self)@.regs.update(x as int, value), ..old(self)@ }),
    {
        let ghost v = self@;
        self.registers.set(x, value);
        proof {
            assert(self@ =~= (VmView { regs: v.regs.update(x as int, value), ..v }));
        }
    }

    /// Moves on to the next instruction of the current frame.
    fn advance_pc(&mut self)
        requires
            old(self).wf(),
            old(self)@.frame.1 < old(self)@.frame.0.len(),
            old(self)@.pending is None,
        ensures
            final(self).wf(),
            final(self).same_program(old(self)),
            final(self)@ == (VmView { frame: advance(old(self)@.frame), ..old(self)@ }),
    {
        let n = self.pc.instructions.len();
        assert(self.pc.index < n);
        self.pc.index = self.pc.index + 1;
    }

    /// Records what the machine waits for.
    fn set_pending(&mut self, p: Pending)
        requires
            old(self).wf(),
            pending_ok(Some(p), old(self)@),
        ensures
            final(self).wf(),
            final(self).same_program(old(self)),
            final(self)@ == (VmView { pending: Some(p), ..old(self)@ }),
    {
        self.pending = Some(p);
    }

    /// Moves past a finished frame, back to the frame it was entered from.
    fn fetch(&mut self)
        requires
            old(self).wf(),
            old(self)@.pending is None,
        ensures
            final(self).wf(),
            final(self).same_program(old(self)),
            final(self)@ == moved(
                old(self)@,
                fetch(old(self)@.frame, old(self)@.stack).0,
                fetch(old(self)@.frame, old(self)@.stack).1,
                old(self)@.regs,
                old(self)@.heap,
            ),
    {
        let ghost v = self@;
        if self.pc.index >= self.pc.instructions.len() {
            match self.pc_stack.pop() {
                Some(p) => {
                    self.pc = p;
                    proof {
                        assert(self@.stack =~= v.stack.drop_last());
                        assert(v.stack.last() == self@.frame);
                        assert(frame_ok(v.stack[v.stack.len() - 1], v.regs.len(), self.data_len as nat, self.native_functions@.len()));
                    }
                },
                None => {},
            }
        }
        proof {
            assert(self@ =~= moved(v, fetch(v.frame, v.stack).0, fetch(v.frame, v.stack).1, v.regs, v.heap));
        }
    }
}


/// A finished frame has nothing left to run.
pub proof fn lemma_frame_size_end(f: Frame)
    requires
        f.1 == f.0.len(),
    ensures
        frame_size(f) == 0,
{
    assert(f.0.skip(f.1 as int) =~= Seq::<Instruction>::empty());
}

/// What is left of a frame is its next instruction and what follows it.
pub proof fn lemma_frame_size_step(f: Frame)
    requires
        f.1 < f.0.len(),
    ensures
        frame_size(f) == instr_size(f.0[f.1 as int]) + frame_size(advance(f)),
{
    assert(f.0.skip(f.1 as int).skip(1) =~= f.0.skip((f.1 + 1) as int));
}

/// Moving past a finished frame leaves the work unchanged.
pub proof fn lemma_fetch_measure(v: VmView)
    requires
        v.frame.1 <= v.frame.0.len(),
    ensures
        measure(v) == frame_size(fetch(v.frame, v.stack).0) + stack_size(fetch(v.frame, v.stack).1),
{
    if v.frame.1 >= v.frame.0.len() && v.stack.len() > 0 {
        lemma_frame_size_end(v.frame);
    }
}

/// Pushing a frame adds its work.
pub proof fn lemma_stack_size_push(st: Seq<Frame>, f: Frame)
    ensures
        stack_size(st.push(f)) == stack_size(st) + frame_size(f),
{
    assert(st.push(f).drop_last() =~= st);
}

/// Safety for some number of steps gives safety for fewer.
pub proof fn lemma_runs_safely_mono(v: VmView, natives: Seq<usize>, f1: nat, f2: nat)
    requires
        runs_safely(v, natives, f1),
        f2 <= f1,
    ensures
        runs_safely(v, natives, f2),
    decreases f2,
{
    if f2 > 0 {
        assert forall|w: VmView, r: EngineResult<VmState>|
            #[trigger] step_spec(v, w, natives, r) && r is Ok && r->Ok_0 is Continue implies runs_safely(
            w,
            natives,
            (f2 - 1) as nat,
        ) by {
            lemma_runs_safely_mono(w, natives, (f1 - 1) as nat, (f2 - 1) as nat);
        }
    }
}

/// Whether the machine stands on an instruction with nothing pending.
pub open spec fn ready(v: VmView) -> bool {
    v.pending is None && v.frame.1 < v.frame.0.len()
}

/// The instruction the machine stands on.
pub open spec fn current(v: VmView) -> Instruction {
    v.frame.0[v.frame.1 as int]
}

/// Whether a step from `v` to `w` with result `r` ran the current instruction and, if it
/// continued, lowered the work left.
pub open spec fn ran(v: VmView, w: VmView, natives: Seq<usize>, r: EngineResult<VmState>) -> bool {
    &&& step_spec(v, w, natives, r)
    &&& r matches Ok(VmState::Continue) ==> measure(w) < measure(v)
}

/// A step from a state that stands on an instruction is the step from the state it was
/// fetched from.
pub proof fn lemma_step_spec_fetched(v0: VmView, v: VmView, w: VmView, natives: Seq<usize>, r: EngineResult<VmState>)
    requires
        v0.frame.1 <= v0.frame.0.len(),
        v == moved(v0, fetch(v0.frame, v0.stack).0, fetch(v0.frame, v0.stack).1, v0.regs, v0.heap),
        v.frame.1 < v.frame.0.len(),
    ensures
        step_spec(v0, w, natives, r) == step_spec(v, w, natives, r),
        measure(v0) == measure(v),
        step_panics(v0) == instr_panics(current(v), v),
{
    lemma_fetch_measure(v0);
}

impl<'ir> Vm<'ir> {
    /// Runs one instruction, or reports what the machine waits for, or that it is done.
    pub fn step(&mut self) -> (r: EngineResult<VmState>)
        requires
            old(self).wf(),
            old(self)@.pending is None,
            !step_panics(old(self)@),
        ensures
            final(self).wf(),
            final(self).same_program(old(self)),
            step_spec(old(self)@, final(self)@, old(self).natives(), r),
            r matches Ok(VmState::Continue) ==> measure(final(self)@) < measure(old(self)@),
    {
        let ghost v0 = self@;
        proof {
            lemma_fetch_measure(v0);
        }
        self.fetch();
        if self.pc.index >= self.pc.instructions.len() {
            return Ok(VmState::Exit);
        }
        let code: &'ir [Instruction] = self.pc.instructions;
        let instruction: &'ir Instruction = &code[self.pc.index];
        let ghost v = self@;
        proof {
            lemma_code_wf_index(code@, v.regs.len(), self.data_len as nat, self.native_functions@.len(), self.pc.index as int);
            lemma_step_spec_fetched(v0, v, v, self.native_functions@, Ok(VmState::Exit));
        }
        let r = match instruction {
            Instruction::Arr(..) | Instruction::Obj(..) | Instruction::NativeFn(..) => self.exec_alloc(instruction),
            Instruction::Add(..) | Instruction::Sub(..) | Instruction::Not(..) => self.exec_arith(instruction),
            Instruction::Load(..) | Instruction::Store(..) | Instruction::LoadIndex(..) | Instruction::StoreIndex(..) => self.exec_array(instruction),
            Instruction::LoadProp(..) | Instruction::StoreProp(..) => self.exec_prop(instruction),
            Instruction::Call(..) => self.exec_call(instruction),
            _ => self.exec_basic(instruction),
        };
        proof {
            lemma_step_spec_fetched(v0, v, self@, self.native_functions@, r);
        }
        r
    }

    /// Runs an instruction that moves control or writes a constant or a register.
    fn exec_basic(&mut self, instruction: &'ir Instruction) -> (r: EngineResult<VmState>)
        requires
            old(self).wf(),
            ready(old(self)@),
            *instruction == current(old(self)@),
            !instr_panics(*instruction, old(self)@),
            instruction is Nop || instruction is Panic || instruction is If || instruction is Null
                || instruction is Num || instruction is Bool || instruction is Data
                || instruction is Move,
        ensures
            final(self).wf(),
            final(self).same_program(old(self)),
            ran(old(self)@, final(self)@, old(self).natives(), r),
    {
        let ghost v = self@;
        let code: &'ir [Instruction] = self.pc.instructions;
        let idx = self.pc.index;
        assert(idx < code.len());
        proof {
            lemma_code_wf_index(code@, v.regs.len(), self.data_len as nat, self.native_functions@.len(), idx as int);
            lemma_frame_size_step(v.frame);
        }
        match instruction {
            Instruction::Panic(e) => {
                Err(AiScriptBasicError::new(e.kind, e.message.clone(), e.pos))
            },
            Instruction::If(c, a, b) => {
                match &self.registers[*c] {
                    Value::Bool(t) => {
                        let t = *t;
                        self.pc_stack.push(ProgramCounter { instructions: code, index: idx + 1 });
                        self.pc = ProgramCounter { instructions: if t { a.as_slice() } else { b.as_slice() }, index: 0 };
                        proof {
                            assert(self@.stack =~= v.stack.push(advance(v.frame)));
                            lemma_stack_size_push(v.stack, advance(v.frame));
                            if t {
                                assert(frame_size(self@.frame) == code_size(a@)) by {
                                    assert(a@.skip(0) =~= a@);
                                }
                            } else {
                                assert(frame_size(self@.frame) == code_size(b@)) by {
                                    assert(b@.skip(0) =~= b@);
                                }
                            }
                            assert(self@ == moved(v, (if t { a@ } else { b@ }, 0), v.stack.push(advance(v.frame)), v.regs, v.heap));
                        }
                        Ok(VmState::Continue)
                    },
                    other => Err(type_error("bool", other)),
                }
            },
            Instruction::Null(x) => {
                self.set_register(*x, Value::Null);
                self.advance_pc();
                Ok(VmState::Continue)
            },
            Instruction::Num(x, n) => {
                self.set_register(*x, Value::Num(*n));
                self.advance_pc();
                Ok(VmState::Continue)
            },
            Instruction::Bool(x, b) => {
                self.set_register(*x, Value::Bool(*b));
                self.advance_pc();
                Ok(VmState::Continue)
            },
            Instruction::Data(x, d) => {
                self.set_register(*x, Value::Str(*d));
                self.advance_pc();
                Ok(VmState::Continue)
            },
            Instruction::Move(x, y) => {
                let value = self.registers[*y].copy();
                self.set_register(*x, value);
                self.advance_pc();
                Ok(VmState::Continue)
            },
            _ => {
                self.advance_pc();
                Ok(VmState::Continue)
            },
        }
    }
}

/// With no two keys equal, the entry found for a key is the one `lookup` names.
pub proof fn lemma_lookup_unique(entries: Seq<(Seq<u16>, Value)>, key: Seq<u16>, i: int)
    requires
        keys_unique(entries),
        0 <= i < entries.len(),
        entries[i].0 == key,
    ensures
        lookup(entries, key) == entries[i].1,
        insert_entry(entries, key, Value::Null) == entries.update(i, (key, Value::Null)),
        forall|v: Value| insert_entry(entries, key, v) == #[trigger] entries.update(i, (key, v)),
{
    let j = choose|j: int| 0 <= j < entries.len() && #[trigger] entries[j].0 == key;
    assert(entries[j].0 == key);
}

/// Inserting into an object keeps its keys unique.
pub proof fn lemma_insert_unique(entries: Seq<(Seq<u16>, Value)>, key: Seq<u16>, v: Value)
    requires
        keys_unique(entries),
    ensures
        keys_unique(insert_entry(entries, key, v)),
{
    if has_key(entries, key) {
        let j = choose|j: int| 0 <= j < entries.len() && #[trigger] entries[j].0 == key;
        let e2 = entries.update(j, (key, v));
        assert forall|a: int, b: int|
            0 <= a < e2.len() && 0 <= b < e2.len() && a != b implies (#[trigger] e2[a]).0 != (#[trigger] e2[b]).0 by {
            assert(entries[a].0 == e2[a].0);
            assert(entries[b].0 == e2[b].0);
        }
    } else {
        let e2 = entries.push((key, v));
        assert forall|a: int, b: int|
            0 <= a < e2.len() && 0 <= b < e2.len() && a != b implies (#[trigger] e2[a]).0 != (#[trigger] e2[b]).0 by {
            if a == entries.len() {
                assert(entries[b].0 != key);
            } else if b == entries.len() {
                assert(entries[a].0 != key);
            }
        }
    }
}

impl<'ir> Vm<'ir> {
    /// Writes element `k` of the array in heap cell `h`.
    fn store_element(&mut self, h: usize, k: usize, value: Value)
        requires
            old(self).wf(),
            h < old(self)@.heap.len(),
            old(self)@.heap[h as int] is Arr,
            k < arr_of(old(self)@.heap, h as int).len(),
            value_ok(value, old(self)@.heap),
        ensures
            final(self).wf(),
            final(self).same_program(old(self)),
            final(self)@ == (VmView {
                heap: old(self)@.heap.update(h as int, CellView::Arr(arr_of(old(self)@.heap, h as int).update(k as int, value))),
                ..old(self)@
            }),
    {
        let ghost v = self@;
        let ghost nn = self.native_functions@.len();
        match &mut self.heap[h] {
            HeapCell::Arr(vals) => {
                vals.set(k, value);
            },
            _ => {
                assert(false);
            },
        }
        proof {
            let heap2 = v.heap.update(h as int, CellView::Arr(arr_of(v.heap, h as int).update(k as int, value)));
            assert(self@.heap =~= heap2);
            assert(kinds_kept(v.heap, heap2));
            assert forall|i: int| 0 <= i < heap2.len() implies cell_ok(#[trigger] heap2[i], heap2, nn) by {
                if i != h {
                    lemma_cell_ok_kept(v.heap[i], v.heap, heap2, nn);
                } else {
                    let vs = arr_of(v.heap, h as int).update(k as int, value);
                    assert forall|j: int| 0 <= j < vs.len() implies value_ok(#[trigger] vs[j], heap2) by {
                        if j == k {
                            lemma_value_ok_kept(value, v.heap, heap2);
                        } else {
                            assert(cell_ok(v.heap[h as int], v.heap, nn));
                            lemma_value_ok_kept(arr_of(v.heap, h as int)[j], v.heap, heap2);
                        }
                    }
                }
            }
            assert forall|i: int| 0 <= i < v.regs.len() implies value_ok(#[trigger] v.regs[i], heap2) by {
                lemma_value_ok_kept(v.regs[i], v.heap, heap2);
            }
            assert(self@ == (VmView { heap: heap2, ..v }));
        }
    }

    /// Sets the entry `key` of the object in heap cell `h`.
    fn insert_prop(&mut self, h: usize, key: Vec<u16>, value: Value)
        requires
            old(self).wf(),
            h < old(self)@.heap.len(),
            old(self)@.heap[h as int] is Obj,
            value_ok(value, old(self)@.heap),
        ensures
            final(self).wf(),
            final(self).same_program(old(self)),
            final(self)@ == (VmView {
                heap: old(self)@.heap.update(h as int, CellView::Obj(insert_entry(obj_of(old(self)@.heap, h as int), key@, value))),
                ..old(self)@
            }),
    {
        let ghost v = self@;
        let ghost nn = self.native_functions@.len();
        let ghost entries = obj_of(v.heap, h as int);
        let ghost keyv = key@;
        proof {
            assert(cell_ok(v.heap[h as int], v.heap, nn));
        }
        match &mut self.heap[h] {
            HeapCell::Obj(o) => {
                obj_map_insert(&mut o.0, key, value);
                proof {
                    if has_key(entries, keyv) {
                        let i = choose|i: int| 0 <= i < entries.len() && (#[trigger] entries[i]).0 == keyv
                            && obj_entries(o.0) == entries.update(i, (keyv, value));
                        lemma_lookup_unique(entries, keyv, i);
                    }
                    assert(obj_entries(o.0) == insert_entry(entries, keyv, value));
                }
            },
            _ => {
                assert(false);
            },
        }
        proof {
            let heap2 = v.heap.update(h as int, CellView::Obj(insert_entry(entries, keyv, value)));
            assert(self@.heap =~= heap2);
            assert(kinds_kept(v.heap, heap2));
            lemma_insert_unique(entries, keyv, value);
            assert forall|i: int| 0 <= i < heap2.len() implies cell_ok(#[trigger] heap2[i], heap2, nn) by {
                if i != h {
                    lemma_cell_ok_kept(v.heap[i], v.heap, heap2, nn);
                } else {
                    let es = insert_entry(entries, keyv, value);
                    assert forall|j: int| 0 <= j < es.len() implies value_ok((#[trigger] es[j]).1, heap2) by {
                        if has_key(entries, keyv) {
                            let c = choose|c: int| 0 <= c < entries.len() && #[trigger] entries[c].0 == keyv;
                            if j == c {
                                lemma_value_ok_kept(value, v.heap, heap2);
                            } else {
                                lemma_value_ok_kept(entries[j].1, v.heap, heap2);
                            }
                        } else {
                            if j == entries.len() {
                                lemma_value_ok_kept(value, v.heap, heap2);
                            } else {
                                lemma_value_ok_kept(entries[j].1, v.heap, heap2);
                            }
                        }
                    }
                }
            }
            assert forall|i: int| 0 <= i < v.regs.len() implies value_ok(#[trigger] v.regs[i], heap2) by {
                lemma_value_ok_kept(v.regs[i], v.heap, heap2);
            }
            assert(self@ == (VmView { heap: heap2, ..v }));
        }
    }
}

impl<'ir> Vm<'ir> {
    /// The elements of the array in heap cell `h`.
    fn array_len(&self, h: usize) -> (r: usize)
        requires
            self.wf(),
            h < self@.heap.len(),
            self@.heap[h as int] is Arr,
        ensures
            r == arr_of(self@.heap, h as int).len(),
    {
        match &self.heap[h] {
            HeapCell::Arr(vals) => vals.len(),
            _ => {
                assert(false);
                0
            },
        }
    }

    /// A copy of element `k` of the array in heap cell `h`.
    fn array_element(&self, h: usize, k: usize) -> (r: Value)
        requires
            self.wf(),
            h < self@.heap.len(),
            self@.heap[h as int] is Arr,
            k < arr_of(self@.heap, h as int).len(),
        ensures
            r == arr_of(self@.heap, h as int)[k as int],
            value_ok(r, self@.heap),
    {
        proof {
            assert(cell_ok(self@.heap[h as int], self@.heap, self.native_functions@.len()));
        }
        match &self.heap[h] {
            HeapCell::Arr(vals) => vals[k].copy(),
            _ => {
                assert(false);
                Value::Null
            },
        }
    }

    /// A copy of the string in heap cell `d`, a data item.
    fn data_units(&self, d: usize) -> (r: Vec<u16>)
        requires
            self.wf(),
            d < self.data_len,
        ensures
            r@ == str_of(self@.heap, d as int),
    {
        proof {
            assert(self@.heap[d as int] is Str);
        }
        match &self.heap[d] {
            HeapCell::Str(s) => s.copy().into_u16s(),
            _ => {
                assert(false);
                Vec::new()
            },
        }
    }

    /// Runs an instruction that puts a new array, object or closure in the heap.
    fn exec_alloc(&mut self, instruction: &'ir Instruction) -> (r: EngineResult<VmState>)
        requires
            old(self).wf(),
            ready(old(self)@),
            *instruction == current(old(self)@),
            instruction is Arr || instruction is Obj || instruction is NativeFn,
        ensures
            final(self).wf(),
            final(self).same_program(old(self)),
            ran(old(self)@, final(self)@, old(self).natives(), r),
    {
        let ghost v = self@;
        proof {
            lemma_code_wf_index(v.frame.0, v.regs.len(), self.data_len as nat, self.native_functions@.len(), v.frame.1 as int);
            lemma_frame_size_step(v.frame);
        }
        match instruction {
            Instruction::Arr(x, n) => {
                let n = *n;
                let mut vals: Vec<Value> = Vec::new();
                let mut i: usize = 0;
                while i < n
                    invariant
                        i <= n,
                        vals@ =~= Seq::new(i as nat, |k: int| Value::Uninitialized),
                    decreases n - i,
                {
                    vals.push(Value::Uninitialized);
                    i = i + 1;
                }
                let ghost cell = CellView::Arr(vals@);
                let h = self.allocate(HeapCell::Arr(vals));
                self.set_register(*x, Value::Arr(h));
                self.advance_pc();
                Ok(VmState::Continue)
            },
            Instruction::Obj(x, n) => {
                let map = obj_map_new(*n);
                let h = self.allocate(HeapCell::Obj(VObj(map)));
                self.set_register(*x, Value::Obj(h));
                self.advance_pc();
                proof {
                    assert(self@.heap =~= v.heap.push(CellView::Obj(Seq::empty())));
                }
                Ok(VmState::Continue)
            },
            _ => {
                let n = match instruction {
                    Instruction::NativeFn(_, n) => *n,
                    _ => 0,
                };
                let x = match instruction {
                    Instruction::NativeFn(x, _) => *x,
                    _ => 0,
                };
                let f = VFn { index: FnIndex::Native(n), capture: Vec::new() };
                let h = self.allocate(HeapCell::Fn(f));
                self.set_register(x, Value::Fn(h));
                self.advance_pc();
                proof {
                    assert(self@.heap =~= v.heap.push(CellView::Fn(FnIndex::Native(n), Seq::empty())));
                }
                Ok(VmState::Continue)
            },
        }
    }

    /// Runs an addition, a subtraction or a negation.
    fn exec_arith(&mut self, instruction: &'ir Instruction) -> (r: EngineResult<VmState>)
        requires
            old(self).wf(),
            ready(old(self)@),
            *instruction == current(old(self)@),
            !instr_panics(*instruction, old(self)@),
            instruction is Add || instruction is Sub || instruction is Not,
        ensures
            final(self).wf(),
            final(self).same_program(old(self)),
            ran(old(self)@, final(self)@, old(self).natives(), r),
    {
        let ghost v = self@;
        proof {
            lemma_code_wf_index(v.frame.0, v.regs.len(), self.data_len as nat, self.native_functions@.len(), v.frame.1 as int);
            lemma_frame_size_step(v.frame);
        }
        match instruction {
            Instruction::Not(x, y) => {
                match &self.registers[*y] {
                    Value::Bool(t) => {
                        let t = *t;
                        self.set_register(*x, Value::Bool(!t));
                        self.advance_pc();
                        Ok(VmState::Continue)
                    },
                    other => Err(type_error("bool", other)),
                }
            },
            _ => {
                let (op, x, y, z) = match instruction {
                    Instruction::Add(x, y, z) => (ArithOp::Add, *x, *y, *z),
                    Instruction::Sub(x, y, z) => (ArithOp::Sub, *x, *y, *z),
                    _ => (ArithOp::Add, 0, 0, 0),
                };
                match &self.registers[y] {
                    Value::Num(left) => {
                        let left = *left;
                        match &self.registers[z] {
                            Value::Num(right) => {
                                let right = *right;
                                self.set_pending(Pending::Arith { dest: x });
                                Ok(VmState::AwaitArith { op, left, right })
                            },
                            other => Err(type_error("number", other)),
                        }
                    },
                    other => Err(type_error("number", other)),
                }
            },
        }
    }

    /// Runs a read or a write of an array element.
    fn exec_array(&mut self, instruction: &'ir Instruction) -> (r: EngineResult<VmState>)
        requires
            old(self).wf(),
            ready(old(self)@),
            *instruction == current(old(self)@),
            !instr_panics(*instruction, old(self)@),
            instruction is Load || instruction is Store || instruction is LoadIndex
                || instruction is StoreIndex,
        ensures
            final(self).wf(),
            final(self).same_program(old(self)),
            ran(old(self)@, final(self)@, old(self).natives(), r),
    {
        let ghost v = self@;
        proof {
            lemma_code_wf_index(v.frame.0, v.regs.len(), self.data_len as nat, self.native_functions@.len(), v.frame.1 as int);
            lemma_frame_size_step(v.frame);
        }
        match instruction {
            Instruction::Load(x, t, i) => {
                let arr = match &self.registers[*t] {
                    Value::Arr(h) => *h,
                    _ => 0,
                };
                match &self.registers[*i] {
                    Value::Num(bits) => {
                        let bits = *bits;
                        self.set_pending(Pending::Load { dest: *x, arr });
                        Ok(VmState::AwaitIndex { number: bits })
                    },
                    other => Err(type_error("number", other)),
                }
            },
            Instruction::Store(s, t, i) => {
                let arr = match &self.registers[*t] {
                    Value::Arr(h) => *h,
                    _ => 0,
                };
                match &self.registers[*i] {
                    Value::Num(bits) => {
                        let bits = *bits;
                        self.set_pending(Pending::Store { src: *s, arr });
                        Ok(VmState::AwaitIndex { number: bits })
                    },
                    other => Err(type_error("number", other)),
                }
            },
            Instruction::LoadIndex(x, t, k) => {
                match &self.registers[*t] {
                    Value::Arr(h) => {
                        let h = *h;
                        let len = self.array_len(h);
                        if *k < len {
                            let value = self.array_element(h, *k);
                            self.set_register(*x, value);
                            self.advance_pc();
                            Ok(VmState::Continue)
                        } else {
                            let text = decimal_text(*k);
                            Err(index_error(text.as_str(), len))
                        }
                    },
                    other => Err(type_error("array", other)),
                }
            },
            _ => {
                let (s, t, k) = match instruction {
                    Instruction::StoreIndex(s, t, k) => (*s, *t, *k),
                    _ => (0, 0, 0),
                };
                match &self.registers[t] {
                    Value::Arr(h) => {
                        let h = *h;
                        let len = self.array_len(h);
                        if k < len {
                            let value = self.registers[s].copy();
                            self.store_element(h, k, value);
                            self.advance_pc();
                            Ok(VmState::Continue)
                        } else {
                            let text = decimal_text(k);
                            Err(index_error(text.as_str(), len))
                        }
                    },
                    other => Err(type_error("array", other)),
                }
            },
        }
    }

    /// Runs a read or a write of an object's property.
    fn exec_prop(&mut self, instruction: &'ir Instruction) -> (r: EngineResult<VmState>)
        requires
            old(self).wf(),
            ready(old(self)@),
            *instruction == current(old(self)@),
            !instr_panics(*instruction, old(self)@),
            instruction is LoadProp || instruction is StoreProp,
        ensures
            final(self).wf(),
            final(self).same_program(old(self)),
            ran(old(self)@, final(self)@, old(self).natives(), r),
    {
        let ghost v = self@;
        let ghost nn = self.native_functions@.len();
        proof {
            lemma_code_wf_index(v.frame.0, v.regs.len(), self.data_len as nat, nn, v.frame.1 as int);
            lemma_frame_size_step(v.frame);
        }
        match instruction {
            Instruction::LoadProp(x, t, d) => {
                match &self.registers[*t] {
                    Value::Obj(h) => {
                        let h = *h;
                        let key = self.data_units(*d);
                        let ghost entries = obj_of(v.heap, h as int);
                        proof {
                            assert(cell_ok(v.heap[h as int], v.heap, nn));
                        }
                        let value = match &self.heap[h] {
                            HeapCell::Obj(o) => {
                                match obj_map_get(&o.0, key.as_slice()) {
                                    Some(found) => {
                                        let r = found.copy();
                                        proof {
                                            let i = choose|i: int| 0 <= i < entries.len() && #[trigger] entries[i] == (key@, r);
                                            lemma_lookup_unique(entries, key@, i);
                                        }
                                        r
                                    },
                                    None => Value::Null,
                                }
                            },
                            _ => {
                                assert(false);
                                Value::Null
                            },
                        };
                        proof {
                            assert(value == lookup(entries, key@));
                            if has_key(entries, key@) {
                                let i = choose|i: int| 0 <= i < entries.len() && #[trigger] entries[i].0 == key@;
                                assert(value_ok(entries[i].1, v.heap));
                            }
                        }
                        self.set_register(*x, value);
                        self.advance_pc();
                        Ok(VmState::Continue)
                    },
                    other => Err(type_error("object", other)),
                }
            },
            _ => {
                let (s, t, d) = match instruction {
                    Instruction::StoreProp(s, t, d) => (*s, *t, *d),
                    _ => (0, 0, 0),
                };
                match &self.registers[t] {
                    Value::Obj(h) => {
                        let h = *h;
                        let key = self.data_units(d);
                        let value = self.registers[s].copy();
                        self.insert_prop(h, key, value);
                        self.advance_pc();
                        Ok(VmState::Continue)
                    },
                    other => Err(type_error("object", other)),
                }
            },
        }
    }

    /// Runs a call: asks the host for the result of a native function.
    fn exec_call(&mut self, instruction: &'ir Instruction) -> (r: EngineResult<VmState>)
        requires
            old(self).wf(),
            ready(old(self)@),
            *instruction == current(old(self)@),
            !instr_panics(*instruction, old(self)@),
            instruction is Call,
        ensures
            final(self).wf(),
            final(self).same_program(old(self)),
            ran(old(self)@, final(self)@, old(self).natives(), r),
    {
        let ghost v = self@;
        let ghost nn = self.native_functions@.len();
        proof {
            lemma_code_wf_index(v.frame.0, v.regs.len(), self.data_len as nat, nn, v.frame.1 as int);
            lemma_frame_size_step(v.frame);
        }
        let (x, fr, a) = match instruction {
            Instruction::Call(x, fr, a) => (*x, *fr, *a),
            _ => (0, 0, 0),
        };
        match &self.registers[fr] {
            Value::Fn(h) => {
                let h = *h;
                match &self.registers[a] {
                    Value::Arr(ha) => {
                        let ha = *ha;
                        proof {
                            assert(cell_ok(v.heap[h as int], v.heap, nn));
                        }
                        let (n, capture) = match &self.heap[h] {
                            HeapCell::Fn(f) => {
                                let n = match f.index {
                                    FnIndex::Native(n) => n,
                                    FnIndex::User(_) => {
                                        assert(false);
                                        0
                                    },
                                };
                                (n, copy_values(&f.capture))
                            },
                            _ => {
                                assert(false);
                                (0, Vec::new())
                            },
                        };
                        let args = match &self.heap[ha] {
                            HeapCell::Arr(vals) => copy_values(vals),
                            _ => {
                                assert(false);
                                Vec::new()
                            },
                        };
                        let function = self.native_functions[n];
                        self.set_pending(Pending::Call { dest: x });
                        Ok(VmState::AwaitCall { function, args, capture })
                    },
                    other => Err(type_error("array", other)),
                }
            },
            other => Err(type_error("function", other)),
        }
    }
}

/// The state once the awaited work is done: the machine moves past the instruction that
/// waited, with the given registers and heap.
pub open spec fn resumed(v: VmView, regs: Seq<Value>, heap: Seq<CellView>) -> VmView {
    VmView { frame: advance(v.frame), stack: v.stack, regs, heap, pending: None }
}

/// Whether `trace` is a run of the machine: each state follows the one before it by a
/// step that continued.
pub open spec fn is_run(trace: Seq<VmView>, natives: Seq<usize>) -> bool {
    &&& trace.len() > 0
    &&& forall|i: int|
        0 <= i < trace.len() - 1 ==> step_spec(
            #[trigger] trace[i],
            trace[i + 1],
            natives,
            Ok(VmState::Continue),
        )
}

/// Whether `h` names an array whose element `index` exists.
pub open spec fn index_ok(heap: Seq<CellView>, h: usize, index: Option<usize>) -> bool {
    index matches Some(k) && k < arr_of(heap, h as int).len()
}

/// The array that a read or write waits on.
pub open spec fn pending_arr(p: Option<Pending>) -> usize {
    match p {
        Some(Pending::Load { arr, .. }) => arr,
        Some(Pending::Store { arr, .. }) => arr,
        _ => 0,
    }
}

/// Whether the value is uninitialized.
fn is_uninit(v: &Value) -> (r: bool)
    ensures
        r == (*v is Uninitialized),
{
    match v {
        Value::Uninitialized => true,
        _ => false,
    }
}

impl<'ir> Vm<'ir> {
    /// Whether running `i` now would panic (see [`instr_panics`]).
    fn instr_would_panic(&self, i: &Instruction) -> (r: bool)
        requires
            self.wf(),
            instr_wf(*i, self@.regs.len(), self.data_len as nat, self.native_functions@.len()),
        ensures
            r == instr_panics(*i, self@),
    {
        let regs = &self.registers;
        match i {
            Instruction::If(c, _, _) => is_uninit(&regs[*c]),
            Instruction::Add(_, l, r) | Instruction::Sub(_, l, r) => {
                is_uninit(&regs[*l]) || (matches!(regs[*l], Value::Num(_)) && is_uninit(&regs[*r]))
            },
            Instruction::Not(_, s) => is_uninit(&regs[*s]),
            Instruction::Load(_, t, x) | Instruction::Store(_, t, x) => {
                !matches!(regs[*t], Value::Arr(_)) || is_uninit(&regs[*x])
            },
            Instruction::LoadIndex(_, t, k) | Instruction::StoreIndex(_, t, k) => {
                match &regs[*t] {
                    Value::Uninitialized => true,
                    Value::Arr(h) => {
                        let len = self.array_len(*h);
                        *k >= len && len == 0
                    },
                    _ => false,
                }
            },
            Instruction::LoadProp(_, t, _) | Instruction::StoreProp(_, t, _) => is_uninit(&regs[*t]),
            Instruction::Call(_, f, a) => {
                is_uninit(&regs[*f]) || (matches!(regs[*f], Value::Fn(_)) && is_uninit(&regs[*a]))
            },
            _ => false,
        }
    }

    /// Whether the next step would panic (see [`step_panics`]): [`Vm::step`] may be called
    /// only where this is false.
    pub fn step_would_panic(&self) -> (r: bool)
        requires
            self.wf(),
        ensures
            r == step_panics(self@),
    {
        let ghost v = self@;
        let ghost nn = self.native_functions@.len();
        let n = self.pc_stack.len();
        if self.pc.index < self.pc.instructions.len() {
            proof {
                lemma_code_wf_index(v.frame.0, v.regs.len(), self.data_len as nat, nn, v.frame.1 as int);
            }
            self.instr_would_panic(&self.pc.instructions[self.pc.index])
        } else if n > 0 {
            let p = &self.pc_stack[n - 1];
            proof {
                assert(v.stack[n - 1] == (p.instructions@, p.index as nat));
                assert(frame_ok(v.stack[n - 1], v.regs.len(), self.data_len as nat, nn));
            }
            if p.index < p.instructions.len() {
                proof {
                    lemma_code_wf_index(p.instructions@, v.regs.len(), self.data_len as nat, nn, p.index as int);
                }
                self.instr_would_panic(&p.instructions[p.index])
            } else {
                false
            }
        } else {
            false
        }
    }

    /// Runs steps until the machine is done or waits for its host.
    pub fn exec(&mut self) -> (r: EngineResult<VmState>)
        requires
            old(self).wf(),
            old(self)@.pending is None,
            runs_safely(old(self)@, old(self).natives(), measure(old(self)@) + 1),
        ensures
            final(self).wf(),
            final(self).same_program(old(self)),
            !(r matches Ok(VmState::Continue)),
            exists|trace: Seq<VmView>|
                #[trigger] is_run(trace, old(self).natives()) && trace[0] == old(self)@ && step_spec(
                    trace.last(),
                    final(self)@,
                    old(self).natives(),
                    r,
                ),
    {
        let ghost v0 = self@;
        let ghost natives = self.native_functions@;
        let ghost mut trace: Seq<VmView> = seq![self@];
        loop
            invariant
                self.wf(),
                self.same_program(old(self)),
                self.native_functions@ == natives,
                natives == old(self).natives(),
                self@.pending is None,
                runs_safely(self@, natives, measure(self@) + 1),
                is_run(trace, natives),
                trace[0] == v0,
                trace.last() == self@,
                v0 == old(self)@,
            decreases measure(self@),
        {
            let ghost u = self@;
            let r = self.step();
            match r {
                Ok(VmState::Continue) => {
                    proof {
                        assert(runs_safely(self@, natives, measure(u)));
                        lemma_runs_safely_mono(self@, natives, measure(u), measure(self@) + 1);
                        let t2 = trace.push(self@);
                        assert forall|i: int| 0 <= i < t2.len() - 1 implies step_spec(
                            #[trigger] t2[i],
                            t2[i + 1],
                            natives,
                            Ok(VmState::Continue),
                        ) by {
                            if i < trace.len() - 1 {
                                assert(t2[i] == trace[i] && t2[i + 1] == trace[i + 1]);
                            }
                        }
                        trace = t2;
                        assert(self@.pending is None);
                    }
                },
                _ => {
                    proof {
                        assert(step_spec(u, self@, natives, r));
                    }
                    return r;
                },
            }
        }
    }

    /// Moves past the instruction that waited.
    fn finish_pending(&mut self)
        requires
            old(self).wf(),
            old(self)@.pending is Some,
        ensures
            final(self).wf(),
            final(self).same_program(old(self)),
            final(self)@ == (VmView { frame: advance(old(self)@.frame), pending: None, ..old(self)@ }),
    {
        self.pending = None;
        let n = self.pc.instructions.len();
        assert(self.pc.index < n);
        self.pc.index = self.pc.index + 1;
    }

    /// Gives the machine the result of the arithmetic it waits for: the number with the
    /// given IEEE-754 bits goes to the destination register.
    pub fn resume_number(&mut self, bits: u64)
        requires
            old(self).wf(),
            old(self)@.pending matches Some(Pending::Arith { .. }),
        ensures
            final(self).wf(),
            final(self).same_program(old(self)),
            final(self)@ == resumed(
                old(self)@,
                old(self)@.regs.update(old(self)@.pending->0->Arith_dest as int, Value::Num(bits)),
                old(self)@.heap,
            ),
            measure(final(self)@) < measure(old(self)@),
    {
        let ghost v = self@;
        proof {
            lemma_frame_size_step(v.frame);
        }
        let dest = match self.pending {
            Some(Pending::Arith { dest }) => dest,
            _ => 0,
        };
        self.set_register(dest, Value::Num(bits));
        self.finish_pending();
    }

    /// Gives the machine the result of the native call it waits for.
    pub fn resume_call(&mut self, value: Value)
        requires
            old(self).wf(),
            old(self)@.pending matches Some(Pending::Call { .. }),
            value_ok(value, old(self)@.heap),
        ensures
            final(self).wf(),
            final(self).same_program(old(self)),
            final(self)@ == resumed(
                old(self)@,
                old(self)@.regs.update(old(self)@.pending->0->Call_dest as int, value),
                old(self)@.heap,
            ),
            measure(final(self)@) < measure(old(self)@),
    {
        let ghost v = self@;
        proof {
            lemma_frame_size_step(v.frame);
        }
        let dest = match self.pending {
            Some(Pending::Call { dest }) => dest,
            _ => 0,
        };
        self.set_register(dest, value);
        self.finish_pending();
    }

    /// The length of the array that the awaited read or write is on.
    pub fn awaited_array_len(&self) -> (r: usize)
        requires
            self.wf(),
            self@.pending matches Some(Pending::Load { .. }) || self@.pending matches Some(Pending::Store { .. }),
        ensures
            r == arr_of(self@.heap, pending_arr(self@.pending) as int).len(),
    {
        let arr = match self.pending {
            Some(Pending::Load { arr, .. }) => arr,
            Some(Pending::Store { arr, .. }) => arr,
            _ => 0,
        };
        self.array_len(arr)
    }

    /// Gives the machine the index that the number of the awaited read or write stands for
    /// (`None` where it stands for none), and the number as text for an error message.
    /// A read copies the element into the destination register, a write copies the source
    /// register into the element; an index out of range is an error.
    pub fn resume_index(&mut self, index: Option<usize>, index_text: &str) -> (r: EngineResult<()>)
        requires
            old(self).wf(),
            old(self)@.pending matches Some(Pending::Load { .. }) || old(self)@.pending matches Some(Pending::Store { .. }),
            index_ok(old(self)@.heap, pending_arr(old(self)@.pending), index)
                || arr_of(old(self)@.heap, pending_arr(old(self)@.pending) as int).len() > 0,
        ensures
            final(self).wf(),
            final(self).same_program(old(self)),
            r is Ok <==> index_ok(old(self)@.heap, pending_arr(old(self)@.pending), index),
            r is Ok ==> measure(final(self)@) < measure(old(self)@),
            r is Ok ==> match old(self)@.pending {
                Some(Pending::Load { dest, arr }) => final(self)@ == resumed(
                    old(self)@,
                    old(self)@.regs.update(dest as int, arr_of(old(self)@.heap, arr as int)[index->0 as int]),
                    old(self)@.heap,
                ),
                Some(Pending::Store { src, arr }) => final(self)@ == resumed(
                    old(self)@,
                    old(self)@.regs,
                    old(self)@.heap.update(arr as int, CellView::Arr(arr_of(old(self)@.heap, arr as int).update(
                        index->0 as int,
                        old(self)@.regs[src as int],
                    ))),
                ),
                _ => false,
            },
            r matches Err(e) ==> e.kind == AiScriptBasicErrorKind::Runtime && e.pos is None
                && e.message@ == index_message(
                    index_text@,
                    (arr_of(old(self)@.heap, pending_arr(old(self)@.pending) as int).len() - 1) as nat,
                ) && final(self)@ == old(self)@,
    {
        let ghost v = self@;
        proof {
            lemma_frame_size_step(v.frame);
        }
        let pending = self.pending;
        let arr = match pending {
            Some(Pending::Load { arr, .. }) => arr,
            Some(Pending::Store { arr, .. }) => arr,
            _ => 0,
        };
        let len = self.array_len(arr);
        let k = match index {
            Some(k) => {
                if k < len {
                    k
                } else {
                    return Err(index_error(index_text, len));
                }
            },
            None => {
                return Err(index_error(index_text, len));
            },
        };
        match pending {
            Some(Pending::Load { dest, .. }) => {
                let value = self.array_element(arr, k);
                self.set_register(dest, value);
            },
            _ => {
                let src = match pending {
                    Some(Pending::Store { src, .. }) => src,
                    _ => 0,
                };
                let value = self.registers[src].copy();
                self.store_element(arr, k, value);
            },
        }
        self.finish_pending();
        Ok(())
    }
}

/// Whether the IEEE-754 number with bits `x` is not a number.
pub open spec fn is_nan_bits(x: u64) -> bool {
    (x & 0x7ff0_0000_0000_0000u64) == 0x7ff0_0000_0000_0000u64 && (x & 0x000f_ffff_ffff_ffffu64) != 0
}

/// Whether the IEEE-754 number with bits `x` is a zero, of either sign.
pub open spec fn is_zero_bits(x: u64) -> bool {
    (x & 0x7fff_ffff_ffff_ffffu64) == 0
}

/// Whether two IEEE-754 numbers, by their bits, compare equal: no NaN equals anything,
/// the two zeros are equal, and otherwise equal numbers have equal bits.
pub open spec fn num_eq(x: u64, y: u64) -> bool {
    !is_nan_bits(x) && !is_nan_bits(y) && (x == y || (is_zero_bits(x) && is_zero_bits(y)))
}

/// Whether two values are equal: null, booleans and numbers by value, strings by their
/// text, objects, arrays, functions and errors by their heap cell; an uninitialized value
/// or a `return` wrapper equals nothing else.
pub open spec fn value_eq_spec(a: Value, b: Value, heap: Seq<CellView>) -> bool {
    match (a, b) {
        (Value::Null, Value::Null) => true,
        (Value::Bool(x), Value::Bool(y)) => x == y,
        (Value::Num(x), Value::Num(y)) => num_eq(x, y),
        (Value::Str(x), Value::Str(y)) => str_of(heap, x as int) == str_of(heap, y as int),
        (Value::Obj(x), Value::Obj(y)) => x == y,
        (Value::Arr(x), Value::Arr(y)) => x == y,
        (Value::Fn(x), Value::Fn(y)) => x == y,
        (Value::Break, Value::Break) => true,
        (Value::Continue, Value::Continue) => true,
        (Value::Error(x), Value::Error(y)) => x == y,
        _ => false,
    }
}

impl<'ir> Vm<'ir> {
    /// Whether two values of this machine are equal (see [`value_eq_spec`]).
    pub fn value_eq(&self, a: &Value, b: &Value) -> (r: bool)
        requires
            self.wf(),
            value_ok(*a, self@.heap),
            value_ok(*b, self@.heap),
        ensures
            r == value_eq_spec(*a, *b, self@.heap),
    {
        match (a, b) {
            (Value::Null, Value::Null) => true,
            (Value::Bool(x), Value::Bool(y)) => *x == *y,
            (Value::Num(x), Value::Num(y)) => {
                let x = *x;
                let y = *y;
                let x_nan = (x & 0x7ff0_0000_0000_0000u64) == 0x7ff0_0000_0000_0000u64 && (x & 0x000f_ffff_ffff_ffffu64) != 0;
                let y_nan = (y & 0x7ff0_0000_0000_0000u64) == 0x7ff0_0000_0000_0000u64 && (y & 0x000f_ffff_ffff_ffffu64) != 0;
                let zeros = (x & 0x7fff_ffff_ffff_ffffu64) == 0 && (y & 0x7fff_ffff_ffff_ffffu64) == 0;
                !x_nan && !y_nan && (x == y || zeros)
            },
            (Value::Str(x), Value::Str(y)) => {
                match (&self.heap[*x], &self.heap[*y]) {
                    (HeapCell::Str(s), HeapCell::Str(t)) => s.eq_str(t),
                    _ => false,
                }
            },
            (Value::Obj(x), Value::Obj(y)) => *x == *y,
            (Value::Arr(x), Value::Arr(y)) => *x == *y,
            (Value::Fn(x), Value::Fn(y)) => *x == *y,
            (Value::Break, Value::Break) => true,
            (Value::Continue, Value::Continue) => true,
            (Value::Error(x), Value::Error(y)) => *x == *y,
            _ => false,
        }
    }
}

} // verus!
