use vstd::prelude::*;

use crate::common::error::AiScriptBasicError;
use crate::common::string::Utf16String;

verus! {

/// The index of an item of the data table.
pub type DataIndex = usize;

/// The index of a native function of the program.
pub type NativeFnIndex = usize;

/// The index of a user function of the program.
pub type UserFnIndex = usize;

/// A register of the machine.
pub type Register = usize;

/// The place of an instruction in a sequence.
pub type InstructionAddress = usize;

/// An item of the data table.
#[derive(Debug, PartialEq, Eq)]
pub enum DataItem {
    Str(Utf16String),
}

/// The string of a data item.
pub open spec fn data_str(d: DataItem) -> Seq<u16> {
    match d {
        DataItem::Str(s) => s@,
    }
}

/// The intermediate representation of a program.
#[derive(Debug, PartialEq)]
pub struct Ir {
    /// The string constants.
    pub data: Vec<DataItem>,
    /// The native functions: each is a handle that the host maps to its implementation.
    pub native_functions: Vec<usize>,
    /// The user functions.
    pub user_functions: Vec<UserFn>,
    /// The function that runs first.
    pub entry_point: UserFnIndex,
}

impl Ir {
    /// The program with nothing to run: one empty entry function.
    pub fn default() -> (r: Ir)
        ensures
            r.data@.len() == 0,
            r.native_functions@.len() == 0,
            r.user_functions@.len() == 1,
            r.user_functions@[0].register_length == 0,
            r.user_functions@[0].instructions@.len() == 0,
            r.entry_point == 0,
    {
        let mut user_functions: Vec<UserFn> = Vec::new();
        user_functions.push(UserFn::new());
        Ir { data: Vec::new(), native_functions: Vec::new(), user_functions, entry_point: 0 }
    }
}

/// A function written in the program: its number of registers and its code.
#[derive(Debug, PartialEq)]
pub struct UserFn {
    pub register_length: usize,
    pub instructions: Vec<Instruction>,
}

impl UserFn {
    /// A function with no registers and no code.
    pub fn new() -> (r: UserFn)
        ensures
            r.register_length == 0,
            r.instructions@.len() == 0,
    {
        UserFn { register_length: 0, instructions: Vec::new() }
    }
}

/// The instructions of the machine.
#[derive(Debug, PartialEq)]
pub enum Instruction {
    /// Does nothing.
    Nop,
    /// Stops with an error.
    Panic(AiScriptBasicError),
    /// Runs the first code if the register holds true, the second if false.
    If(Register, Vec<Instruction>, Vec<Instruction>),
    /// Stores null.
    Null(Register),
    /// Stores a number, given by its IEEE-754 bits.
    Num(Register, u64),
    /// Stores a boolean.
    Bool(Register, bool),
    /// Stores the string of a data item.
    Data(Register, DataIndex),
    /// Stores a new array of the given length, its elements uninitialized.
    Arr(Register, usize),
    /// Stores a new object with room for the given number of entries.
    Obj(Register, usize),
    /// Stores a closure over a native function.
    NativeFn(Register, NativeFnIndex),
    /// Copies register 1 into register 0.
    Move(Register, Register),
    /// Stores in register 0 the sum of registers 1 and 2.
    Add(Register, Register, Register),
    /// Stores in register 0 register 1 minus register 2.
    Sub(Register, Register, Register),
    /// Stores in register 0 the negation of register 1.
    Not(Register, Register),
    /// Copies register1[register2] into register 0.
    Load(Register, Register, Register),
    /// Copies register1[immediate 2] into register 0.
    LoadIndex(Register, Register, usize),
    /// Copies register1.(data item 2) into register 0.
    LoadProp(Register, Register, DataIndex),
    /// Copies register 0 into register1[register2].
    Store(Register, Register, Register),
    /// Copies register 0 into register1[immediate 2].
    StoreIndex(Register, Register, usize),
    /// Copies register 0 into register1.(data item 2).
    StoreProp(Register, Register, DataIndex),
    /// Calls the function of register 1 with the array of register 2; the result goes to register 0.
    Call(Register, Register, Register),
}

/// Whether every register an instruction names is below `regs`, every data index below
/// `data`, and every native function index below `natives`.
pub open spec fn instr_wf(i: Instruction, regs: nat, data: nat, natives: nat) -> bool
    decreases i,
{
    match i {
        Instruction::Nop => true,
        Instruction::Panic(_) => true,
        Instruction::If(c, a, b) => c < regs && code_wf(a@, regs, data, natives) && code_wf(
            b@,
            regs,
            data,
            natives,
        ),
        Instruction::Null(r) => r < regs,
        Instruction::Num(r, _) => r < regs,
        Instruction::Bool(r, _) => r < regs,
        Instruction::Data(r, d) => r < regs && d < data,
        Instruction::Arr(r, _) => r < regs,
        Instruction::Obj(r, _) => r < regs,
        Instruction::NativeFn(r, n) => r < regs && n < natives,
        Instruction::Move(a, b) => a < regs && b < regs,
        Instruction::Add(a, b, c) => a < regs && b < regs && c < regs,
        Instruction::Sub(a, b, c) => a < regs && b < regs && c < regs,
        Instruction::Not(a, b) => a < regs && b < regs,
        Instruction::Load(a, b, c) => a < regs && b < regs && c < regs,
        Instruction::LoadIndex(a, b, _) => a < regs && b < regs,
        Instruction::LoadProp(a, b, d) => a < regs && b < regs && d < data,
        Instruction::Store(a, b, c) => a < regs && b < regs && c < regs,
        Instruction::StoreIndex(a, b, _) => a < regs && b < regs,
        Instruction::StoreProp(a, b, d) => a < regs && b < regs && d < data,
        Instruction::Call(a, b, c) => a < regs && b < regs && c < regs,
    }
}

/// Whether every instruction of `code` is well formed for the given bounds.
pub open spec fn code_wf(code: Seq<Instruction>, regs: nat, data: nat, natives: nat) -> bool
    decreases code,
{
    if code.len() == 0 {
        true
    } else {
        code_wf(code.drop_last(), regs, data, natives) && instr_wf(code.last(), regs, data, natives)
    }
}

/// Well-formed code stays well formed under larger bounds.
pub proof fn lemma_code_wf_mono(code: Seq<Instruction>, regs: nat, data: nat, natives: nat, regs2: nat, data2: nat, natives2: nat)
    requires
        code_wf(code, regs, data, natives),
        regs <= regs2,
        data <= data2,
        natives <= natives2,
    ensures
        code_wf(code, regs2, data2, natives2),
    decreases code,
{
    if code.len() > 0 {
        lemma_code_wf_mono(code.drop_last(), regs, data, natives, regs2, data2, natives2);
        lemma_instr_wf_mono(code.last(), regs, data, natives, regs2, data2, natives2);
    }
}

/// A well-formed instruction stays well formed under larger bounds.
pub proof fn lemma_instr_wf_mono(i: Instruction, regs: nat, data: nat, natives: nat, regs2: nat, data2: nat, natives2: nat)
    requires
        instr_wf(i, regs, data, natives),
        regs <= regs2,
        data <= data2,
        natives <= natives2,
    ensures
        instr_wf(i, regs2, data2, natives2),
    decreases i,
{
    if let Instruction::If(c, a, b) = i {
        lemma_code_wf_mono(a@, regs, data, natives, regs2, data2, natives2);
        lemma_code_wf_mono(b@, regs, data, natives, regs2, data2, natives2);
    }
}

/// Every element of well-formed code is well formed.
pub proof fn lemma_code_wf_index(code: Seq<Instruction>, regs: nat, data: nat, natives: nat, k: int)
    requires
        code_wf(code, regs, data, natives),
        0 <= k < code.len(),
    ensures
        instr_wf(code[k], regs, data, natives),
    decreases code.len(),
{
    if k < code.len() - 1 {
        lemma_code_wf_index(code.drop_last(), regs, data, natives, k);
    }
}

/// Appending a well-formed instruction keeps code well formed.
pub proof fn lemma_code_wf_push(code: Seq<Instruction>, i: Instruction, regs: nat, data: nat, natives: nat)
    requires
        code_wf(code, regs, data, natives),
        instr_wf(i, regs, data, natives),
    ensures
        code_wf(code.push(i), regs, data, natives),
{
    assert(code.push(i).drop_last() =~= code);
}

/// Whether a program is well formed: its entry point exists and every function's code
/// is well formed for that function's registers and the program's tables.
pub open spec fn ir_wf(ir: Ir) -> bool {
    &&& ir.entry_point < ir.user_functions@.len()
    &&& forall|k: int|
        0 <= k < ir.user_functions@.len() ==> code_wf(
            (#[trigger] ir.user_functions@[k]).instructions@,
            ir.user_functions@[k].register_length as nat,
            ir.data@.len(),
            ir.native_functions@.len(),
        )
}

} // verus!
