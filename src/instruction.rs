use vstd::prelude::*;

verus! {

/// One stack-machine instruction.
///
/// Jump offsets are relative to the index of the jump itself.
#[derive(Clone, Copy, Debug, PartialEq, Eq, Structural)]
pub enum Instruction {
    LoadConstant(usize),
    Add,
    Subtract,
    Multiply,
    Divide,
    Negate,
    Not,
    Greater,
    Less,
    Equal,
    True,
    False,
    Nil,
    Print,
    Pop,
    DefineGlobal,
    GetGlobal,
    SetGlobal,
    GetLocal(usize),
    SetLocal(usize),
    JumpIfFalse(isize),
    Jump(isize),
    PrepareInvoke,
    Invoke,
    Return,
}

/// The instruction stored at index `k` of `code` is well formed: a constant
/// index names an element of a pool of `pool_len` values, and a jump lands in
/// `[0, limit]`.
pub open spec fn instruction_wf(ins: Instruction, k: int, pool_len: nat, limit: int) -> bool {
    match ins {
        Instruction::LoadConstant(c) => c < pool_len,
        Instruction::Jump(d) => 0 <= k + d <= limit,
        Instruction::JumpIfFalse(d) => 0 <= k + d <= limit,
        _ => true,
    }
}

/// Every instruction of `code` is well formed, with jumps landing in `[0, limit]`.
pub open spec fn code_wf(code: Seq<Instruction>, pool_len: nat, limit: int) -> bool {
    forall|k: int| 0 <= k < code.len() ==> #[trigger] instruction_wf(code[k], k, pool_len, limit)
}

} // verus!
