use vstd::prelude::*;
use crate::instruction::{Instruction, code_wf, instruction_wf};
use crate::span::Span;
use crate::value::Value;

verus! {

/// The elements of `pool` are pairwise distinct.
pub open spec fn pool_distinct(pool: Seq<Value>) -> bool {
    forall|i: int, j: int| 0 <= i < pool.len() && 0 <= j < pool.len() && i != j ==> pool[i] != pool[j]
}

/// Relies on `Vec::len`; a vector never holds more than `isize::MAX` bytes, so
/// the count of (non-empty) instructions is at most `isize::MAX`.
#[verifier::external_body]
fn instruction_count(code: &Vec<Instruction>) -> (r: usize)
    ensures
        r == code@.len(),
        r <= isize::MAX,
{
    code.len()
}

/// Which jump a backpatch handle will fill in.
#[derive(Clone, Copy, Debug, PartialEq, Eq, Structural)]
pub enum JumpKind {
    Jump,
    JumpIfFalse,
}

/// The jump of `kind` with offset `offset`.
pub open spec fn jump_of(kind: JumpKind, offset: isize) -> Instruction {
    match kind {
        JumpKind::Jump => Instruction::Jump(offset),
        JumpKind::JumpIfFalse => Instruction::JumpIfFalse(offset),
    }
}

/// A handle to a jump emitted with a placeholder offset, filled in later.
#[derive(Clone, Copy, Debug, PartialEq, Eq, Structural)]
pub struct Backpatcher {
    pub index: usize,
    pub kind: JumpKind,
}

/// Fills in the offset of a jump that was emitted with a placeholder.
pub trait Backpatch {
    /// The index of the jump.
    spec fn site(&self) -> int;

    /// The jump with offset `offset`.
    spec fn patched(&self, offset: isize) -> Instruction;

    /// Sets the jump to land on `target`: its offset becomes `target - site`.
    fn backpatch_by(&self, chunk: &mut ChunkBuilder, target: usize)
        requires
            old(chunk).wf(),
            0 <= self.site() < old(chunk).instructions@.len(),
            target <= old(chunk).instructions@.len(),
        ensures
            final(chunk).wf(),
            final(chunk).instructions@ == old(chunk).instructions@.update(
                self.site(),
                self.patched((target - self.site()) as isize),
            ),
            final(chunk).spans@ == old(chunk).spans@,
            final(chunk).constants@ == old(chunk).constants@,
    ;

    /// Sets the jump to land on the next instruction to be written.
    fn backpatch(&self, chunk: &mut ChunkBuilder)
        requires
            old(chunk).wf(),
            0 <= self.site() < old(chunk).instructions@.len(),
        ensures
            final(chunk).wf(),
            final(chunk).instructions@ == old(chunk).instructions@.update(
                self.site(),
                self.patched((old(chunk).instructions@.len() - self.site()) as isize),
            ),
            final(chunk).spans@ == old(chunk).spans@,
            final(chunk).constants@ == old(chunk).constants@,
    ;
}

impl Backpatch for Backpatcher {
    open spec fn site(&self) -> int {
        self.index as int
    }

    open spec fn patched(&self, offset: isize) -> Instruction {
        jump_of(self.kind, offset)
    }

    fn backpatch_by(&self, chunk: &mut ChunkBuilder, target: usize) {
        chunk.backpatch_by(*self, target);
    }

    fn backpatch(&self, chunk: &mut ChunkBuilder) {
        chunk.backpatch(*self);
    }
}

/// Instructions, their spans and a deduplicated constant pool, under construction.
pub struct ChunkBuilder {
    pub instructions: Vec<Instruction>,
    pub spans: Vec<Span>,
    pub constants: Vec<Value>,
}

impl ChunkBuilder {
    /// One span per instruction, every instruction well formed, and no value
    /// twice in the pool.
    pub open spec fn wf(&self) -> bool {
        &&& self.spans@.len() == self.instructions@.len()
        &&& code_wf(self.instructions@, self.constants@.len(), self.instructions@.len() as int)
        &&& pool_distinct(self.constants@)
    }

    /// The builder differs from `old` only by what was appended at the end.
    pub open spec fn extends(&self, old: &ChunkBuilder) -> bool {
        &&& old.instructions@.len() <= self.instructions@.len()
        &&& forall|k: int|
            0 <= k < old.instructions@.len() ==> #[trigger] self.instructions@[k]
                == old.instructions@[k]
        &&& old.spans@.len() <= self.spans@.len()
        &&& forall|k: int| 0 <= k < old.spans@.len() ==> #[trigger] self.spans@[k] == old.spans@[k]
        &&& old.constants@.len() <= self.constants@.len()
        &&& forall|k: int|
            0 <= k < old.constants@.len() ==> #[trigger] self.constants@[k] == old.constants@[k]
    }

    pub fn new() -> (r: ChunkBuilder)
        ensures
            r.wf(),
            r.instructions@.len() == 0,
            r.constants@.len() == 0,
    {
        ChunkBuilder { instructions: Vec::new(), spans: Vec::new(), constants: Vec::new() }
    }

    /// The number of instructions written so far.
    pub fn len(&self) -> (r: usize)
        ensures
            r == self.instructions@.len(),
            r <= isize::MAX,
    {
        instruction_count(&self.instructions)
    }

    /// Appends `instruction` with an explicit `span`.
    pub fn write(&mut self, instruction: Instruction, span: Span)
        requires
            old(self).wf(),
            instruction_wf(
                instruction,
                old(self).instructions@.len() as int,
                old(self).constants@.len(),
                old(self).instructions@.len() + 1 as int,
            ),
        ensures
            final(self).wf(),
            final(self).instructions@ == old(self).instructions@.push(instruction),
            final(self).spans@ == old(self).spans@.push(span),
            final(self).constants@ == old(self).constants@,
    {
        self.instructions.push(instruction);
        self.spans.push(span);
        proof {
            let code = self.instructions@;
            assert forall|k: int| 0 <= k < code.len() implies #[trigger] instruction_wf(
                code[k],
                k,
                self.constants@.len(),
                code.len() as int,
            ) by {
                if k < code.len() - 1 {
                    assert(code[k] == old(self).instructions@[k]);
                    assert(instruction_wf(
                        old(self).instructions@[k],
                        k,
                        old(self).constants@.len(),
                        old(self).instructions@.len() as int,
                    ));
                }
            }
        }
    }

    /// The span that `append` gives: that of the last instruction, or the empty
    /// span at offset zero when there is none.
    pub open spec fn next_span(&self) -> Span {
        if self.spans@.len() == 0 {
            Span { start: 0, end: 0 }
        } else {
            self.spans@.last()
        }
    }

    /// Appends `instruction` with the span of the most recent instruction.
    pub fn append(&mut self, instruction: Instruction)
        requires
            old(self).wf(),
            instruction_wf(
                instruction,
                old(self).instructions@.len() as int,
                old(self).constants@.len(),
                old(self).instructions@.len() + 1 as int,
            ),
        ensures
            final(self).wf(),
            final(self).instructions@ == old(self).instructions@.push(instruction),
            final(self).spans@ == old(self).spans@.push(old(self).next_span()),
            final(self).constants@ == old(self).constants@,
    {
        let n = self.spans.len();
        let span = if n == 0 {
            Span { start: 0, end: 0 }
        } else {
            self.spans[n - 1]
        };
        self.write(instruction, span);
    }

    /// Appends a jump of `kind` with a placeholder offset of zero and returns the
    /// handle that fills it in.
    pub fn append_backpatch(&mut self, kind: JumpKind) -> (r: Backpatcher)
        requires
            old(self).wf(),
        ensures
            final(self).wf(),
            final(self).instructions@ == old(self).instructions@.push(jump_of(kind, 0)),
            final(self).spans@ == old(self).spans@.push(old(self).next_span()),
            final(self).constants@ == old(self).constants@,
            r.index == old(self).instructions@.len(),
            r.kind == kind,
    {
        let index = self.len();
        match kind {
            JumpKind::Jump => self.append(Instruction::Jump(0)),
            JumpKind::JumpIfFalse => self.append(Instruction::JumpIfFalse(0)),
        }
        Backpatcher { index, kind }
    }

    /// Sets the jump of `patch` to land on `target`: its offset becomes
    /// `target - patch.index`.
    pub fn backpatch_by(&mut self, patch: Backpatcher, target: usize)
        requires
            old(self).wf(),
            patch.index < old(self).instructions@.len(),
            target <= old(self).instructions@.len(),
        ensures
            final(self).wf(),
            final(self).instructions@ == old(self).instructions@.update(
                patch.index as int,
                jump_of(patch.kind, (target - patch.index) as isize),
            ),
            final(self).spans@ == old(self).spans@,
            final(self).constants@ == old(self).constants@,
    {
        let n = self.len();
        let offset: isize = target as isize - patch.index as isize;
        let jump = match patch.kind {
            JumpKind::Jump => Instruction::Jump(offset),
            JumpKind::JumpIfFalse => Instruction::JumpIfFalse(offset),
        };
        self.instructions.set(patch.index, jump);
        proof {
            let code = self.instructions@;
            assert forall|k: int| 0 <= k < code.len() implies #[trigger] instruction_wf(
                code[k],
                k,
                self.constants@.len(),
                code.len() as int,
            ) by {
                if k != patch.index {
                    assert(code[k] == old(self).instructions@[k]);
                }
            }
        }
    }

    /// Sets the jump of `patch` to land on the next instruction to be written.
    pub fn backpatch(&mut self, patch: Backpatcher)
        requires
            old(self).wf(),
            patch.index < old(self).instructions@.len(),
        ensures
            final(self).wf(),
            final(self).instructions@ == old(self).instructions@.update(
                patch.index as int,
                jump_of(patch.kind, (old(self).instructions@.len() - patch.index) as isize),
            ),
            final(self).spans@ == old(self).spans@,
            final(self).constants@ == old(self).constants@,
    {
        let target = self.len();
        self.backpatch_by(patch, target);
    }

    /// Places `constant` in the pool, reusing the index of an equal value.
    pub fn define(&mut self, constant: Value) -> (r: usize)
        requires
            old(self).wf(),
        ensures
            final(self).wf(),
            r < final(self).constants@.len(),
            final(self).constants@[r as int] == constant,
            old(self).constants@.contains(constant) ==> final(self).constants@ == old(
                self,
            ).constants@,
            !old(self).constants@.contains(constant) ==> final(self).constants@ == old(
                self,
            ).constants@.push(constant),
            final(self).instructions@ == old(self).instructions@,
            final(self).spans@ == old(self).spans@,
    {
        let mut i: usize = 0;
        while i < self.constants.len()
            invariant
                self.wf(),
                *self == *old(self),
                i <= self.constants@.len(),
                forall|j: int| 0 <= j < i ==> self.constants@[j] != constant,
            decreases self.constants@.len() - i,
        {
            if self.constants[i] == constant {
                proof {
                    assert(self.constants@.contains(constant));
                }
                return i;
            }
            i = i + 1;
        }
        proof {
            assert(!self.constants@.contains(constant)) by {
                if self.constants@.contains(constant) {
                    let j = choose|j: int| 0 <= j < self.constants@.len() && self.constants@[j] == constant;
                    assert(self.constants@[j] != constant);
                }
            }
        }
        let index = self.constants.len();
        self.constants.push(constant);
        proof {
            let code = self.instructions@;
            assert forall|k: int| 0 <= k < code.len() implies #[trigger] instruction_wf(
                code[k],
                k,
                self.constants@.len(),
                code.len() as int,
            ) by {
                assert(instruction_wf(code[k], k, old(self).constants@.len(), code.len() as int));
            }
        }
        index
    }
}


/// Defining a value twice gives one index: if `later` extends a well-formed
/// `earlier` and both hold `v`, at `i` and at `j`, then `i == j`.
pub proof fn define_reuses_index(earlier: &ChunkBuilder, later: &ChunkBuilder, v: Value, i: int, j: int)
    requires
        later.wf(),
        later.extends(earlier),
        0 <= i < earlier.constants@.len(),
        earlier.constants@[i] == v,
        0 <= j < later.constants@.len(),
        later.constants@[j] == v,
    ensures
        i == j,
{
    assert(later.constants@[i] == earlier.constants@[i]);
}

/// Every jump of a well-formed builder, backpatched or not, has an offset
/// that lands within the code: `0 <= i + offset <= len`.
pub proof fn jumps_land_in_code(b: &ChunkBuilder, i: int)
    requires
        b.wf(),
        0 <= i < b.instructions@.len(),
    ensures
        b.instructions@[i] matches Instruction::Jump(d) ==> 0 <= i + d <= b.instructions@.len(),
        b.instructions@[i] matches Instruction::JumpIfFalse(d) ==> 0 <= i + d <= b.instructions@.len(),
{
    assert(instruction_wf(b.instructions@[i], i, b.constants@.len(), b.instructions@.len() as int));
}

/// A well-formed builder holds exactly one span per instruction.
pub proof fn one_span_per_instruction(b: &ChunkBuilder)
    requires
        b.wf(),
    ensures
        b.spans@.len() == b.instructions@.len(),
{
}
} // verus!

verus! {

/// A finished, read-only chunk: instructions paired with spans, and a constant pool.
pub struct Chunk {
    instructions: Vec<Instruction>,
    spans: Vec<Span>,
    constants: Vec<Value>,
}

impl ChunkBuilder {
    /// Freezes the builder into a chunk with the same contents.
    pub fn build(self) -> (r: Chunk)
        ensures
            r.code() == self.instructions@,
            r.span_list() == self.spans@,
            r.pool() == self.constants@,
    {
        Chunk { instructions: self.instructions, spans: self.spans, constants: self.constants }
    }
}

impl Chunk {
    pub closed spec fn code(&self) -> Seq<Instruction> {
        self.instructions@
    }

    pub closed spec fn span_list(&self) -> Seq<Span> {
        self.spans@
    }

    pub closed spec fn pool(&self) -> Seq<Value> {
        self.constants@
    }

    /// The chunk can be run: it is non-empty and ends in `Return`, has one span
    /// per instruction, its constants are distinct and in range, and every jump
    /// lands on an instruction.
    pub open spec fn runnable(&self) -> bool {
        &&& 0 < self.code().len() <= isize::MAX
        &&& self.code().last() == Instruction::Return
        &&& self.span_list().len() == self.code().len()
        &&& code_wf(self.code(), self.pool().len(), self.code().len() - 1)
        &&& pool_distinct(self.pool())
    }

    pub fn len(&self) -> (r: usize)
        ensures
            r == self.code().len(),
    {
        self.instructions.len()
    }

    pub fn spans(&self) -> (r: &Vec<Span>)
        ensures
            r@ == self.span_list(),
    {
        &self.spans
    }

    pub fn constants(&self) -> (r: &Vec<Value>)
        ensures
            r@ == self.pool(),
    {
        &self.constants
    }

    pub fn span(&self, index: usize) -> (r: Span)
        requires
            index < self.span_list().len(),
        ensures
            r == self.span_list()[index as int],
    {
        self.spans[index]
    }

    pub fn constant(&self, index: usize) -> (r: Value)
        requires
            index < self.pool().len(),
        ensures
            r == self.pool()[index as int],
    {
        self.constants[index]
    }

    pub fn instruction(&self, index: usize) -> (r: Instruction)
        requires
            index < self.code().len(),
        ensures
            r == self.code()[index as int],
    {
        self.instructions[index]
    }
}

} // verus!
